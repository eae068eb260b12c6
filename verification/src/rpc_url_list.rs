//! The list of endpoints, best first.

use std::time::Duration;

use vstd::prelude::*;

use crate::endpoint::{url_serialization, url_text};
use crate::priority::{lemma_outranks_strict, outranks};
use crate::rpc_url::{RpcUrl, RpcUrlView, Scheme, Transport, serves, unprobed};

verus! {

/// The views of a sequence of endpoints.
pub open spec fn views(v: Seq<RpcUrl>) -> Seq<RpcUrlView> {
    v.map_values(|u: RpcUrl| u@)
}

/// No endpoint is strictly preferred to one that comes before it.
pub open spec fn best_first(s: Seq<RpcUrlView>) -> bool {
    forall|i: int, j: int| 0 <= i < j < s.len() ==> !outranks(#[trigger] s[j], #[trigger] s[i])
}

/// No URL occurs twice.
pub open spec fn distinct_urls(s: Seq<RpcUrlView>) -> bool {
    forall|i: int, j: int| 0 <= i < j < s.len() ==> #[trigger] s[i].url != #[trigger] s[j].url
}

/// What a list of endpoints keeps: best first, each URL once.
pub open spec fn is_priority_queue(s: Seq<RpcUrlView>) -> bool {
    best_first(s) && distinct_urls(s)
}

/// Whether some endpoint of `s` has the URL `url`.
pub open spec fn has_url(s: Seq<RpcUrlView>, url: Seq<char>) -> bool {
    exists|k: int| 0 <= k < s.len() && #[trigger] s[k].url == url
}

/// Whether a scheme is one that the list takes.
pub open spec fn accepts(scheme: Scheme) -> bool {
    scheme != Scheme::Other
}

/// The list takes exactly the endpoints that some transport reaches.
pub proof fn lemma_accepts(scheme: Scheme)
    ensures
        accepts(scheme) <==> (serves(scheme, Transport::Http) || serves(scheme, Transport::Ws)),
        accepts(scheme) <==> scheme != Scheme::Other,
{
}

/// `s` without the endpoints whose URL is `url`, in the same order.
#[verifier::opaque]
pub open spec fn without_url(s: Seq<RpcUrlView>, url: Seq<char>) -> Seq<RpcUrlView>
    decreases s.len(),
{
    if s.len() == 0 {
        Seq::empty()
    } else {
        let rest = without_url(s.drop_last(), url);
        if s.last().url == url {
            rest
        } else {
            rest.push(s.last())
        }
    }
}

/// Where `x` goes in `s`: before the first endpoint that it is strictly
/// preferred to, at the end when there is none.
pub open spec fn rank_position(s: Seq<RpcUrlView>, x: RpcUrlView) -> nat
    decreases s.len(),
{
    if s.len() == 0 {
        0
    } else if outranks(x, s[0]) {
        0
    } else {
        1 + rank_position(s.drop_first(), x)
    }
}

/// `s` with `x` put in its place.
pub open spec fn insert_ranked(s: Seq<RpcUrlView>, x: RpcUrlView) -> Seq<RpcUrlView> {
    s.insert(rank_position(s, x) as int, x)
}

/// The list that a sequence of candidates gives: each candidate in turn is
/// put in its place, unless its scheme is not taken or its URL is already
/// there.
pub open spec fn admitted(s: Seq<RpcUrlView>) -> Seq<RpcUrlView>
    decreases s.len(),
{
    if s.len() == 0 {
        Seq::empty()
    } else {
        let rest = admitted(s.drop_last());
        if accepts(s.last().scheme) && !has_url(rest, s.last().url) {
            insert_ranked(rest, s.last())
        } else {
            rest
        }
    }
}

/// `s` after a probe result for `x.url`: the old entry for that URL is
/// replaced by `x`, in its place.
pub open spec fn updated(s: Seq<RpcUrlView>, x: RpcUrlView) -> Seq<RpcUrlView> {
    insert_ranked(without_url(s, x.url), x)
}

proof fn lemma_without_url_step(s: Seq<RpcUrlView>, url: Seq<char>)
    ensures
        s.len() == 0 ==> without_url(s, url) == Seq::<RpcUrlView>::empty(),
        s.len() > 0 ==> without_url(s, url) == if s.last().url == url {
            without_url(s.drop_last(), url)
        } else {
            without_url(s.drop_last(), url).push(s.last())
        },
{
    reveal_with_fuel(without_url, 1);
}

proof fn lemma_rank_position(s: Seq<RpcUrlView>, x: RpcUrlView)
    ensures
        rank_position(s, x) <= s.len(),
        forall|k: int| 0 <= k < rank_position(s, x) ==> !outranks(x, #[trigger] s[k]),
        rank_position(s, x) < s.len() ==> outranks(x, s[rank_position(s, x) as int]),
    decreases s.len(),
{
    if s.len() > 0 && !outranks(x, s[0]) {
        lemma_rank_position(s.drop_first(), x);
        assert forall|k: int| 0 <= k < rank_position(s, x) implies !outranks(x, #[trigger] s[k]) by {
            if k > 0 {
                assert(s[k] == s.drop_first()[k - 1]);
            }
        }
    }
}

/// What `without_url` keeps and drops.
proof fn lemma_without_url(s: Seq<RpcUrlView>, url: Seq<char>)
    ensures
        without_url(s, url).len() <= s.len(),
        forall|i: int|
            0 <= i < without_url(s, url).len() ==> {
                &&& (#[trigger] without_url(s, url)[i]).url != url
                &&& exists|k: int| 0 <= k < s.len() && s[k] == without_url(s, url)[i]
            },
        forall|k: int|
            0 <= k < s.len() && (#[trigger] s[k]).url != url ==> exists|i: int|
                0 <= i < without_url(s, url).len() && without_url(s, url)[i] == s[k],
        !has_url(without_url(s, url), url),
    decreases s.len(),
{
    lemma_without_url_step(s, url);
    if s.len() > 0 {
        let init = s.drop_last();
        let rest = without_url(init, url);
        lemma_without_url(init, url);
        let w = without_url(s, url);
        lemma_without_url_step(s, url);
        assert forall|i: int| 0 <= i < w.len() implies {
            &&& (#[trigger] w[i]).url != url
            &&& exists|k: int| 0 <= k < s.len() && s[k] == w[i]
        } by {
            if i < rest.len() {
                let k = choose|k: int| 0 <= k < init.len() && init[k] == rest[i];
                assert(s[k] == w[i]);
            } else {
                assert(s[s.len() - 1] == w[i]);
            }
        }
        assert forall|k: int| 0 <= k < s.len() && (#[trigger] s[k]).url != url implies exists|i: int|
            0 <= i < w.len() && w[i] == s[k] by {
            if k < s.len() - 1 {
                assert(init[k] == s[k]);
                let i = choose|i: int| 0 <= i < rest.len() && rest[i] == init[k];
                assert(w[i] == s[k]);
            } else {
                assert(w[w.len() - 1] == s[k]);
            }
        }
    }
}

proof fn lemma_drop_last_keeps_order(s: Seq<RpcUrlView>)
    requires
        is_priority_queue(s),
        s.len() > 0,
    ensures
        is_priority_queue(s.drop_last()),
{
    let init = s.drop_last();
    assert forall|i: int, j: int| 0 <= i < j < init.len() implies !outranks(
        #[trigger] init[j],
        #[trigger] init[i],
    ) by {
        assert(init[i] == s[i] && init[j] == s[j]);
    }
    assert forall|i: int, j: int| 0 <= i < j < init.len() implies #[trigger] init[i].url
        != #[trigger] init[j].url by {
        assert(init[i] == s[i] && init[j] == s[j]);
    }
}

proof fn lemma_push_keeps_order(s: Seq<RpcUrlView>, x: RpcUrlView)
    requires
        is_priority_queue(s),
        forall|i: int| 0 <= i < s.len() ==> !outranks(x, #[trigger] s[i]) && s[i].url != x.url,
    ensures
        is_priority_queue(s.push(x)),
{
    let w = s.push(x);
    assert forall|i: int, j: int| 0 <= i < j < w.len() implies !outranks(
        #[trigger] w[j],
        #[trigger] w[i],
    ) by {
        assert(w[i] == s[i]);
        if j < s.len() {
            assert(w[j] == s[j]);
        }
    }
    assert forall|i: int, j: int| 0 <= i < j < w.len() implies #[trigger] w[i].url
        != #[trigger] w[j].url by {
        assert(w[i] == s[i]);
        if j < s.len() {
            assert(w[j] == s[j]);
        }
    }
}

/// What holds of every endpoint of `s` holds of every endpoint that
/// `without_url` keeps.
proof fn lemma_without_url_all(s: Seq<RpcUrlView>, url: Seq<char>, p: spec_fn(RpcUrlView) -> bool)
    requires
        forall|k: int| 0 <= k < s.len() ==> p(#[trigger] s[k]),
    ensures
        forall|i: int| 0 <= i < without_url(s, url).len() ==> p(#[trigger] without_url(s, url)[i]),
    decreases s.len(),
{
    lemma_without_url_step(s, url);
    if s.len() > 0 {
        let init = s.drop_last();
        assert forall|k: int| 0 <= k < init.len() implies p(#[trigger] init[k]) by {
            assert(init[k] == s[k]);
        }
        lemma_without_url_all(init, url, p);
        let rest = without_url(init, url);
        let w = without_url(s, url);
        assert forall|i: int| 0 <= i < w.len() implies p(#[trigger] w[i]) by {
            if i < rest.len() {
                assert(w[i] == rest[i]);
            } else {
                assert(w[i] == s[s.len() - 1]);
            }
        }
    }
}

/// Dropping the endpoints of one URL keeps a list well formed.
proof fn lemma_without_url_keeps_order(s: Seq<RpcUrlView>, url: Seq<char>)
    requires
        is_priority_queue(s),
    ensures
        is_priority_queue(without_url(s, url)),
    decreases s.len(),
{
    lemma_without_url_step(s, url);
    if s.len() > 0 {
        let init = s.drop_last();
        let rest = without_url(init, url);
        lemma_drop_last_keeps_order(s);
        lemma_without_url_keeps_order(init, url);
        if s.last().url != url {
            let last = s.last();
            let p = |v: RpcUrlView| !outranks(last, v) && v.url != last.url;
            assert forall|k: int| 0 <= k < init.len() implies p(#[trigger] init[k]) by {
                assert(init[k] == s[k]);
                assert(s[s.len() - 1] == last);
            }
            lemma_without_url_all(init, url, p);
            assert forall|i: int| 0 <= i < rest.len() implies !outranks(last, #[trigger] rest[i])
                && rest[i].url != last.url by {
                assert(p(rest[i]));
            }
            lemma_push_keeps_order(rest, s.last());
        }
    }
}

/// Putting an endpoint with a new URL in its place keeps a list well formed.
proof fn lemma_insert_ranked(s: Seq<RpcUrlView>, x: RpcUrlView)
    requires
        is_priority_queue(s),
        !has_url(s, x.url),
    ensures
        is_priority_queue(insert_ranked(s, x)),
        insert_ranked(s, x).len() == s.len() + 1,
        rank_position(s, x) <= s.len(),
        insert_ranked(s, x)[rank_position(s, x) as int] == x,
{
    lemma_rank_position(s, x);
    let p = rank_position(s, x) as int;
    let r = insert_ranked(s, x);
    assert forall|i: int, j: int| 0 <= i < j < r.len() implies !outranks(
        #[trigger] r[j],
        #[trigger] r[i],
    ) by {
        if j < p {
            assert(r[i] == s[i] && r[j] == s[j]);
        } else if j == p {
            assert(r[i] == s[i]);
        } else if i < p {
            assert(r[i] == s[i] && r[j] == s[j - 1]);
        } else if i == p {
            assert(r[j] == s[j - 1]);
            lemma_outranks_strict(s[j - 1], x, s[p]);
            lemma_outranks_strict(x, s[p], s[j - 1]);
            if j - 1 > p {
                assert(!outranks(s[j - 1], s[p]));
            }
        } else {
            assert(r[i] == s[i - 1] && r[j] == s[j - 1]);
        }
    }
    assert forall|i: int, j: int| 0 <= i < j < r.len() implies #[trigger] r[i].url
        != #[trigger] r[j].url by {
        if j < p {
            assert(r[i] == s[i] && r[j] == s[j]);
        } else if j == p {
            assert(r[i] == s[i]);
        } else if i < p {
            assert(r[i] == s[i] && r[j] == s[j - 1]);
        } else if i == p {
            assert(r[j] == s[j - 1]);
        } else {
            assert(r[i] == s[i - 1] && r[j] == s[j - 1]);
        }
    }
}

/// Putting an endpoint in its place keeps every endpoint and adds only it.
proof fn lemma_insert_ranked_members(s: Seq<RpcUrlView>, x: RpcUrlView)
    ensures
        forall|k: int|
            0 <= k < s.len() ==> exists|i: int|
                0 <= i < insert_ranked(s, x).len() && insert_ranked(s, x)[i] == #[trigger] s[k],
        forall|i: int|
            0 <= i < insert_ranked(s, x).len() ==> #[trigger] insert_ranked(s, x)[i] == x
                || exists|k: int| 0 <= k < s.len() && s[k] == insert_ranked(s, x)[i],
{
    lemma_rank_position(s, x);
    let p = rank_position(s, x) as int;
    let r = insert_ranked(s, x);
    assert forall|k: int| 0 <= k < s.len() implies exists|i: int|
        0 <= i < r.len() && r[i] == #[trigger] s[k] by {
        if k < p {
            assert(r[k] == s[k]);
        } else {
            assert(r[k + 1] == s[k]);
        }
    }
    assert forall|i: int| 0 <= i < r.len() implies #[trigger] r[i] == x || exists|k: int|
        0 <= k < s.len() && s[k] == r[i] by {
        if i < p {
            assert(r[i] == s[i]);
        } else if i > p {
            assert(r[i] == s[i - 1]);
        }
    }
}

/// `without_url` leaves no endpoint with that URL.
proof fn lemma_without_url_drops(s: Seq<RpcUrlView>, url: Seq<char>)
    ensures
        !has_url(without_url(s, url), url),
{
    lemma_without_url(s, url);
}

/// The endpoints that serve a transport, best first, with each URL once.
pub struct RpcUrlList {
    urls: Vec<RpcUrl>,
    duration: Duration,
    timeout: Duration,
    buffer_size: usize,
}

impl View for RpcUrlList {
    type V = Seq<RpcUrlView>;

    closed spec fn view(&self) -> Seq<RpcUrlView> {
        views(self.urls@)
    }
}

fn vec_has_url(v: &Vec<RpcUrl>, url: &String) -> (found: bool)
    ensures
        found == has_url(views(v@), url@),
{
    let mut i: usize = 0;
    while i < v.len()
        invariant
            i <= v.len(),
            forall|k: int| 0 <= k < i ==> (#[trigger] views(v@)[k]).url != url@,
        decreases v.len() - i,
    {
        if v[i].has_url(url) {
            assert(views(v@)[i as int] == v@[i as int]@);
            return true;
        }
        i += 1;
    }
    false
}

/// Puts `x` in its place in `v`.
fn insert_ranked_vec(v: &mut Vec<RpcUrl>, x: RpcUrl)
    ensures
        views(final(v)@) == insert_ranked(views(old(v)@), x@),
{
    let ghost s = views(v@);
    let mut p: usize = 0;
    while p < v.len() && !x.outranks(&v[p])
        invariant
            p <= v.len(),
            s == views(v@),
            forall|k: int| 0 <= k < p ==> !outranks(x@, #[trigger] s[k]),
        decreases v.len() - p,
    {
        p += 1;
    }
    proof {
        lemma_rank_position(s, x@);
        let r = rank_position(s, x@) as int;
        if r < p {
            assert(outranks(x@, s[r]));
        }
        if (p as int) < r {
            assert(!outranks(x@, s[p as int]));
        }
    }
    let ghost before = v@;
    v.insert(p, x);
    assert(views(v@) =~= views(before).insert(p as int, x@));
}

/// The endpoints of `v` whose URL is not `url`, in order.
fn without_url_vec(v: &Vec<RpcUrl>, url: &String) -> (kept: Vec<RpcUrl>)
    ensures
        views(kept@) == without_url(views(v@), url@),
{
    let ghost s = views(v@);
    let mut kept: Vec<RpcUrl> = Vec::new();
    let mut i: usize = 0;
    proof {
        lemma_without_url_step(s.take(0), url@);
        assert(views(kept@) =~= Seq::<RpcUrlView>::empty());
    }
    while i < v.len()
        invariant
            i <= v.len(),
            s == views(v@),
            views(kept@) == without_url(s.take(i as int), url@),
        decreases v.len() - i,
    {
        proof {
            lemma_without_url_step(s.take(i + 1), url@);
            assert(s.take(i + 1).drop_last() =~= s.take(i as int));
            assert(s.take(i + 1).last() == v@[i as int]@);
        }
        if !v[i].has_url(url) {
            let ghost before = kept@;
            kept.push(v[i].clone());
            assert(views(kept@) =~= views(before).push(v@[i as int]@));
        }
        i += 1;
    }
    assert(s.take(v.len() as int) =~= s);
    kept
}

/// Every list that `admitted` gives is well formed, and takes only
/// endpoints whose scheme names a transport.
pub proof fn lemma_admitted(s: Seq<RpcUrlView>)
    ensures
        is_priority_queue(admitted(s)),
        forall|i: int| 0 <= i < admitted(s).len() ==> accepts(#[trigger] admitted(s)[i].scheme),
    decreases s.len(),
{
    if s.len() > 0 {
        let rest = admitted(s.drop_last());
        lemma_admitted(s.drop_last());
        if accepts(s.last().scheme) && !has_url(rest, s.last().url) {
            lemma_insert_ranked(rest, s.last());
            lemma_insert_ranked_members(rest, s.last());
            let r = admitted(s);
            assert forall|i: int| 0 <= i < r.len() implies accepts(#[trigger] r[i].scheme) by {
                if r[i] != s.last() {
                    let k = choose|k: int| 0 <= k < rest.len() && rest[k] == r[i];
                    assert(accepts(rest[k].scheme));
                }
            }
        }
    }
}

/// The entry of `s` for `url`, if any (the last one, should there be more).
pub open spec fn entry_for(s: Seq<RpcUrlView>, url: Seq<char>) -> Option<RpcUrlView>
    decreases s.len(),
{
    if s.len() == 0 {
        None
    } else if s.last().url == url {
        Some(s.last())
    } else {
        entry_for(s.drop_last(), url)
    }
}

proof fn lemma_entry_for_without_url(s: Seq<RpcUrlView>, url: Seq<char>, u: Seq<char>)
    ensures
        entry_for(without_url(s, url), u) == if u == url {
            None
        } else {
            entry_for(s, u)
        },
    decreases s.len(),
{
    lemma_without_url_step(s, url);
    if s.len() > 0 {
        lemma_entry_for_without_url(s.drop_last(), url, u);
        let rest = without_url(s.drop_last(), url);
        if s.last().url != url {
            assert(rest.push(s.last()).drop_last() =~= rest);
        }
    }
}

proof fn lemma_entry_for_distinct(s: Seq<RpcUrlView>, u: Seq<char>)
    requires
        distinct_urls(s),
    ensures
        forall|i: int| 0 <= i < s.len() && (#[trigger] s[i]).url == u ==> entry_for(s, u) == Some(s[i]),
        !has_url(s, u) ==> entry_for(s, u) is None,
    decreases s.len(),
{
    if s.len() > 0 {
        let init = s.drop_last();
        assert forall|i: int, j: int| 0 <= i < j < init.len() implies #[trigger] init[i].url
            != #[trigger] init[j].url by {
            assert(init[i] == s[i] && init[j] == s[j]);
        }
        lemma_entry_for_distinct(init, u);
        assert forall|i: int| 0 <= i < s.len() && (#[trigger] s[i]).url == u implies entry_for(s, u)
            == Some(s[i]) by {
            if i < s.len() - 1 {
                assert(init[i] == s[i]);
                assert(s[i].url != s[s.len() - 1].url);
            }
        }
        if !has_url(s, u) {
            assert(s[s.len() - 1].url != u);
            assert forall|k: int| 0 <= k < init.len() implies #[trigger] init[k].url != u by {
                assert(init[k] == s[k]);
            }
        }
    }
}

proof fn lemma_entry_for_member(s: Seq<RpcUrlView>, u: Seq<char>)
    ensures
        entry_for(s, u) matches Some(v) ==> v.url == u && exists|i: int| 0 <= i < s.len() && s[i] == v,
    decreases s.len(),
{
    if s.len() > 0 {
        lemma_entry_for_member(s.drop_last(), u);
        if s.last().url != u {
            if let Some(v) = entry_for(s.drop_last(), u) {
                let i = choose|i: int| 0 <= i < s.drop_last().len() && s.drop_last()[i] == v;
                assert(s[i] == v);
            }
        } else {
            assert(s[s.len() - 1] == s.last());
        }
    }
}

/// Recording a probe result keeps a list well formed, and reads back: the
/// entry for the result's URL is the result, and the entry for every other
/// URL is what it was.
pub proof fn lemma_updated(s: Seq<RpcUrlView>, x: RpcUrlView)
    requires
        is_priority_queue(s),
    ensures
        is_priority_queue(updated(s, x)),
        forall|u: Seq<char>| #[trigger]
            entry_for(updated(s, x), u) == if u == x.url {
                Some(x)
            } else {
                entry_for(s, u)
            },
{
    let w = without_url(s, x.url);
    lemma_without_url_keeps_order(s, x.url);
    lemma_without_url_drops(s, x.url);
    lemma_insert_ranked(w, x);
    let r = updated(s, x);
    let p = rank_position(w, x) as int;
    assert forall|u: Seq<char>| #[trigger]
        entry_for(r, u) == if u == x.url {
            Some(x)
        } else {
            entry_for(s, u)
        } by {
        lemma_entry_for_distinct(r, u);
        lemma_entry_for_distinct(w, u);
        lemma_entry_for_without_url(s, x.url, u);
        if u == x.url {
            assert(r[p].url == u);
        } else if has_url(w, u) {
            let j = choose|j: int| 0 <= j < w.len() && #[trigger] w[j].url == u;
            if j < p {
                assert(r[j] == w[j]);
            } else {
                assert(r[j + 1] == w[j]);
            }
        } else {
            assert forall|i: int| 0 <= i < r.len() implies #[trigger] r[i].url != u by {
                if i < p {
                    assert(r[i] == w[i]);
                } else if i > p {
                    assert(r[i] == w[i - 1]);
                }
            }
        }
    }
}

proof fn lemma_has_url_insert_ranked(s: Seq<RpcUrlView>, x: RpcUrlView, u: Seq<char>)
    ensures
        has_url(insert_ranked(s, x), u) <==> (has_url(s, u) || u == x.url),
{
    lemma_rank_position(s, x);
    let p = rank_position(s, x) as int;
    let r = insert_ranked(s, x);
    if has_url(r, u) {
        let i = choose|i: int| 0 <= i < r.len() && #[trigger] r[i].url == u;
        if i < p {
            assert(r[i] == s[i]);
        } else if i > p {
            assert(r[i] == s[i - 1]);
        }
    }
    if u == x.url {
        assert(r[p].url == u);
    } else if has_url(s, u) {
        let k = choose|k: int| 0 <= k < s.len() && #[trigger] s[k].url == u;
        if k < p {
            assert(r[k] == s[k]);
        } else {
            assert(r[k + 1] == s[k]);
        }
    }
}

/// The list built from candidates holds exactly the URLs of the candidates
/// whose scheme it takes (each once, by `lemma_admitted`).
pub proof fn lemma_admitted_urls(s: Seq<RpcUrlView>)
    ensures
        forall|u: Seq<char>| #[trigger]
            has_url(admitted(s), u) <==> exists|k: int|
                0 <= k < s.len() && (#[trigger] s[k]).url == u && accepts(s[k].scheme),
    decreases s.len(),
{
    if s.len() > 0 {
        let init = s.drop_last();
        let rest = admitted(init);
        let x = s.last();
        lemma_admitted_urls(init);
        assert forall|u: Seq<char>| #[trigger]
            has_url(admitted(s), u) <==> exists|k: int|
                0 <= k < s.len() && (#[trigger] s[k]).url == u && accepts(s[k].scheme) by {
            lemma_has_url_insert_ranked(rest, x, u);
            assert(s[s.len() - 1] == x);
            if exists|k: int| 0 <= k < init.len() && (#[trigger] init[k]).url == u && accepts(
                init[k].scheme,
            ) {
                let k = choose|k: int|
                    0 <= k < init.len() && (#[trigger] init[k]).url == u && accepts(init[k].scheme);
                assert(s[k] == init[k]);
            }
            if exists|k: int| 0 <= k < s.len() && (#[trigger] s[k]).url == u && accepts(s[k].scheme) {
                let k = choose|k: int| 0 <= k < s.len() && (#[trigger] s[k]).url == u && accepts(
                    s[k].scheme,
                );
                if k < s.len() - 1 {
                    assert(init[k] == s[k]);
                }
            }
        }
    }
}

proof fn lemma_without_url_len(s: Seq<RpcUrlView>, url: Seq<char>)
    requires
        distinct_urls(s),
    ensures
        without_url(s, url).len() == if has_url(s, url) {
            s.len() - 1
        } else {
            s.len() as int
        },
    decreases s.len(),
{
    lemma_without_url_step(s, url);
    if s.len() > 0 {
        let init = s.drop_last();
        assert forall|i: int, j: int| 0 <= i < j < init.len() implies #[trigger] init[i].url
            != #[trigger] init[j].url by {
            assert(init[i] == s[i] && init[j] == s[j]);
        }
        lemma_without_url_len(init, url);
        assert(s[s.len() - 1] == s.last());
        if has_url(init, url) {
            let k = choose|k: int| 0 <= k < init.len() && #[trigger] init[k].url == url;
            assert(s[k] == init[k]);
        }
        if has_url(s, url) {
            let k = choose|k: int| 0 <= k < s.len() && #[trigger] s[k].url == url;
            if k < s.len() - 1 {
                assert(init[k] == s[k]);
            }
        }
        if s.last().url == url && has_url(init, url) {
            let k = choose|k: int| 0 <= k < init.len() && #[trigger] init[k].url == url;
            assert(s[k].url == s[s.len() - 1].url);
        }
    }
}

/// A probe result for an endpoint that the list holds changes neither the
/// list's length nor the URLs it holds: a round of probes over the list
/// adds, loses and duplicates no URL.
pub proof fn lemma_probe_round_keeps_urls(s: Seq<RpcUrlView>, x: RpcUrlView)
    requires
        is_priority_queue(s),
        has_url(s, x.url),
    ensures
        updated(s, x).len() == s.len(),
        forall|u: Seq<char>| #[trigger] has_url(updated(s, x), u) <==> has_url(s, u),
{
    lemma_without_url_len(s, x.url);
    lemma_without_url_keeps_order(s, x.url);
    lemma_without_url_drops(s, x.url);
    lemma_insert_ranked(without_url(s, x.url), x);
    lemma_updated(s, x);
    assert forall|u: Seq<char>| #[trigger] has_url(updated(s, x), u) <==> has_url(s, u) by {
        lemma_entry_for_distinct(s, u);
        lemma_entry_for_distinct(updated(s, x), u);
        lemma_entry_for_member(s, u);
        lemma_entry_for_member(updated(s, x), u);
        if has_url(updated(s, x), u) {
            let i = choose|i: int| 0 <= i < updated(s, x).len() && #[trigger] updated(s, x)[i].url == u;
            assert(updated(s, x)[i].url == u);
        }
        if has_url(s, u) {
            let k = choose|k: int| 0 <= k < s.len() && #[trigger] s[k].url == u;
            assert(s[k].url == u);
        }
    }
}

impl RpcUrlList {
    #[verifier::type_invariant]
    spec fn well_formed(self) -> bool {
        is_priority_queue(views(self.urls@))
    }

    /// How often the endpoints are probed.
    pub closed spec fn interval(&self) -> Duration {
        self.duration
    }

    /// How long a probe may take.
    pub closed spec fn time_limit(&self) -> Duration {
        self.timeout
    }

    /// How many probe results one round of probes can bring.
    pub closed spec fn capacity(&self) -> usize {
        self.buffer_size
    }

    /// The list built from `candidates` in turn: a candidate goes in its
    /// place unless its scheme names no transport or its URL is already in.
    pub fn from_rpc_urls(candidates: Vec<RpcUrl>, duration: Duration, timeout: Duration) -> (list:
        RpcUrlList)
        ensures
            list@ == admitted(views(candidates@)),
            is_priority_queue(list@),
            forall|i: int| 0 <= i < list@.len() ==> accepts(#[trigger] list@[i].scheme),
            list.interval() == duration,
            list.time_limit() == timeout,
            list.capacity() == list@.len(),
    {
        let ghost s = views(candidates@);
        let mut urls: Vec<RpcUrl> = Vec::new();
        let mut i: usize = 0;
        proof {
            assert(s.take(0) =~= Seq::<RpcUrlView>::empty());
            assert(views(urls@) =~= Seq::<RpcUrlView>::empty());
        }
        while i < candidates.len()
            invariant
                i <= candidates.len(),
                s == views(candidates@),
                views(urls@) == admitted(s.take(i as int)),
            decreases candidates.len() - i,
        {
            let candidate = &candidates[i];
            proof {
                lemma_admitted(s.take(i as int));
                assert(s.take(i + 1).drop_last() =~= s.take(i as int));
                assert(s.take(i + 1).last() == candidate@);
            }
            let url = candidate.url_string();
            if candidate.scheme() != Scheme::Other && !vec_has_url(&urls, &url) {
                insert_ranked_vec(&mut urls, candidate.clone());
            }
            i += 1;
        }
        proof {
            assert(s.take(candidates.len() as int) =~= s);
            lemma_admitted(s);
        }
        let buffer_size = urls.len();
        RpcUrlList { urls, duration, timeout, buffer_size }
    }

    /// The list of the endpoints in `urls` whose scheme is `http`, `https`,
    /// `ws` or `wss`, each URL once, none of them probed yet.
    pub fn new(urls: Vec<url::Url>, duration: Duration, timeout: Duration) -> (list: RpcUrlList)
        ensures
            list@ == admitted(urls@.map_values(|u: url::Url| unprobed(u))),
            is_priority_queue(list@),
            list@.len() <= urls.len(),
            forall|i: int|
                0 <= i < list@.len() ==> {
                    &&& accepts(#[trigger] list@[i].scheme)
                    &&& list@[i].height is None
                    &&& list@[i].latency is None
                    &&& list@[i].request_time is None
                    &&& list@[i].request_status is None
                },
            list.interval() == duration,
            list.time_limit() == timeout,
            list.capacity() == list@.len(),
    {
        let mut candidates: Vec<RpcUrl> = Vec::new();
        let mut i: usize = 0;
        while i < urls.len()
            invariant
                i <= urls.len(),
                candidates@.len() == i,
                forall|k: int| 0 <= k < i ==> (#[trigger] candidates@[k])@ == unprobed(urls@[k]),
            decreases urls.len() - i,
        {
            candidates.push(RpcUrl::new(&urls[i]));
            i += 1;
        }
        let ghost s = views(candidates@);
        assert(s =~= urls@.map_values(|u: url::Url| unprobed(u)));
        let list = RpcUrlList::from_rpc_urls(candidates, duration, timeout);
        proof {
            lemma_admitted_unprobed(s);
        }
        list
    }

    /// The best endpoint reached over plain requests.
    pub fn rpc_url(&self) -> (found: Option<RpcUrl>)
        ensures
            found_first_serving(self@, Transport::Http, found),
    {
        self.find_rpc_url(Transport::Http)
    }

    /// The best endpoint reached over a websocket.
    pub fn ws_url(&self) -> (found: Option<RpcUrl>)
        ensures
            found_first_serving(self@, Transport::Ws, found),
    {
        self.find_rpc_url(Transport::Ws)
    }

    fn find_rpc_url(&self, transport: Transport) -> (found: Option<RpcUrl>)
        ensures
            found_first_serving(self@, transport, found),
    {
        proof {
            use_type_invariant(self);
        }
        let mut i: usize = 0;
        while i < self.urls.len()
            invariant
                i <= self.urls.len(),
                is_priority_queue(self@),
                forall|k: int| 0 <= k < i ==> !serves((#[trigger] self@[k]).scheme, transport),
            decreases self.urls.len() - i,
        {
            let candidate = &self.urls[i];
            let serving = match (candidate.probe_transport(), transport) {
                (Some(Transport::Http), Transport::Http) => true,
                (Some(Transport::Ws), Transport::Ws) => true,
                _ => false,
            };
            assert(self@[i as int] == candidate@);
            if serving {
                let found = candidate.clone();
                assert forall|j: int|
                    0 <= j < self@.len() && serves(self@[j].scheme, transport) implies !outranks(
                    #[trigger] self@[j],
                    found@,
                ) by {
                    if j > i {
                        assert(!outranks(self@[j], self@[i as int]));
                    } else if j == i {
                        lemma_outranks_strict(found@, found@, found@);
                    }
                }
                return Some(found);
            }
            i += 1;
        }
        None
    }

    /// The endpoint for `url`, if the list has one.
    pub fn get_url(&self, url: url::Url) -> (found: Option<RpcUrl>)
        ensures
            match found {
                Some(u) => entry_for(self@, url_text(url)) == Some(u@),
                None => entry_for(self@, url_text(url)) is None,
            },
            found matches Some(u) ==> exists|i: int| 0 <= i < self@.len() && self@[i] == u@,
    {
        proof {
            use_type_invariant(self);
        }
        let text = url_serialization(&url);
        let found = self.find_by_url(text.as_str());
        proof {
            lemma_entry_for_member(self@, text@);
        }
        found
    }

    /// The endpoint whose URL serializes to `url`, if the list has one.
    pub fn find_by_url(&self, url: &str) -> (found: Option<RpcUrl>)
        ensures
            match found {
                Some(u) => entry_for(self@, url@) == Some(u@),
                None => entry_for(self@, url@) is None,
            },
    {
        proof {
            use_type_invariant(self);
            lemma_entry_for_distinct(self@, url@);
        }
        let wanted = url.to_owned();
        let mut i: usize = 0;
        while i < self.urls.len()
            invariant
                i <= self.urls.len(),
                wanted@ == url@,
                forall|k: int| 0 <= k < i ==> (#[trigger] self@[k]).url != url@,
                forall|i: int| 0 <= i < self@.len() && (#[trigger] self@[i]).url == url@ ==> entry_for(self@, url@) == Some(self@[i]),
                !has_url(self@, url@) ==> entry_for(self@, url@) is None,
            decreases self.urls.len() - i,
        {
            assert(self@[i as int] == self.urls@[i as int]@);
            if self.urls[i].has_url(&wanted) {
                let found = self.urls[i].clone();
                assert(self@[i as int].url == url@);
                assert(self@[i as int] == found@);
                return Some(found);
            }
            i += 1;
        }
        None
    }

    /// Copies of all the endpoints, best first.
    pub fn all_rpc_urls(&self) -> (all: Vec<RpcUrl>)
        ensures
            views(all@) == self@,
    {
        let mut all: Vec<RpcUrl> = Vec::new();
        let mut i: usize = 0;
        while i < self.urls.len()
            invariant
                i <= self.urls.len(),
                views(all@) == self@.take(i as int),
            decreases self.urls.len() - i,
        {
            let copy = self.urls[i].clone();
            assert(copy@ == self@[i as int]);
            let ghost before = all@;
            all.push(copy);
            assert(views(all@) =~= views(before).push(copy@));
            assert(views(all@) =~= self@.take(i + 1));
            i += 1;
        }
        assert(self@.take(self.urls.len() as int) =~= self@);
        all
    }

    /// Records the result of a probe: the entry for `rpc_url`'s URL is
    /// replaced by `rpc_url`, in its place.
    pub fn update(&mut self, rpc_url: RpcUrl)
        ensures
            final(self)@ == updated(old(self)@, rpc_url@),
            is_priority_queue(final(self)@),
            final(self).interval() == old(self).interval(),
            final(self).time_limit() == old(self).time_limit(),
            final(self).capacity() == old(self).capacity(),
    {
        proof {
            use_type_invariant(&*self);
        }
        let url = rpc_url.url_string();
        let mut kept = without_url_vec(&self.urls, &url);
        proof {
            lemma_without_url_keeps_order(self@, url@);
            lemma_without_url_drops(self@, url@);
            lemma_insert_ranked(views(kept@), rpc_url@);
        }
        insert_ranked_vec(&mut kept, rpc_url);
        self.urls = kept;
    }

    /// Every list is best first and holds each URL once; a caller learns
    /// it of any list by calling this.
    pub fn prove_well_formed(&self)
        ensures
            is_priority_queue(self@),
    {
        proof {
            use_type_invariant(self);
        }
    }

    /// How often the endpoints are probed.
    pub fn duration(&self) -> (duration: Duration)
        ensures
            duration == self.interval(),
    {
        self.duration
    }

    /// How long a probe may take.
    pub fn timeout(&self) -> (timeout: Duration)
        ensures
            timeout == self.time_limit(),
    {
        self.timeout
    }

    /// How many probe results one round of probes can bring.
    pub fn buffer_size(&self) -> (size: usize)
        ensures
            size == self.capacity(),
    {
        self.buffer_size
    }

    /// The number of endpoints.
    pub fn len(&self) -> (n: usize)
        ensures
            n == self@.len(),
    {
        self.urls.len()
    }
}

/// `found` is the first endpoint of `s` reached over `transport`, or `None`
/// when there is none; and no endpoint reached over `transport` is preferred
/// to it.
pub open spec fn found_first_serving(s: Seq<RpcUrlView>, transport: Transport, found: Option<RpcUrl>) -> bool {
    match found {
        Some(u) => {
            &&& serves(u@.scheme, transport)
            &&& exists|i: int|
                0 <= i < s.len() && s[i] == u@ && forall|j: int|
                    0 <= j < i ==> !serves((#[trigger] s[j]).scheme, transport)
            &&& forall|j: int|
                0 <= j < s.len() && serves(s[j].scheme, transport) ==> !outranks(#[trigger] s[j], u@)
        },
        None => forall|j: int| 0 <= j < s.len() ==> !serves((#[trigger] s[j]).scheme, transport),
    }
}

/// Candidates that have not been probed give a list of endpoints that have
/// not been probed.
proof fn lemma_admitted_unprobed(s: Seq<RpcUrlView>)
    requires
        forall|k: int|
            0 <= k < s.len() ==> {
                &&& (#[trigger] s[k]).height is None
                &&& s[k].latency is None
                &&& s[k].request_time is None
                &&& s[k].request_status is None
            },
    ensures
        admitted(s).len() <= s.len(),
        forall|i: int|
            0 <= i < admitted(s).len() ==> {
                &&& (#[trigger] admitted(s)[i]).height is None
                &&& admitted(s)[i].latency is None
                &&& admitted(s)[i].request_time is None
                &&& admitted(s)[i].request_status is None
            },
    decreases s.len(),
{
    if s.len() > 0 {
        let init = s.drop_last();
        assert forall|k: int| 0 <= k < init.len() implies {
            &&& (#[trigger] init[k]).height is None
            &&& init[k].latency is None
            &&& init[k].request_time is None
            &&& init[k].request_status is None
        } by {
            assert(init[k] == s[k]);
        }
        lemma_admitted_unprobed(init);
        let rest = admitted(init);
        lemma_admitted(init);
        lemma_rank_position(rest, s.last());
        if accepts(s.last().scheme) && !has_url(rest, s.last().url) {
            lemma_insert_ranked_members(rest, s.last());
            let r = admitted(s);
            assert(s[s.len() - 1] == s.last());
            assert forall|i: int| 0 <= i < r.len() implies {
                &&& (#[trigger] r[i]).height is None
                &&& r[i].latency is None
                &&& r[i].request_time is None
                &&& r[i].request_status is None
            } by {
                if r[i] != s.last() {
                    let k = choose|k: int| 0 <= k < rest.len() && rest[k] == r[i];
                    assert(rest[k] == r[i]);
                }
            }
        }
    }
}

} // verus!
