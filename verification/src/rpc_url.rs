//! One RPC endpoint and what the last probe of it found.

use vstd::prelude::*;

use crate::endpoint::{url_scheme, url_scheme_text, url_serialization, url_text};

verus! {

/// How the last request to an endpoint ended.
#[derive(Clone, Copy, Debug, PartialEq, Eq, Structural)]
pub enum RequestStatus {
    Success,
    Failure,
    Timeout,
    Unknown,
}

/// The URL schemes that the library tells apart.
#[derive(Clone, Copy, Debug, PartialEq, Eq, Structural)]
pub enum Scheme {
    Http,
    Https,
    Ws,
    Wss,
    Other,
}

/// The two ways of talking to a node.
#[derive(Clone, Copy, Debug, PartialEq, Eq, Structural)]
pub enum Transport {
    /// Plain JSON-RPC requests, over `http` or `https`.
    Http,
    /// A websocket connection, over `ws` or `wss`.
    Ws,
}

/// What a probe of an endpoint came back with.
#[derive(Clone, Copy, Debug, PartialEq, Eq, Structural)]
pub enum ProbeOutcome {
    /// The node answered the block-number request within the time limit:
    /// `height` is the block number it reported, `None` when the request
    /// failed; `latency_nanos` is how long the request took.
    Answered { height: Option<u64>, latency_nanos: u128 },
    /// The websocket connection could not be opened; such a probe reports
    /// nothing.
    ConnectFailed,
    /// The probe did not finish within the time limit.
    TimedOut,
    /// The endpoint was not probed, because its scheme names no transport.
    Skipped,
}

/// An RPC endpoint: its URL, its scheme, and the results of the last probe.
pub struct RpcUrl {
    url: String,
    scheme: Scheme,
    height: Option<u64>,
    latency_nanos: Option<u128>,
    request_time: Option<u64>,
    request_status: Option<RequestStatus>,
}

/// The mathematical value of an [`RpcUrl`].
#[verifier::ext_equal]
pub struct RpcUrlView {
    pub url: Seq<char>,
    pub scheme: Scheme,
    pub height: Option<u64>,
    pub latency: Option<u128>,
    pub request_time: Option<u64>,
    pub request_status: Option<RequestStatus>,
}

impl View for RpcUrl {
    type V = RpcUrlView;

    closed spec fn view(&self) -> RpcUrlView {
        RpcUrlView {
            url: self.url@,
            scheme: self.scheme,
            height: self.height,
            latency: self.latency_nanos,
            request_time: self.request_time,
            request_status: self.request_status,
        }
    }
}

/// The fields of an [`RpcUrl`] with the blanks filled in, as a report shows
/// them: a missing height, latency or request time reads 0, a missing status
/// reads `Unknown`.
pub struct RpcUrlReport {
    pub url: String,
    pub height: u64,
    pub latency_nanos: u128,
    pub request_time: u64,
    pub request_status: RequestStatus,
}

/// The scheme named by the text of a URL's scheme.
pub open spec fn scheme_of(text: Seq<char>) -> Scheme {
    if text == seq!['h', 't', 't', 'p'] {
        Scheme::Http
    } else if text == seq!['h', 't', 't', 'p', 's'] {
        Scheme::Https
    } else if text == seq!['w', 's'] {
        Scheme::Ws
    } else if text == seq!['w', 's', 's'] {
        Scheme::Wss
    } else {
        Scheme::Other
    }
}

/// Whether an endpoint with this scheme is reached over this transport.
pub open spec fn serves(scheme: Scheme, transport: Transport) -> bool {
    match transport {
        Transport::Http => scheme == Scheme::Http || scheme == Scheme::Https,
        Transport::Ws => scheme == Scheme::Ws || scheme == Scheme::Wss,
    }
}

/// The endpoint as a probe that ended at `now` leaves it, or `None` when the
/// probe reports nothing and the endpoint keeps its last state.
pub open spec fn checked(old: RpcUrlView, outcome: ProbeOutcome, now: u64) -> Option<RpcUrlView> {
    match outcome {
        ProbeOutcome::Answered { height, latency_nanos } => Some(
            RpcUrlView {
                height: height,
                latency: Some(latency_nanos),
                request_time: Some(now),
                request_status: Some(
                    if height is Some {
                        RequestStatus::Success
                    } else {
                        RequestStatus::Failure
                    },
                ),
                ..old
            },
        ),
        ProbeOutcome::ConnectFailed => None,
        ProbeOutcome::TimedOut => Some(
            RpcUrlView {
                latency: None,
                request_time: Some(now),
                request_status: Some(RequestStatus::Timeout),
                ..old
            },
        ),
        ProbeOutcome::Skipped => Some(
            RpcUrlView {
                height: None,
                latency: Some(0),
                request_time: Some(now),
                request_status: Some(RequestStatus::Failure),
                ..old
            },
        ),
    }
}

/// An endpoint for `url` that has not been probed yet.
pub open spec fn unprobed(url: url::Url) -> RpcUrlView {
    RpcUrlView {
        url: url_text(url),
        scheme: scheme_of(url_scheme_text(url)),
        height: None,
        latency: None,
        request_time: None,
        request_status: None,
    }
}

/// The four web schemes are named by their lower-case text, and every other
/// text names no transport.
pub proof fn lemma_scheme_of(text: Seq<char>)
    ensures
        scheme_of(seq!['h', 't', 't', 'p']) == Scheme::Http,
        scheme_of(seq!['h', 't', 't', 'p', 's']) == Scheme::Https,
        scheme_of(seq!['w', 's']) == Scheme::Ws,
        scheme_of(seq!['w', 's', 's']) == Scheme::Wss,
        text != seq!['h', 't', 't', 'p'] && text != seq!['h', 't', 't', 'p', 's'] && text != seq![
            'w',
            's',
        ] && text != seq!['w', 's', 's'] ==> scheme_of(text) == Scheme::Other,
{
    assert(seq!['h', 't', 't', 'p', 's'].len() != seq!['h', 't', 't', 'p'].len());
    assert(seq!['w', 's', 's'].len() != seq!['h', 't', 't', 'p'].len());
    assert(seq!['w', 's', 's'].len() != seq!['h', 't', 't', 'p', 's'].len());
    assert(seq!['w', 's', 's'].len() != seq!['w', 's'].len());
}

/// Plain requests go only to `http` and `https` endpoints, websockets only
/// to `ws` and `wss` endpoints, and no scheme serves both.
pub proof fn lemma_serves(scheme: Scheme)
    ensures
        serves(scheme, Transport::Http) <==> (scheme == Scheme::Http || scheme == Scheme::Https),
        serves(scheme, Transport::Ws) <==> (scheme == Scheme::Ws || scheme == Scheme::Wss),
        !(serves(scheme, Transport::Http) && serves(scheme, Transport::Ws)),
        scheme == Scheme::Other ==> !serves(scheme, Transport::Http) && !serves(
            scheme,
            Transport::Ws,
        ),
{
}

/// An endpoint made for a URL carries that URL's serialization and scheme,
/// and no probe result at all.
pub proof fn lemma_unprobed(url: url::Url)
    ensures
        unprobed(url).url == url_text(url),
        unprobed(url).scheme == scheme_of(url_scheme_text(url)),
        unprobed(url).height is None,
        unprobed(url).latency is None,
        unprobed(url).request_time is None,
        unprobed(url).request_status is None,
{
}

/// An answered probe, whatever the endpoint's previous state, leaves it at
/// exactly the height the node reported (none when the request failed), the
/// latency just measured and the probe's time; its status is `Success` when a
/// height came and `Failure` when none did. The URL and scheme stay.
pub proof fn lemma_answered_probe(old: RpcUrlView, height: Option<u64>, latency_nanos: u128, now: u64)
    ensures
        checked(old, ProbeOutcome::Answered { height, latency_nanos }, now) is Some,
        ({
            let v = checked(old, ProbeOutcome::Answered { height, latency_nanos }, now).unwrap();
            &&& v.url == old.url
            &&& v.scheme == old.scheme
            &&& v.height == height
            &&& v.latency == Some(latency_nanos)
            &&& v.request_time == Some(now)
            &&& height is Some ==> v.request_status == Some(RequestStatus::Success)
            &&& height is None ==> v.request_status == Some(RequestStatus::Failure)
        }),
{
}

/// A probe that timed out, whatever the endpoint's previous state, keeps the
/// last known height, forgets the latency, records the probe's time and sets
/// the status to `Timeout`. The URL and scheme stay.
pub proof fn lemma_timed_out_probe(old: RpcUrlView, now: u64)
    ensures
        checked(old, ProbeOutcome::TimedOut, now) is Some,
        ({
            let v = checked(old, ProbeOutcome::TimedOut, now).unwrap();
            &&& v.url == old.url
            &&& v.scheme == old.scheme
            &&& v.height == old.height
            &&& v.latency is None
            &&& v.request_time == Some(now)
            &&& v.request_status == Some(RequestStatus::Timeout)
        }),
{
}

/// An endpoint that was not probed because its scheme names no transport
/// is recorded as failed, with no height, zero latency and the probe's time.
/// A websocket that could not be opened reports nothing.
pub proof fn lemma_unanswered_probes(old: RpcUrlView, now: u64)
    ensures
        checked(old, ProbeOutcome::ConnectFailed, now) is None,
        checked(old, ProbeOutcome::Skipped, now) is Some,
        ({
            let v = checked(old, ProbeOutcome::Skipped, now).unwrap();
            &&& v.url == old.url
            &&& v.scheme == old.scheme
            &&& v.height is None
            &&& v.latency == Some(0u128)
            &&& v.request_time == Some(now)
            &&& v.request_status == Some(RequestStatus::Failure)
        }),
{
}

fn text_is(text: &String, literal: &str) -> (same: bool)
    ensures
        same == (text@ == literal@),
{
    let owned = literal.to_owned();
    *text == owned
}

/// Classifies the text of a URL's scheme.
fn classify_scheme(text: &String) -> (scheme: Scheme)
    ensures
        scheme == scheme_of(text@),
{
    proof {
        reveal_strlit("http");
        reveal_strlit("https");
        reveal_strlit("ws");
        reveal_strlit("wss");
        assert("http"@ =~= seq!['h', 't', 't', 'p']);
        assert("https"@ =~= seq!['h', 't', 't', 'p', 's']);
        assert("ws"@ =~= seq!['w', 's']);
        assert("wss"@ =~= seq!['w', 's', 's']);
    }
    if text_is(text, "http") {
        Scheme::Http
    } else if text_is(text, "https") {
        Scheme::Https
    } else if text_is(text, "ws") {
        Scheme::Ws
    } else if text_is(text, "wss") {
        Scheme::Wss
    } else {
        Scheme::Other
    }
}

impl Clone for RpcUrl {
    fn clone(&self) -> (copy: Self)
        ensures
            copy@ == self@,
    {
        RpcUrl {
            url: self.url.clone(),
            scheme: self.scheme,
            height: self.height,
            latency_nanos: self.latency_nanos,
            request_time: self.request_time,
            request_status: self.request_status,
        }
    }
}

impl RpcUrl {
    /// An endpoint that has not been probed yet, from the serialization of
    /// its URL and the text of the URL's scheme.
    pub fn from_parts(url: String, scheme: String) -> (rpc_url: RpcUrl)
        ensures
            rpc_url@ == (RpcUrlView {
                url: url@,
                scheme: scheme_of(scheme@),
                height: None,
                latency: None,
                request_time: None,
                request_status: None,
            }),
    {
        let scheme = classify_scheme(&scheme);
        RpcUrl {
            url,
            scheme,
            height: None,
            latency_nanos: None,
            request_time: None,
            request_status: None,
        }
    }

    /// An endpoint that has not been probed yet, for `url`.
    pub(crate) fn new(url: &url::Url) -> (rpc_url: RpcUrl)
        ensures
            rpc_url@ == unprobed(*url),
    {
        RpcUrl::from_parts(url_serialization(url), url_scheme(url))
    }

    /// The serialization of the endpoint's URL.
    pub fn url(&self) -> (url: &str)
        ensures
            url@ == self@.url,
    {
        self.url.as_str()
    }

    /// Whether the endpoint's URL serializes to `url`.
    pub fn has_url(&self, url: &String) -> (same: bool)
        ensures
            same == (self@.url == url@),
    {
        self.url == *url
    }

    /// A copy of the serialization of the endpoint's URL.
    pub fn url_string(&self) -> (url: String)
        ensures
            url@ == self@.url,
    {
        self.url.clone()
    }

    pub fn scheme(&self) -> (scheme: Scheme)
        ensures
            scheme == self@.scheme,
    {
        self.scheme
    }

    /// The block number that the last answered probe reported.
    pub fn height(&self) -> (height: Option<u64>)
        ensures
            height == self@.height,
    {
        self.height
    }

    /// How long the last answered probe took, in nanoseconds.
    pub fn latency_nanos(&self) -> (latency: Option<u128>)
        ensures
            latency == self@.latency,
    {
        self.latency_nanos
    }

    /// When the last probe ended, in seconds since the Unix epoch.
    pub fn request_time(&self) -> (time: Option<u64>)
        ensures
            time == self@.request_time,
    {
        self.request_time
    }

    pub fn request_status(&self) -> (status: Option<RequestStatus>)
        ensures
            status == self@.request_status,
    {
        self.request_status
    }

    /// The transport over which the endpoint is probed, `None` for a scheme
    /// that names none.
    pub fn probe_transport(&self) -> (transport: Option<Transport>)
        ensures
            match transport {
                Some(t) => serves(self@.scheme, t),
                None => self@.scheme == Scheme::Other,
            },
    {
        match self.scheme {
            Scheme::Http | Scheme::Https => Some(Transport::Http),
            Scheme::Ws | Scheme::Wss => Some(Transport::Ws),
            Scheme::Other => None,
        }
    }

    /// The endpoint as the probe that ended at `now` (seconds since the Unix
    /// epoch) leaves it; `None` when the probe reports nothing and the
    /// endpoint keeps its last state.
    pub fn after_check(&self, outcome: ProbeOutcome, now: u64) -> (next: Option<RpcUrl>)
        ensures
            match (next, checked(self@, outcome, now)) {
                (Some(n), Some(v)) => n@ == v,
                (None, None) => true,
                _ => false,
            },
    {
        match outcome {
            ProbeOutcome::Answered { height, latency_nanos } => {
                let status = if height.is_some() {
                    RequestStatus::Success
                } else {
                    RequestStatus::Failure
                };
                Some(
                    RpcUrl {
                        url: self.url.clone(),
                        scheme: self.scheme,
                        height,
                        latency_nanos: Some(latency_nanos),
                        request_time: Some(now),
                        request_status: Some(status),
                    },
                )
            },
            ProbeOutcome::ConnectFailed => None,
            ProbeOutcome::TimedOut => Some(
                RpcUrl {
                    url: self.url.clone(),
                    scheme: self.scheme,
                    height: self.height,
                    latency_nanos: None,
                    request_time: Some(now),
                    request_status: Some(RequestStatus::Timeout),
                },
            ),
            ProbeOutcome::Skipped => Some(
                RpcUrl {
                    url: self.url.clone(),
                    scheme: self.scheme,
                    height: None,
                    latency_nanos: Some(0),
                    request_time: Some(now),
                    request_status: Some(RequestStatus::Failure),
                },
            ),
        }
    }

    /// The endpoint's fields as a report shows them.
    pub fn report(&self) -> (report: RpcUrlReport)
        ensures
            report.url@ == self@.url,
            report.height == match self@.height {
                Some(h) => h,
                None => 0,
            },
            report.latency_nanos == match self@.latency {
                Some(l) => l,
                None => 0,
            },
            report.request_time == match self@.request_time {
                Some(t) => t,
                None => 0,
            },
            report.request_status == match self@.request_status {
                Some(s) => s,
                None => RequestStatus::Unknown,
            },
    {
        RpcUrlReport {
            url: self.url.clone(),
            height: match self.height {
                Some(h) => h,
                None => 0,
            },
            latency_nanos: match self.latency_nanos {
                Some(l) => l,
                None => 0,
            },
            request_time: match self.request_time {
                Some(t) => t,
                None => 0,
            },
            request_status: match self.request_status {
                Some(s) => s,
                None => RequestStatus::Unknown,
            },
        }
    }
}

} // verus!
