//! How a block feed follows its provider: deliver what the current provider
//! sends, and move over to a new provider as soon as one is announced.

use vstd::prelude::*;

verus! {

/// What happened while following a provider.
#[derive(Clone, Copy, Debug, PartialEq, Eq, Structural)]
pub enum FeedEvent {
    /// An item came from the current provider; `provider_changed` tells
    /// whether a new provider has been announced since it was taken up.
    Arrived { provider_changed: bool },
    /// The current provider sent nothing within the time limit, or its
    /// subscription ended.
    Stalled,
    /// The wait for a new provider ended: `true` when one was announced,
    /// `false` when no provider can be announced any more.
    Announced(bool),
}

/// What the feed does next.
#[derive(Clone, Copy, Debug, PartialEq, Eq, Structural)]
pub enum FeedAction {
    /// Hand the item on.
    Deliver,
    /// Stop listening to the current provider and wait for a new one.
    AwaitProvider,
    /// Take up the newly announced provider.
    Resubscribe,
    /// End the feed.
    Finish,
}

/// The action that follows an event.
pub open spec fn feed_action(event: FeedEvent) -> FeedAction {
    match event {
        FeedEvent::Arrived { provider_changed } => if provider_changed {
            FeedAction::AwaitProvider
        } else {
            FeedAction::Deliver
        },
        FeedEvent::Stalled => FeedAction::AwaitProvider,
        FeedEvent::Announced(true) => FeedAction::Resubscribe,
        FeedEvent::Announced(false) => FeedAction::Finish,
    }
}

/// An item is delivered exactly when it came while the provider stood; a
/// stalled provider, or a newly announced one, is given up; an announcement
/// leads to the new provider, and the feed ends exactly when no provider can
/// be announced any more.
pub proof fn lemma_feed_action(event: FeedEvent)
    ensures
        feed_action(event) == FeedAction::Deliver <==> event == (FeedEvent::Arrived {
            provider_changed: false,
        }),
        feed_action(event) == FeedAction::AwaitProvider <==> (event == (FeedEvent::Arrived {
            provider_changed: true,
        }) || event == FeedEvent::Stalled),
        feed_action(event) == FeedAction::Resubscribe <==> event == FeedEvent::Announced(true),
        feed_action(event) == FeedAction::Finish <==> event == FeedEvent::Announced(false),
{
}

/// Decides what the feed does after `event`. An item is handed on only when
/// no new provider has been announced; a stalled provider is given up; the
/// feed ends only when no provider can be announced any more.
pub fn next_feed_action(event: FeedEvent) -> (action: FeedAction)
    ensures
        action == feed_action(event),
        action == FeedAction::Deliver ==> event == (FeedEvent::Arrived { provider_changed: false }),
        action == FeedAction::Finish <==> event == FeedEvent::Announced(false),
{
    match event {
        FeedEvent::Arrived { provider_changed } => {
            if provider_changed {
                FeedAction::AwaitProvider
            } else {
                FeedAction::Deliver
            }
        },
        FeedEvent::Stalled => FeedAction::AwaitProvider,
        FeedEvent::Announced(announced) => {
            if announced {
                FeedAction::Resubscribe
            } else {
                FeedAction::Finish
            }
        },
    }
}

} // verus!
