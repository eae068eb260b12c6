use blockchain_data::{next_feed_action, FeedAction, FeedEvent};

#[test]
fn items_flow_while_provider_stands() {
    assert_eq!(
        next_feed_action(FeedEvent::Arrived { provider_changed: false }),
        FeedAction::Deliver
    );
}

#[test]
fn new_provider_stops_delivery() {
    assert_eq!(
        next_feed_action(FeedEvent::Arrived { provider_changed: true }),
        FeedAction::AwaitProvider
    );
    assert_eq!(next_feed_action(FeedEvent::Stalled), FeedAction::AwaitProvider);
}

#[test]
fn announcement_resubscribes_or_finishes() {
    assert_eq!(next_feed_action(FeedEvent::Announced(true)), FeedAction::Resubscribe);
    assert_eq!(next_feed_action(FeedEvent::Announced(false)), FeedAction::Finish);
}
