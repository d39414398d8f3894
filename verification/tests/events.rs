use backend::events::EventRoutes;
use backend::ids::UserId;

#[test]
fn each_account_gets_its_own_channel() {
    let mut routes = EventRoutes::new();
    let (alice, bob) = (UserId::new(), UserId::new());
    assert_eq!(routes.channels(), 0);
    assert_eq!(routes.subscribe_slot(alice), (0, true));
    assert_eq!(routes.subscribe_slot(alice), (0, false));
    assert_eq!(routes.subscribe_slot(bob), (1, true));
    assert_eq!(routes.channels(), 2);
    assert_eq!(routes.publish_slot(alice), Some(0));
    assert_eq!(routes.publish_slot(bob), Some(1));
}

#[test]
fn events_without_subscriber_are_dropped() {
    let mut routes = EventRoutes::new();
    let (alice, carol) = (UserId::new(), UserId::new());
    assert_eq!(routes.publish_slot(carol), None);
    routes.subscribe_slot(alice);
    assert_eq!(routes.publish_slot(carol), None);
    assert_eq!(routes.channels(), 1);
}
