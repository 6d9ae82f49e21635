use nostr_scrolls::registry::{Registry, HANDLER_CAPACITY};
use nostr_scrolls::subscription::handler_closes;
use nostr_scrolls::Subscription;

#[test]
fn attaching_replaces_previous_handler() {
    let mut reg = Registry::new();
    let sub = Subscription::from_handle(3);
    sub.on_event(&mut reg, 10);
    sub.on_event(&mut reg, 11);
    assert_eq!(reg.find_on_event_callback(3), Some(11));
    assert_eq!(reg.on_event_position(3), Some(0));
    sub.on_eose(&mut reg, 20);
    sub.on_eose(&mut reg, 21);
    assert_eq!(reg.find_on_eose_callback(3), Some(21));
    assert_eq!(reg.find_on_event_callback(4), None);
    assert_eq!(reg.find_on_eose_callback(4), None);
}

#[test]
fn handlers_of_other_subscriptions_stay() {
    let mut reg = Registry::new();
    Subscription::from_handle(1).on_event(&mut reg, 100);
    Subscription::from_handle(2).on_event(&mut reg, 200);
    Subscription::from_handle(1).on_event(&mut reg, 101);
    assert_eq!(reg.find_on_event_callback(2), Some(200));
    assert_eq!(reg.find_on_event_callback(1), Some(101));
    // The replaced entry moves to the end.
    assert_eq!(reg.on_event_position(2), Some(0));
    assert_eq!(reg.on_event_position(1), Some(1));
}

#[test]
fn close_on_eose_flag_travels_with_the_handler() {
    let mut reg = Registry::new();
    let request = nostr_scrolls::Filter::new().close_on_eose().subscribe();
    let sub = request.subscription(8);
    sub.on_event(&mut reg, 1);
    assert!(reg.is_close_on_eose(8));
    Subscription::from_handle(9).on_event(&mut reg, 2);
    assert!(!reg.is_close_on_eose(9));
    assert!(!reg.is_close_on_eose(10));
}

#[test]
fn cancel_detaches_both_handlers() {
    let mut reg = Registry::new();
    let sub = Subscription::from_handle(5);
    sub.on_event(&mut reg, 1);
    sub.on_eose(&mut reg, 2);
    Subscription::from_handle(6).on_event(&mut reg, 3);
    Subscription::from_handle(5).cancel(&mut reg);
    assert_eq!(reg.find_on_event_callback(5), None);
    assert_eq!(reg.find_on_eose_callback(5), None);
    assert_eq!(reg.find_on_event_callback(6), Some(3));
}

#[test]
fn remove_functions() {
    let mut reg = Registry::new();
    for h in 0..4 {
        Subscription::from_handle(h).on_event(&mut reg, h as u32);
        Subscription::from_handle(h).on_eose(&mut reg, 10 + h as u32);
    }
    reg.remove_on_event_subscription(1);
    assert_eq!(reg.find_on_event_callback(1), None);
    assert_eq!(reg.find_on_eose_callback(1), Some(11));
    // Swap-removal moves the last entry into the freed place.
    assert_eq!(reg.on_event_position(3), Some(1));
    reg.remove_on_eose_subscription(2);
    assert_eq!(reg.find_on_eose_callback(2), None);
    assert_eq!(reg.find_on_event_callback(2), Some(2));
    reg.remove_subscription(0);
    assert_eq!(reg.find_on_event_callback(0), None);
    assert_eq!(reg.find_on_eose_callback(0), None);
    reg.remove_on_event_subscription(77);
    assert_eq!(reg.find_on_event_callback(3), Some(3));
}

#[test]
fn capacity_is_respected() {
    let mut reg = Registry::new();
    for h in 0..HANDLER_CAPACITY as i32 {
        assert!(reg.has_room_for_event_handler(h));
        Subscription::from_handle(h).on_event(&mut reg, 0);
    }
    assert!(!reg.has_room_for_event_handler(1000));
    // Replacing an existing handler needs no room.
    assert!(reg.has_room_for_event_handler(0));
    Subscription::from_handle(0).on_event(&mut reg, 9);
    assert_eq!(reg.find_on_event_callback(0), Some(9));
    assert!(reg.has_room_for_eose_handler(1000));
}

#[test]
fn event_dispatch() {
    let mut reg = Registry::new();
    Subscription::from_handle(1).on_event(&mut reg, 4);
    assert!(!reg.after_event(1, false));
    assert_eq!(reg.find_on_event_callback(1), Some(4));
    assert!(reg.after_event(1, true));
    assert_eq!(reg.find_on_event_callback(1), None);
}

#[test]
fn eose_dispatch_with_handler() {
    let mut reg = Registry::new();
    let sub = Subscription::from_handle(2);
    sub.on_event(&mut reg, 1);
    sub.on_eose(&mut reg, 2);
    assert!(!reg.after_eose(2, Some(false)));
    assert_eq!(reg.find_on_event_callback(2), Some(1));
    assert!(reg.after_eose(2, Some(true)));
    assert_eq!(reg.find_on_event_callback(2), None);
    assert_eq!(reg.find_on_eose_callback(2), None);
}

#[test]
fn eose_dispatch_close_on_eose() {
    let mut reg = Registry::new();
    let sub = nostr_scrolls::Filter::new().close_on_eose().subscribe().subscription(3);
    sub.on_event(&mut reg, 1);
    sub.on_eose(&mut reg, 2);
    // The handler's answer is ignored when the subscription closes at EOSE.
    assert!(reg.after_eose(3, Some(false)));
    assert_eq!(reg.find_on_eose_callback(3), None);

    let sub = nostr_scrolls::Filter::new().close_on_eose().subscribe().subscription(4);
    sub.on_event(&mut reg, 1);
    assert!(reg.after_eose(4, None));
    assert_eq!(reg.find_on_event_callback(4), None);

    Subscription::from_handle(5).on_event(&mut reg, 1);
    assert!(!reg.after_eose(5, None));
    assert_eq!(reg.find_on_event_callback(5), Some(1));
}

#[test]
fn close_on_eose_without_event_handler_closes_at_eose() {
    let mut reg = Registry::new();
    let sub = nostr_scrolls::Filter::new().close_on_eose().subscribe().subscription(6);
    sub.on_eose(&mut reg, 4);
    assert!(reg.is_close_on_eose(6));
    assert!(reg.after_eose(6, Some(false)));
    assert_eq!(reg.find_on_eose_callback(6), None);
    assert_eq!(reg.find_on_event_callback(6), None);
}

#[test]
fn remove_subscription_detaches_both() {
    let mut reg = Registry::new();
    for h in 0..3 {
        let sub = Subscription::from_handle(h);
        sub.on_event(&mut reg, h as u32);
        sub.on_eose(&mut reg, 10 + h as u32);
    }
    reg.remove_subscription(1);
    assert_eq!(reg.find_on_event_callback(1), None);
    assert_eq!(reg.find_on_eose_callback(1), None);
    assert_eq!(reg.find_on_event_callback(0), Some(0));
    assert_eq!(reg.find_on_eose_callback(2), Some(12));
}

#[test]
fn handler_answer_decides_closing() {
    assert!(!handler_closes(None));
    assert!(!handler_closes(Some(false)));
    assert!(handler_closes(Some(true)));
}
