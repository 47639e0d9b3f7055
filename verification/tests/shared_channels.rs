use fydia::websocket::{UserIdentity, WbManagerMessage, WbManagerReply, WbStruct, WebsocketInner};

fn user(id: u32, name: &str) -> UserIdentity {
    UserIdentity { id, name: String::from(name) }
}

#[test]
fn a_user_shares_one_channel_between_connections() {
    let mut registry = WebsocketInner::new();
    let first = registry.get_or_insert_channels(user(1, "ann")).unwrap();
    let second = registry.get_or_insert_channels(user(1, "ann")).unwrap();
    assert_eq!(first, second);
    let other = registry.get_or_insert_channels(user(2, "bob")).unwrap();
    assert_ne!(first, other);
}

#[test]
fn the_channel_goes_with_the_last_connection() {
    let mut registry = WebsocketInner::new();
    registry.get_or_insert_channels(user(1, "ann")).unwrap();
    registry.get_or_insert_channels(user(1, "ann")).unwrap();
    registry.decrement_and_remove_user(user(1, "ann"));
    assert!(registry.get_channels_of_user_without_increment(&user(1, "ann")).is_some());
    registry.decrement_and_remove_user(user(1, "ann"));
    assert!(registry.get_channels_of_user_without_increment(&user(1, "ann")).is_none());
}

#[test]
fn same_id_other_name_is_another_user() {
    let mut registry = WebsocketInner::new();
    registry.get_or_insert_channels(user(1, "ann")).unwrap();
    assert!(registry.get_without_increment(user(1, "bob")).is_none());
}

#[test]
fn sending_stops_at_the_first_user_without_a_channel() {
    let mut registry = WebsocketInner::new();
    let a = registry.get_or_insert_channels(user(1, "ann")).unwrap();
    let b = registry.get_or_insert_channels(user(2, "bob")).unwrap();
    let targets = registry.send_targets(&[user(2, "bob"), user(3, "cy"), user(1, "ann")]);
    assert_eq!(targets, vec![b]);
    let targets = registry.send_targets(&[user(1, "ann"), user(2, "bob")]);
    assert_eq!(targets, vec![a, b]);
}

#[test]
fn entry_counts_connections() {
    let mut entry = WbStruct::new(user(1, "ann"), 9);
    assert_eq!(entry.get_channel(), 9);
    assert_eq!(entry.get_without_increment(), 9);
    assert!(entry.is_same_user(&user(1, "ann")));
    assert!(!entry.decrement_ref());
    assert!(entry.decrement_ref());
}

#[test]
fn registry_answers_messages() {
    let mut registry = WebsocketInner::new();
    let c = match registry.on_message(WbManagerMessage::GetActualOf(user(1, "ann"))) {
        WbManagerReply::Channel(Ok(c)) => c,
        _ => panic!("no channel"),
    };
    assert!(matches!(registry.on_message(WbManagerMessage::GetWithoutIncrement(user(1, "ann"))), WbManagerReply::Existing(Some(x)) if x == c));
    assert!(matches!(registry.on_message(WbManagerMessage::RemoveIfLast(user(1, "ann"))), WbManagerReply::Removed));
    assert!(matches!(registry.on_message(WbManagerMessage::GetWithoutIncrement(user(1, "ann"))), WbManagerReply::Existing(None)));
}
