use fydia::manager::typing::{TypingAction, TypingEvent, TypingInner, TypingMessage, TypingStruct};
use fydia::manager::websockets::{WbManagerMessage, WbManagerReply, WebsocketInner};

#[test]
fn start_then_stop_typing() {
    let mut typing = TypingInner::new();
    let actions = typing.start_typing(7, 1, String::from("server")).unwrap();
    assert_eq!(actions.len(), 2);
    assert!(matches!(&actions[0], TypingAction::SpawnTimer(t) if t.id == 0 && t.user == 1 && t.channel == 7 && t.server == "server"));
    assert!(matches!(&actions[1], TypingAction::Send { event: TypingEvent::StartTyping, user: 1, channel: 7, .. }));
    assert!(typing.user_exists_in_channel(7, 1));
    let actions = typing.stop_typing(7, 1, String::from("server")).unwrap();
    assert_eq!(actions.len(), 2);
    assert!(matches!(&actions[0], TypingAction::KillTimer(0)));
    assert!(matches!(&actions[1], TypingAction::Send { event: TypingEvent::StopTyping, user: 1, channel: 7, .. }));
    assert!(!typing.user_exists_in_channel(7, 1));
}

#[test]
fn typing_again_renews_the_task_without_a_new_event() {
    let mut typing = TypingInner::new();
    typing.start_typing(7, 1, String::from("s")).unwrap();
    let actions = typing.start_typing(7, 1, String::from("s")).unwrap();
    assert_eq!(actions.len(), 2);
    assert!(matches!(&actions[0], TypingAction::KillTimer(0)));
    assert!(matches!(&actions[1], TypingAction::SpawnTimer(t) if t.id == 1));
    let actions = typing.stop_typing(7, 1, String::from("s")).unwrap();
    assert!(matches!(&actions[0], TypingAction::KillTimer(1)));
}

#[test]
fn stopping_a_user_who_does_not_type_is_an_error() {
    let mut typing = TypingInner::new();
    assert_eq!(typing.stop_typing(7, 1, String::from("s")).err().unwrap(), "No ChannelId in HashMap");
    typing.start_typing(7, 2, String::from("s")).unwrap();
    assert_eq!(typing.stop_typing(7, 1, String::from("s")).err().unwrap(), "No User in HashMap");
}

#[test]
fn renewing_in_an_unknown_channel_is_an_error() {
    let mut typing = TypingInner::new();
    assert_eq!(typing.renew_typing(9, 1, String::from("s")).err().unwrap(), "No Channel in HashMap");
}

#[test]
fn typing_waits_for_its_collaborators() {
    let mut manager = TypingStruct::new();
    let actions = manager.on_receiver(TypingMessage::StartTyping(1, 7, String::from("s"))).unwrap();
    assert!(actions.is_empty());
    manager.on_receiver(TypingMessage::SetWebSocketManager).unwrap();
    manager.on_receiver(TypingMessage::SetTypingManager).unwrap();
    manager.on_receiver(TypingMessage::SetDatabase).unwrap();
    let actions = manager.on_receiver(TypingMessage::StartTyping(1, 7, String::from("s"))).unwrap();
    assert_eq!(actions.len(), 2);
    let actions = manager.on_receiver(TypingMessage::StopTyping(1, 7, String::from("s"))).unwrap();
    assert_eq!(actions.len(), 2);
    assert!(manager.on_receiver(TypingMessage::StopTyping(1, 7, String::from("s"))).is_err());
}

#[test]
fn websocket_channels_open_and_close() {
    let mut registry = WebsocketInner::new();
    assert_eq!(registry.insert_channel(3).err().unwrap(), "User not in HashMap");
    registry.insert_user(3);
    let first = registry.insert_channel(3).unwrap();
    let second = registry.insert_channel(3).unwrap();
    assert_ne!(first, second);
    assert_eq!(registry.get_channels(3), vec![first, second]);
    assert_eq!(registry.get_sender_index(3, second), Some(1));
    assert_eq!(registry.get_channel(3, 0), Some(first));
    assert_eq!(registry.get_channel(3, 2), None);
    registry.remove(3, first).unwrap();
    assert_eq!(registry.get_channels(3), vec![second]);
    registry.remove(3, second).unwrap();
    assert!(registry.get_channels(3).is_empty());
    assert_eq!(registry.remove(3, second).err().unwrap(), "Wbsender not in Vec");
}

#[test]
fn broadcast_goes_to_every_channel_of_every_user() {
    let mut registry = WebsocketInner::new();
    registry.insert_user(1);
    registry.insert_user(2);
    let a1 = registry.insert_channel(1).unwrap();
    let b1 = registry.insert_channel(2).unwrap();
    let a2 = registry.insert_channel(1).unwrap();
    assert_eq!(registry.broadcast_targets(&[2, 1, 5]), vec![b1, a1, a2]);
}

#[test]
fn websocket_manager_answers_requests() {
    let mut registry = WebsocketInner::new();
    let handle = match registry.on_receiver(WbManagerMessage::Insert(4)) {
        WbManagerReply::Inserted(Ok(h)) => h,
        _ => panic!("no channel"),
    };
    assert!(matches!(registry.on_receiver(WbManagerMessage::Get(4)), WbManagerReply::Channels(v) if v == vec![handle]));
    assert!(matches!(registry.on_receiver(WbManagerMessage::GetWithIndex(4, 0)), WbManagerReply::Channel(Some(h)) if h == handle));
    assert!(matches!(registry.on_receiver(WbManagerMessage::Remove(4, handle)), WbManagerReply::Removed(Ok(()))));
    assert!(matches!(registry.on_receiver(WbManagerMessage::Get(4)), WbManagerReply::Channels(v) if v.is_empty()));
}

#[test]
fn renewing_a_user_not_typing_only_starts_a_timer() {
    let mut typing = TypingInner::new();
    typing.start_typing(7, 2, String::from("s")).unwrap();
    let actions = typing.renew_typing(7, 1, String::from("s")).unwrap();
    assert_eq!(actions.len(), 1);
    assert!(matches!(&actions[0], TypingAction::SpawnTimer(t) if t.id == 1 && t.user == 1));
}
