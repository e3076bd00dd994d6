use zxp_manager::archive::FileOperationError;
use zxp_manager::message::{
    outcome_notice, UserAction,
    clear_newly_installed_plugin, display_seconds, mark_plugin_as_newly_installed,
    trigger_refresh, MessageType, NotificationCenter,
};

#[test]
fn newer_message_supersedes_older() {
    let mut center = NotificationCenter::new();
    let a = center.show_success("a".to_string());
    assert_eq!(a.seconds, 3);
    assert_eq!(a.cancel, None);
    let b = center.show_error("b".to_string());
    assert_eq!(b.seconds, 4);
    assert_eq!(b.cancel, Some(a.id));
    assert_eq!(center.current().content, "b");
    assert_eq!(center.current().msg_type, MessageType::Error);
    // The superseded timer clears nothing.
    assert!(!center.timer_expired(a.id));
    assert_eq!(center.current().content, "b");
    // The error's own timer clears the slot.
    assert!(center.timer_expired(b.id));
    assert_eq!(center.current().content, "");
    assert_eq!(center.current().msg_type, MessageType::Empty);
    assert_eq!(center.pending_timer(), None);
}

#[test]
fn notification_durations() {
    assert_eq!(display_seconds(MessageType::Success), 3);
    assert_eq!(display_seconds(MessageType::Error), 4);
    assert_eq!(display_seconds(MessageType::Info), 5);
    assert_eq!(display_seconds(MessageType::Empty), 0);
    let mut center = NotificationCenter::new();
    let r = center.show_info("i".to_string());
    assert_eq!(r.seconds, 5);
    assert_eq!(center.pending_timer(), Some(r.id));
}

#[test]
fn refresh_token_and_installed_marker() {
    let mut token = false;
    trigger_refresh(&mut token);
    assert!(token);
    trigger_refresh(&mut token);
    assert!(!token);
    let mut slot = None;
    mark_plugin_as_newly_installed(&mut slot, "/x/y".to_string());
    assert_eq!(slot.as_deref(), Some("/x/y"));
    clear_newly_installed_plugin(&mut slot);
    assert_eq!(slot, None);
}

#[test]
fn outcome_notices() {
    let n = outcome_notice(UserAction::Install, Ok(())).unwrap();
    assert_eq!(n.text, "Plugin installed successfully!");
    assert_eq!(n.kind, MessageType::Success);
    assert!(n.refresh);
    let n = outcome_notice(UserAction::Remove, Ok(())).unwrap();
    assert_eq!(n.text, "Plugin removed successfully!");
    let n = outcome_notice(UserAction::Install, Err(FileOperationError::InvalidZip)).unwrap();
    assert_eq!(n.text, "Installation failed: Invalid or corrupt ZXP file");
    assert_eq!(n.kind, MessageType::Error);
    assert!(!n.refresh);
    let n = outcome_notice(UserAction::Remove, Err(FileOperationError::PermissionDenied)).unwrap();
    assert_eq!(n.text, "Failed to remove plugin: Permission denied");
    assert!(outcome_notice(UserAction::Install, Err(FileOperationError::DialogCancelled)).is_none());
}
