use std::collections::VecDeque;

use skald::chat_hub::inbox::{
    build_unit, drain_leading_user, QueuedMessage, SendMessageOptions, SourceInbox,
};
use skald::chat_hub::{
    context_info, home_source, new_session_event, notification_message, notification_turn,
    session_agent, tag_event, ChatHub, Provision,
};
use skald::db::chat_history::{Attachment, MessageMetadata};
use skald::events::ServerEvent;
use skald::json::{parse_json, text_list};

fn msg(prompt: &str, synthetic: bool) -> QueuedMessage {
    QueuedMessage {
        prompt: prompt.to_string(),
        opts: SendMessageOptions { is_synthetic: synthetic, ..Default::default() },
    }
}

#[test]
fn empty_queue_yields_none() {
    let mut q = VecDeque::new();
    assert!(build_unit(&mut q).is_none());
}

#[test]
fn build_unit_pops_a_single_message() {
    let mut q = VecDeque::from(vec![msg("hello", false), msg("also this", false)]);
    let (prompt, _) = build_unit(&mut q).unwrap();
    assert_eq!(prompt, "hello");
    // The second message is left for the round-boundary drain.
    assert_eq!(q.len(), 1);
}

#[test]
fn drain_returns_leading_user_messages_individually() {
    let mut q = VecDeque::from(vec![msg("a", false), msg("b", false)]);
    let drained = drain_leading_user(&mut q);
    let contents: Vec<_> = drained.iter().map(|d| d.content.as_str()).collect();
    assert_eq!(contents, vec!["a", "b"]);
    assert!(q.is_empty());
}

#[test]
fn drain_stops_at_a_synthetic_boundary() {
    let mut q = VecDeque::from(vec![
        msg("a", false),
        msg("b", false),
        msg("notification", true),
    ]);
    let drained = drain_leading_user(&mut q);
    let contents: Vec<_> = drained.iter().map(|d| d.content.as_str()).collect();
    assert_eq!(contents, vec!["a", "b"]);
    assert_eq!(q.len(), 1); // the synthetic message is left for the next unit
}

#[test]
fn drain_skips_leading_synthetic() {
    let mut q = VecDeque::from(vec![msg("notification", true), msg("user text", false)]);
    let drained = drain_leading_user(&mut q);
    assert!(drained.is_empty());
    assert_eq!(q.len(), 2);
}

fn msg_with_attachment(prompt: &str, path: &str) -> QueuedMessage {
    QueuedMessage {
        prompt: prompt.to_string(),
        opts: SendMessageOptions {
            metadata: Some(MessageMetadata {
                attachments: vec![Attachment {
                    path: path.to_string(),
                    name: path.to_string(),
                    mimetype: None,
                    filesize: None,
                }],
            }),
            ..Default::default()
        },
    }
}

#[test]
fn drain_preserves_per_message_attachments() {
    let mut q = VecDeque::from(vec![
        msg_with_attachment("first", "a.pdf"),
        msg_with_attachment("second", "b.pdf"),
    ]);
    let drained = drain_leading_user(&mut q);
    assert_eq!(drained.len(), 2);
    assert_eq!(drained[0].metadata.as_ref().unwrap().attachments[0].path, "a.pdf");
    assert_eq!(drained[1].metadata.as_ref().unwrap().attachments[0].path, "b.pdf");
}

#[test]
fn a_message_taken_before_a_clear_is_stale() {
    let mut inbox = SourceInbox::default();
    inbox.pending.push_back(msg("a", false));
    inbox.pending.push_back(msg("b", false));
    let (first, epoch) = inbox.take().unwrap();
    assert_eq!(first.prompt, "a");
    assert!(inbox.is_current(epoch));
    inbox.clear();
    assert!(!inbox.is_current(epoch));
    assert!(inbox.take().is_none());
}

#[test]
fn the_epoch_starts_over_at_its_end() {
    let mut inbox = SourceInbox { pending: VecDeque::new(), cancel_epoch: u64::MAX };
    inbox.clear();
    assert_eq!(inbox.cancel_epoch, 0);
}

#[test]
fn each_source_has_its_own_queue() {
    let mut hub = ChatHub::new();
    assert!(hub.send_message("web", "one", SendMessageOptions::default()));
    assert!(!hub.send_message("web", "two", SendMessageOptions::default()));
    assert!(hub.send_message("talk", "three", SendMessageOptions::default()));
    hub.clear_inbox("web");
    hub.clear_inbox("telegram");
    assert_eq!(hub.inboxes.len(), 2);
    assert!(hub.inboxes[0].1.pending.is_empty());
    assert_eq!(hub.inboxes[0].1.cancel_epoch, 1);
    assert_eq!(hub.inboxes[1].1.pending[0].prompt, "three");
    assert_eq!(hub.cancel("talk", Some(5)), Some(5));
    assert!(hub.inboxes[1].1.pending.is_empty());
    assert_eq!(hub.inboxes[0].1.cancel_epoch, 1);
    assert_eq!(hub.cancel("telegram", None), None);
    assert_eq!(hub.inboxes.len(), 2);
}

#[test]
fn a_reset_always_creates_a_session() {
    let mut hub = ChatHub::new();
    hub.send_message("web", "one", SendMessageOptions::default());
    assert_eq!(hub.provision_session("web", Some(4), false), Provision::Reuse(4));
    assert_eq!(hub.provision_session("web", None, false), Provision::Create { announce: false });
    assert_eq!(hub.inboxes[0].1.pending.len(), 1);
    assert_eq!(hub.provision_session("web", Some(4), true), Provision::Create { announce: true });
    assert!(hub.inboxes[0].1.pending.is_empty());
    hub.send_message("web", "two", SendMessageOptions::default());
    assert_eq!(hub.clear("web", Some(4)), Provision::Create { announce: true });
    assert!(hub.inboxes[0].1.pending.is_empty());
    let e = new_session_event("web", 9);
    assert_eq!(e.source.as_deref(), Some("web"));
    assert!(matches!(e.event, ServerEvent::NewSession { session_id: 9 }));
    let t = tag_event("telegram", 4, ServerEvent::NewSession { session_id: 4 });
    assert_eq!(t.source.as_deref(), Some("telegram"));
    assert_eq!(t.session_id, Some(4));
}

#[test]
fn sources_and_agents_have_defaults() {
    assert_eq!(home_source(None), "web");
    assert_eq!(home_source(Some("telegram".to_string())), "telegram");
    assert_eq!(session_agent(None), "main");
    assert_eq!(session_agent(Some("coder".to_string())), "coder");
    assert_eq!(context_info(None), (None, None));
    assert_eq!(context_info(Some((Some(3), None))), (Some(3), None));
}

#[test]
fn notifications_become_a_returned_tool_call() {
    let briefings = vec!["disk \"full\"".to_string(), "done\n".to_string()];
    let t = notification_turn(&briefings);
    assert_eq!(t.tool, "read_notification");
    assert_eq!(t.arguments, "{}");
    assert_eq!(t.result, "[\"disk \\\"full\\\"\",\"done\\n\"]");
    let back = parse_json(&t.result).unwrap();
    assert_eq!(text_list(&back), Some(briefings.clone()));
    assert_eq!(
        notification_message(&briefings),
        "[SYSTEM - NOTIFICATION]\ndisk \"full\"\n\ndone\n"
    );
}
