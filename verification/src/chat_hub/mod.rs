//! Interactive sources: one session and one queue of messages for each, and
//! the notifications that background work sends to the home source.
pub mod inbox;

use vstd::prelude::*;

use crate::chat_hub::inbox::{next_epoch, QueuedMessage, SendMessageOptions, SourceInbox};
use crate::events::{GlobalEvent, ServerEvent};
use crate::json::{array_text, json_texts, parsed_json, text_array};
use crate::text::{join, joined, opt_text, str_eq, texts};

verus! {

/// The configuration key under which the home source is stored.
pub const HOME_SOURCE_KEY: &'static str = "source_home";

/// The home source where none is configured.
pub const DEFAULT_HOME_SOURCE: &'static str = "web";

/// The queues of the sources, each created with its first message.
pub struct ChatHub {
    pub inboxes: Vec<(String, SourceInbox)>,
}

/// The position of a source's queue.
pub open spec fn inbox_index(inboxes: Seq<(String, SourceInbox)>, source: Seq<char>) -> Option<int>
    decreases inboxes.len(),
{
    if inboxes.len() == 0 {
        None
    } else {
        match inbox_index(inboxes.drop_last(), source) {
            Some(i) => Some(i),
            None => if inboxes.last().0@ == source {
                Some(inboxes.len() - 1)
            } else {
                None
            },
        }
    }
}

proof fn lemma_inbox_index(inboxes: Seq<(String, SourceInbox)>, source: Seq<char>)
    ensures
        match inbox_index(inboxes, source) {
            Some(i) => 0 <= i < inboxes.len() && inboxes[i].0@ == source && forall|j: int|
                0 <= j < i ==> (#[trigger] inboxes[j]).0@ != source,
            None => forall|j: int| 0 <= j < inboxes.len() ==> (#[trigger] inboxes[j]).0@ != source,
        },
    decreases inboxes.len(),
{
    if inboxes.len() > 0 {
        lemma_inbox_index(inboxes.drop_last(), source);
        assert forall|j: int| 0 <= j < inboxes.len() - 1 implies inboxes[j]
            == inboxes.drop_last()[j] by {}
    }
}

impl ChatHub {
    pub fn new() -> (r: ChatHub)
        ensures
            r.inboxes@.len() == 0,
    {
        ChatHub { inboxes: Vec::new() }
    }

    fn position(&self, source: &str) -> (r: Option<usize>)
        ensures
            match r {
                Some(i) => inbox_index(self.inboxes@, source@) == Some(i as int) && i
                    < self.inboxes@.len(),
                None => inbox_index(self.inboxes@, source@) is None,
            },
    {
        let mut i: usize = 0;
        while i < self.inboxes.len()
            invariant
                i <= self.inboxes@.len(),
                forall|j: int| 0 <= j < i ==> (#[trigger] self.inboxes@[j]).0@ != source@,
            decreases self.inboxes@.len() - i,
        {
            if str_eq(self.inboxes[i].0.as_str(), source) {
                proof {
                    lemma_inbox_index(self.inboxes@, source@);
                }
                return Some(i);
            }
            i = i + 1;
        }
        proof {
            lemma_inbox_index(self.inboxes@, source@);
        }
        None
    }

    /// Queues a message for a source. `true` where the source had no queue yet,
    /// so that its consumer has to be started.
    pub fn send_message(&mut self, source: &str, prompt: &str, opts: SendMessageOptions) -> (r: bool)
        ensures
            match inbox_index(old(self).inboxes@, source@) {
                Some(i) => {
                    &&& !r
                    &&& final(self).inboxes@.len() == old(self).inboxes@.len()
                    &&& forall|j: int|
                        0 <= j < old(self).inboxes@.len() && j != i ==> #[trigger] final(self).inboxes@[j] == old(self).inboxes@[j]
                    &&& final(self).inboxes@[i].0 == old(self).inboxes@[i].0
                    &&& final(self).inboxes@[i].1.received(
                        &old(self).inboxes@[i].1,
                        prompt@,
                        opts,
                    )
                },
                None => {
                    &&& r
                    &&& final(self).inboxes@.len() == old(self).inboxes@.len() + 1
                    &&& final(self).inboxes@.drop_last() == old(self).inboxes@
                    &&& final(self).inboxes@.last().0@ == source@
                    &&& final(self).inboxes@.last().1.holds_only(prompt@, opts)
                },
            },
    {
        let ghost before = self.inboxes@;
        proof {
            lemma_inbox_index(before, source@);
        }
        let message: QueuedMessage = QueuedMessage { prompt: prompt.to_owned(), opts };
        match self.position(source) {
            Some(i) => {
                self.inboxes[i].1.pending.push_back(message);
                assert(self.inboxes@[i as int].1.pending@.drop_last()
                    =~= before[i as int].1.pending@);
                false
            },
            None => {
                let mut inbox: SourceInbox = SourceInbox::default();
                inbox.pending.push_back(message);
                self.inboxes.push((source.to_owned(), inbox));
                assert(self.inboxes@.drop_last() =~= before);
                true
            },
        }
    }

    /// Whether the queue of a source was cleared, with nothing else changed.
    pub open spec fn cleared(&self, before: &ChatHub, source: Seq<char>) -> bool {
        match inbox_index(before.inboxes@, source) {
            Some(i) => {
                &&& self.inboxes@.len() == before.inboxes@.len()
                &&& forall|j: int|
                    0 <= j < before.inboxes@.len() && j != i ==> #[trigger] self.inboxes@[j]
                        == before.inboxes@[j]
                &&& self.inboxes@[i].0 == before.inboxes@[i].0
                &&& self.inboxes@[i].1.pending@.len() == 0
                &&& self.inboxes@[i].1.cancel_epoch == next_epoch(before.inboxes@[i].1.cancel_epoch)
            },
            None => *self == *before,
        }
    }

    /// Decides whether a source's session is used or a new one created. A reset
    /// always creates one and announces it, and drops what is queued for the
    /// session before.
    pub fn provision_session(&mut self, source: &str, active: Option<i64>, reset: bool) -> (r: Provision)
        ensures
            r == match active {
                Some(id) if !reset => Provision::Reuse(id),
                _ => Provision::Create { announce: reset },
            },
            if reset {
                final(self).cleared(old(self), source@)
            } else {
                *final(self) == *old(self)
            },
    {
        if reset {
            self.clear_inbox(source);
            return Provision::Create { announce: true };
        }
        match active {
            Some(id) => Provision::Reuse(id),
            None => Provision::Create { announce: false },
        }
    }

    /// Starts a new session for a source, discarding the one before.
    pub fn clear(&mut self, source: &str, active: Option<i64>) -> (r: Provision)
        ensures
            r == (Provision::Create { announce: true }),
            final(self).cleared(old(self), source@),
    {
        self.provision_session(source, active, true)
    }

    /// Cancels what a source has in flight and in its queue. The result is the
    /// session whose turn, approvals and questions are to be cancelled; there
    /// is none where the source has no active session.
    pub fn cancel(&mut self, source: &str, active: Option<i64>) -> (r: Option<i64>)
        ensures
            r == active,
            final(self).cleared(old(self), source@),
    {
        self.clear_inbox(source);
        active
    }

    /// Drops the messages queued for a source and marks what was taken from
    /// its queue before as stale.
    pub fn clear_inbox(&mut self, source: &str)
        ensures
            final(self).cleared(old(self), source@),
    {
        match self.position(source) {
            Some(i) => {
                self.inboxes[i].1.clear();
            },
            None => {},
        }
    }
}

/// What to do when a session is asked for.
#[derive(Debug, Clone, Copy, PartialEq, Eq, Structural)]
pub enum Provision {
    /// Use the source's session.
    Reuse(i64),
    /// Create a session; `announce` says whether to tell the clients.
    Create { announce: bool },
}

/// The event that announces a new session.
pub fn new_session_event(source: &str, session_id: i64) -> (r: GlobalEvent)
    ensures
        opt_text(r.source) == Some(source@),
        r.session_id == Some(session_id),
        r.event == (ServerEvent::NewSession { session_id }),
{
    GlobalEvent {
        source: Some(source.to_owned()),
        session_id: Some(session_id),
        event: ServerEvent::NewSession { session_id },
    }
}

/// An event of a session, tagged with where it belongs.
pub fn tag_event(source: &str, session_id: i64, event: ServerEvent) -> (r: GlobalEvent)
    ensures
        opt_text(r.source) == Some(source@),
        r.session_id == Some(session_id),
        r.event == event,
{
    GlobalEvent { source: Some(source.to_owned()), session_id: Some(session_id), event }
}

/// The home source: the configured one, else `web`.
pub fn home_source(configured: Option<String>) -> (r: String)
    ensures
        r@ == match configured {
            Some(s) => s@,
            None => "web"@,
        },
{
    match configured {
        Some(s) => s,
        None => "web".to_owned(),
    }
}

/// The agent of a new session: the one asked for, else the main agent.
pub fn session_agent(asked: Option<String>) -> (r: String)
    ensures
        r@ == match asked {
            Some(a) => a@,
            None => "main"@,
        },
{
    match asked {
        Some(a) => a,
        None => "main".to_owned(),
    }
}

/// The token usage of a conversation's last message.
pub fn context_info(last: Option<(Option<i64>, Option<i64>)>) -> (r: (Option<i64>, Option<i64>))
    ensures
        r == match last {
            Some(usage) => usage,
            None => (None, None),
        },
{
    match last {
        Some(usage) => usage,
        None => (None, None),
    }
}

/// The answer of the model that stands in a conversation for notifications,
/// before the model sees them.
pub struct NotificationTurn {
    pub reasoning: String,
    pub tool: String,
    pub arguments: String,
    /// The notifications as a JSON array.
    pub result: String,
}

/// Notifications as a tool call that has already returned them. Its result
/// reads back as the notifications.
pub fn notification_turn(briefings: &Vec<String>) -> (r: NotificationTurn)
    ensures
        r.reasoning@
            == "I see the system is signaling that there is a notification. Let me call the read_notification tool if there is something important."@,
        r.tool@ == "read_notification"@,
        r.arguments@ == "{}"@,
        r.result@ == json_texts(texts(briefings@)),
        parsed_json(r.result@) == Some(text_array(texts(briefings@))),
{
    NotificationTurn {
        reasoning: "I see the system is signaling that there is a notification. Let me call the read_notification tool if there is something important.".to_owned(),
        tool: "read_notification".to_owned(),
        arguments: "{}".to_owned(),
        result: array_text(briefings),
    }
}

/// Notifications as one message: a heading, then the briefings with a blank
/// line between each two.
pub fn notification_message(briefings: &Vec<String>) -> (r: String)
    ensures
        r@ == "[SYSTEM - NOTIFICATION]\n"@ + joined(texts(briefings@), "\n\n"@),
{
    let mut t: String = "[SYSTEM - NOTIFICATION]\n".to_owned();
    let body: String = join(briefings, "\n\n");
    t.append(body.as_str());
    t
}

/// A message waits behind the others of its source, with what was said of it;
/// the first message of a source opens an inbox, which is what the answer
/// tells. The inboxes of other sources stay as they are.
pub proof fn law_messages_wait(hub: &mut ChatHub, source: &str, prompt: &str, opts: SendMessageOptions, r: bool, k: int)
    requires
        call_ensures(ChatHub::send_message, (hub, source, prompt, opts), r),
        0 <= k < final(hub).inboxes@.len(),
        final(hub).inboxes@[k].0@ == source@,
        forall|j: int| 0 <= j < k ==> (#[trigger] final(hub).inboxes@[j]).0@ != source@,
    ensures
        r <==> forall|j: int|
            0 <= j < old(hub).inboxes@.len() ==> (#[trigger] old(hub).inboxes@[j]).0@ != source@,
        final(hub).inboxes@.len() == old(hub).inboxes@.len() + if r {
            1int
        } else {
            0int
        },
        ({
            let inbox = final(hub).inboxes@[k].1;
            &&& inbox.pending@.len() == if r {
                1
            } else {
                old(hub).inboxes@[k].1.pending@.len() + 1
            }
            &&& inbox.pending@.last().prompt@ == prompt@ && inbox.pending@.last().opts == opts
            &&& !r ==> inbox.pending@.drop_last() == old(hub).inboxes@[k].1.pending@
                && inbox.cancel_epoch == old(hub).inboxes@[k].1.cancel_epoch
        }),
        forall|j: int|
            0 <= j < old(hub).inboxes@.len() && j != k ==> #[trigger] final(hub).inboxes@[j]
                == old(hub).inboxes@[j],
{
    let before = old(hub).inboxes@;
    let after = final(hub).inboxes@;
    lemma_inbox_index(before, source@);
    match inbox_index(before, source@) {
        Some(i) => {
            assert(before[i].0@ == source@);
            assert(after[i].0@ == source@);
            if k < i {
                assert(after[k] == before[k]);
                assert(before[k].0@ != source@);
            } else if i < k {
                assert(after[i].0@ != source@);
            }
        },
        None => {
            assert forall|j: int| 0 <= j < before.len() implies after[j] == #[trigger] before[j] by {
                assert(after.drop_last()[j] == after[j]);
            }
            if k < before.len() {
                assert(before[k].0@ != source@);
                assert(after[k] == before[k]);
            }
            assert(k == before.len());
        },
    }
}

/// A source keeps its session unless a new one is asked for; a new session is
/// announced exactly where one was asked for. Clearing and cancelling drop what
/// waits for the source and nothing else.
pub proof fn law_sessions_of_sources(
    a: &mut ChatHub,
    b: &mut ChatHub,
    c: &mut ChatHub,
    source: &str,
    active: Option<i64>,
    reset: bool,
    r: Provision,
    cleared: Provision,
    cancelled: Option<i64>,
    k: int,
)
    requires
        call_ensures(ChatHub::provision_session, (a, source, active, reset), r),
        call_ensures(ChatHub::clear, (b, source, active), cleared),
        call_ensures(ChatHub::cancel, (c, source, active), cancelled),
        0 <= k < old(b).inboxes@.len(),
        old(b).inboxes@[k].0@ == source@,
        forall|j: int| 0 <= j < k ==> (#[trigger] old(b).inboxes@[j]).0@ != source@,
        old(c).inboxes == old(b).inboxes,
    ensures
        !reset ==> *final(a) == *old(a),
        !reset && active is Some ==> r == Provision::Reuse(active->Some_0),
        !reset && active is None ==> r == (Provision::Create { announce: false }),
        reset ==> r == (Provision::Create { announce: true }),
        cleared == (Provision::Create { announce: true }),
        cancelled == active,
        final(b).inboxes@[k].1.pending@.len() == 0,
        final(c).inboxes@[k].1.pending@.len() == 0,
        final(b).inboxes@[k].1.cancel_epoch != old(b).inboxes@[k].1.cancel_epoch,
        final(c).inboxes@[k].1.cancel_epoch != old(b).inboxes@[k].1.cancel_epoch,
        forall|j: int|
            0 <= j < old(b).inboxes@.len() && j != k ==> #[trigger] final(b).inboxes@[j] == old(
                b).inboxes@[j] && final(c).inboxes@[j] == old(b).inboxes@[j],
{
    let before = old(b).inboxes@;
    lemma_inbox_index(before, source@);
    assert(before[k].0@ == source@);
    let i = inbox_index(before, source@)->Some_0;
    if k < i {
        assert(before[k].0@ != source@);
    } else if i < k {
        assert(before[i].0@ != source@);
    }
    assert(i == k);
    assert(final(b).cleared(old(b), source@));
    assert(final(c).cleared(old(c), source@));
}

/// What a source and a session are called where nothing was chosen.
pub proof fn law_defaults(configured: Option<String>, asked: Option<String>, home: String, agent: String)
    requires
        call_ensures(home_source, (configured,), home),
        call_ensures(session_agent, (asked,), agent),
    ensures
        configured is None ==> home@ == "web"@,
        configured matches Some(s) ==> home@ == s@,
        asked is None ==> agent@ == "main"@,
        asked matches Some(a) ==> agent@ == a@,
{
}

/// How briefings reach a model: as the result of reading notifications, and, to
/// a model without tools, as a message that lists them.
pub proof fn law_briefings(briefings: &Vec<String>, r: NotificationTurn, message: String, sep: &str, list: String, written: String)
    requires
        call_ensures(notification_turn, (briefings,), r),
        call_ensures(notification_message, (briefings,), message),
        call_ensures(crate::text::join, (briefings, sep), list),
        sep@ == "\n\n"@,
        call_ensures(crate::json::array_text, (briefings,), written),
    ensures
        r.tool@ == "read_notification"@,
        r.arguments@ == "{}"@,
        r.result@ == written@,
        message@ == "[SYSTEM - NOTIFICATION]\n"@ + list@,
{
}

/// What is announced of a session carries its source and its number.
pub proof fn law_announcements(
    source: &str,
    id: i64,
    event: ServerEvent,
    a: GlobalEvent,
    b: GlobalEvent,
    fresh: ChatHub,
    last: Option<(Option<i64>, Option<i64>)>,
    usage: (Option<i64>, Option<i64>),
)
    requires
        call_ensures(new_session_event, (source, id), a),
        call_ensures(tag_event, (source, id, event), b),
        call_ensures(ChatHub::new, (), fresh),
        call_ensures(context_info, (last,), usage),
    ensures
        a.source is Some && a.source->Some_0@ == source@ && a.session_id == Some(id) && a.event == (
        ServerEvent::NewSession { session_id: id }),
        b.source is Some && b.source->Some_0@ == source@ && b.session_id == Some(id) && b.event
            == event,
        fresh.inboxes@.len() == 0,
        last matches Some(u) ==> usage == u,
        last is None ==> usage.0 is None && usage.1 is None,
{
}

/// Emptying the queue of a source drops what waits for it and marks what was
/// taken before as stale; the queues of other sources, and a hub without that
/// source, stay as they are.
pub proof fn law_queues_are_emptied(hub: &mut ChatHub, source: &str, k: int)
    requires
        call_ensures(ChatHub::clear_inbox, (hub, source), ()),
        0 <= k < old(hub).inboxes@.len(),
        forall|j: int| 0 <= j < k ==> (#[trigger] old(hub).inboxes@[j]).0@ != source@,
    ensures
        final(hub).inboxes@.len() == old(hub).inboxes@.len(),
        final(hub).inboxes@[k].0@ == old(hub).inboxes@[k].0@,
        old(hub).inboxes@[k].0@ == source@ ==> final(hub).inboxes@[k].1.pending@.len() == 0
            && final(hub).inboxes@[k].1.cancel_epoch != old(hub).inboxes@[k].1.cancel_epoch,
        old(hub).inboxes@[k].0@ != source@ ==> final(hub).inboxes@[k] == old(hub).inboxes@[k],
        forall|j: int|
            0 <= j < old(hub).inboxes@.len() && (j < k || (j > k && old(hub).inboxes@[k].0@
                == source@)) ==> #[trigger] final(hub).inboxes@[j] == old(hub).inboxes@[j],
{
    let before = old(hub).inboxes@;
    lemma_inbox_index(before, source@);
    assert(final(hub).cleared(old(hub), source@));
    match inbox_index(before, source@) {
        Some(i) => {
            assert(before[i].0@ == source@);
            if i < k {
                assert(before[i].0@ != source@);
            }
            if before[k].0@ == source@ && k < i {
                assert(before[k].0@ != source@);
            }
        },
        None => {
            assert(before[k].0@ != source@);
        },
    }
}

} // verus!
