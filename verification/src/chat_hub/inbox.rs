//! The queue of a source: messages in the order they came, each for itself.
//!
//! A turn is started with one message. Those that arrive while it runs are
//! drained between its rounds, one by one; the queue merges nothing.
use std::collections::VecDeque;

use vstd::prelude::*;

use crate::db::chat_history::MessageMetadata;

verus! {

/// How a message is sent.
pub struct SendMessageOptions {
    pub client_name: Option<String>,
    pub extra_system_context: Option<String>,
    pub extra_system_dynamic: Option<String>,
    pub tail_reminder: Option<String>,
    pub system_substitutions: Vec<(String, String)>,
    /// True for messages that the system sends, such as notifications.
    pub is_synthetic: bool,
    pub metadata: Option<MessageMetadata>,
    pub agent_id: Option<String>,
}

impl Default for SendMessageOptions {
    fn default() -> (r: SendMessageOptions)
        ensures
            r.client_name is None,
            r.extra_system_context is None,
            r.extra_system_dynamic is None,
            r.tail_reminder is None,
            r.system_substitutions@.len() == 0,
            !r.is_synthetic,
            r.metadata is None,
            r.agent_id is None,
    {
        SendMessageOptions {
            client_name: None,
            extra_system_context: None,
            extra_system_dynamic: None,
            tail_reminder: None,
            system_substitutions: Vec::new(),
            is_synthetic: false,
            metadata: None,
            agent_id: None,
        }
    }
}

/// A message that waits for its turn.
pub struct QueuedMessage {
    pub prompt: String,
    pub opts: SendMessageOptions,
}

/// A message drained into a running turn.
pub struct DrainedMessage {
    pub content: String,
    pub metadata: Option<MessageMetadata>,
}

/// The queue of a source.
pub struct SourceInbox {
    pub pending: VecDeque<QueuedMessage>,
    /// Counts the times the queue was cleared, so that a message taken just
    /// before is recognised as stale.
    pub cancel_epoch: u64,
}

impl Default for SourceInbox {
    fn default() -> (r: SourceInbox)
        ensures
            r.pending@.len() == 0,
            r.cancel_epoch == 0,
    {
        SourceInbox { pending: VecDeque::new(), cancel_epoch: 0 }
    }
}

/// The epoch after another; the count starts over at its end.
pub open spec fn next_epoch(epoch: u64) -> u64 {
    if epoch == u64::MAX {
        0
    } else {
        (epoch + 1) as u64
    }
}

/// A message taken just before the queue is cleared is stale afterwards.
pub proof fn law_cleared_messages_are_stale(before: SourceInbox, after: SourceInbox)
    requires
        after.cancel_epoch == next_epoch(before.cancel_epoch),
    ensures
        after.cancel_epoch != before.cancel_epoch,
{
}

impl SourceInbox {
    /// Whether a message was added behind all others.
    pub open spec fn received(&self, before: &SourceInbox, prompt: Seq<char>, opts: SendMessageOptions) -> bool {
        &&& self.cancel_epoch == before.cancel_epoch
        &&& self.pending@.len() == before.pending@.len() + 1
        &&& self.pending@.drop_last() == before.pending@
        &&& self.pending@.last().prompt@ == prompt
        &&& self.pending@.last().opts == opts
    }

    /// Whether the queue is fresh but for one message.
    pub open spec fn holds_only(&self, prompt: Seq<char>, opts: SendMessageOptions) -> bool {
        &&& self.cancel_epoch == 0
        &&& self.pending@.len() == 1
        &&& self.pending@[0].prompt@ == prompt
        &&& self.pending@[0].opts == opts
    }

    /// Drops what is queued; what was taken before is stale from now on.
    pub fn clear(&mut self)
        ensures
            final(self).pending@.len() == 0,
            final(self).cancel_epoch == next_epoch(old(self).cancel_epoch),
    {
        self.pending.clear();
        self.cancel_epoch = self.cancel_epoch.wrapping_add(1);
    }

    /// Takes the next message together with the epoch in which it was taken.
    pub fn take(&mut self) -> (r: Option<(QueuedMessage, u64)>)
        ensures
            final(self).cancel_epoch == old(self).cancel_epoch,
            if old(self).pending@.len() == 0 {
                r is None && final(self).pending@ == old(self).pending@
            } else {
                &&& r matches Some((m, epoch)) && m == old(self).pending@[0] && epoch
                    == old(self).cancel_epoch
                &&& final(self).pending@ == old(self).pending@.skip(1)
            },
    {
        let ghost before = self.pending@;
        match self.pending.pop_front() {
            Some(m) => {
                assert(self.pending@ =~= before.skip(1));
                Some((m, self.cancel_epoch))
            },
            None => None,
        }
    }

    /// Whether a message taken in an epoch is still to be handled.
    pub fn is_current(&self, epoch: u64) -> (r: bool)
        ensures
            r == (self.cancel_epoch == epoch),
    {
        self.cancel_epoch == epoch
    }
}

/// Takes the next message, to start a turn with it. Further messages stay for
/// the turn to drain. `None` where nothing is queued.
pub fn build_unit(pending: &mut VecDeque<QueuedMessage>) -> (r: Option<(String, SendMessageOptions)>)
    ensures
        if old(pending)@.len() == 0 {
            r is None && final(pending)@ == old(pending)@
        } else {
            &&& r == Some((old(pending)@[0].prompt, old(pending)@[0].opts))
            &&& final(pending)@ == old(pending)@.skip(1)
        },
{
    let ghost before = pending@;
    match pending.pop_front() {
        Some(m) => {
            assert(pending@ =~= before.skip(1));
            Some((m.prompt, m.opts))
        },
        None => None,
    }
}

/// How many messages at the front of a queue a user typed.
pub open spec fn leading_user(queue: Seq<QueuedMessage>) -> nat
    decreases queue.len(),
{
    if queue.len() > 0 && !queue[0].opts.is_synthetic {
        1 + leading_user(queue.skip(1))
    } else {
        0
    }
}

/// What is drained of a list of messages: their texts and their metadata.
pub open spec fn drained_of(queue: Seq<QueuedMessage>) -> Seq<DrainedMessage> {
    queue.map_values(
        |m: QueuedMessage| DrainedMessage { content: m.prompt, metadata: m.opts.metadata },
    )
}

/// The messages at the front are all typed, and the next one, if any, is not.
pub proof fn lemma_leading_user(queue: Seq<QueuedMessage>)
    ensures
        leading_user(queue) <= queue.len(),
        forall|i: int| 0 <= i < leading_user(queue) ==> !(#[trigger] queue[i]).opts.is_synthetic,
        leading_user(queue) < queue.len() ==> queue[leading_user(queue) as int].opts.is_synthetic,
    decreases queue.len(),
{
    if queue.len() > 0 && !queue[0].opts.is_synthetic {
        let rest = queue.skip(1);
        lemma_leading_user(rest);
        assert forall|i: int| 0 <= i < leading_user(queue) implies !(
        #[trigger] queue[i]).opts.is_synthetic by {
            if i > 0 {
                assert(rest[i - 1] == queue[i]);
            }
        }
    }
}

/// Drains the messages at the front that a user typed, one by one. The first
/// one that the system sent, and all behind it, stay.
pub fn drain_leading_user(pending: &mut VecDeque<QueuedMessage>) -> (r: Vec<DrainedMessage>)
    ensures
        r@ == drained_of(old(pending)@.take(leading_user(old(pending)@) as int)),
        final(pending)@ == old(pending)@.skip(leading_user(old(pending)@) as int),
{
    let ghost all = pending@;
    let mut out: Vec<DrainedMessage> = Vec::new();
    let ghost mut n: int = 0;
    proof {
        lemma_leading_user(all);
        assert(all.skip(0) =~= all);
        assert(out@ =~= drained_of(all.take(0)));
    }
    while pending.len() > 0 && !pending[0].opts.is_synthetic
        invariant
            0 <= n <= all.len(),
            pending@ == all.skip(n),
            leading_user(all) == n + leading_user(pending@),
            out@ == drained_of(all.take(n)),
        decreases pending@.len(),
    {
        let ghost before = pending@;
        match pending.pop_front() {
            Some(m) => {
                proof {
                    assert(m == all[n]);
                    assert(pending@ =~= before.skip(1));
                    assert(all.skip(n).skip(1) =~= all.skip(n + 1));
                }
                out.push(DrainedMessage { content: m.prompt, metadata: m.opts.metadata });
                proof {
                    assert(out@ =~= drained_of(all.take(n + 1)));
                    n = n + 1;
                }
            },
            None => {},
        }
    }
    out
}

/// Nothing is lost or reordered by draining: what is drained and what stays
/// are, together, what was queued.
pub proof fn law_drain_keeps_everything(queue: Seq<QueuedMessage>)
    ensures
        leading_user(queue) <= queue.len(),
        queue.take(leading_user(queue) as int) + queue.skip(leading_user(queue) as int) == queue,
        drained_of(queue.take(leading_user(queue) as int)).len() == leading_user(queue),
        queue.len() > leading_user(queue) ==> queue.skip(
            leading_user(queue) as int,
        )[0].opts.is_synthetic,
{
    lemma_leading_user(queue);
    let n = leading_user(queue) as int;
    assert(queue.take(n) + queue.skip(n) =~= queue);
}

/// Clearing an inbox drops what waits in it and makes what is under way stale;
/// taking a message takes the oldest, with the epoch in which it is current.
pub proof fn law_inboxes(a: &mut SourceInbox, b: &mut SourceInbox, r: Option<(QueuedMessage, u64)>, epoch: u64, current: bool)
    requires
        call_ensures(SourceInbox::clear, (a,), ()),
        call_ensures(SourceInbox::take, (b,), r),
        call_ensures(SourceInbox::is_current, (&*final(a), epoch), current),
    ensures
        final(a).pending@.len() == 0,
        epoch == old(a).cancel_epoch ==> !current,
        old(a).cancel_epoch < u64::MAX ==> final(a).cancel_epoch == old(a).cancel_epoch + 1,
        r is None <==> old(b).pending@.len() == 0,
        r matches Some((m, e)) ==> m == old(b).pending@[0] && e == old(b).cancel_epoch && final(
            b).pending@ == old(b).pending@.skip(1),
        final(b).cancel_epoch == old(b).cancel_epoch,
{
}

/// One unit of work is the oldest message that waits.
pub proof fn law_units(pending: &mut VecDeque<QueuedMessage>, r: Option<(String, SendMessageOptions)>)
    requires
        call_ensures(build_unit, (pending,), r),
    ensures
        r is None <==> old(pending)@.len() == 0,
        r matches Some((prompt, opts)) ==> prompt == old(pending)@[0].prompt && opts == old(
            pending)@[0].opts && final(pending)@ == old(pending)@.skip(1),
{
}

/// What a running turn takes in: the messages of users that wait, up to the
/// first that is none, in their order; the rest keeps waiting.
pub proof fn law_drained_messages(pending: &mut VecDeque<QueuedMessage>, r: Vec<DrainedMessage>, i: int)
    requires
        call_ensures(drain_leading_user, (pending,), r),
    ensures
        r@.len() + final(pending)@.len() == old(pending)@.len(),
        final(pending)@ == old(pending)@.skip(r@.len() as int),
        0 <= i < r@.len() ==> !old(pending)@[i].opts.is_synthetic && r@[i].content == old(
            pending)@[i].prompt && r@[i].metadata == old(pending)@[i].opts.metadata,
        final(pending)@.len() > 0 ==> final(pending)@[0].opts.is_synthetic,
{
    lemma_leading_user(old(pending)@);
}

} // verus!
