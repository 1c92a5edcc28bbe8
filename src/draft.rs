use vstd::prelude::*;

use crate::json::{Json, JsonValue};

verus! {

/// The model of a change to an object attribute.
pub enum Change {
    /// Sets a single-valued attribute.
    Assign(Seq<char>, Json),
    /// Adds a value to a multi-valued attribute.
    Append(Seq<char>, Json),
}

/// A change to an attribute of an inventory object.
#[derive(Debug, PartialEq)]
pub enum AttrOp {
    /// Sets a single-valued attribute.
    Assign(String, JsonValue),
    /// Adds a value to a multi-valued attribute.
    Append(String, JsonValue),
}

impl View for AttrOp {
    type V = Change;

    open spec fn view(&self) -> Change {
        match self {
            AttrOp::Assign(f, v) => Change::Assign(f@, v@),
            AttrOp::Append(f, v) => Change::Append(f@, v@),
        }
    }
}

/// The models of a list of changes.
pub open spec fn changes_of(ops: Seq<AttrOp>) -> Seq<Change> {
    ops.map_values(|o: AttrOp| o@)
}

/// The model of a draft.
pub struct DraftModel {
    pub servertype: Seq<char>,
    pub hostname: Seq<char>,
    pub changes: Seq<Change>,
    pub ip_network: Option<Seq<char>>,
    pub deferred: Seq<Change>,
}

/// A not yet stored inventory object: its type and hostname, the changes to make
/// to it, the network to take its internal address from when it has none yet, and
/// the changes deferred until all drafts of its service exist.
#[derive(Debug)]
pub struct ObjectDraft {
    pub servertype: String,
    pub hostname: String,
    pub changes: Vec<AttrOp>,
    pub ip_network: Option<String>,
    pub deferred: Vec<AttrOp>,
}

impl View for ObjectDraft {
    type V = DraftModel;

    open spec fn view(&self) -> DraftModel {
        DraftModel {
            servertype: self.servertype@,
            hostname: self.hostname@,
            changes: changes_of(self.changes@),
            ip_network: match self.ip_network {
                Some(n) => Some(n@),
                None => None,
            },
            deferred: changes_of(self.deferred@),
        }
    }
}

/// The models of a list of drafts.
pub open spec fn drafts_of(drafts: Seq<ObjectDraft>) -> Seq<DraftModel> {
    drafts.map_values(|d: ObjectDraft| d@)
}

/// The next move while the deferred changes of a draft are applied.
#[derive(Debug, PartialEq, Eq)]
pub enum FlushStep {
    /// Apply the deferred change at this place in the queue.
    Apply(usize),
    /// Every deferred change has been applied.
    Done,
    /// A change failed; the rest of the queue is not applied.
    Stopped,
}

/// The next move, after `applied` changes of a queue of `len`, the last of which
/// succeeded or not.
pub open spec fn flush_step(len: nat, applied: nat, last_succeeded: bool) -> FlushStep {
    if !last_succeeded {
        FlushStep::Stopped
    } else if applied < len {
        FlushStep::Apply(applied as usize)
    } else {
        FlushStep::Done
    }
}

/// The places of the changes that a flush applies, driven by [`flush_step`]
/// from `applied` on, when the change at place `i` succeeds as `outcomes[i]` says.
pub open spec fn flush_trace(len: nat, outcomes: Seq<bool>, applied: nat, last_succeeded: bool) -> Seq<
    nat,
>
    decreases len - applied,
{
    match flush_step(len, applied, last_succeeded) {
        FlushStep::Apply(i) => if i as nat == applied {
            seq![applied].add(flush_trace(len, outcomes, applied + 1, outcomes[applied as int]))
        } else {
            Seq::empty()
        },
        _ => Seq::empty(),
    }
}

/// The number of changes applied: up to and including the first that fails, or all.
pub open spec fn flush_length(outcomes: Seq<bool>, from: nat) -> nat
    decreases outcomes.len() - from,
{
    if from >= outcomes.len() {
        from
    } else if !outcomes[from as int] {
        from + 1
    } else {
        flush_length(outcomes, from + 1)
    }
}

/// A flush that starts after `applied` successes applies the places from `applied` on, in order, up
/// to the first failure.
proof fn lemma_flush_trace(len: nat, outcomes: Seq<bool>, applied: nat)
    requires
        outcomes.len() == len,
        applied <= len,
        len < usize::MAX,
    ensures
        flush_trace(len, outcomes, applied, true) =~= Seq::new(
            (flush_length(outcomes, applied) - applied) as nat,
            |i: int| (applied + i) as nat,
        ),
        applied <= flush_length(outcomes, applied) <= len,
    decreases len - applied,
{
    if applied < len {
        lemma_flush_trace(len, outcomes, applied + 1);
        if !outcomes[applied as int] {
            assert(flush_trace(len, outcomes, applied + 1, false) =~= Seq::<nat>::empty());
        }
    }
}

/// Deferred changes are applied in the order they were queued, starting with the
/// first, and once one fails no later one is applied.
pub proof fn law_deferred_in_queue_order(len: nat, outcomes: Seq<bool>)
    requires
        outcomes.len() == len,
        len < usize::MAX,
    ensures
        flush_trace(len, outcomes, 0, true) == Seq::new(
            flush_length(outcomes, 0),
            |i: int| i as nat,
        ),
        forall|k: int|
            0 <= k < flush_length(outcomes, 0) - 1 ==> #[trigger] outcomes[k],
        flush_length(outcomes, 0) < len ==> !outcomes[flush_length(outcomes, 0) - 1],
{
    lemma_flush_trace(len, outcomes, 0);
    assert(flush_trace(len, outcomes, 0, true) =~= Seq::new(
        flush_length(outcomes, 0),
        |i: int| i as nat,
    ));
    lemma_flush_length(outcomes, 0);
}

/// Every change before the last one applied succeeded, and the last one failed when the flush
/// stopped early.
proof fn lemma_flush_length(outcomes: Seq<bool>, from: nat)
    requires
        from <= outcomes.len(),
    ensures
        forall|k: int| from <= k < flush_length(outcomes, from) - 1 ==> #[trigger] outcomes[k],
        flush_length(outcomes, from) < outcomes.len() ==> flush_length(outcomes, from) >= 1
            && !outcomes[flush_length(outcomes, from) - 1],
    decreases outcomes.len() - from,
{
    if from < outcomes.len() && outcomes[from as int] {
        lemma_flush_length(outcomes, from + 1);
    }
}

impl ObjectDraft {
    /// The next move of a flush of the deferred changes, after `applied` of them,
    /// the last of which succeeded when `last_succeeded` holds.
    pub fn next_deferred(&self, applied: usize, last_succeeded: bool) -> (r: FlushStep)
        ensures
            r == flush_step(self.deferred@.len(), applied as nat, last_succeeded),
    {
        if !last_succeeded {
            FlushStep::Stopped
        } else if applied < self.deferred.len() {
            FlushStep::Apply(applied)
        } else {
            FlushStep::Done
        }
    }

    /// The network to take an internal address from, when the stored object has none.
    pub fn ip_request(&self, has_intern_ip: bool) -> (r: Option<String>)
        ensures
            has_intern_ip ==> r is None,
            !has_intern_ip ==> match self.ip_network {
                Some(n) => r matches Some(t) && t@ == n@,
                None => r is None,
            },
    {
        if has_intern_ip {
            return None;
        }
        match &self.ip_network {
            Some(n) => Some(n.clone()),
            None => None,
        }
    }
}

} // verus!
