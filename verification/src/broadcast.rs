//! The master's broadcast of one posted message: it stamps the message,
//! then offers it to every known secondary in turn and tallies which of them
//! acknowledged it. The application performs each delivery and reports its
//! outcome back here.

use vstd::prelude::*;
use crate::clock::{is_utc_stamp, now_rfc3339};
use crate::keys::receive_url;
use crate::model::{BroadcastResult, CreateMessage, LoggedMessage, MasterLogEntry, SecondaryInfo};

verus! {

/// Stamps a posted message with the current time, as an RFC 3339 UTC
/// string: the entry that is sent to every secondary.
pub fn stamp_message(payload: CreateMessage) -> (e: LoggedMessage)
    ensures
        e.message@ == payload.message@,
        is_utc_stamp(e.timestamp@),
{
    let timestamp = now_rfc3339();
    LoggedMessage { message: payload.message, timestamp }
}

/// The ids of the targets whose delivery was acknowledged, in target order,
/// given the outcomes recorded so far.
pub open spec fn acked_ids(targets: Seq<SecondaryInfo>, outcomes: Seq<bool>) -> Seq<String>
    decreases outcomes.len(),
{
    if outcomes.len() == 0 {
        Seq::empty()
    } else {
        let k = outcomes.len() - 1;
        let prev = acked_ids(targets, outcomes.drop_last());
        if outcomes[k] {
            prev.push(targets[k].id)
        } else {
            prev
        }
    }
}

/// The ids of the targets whose delivery failed, in target order, given the
/// outcomes recorded so far.
pub open spec fn unacked_ids(targets: Seq<SecondaryInfo>, outcomes: Seq<bool>) -> Seq<String>
    decreases outcomes.len(),
{
    if outcomes.len() == 0 {
        Seq::empty()
    } else {
        let k = outcomes.len() - 1;
        let prev = unacked_ids(targets, outcomes.drop_last());
        if outcomes[k] {
            prev
        } else {
            prev.push(targets[k].id)
        }
    }
}

/// What a broadcast in progress stands for: the stamped message, the
/// secondaries it goes to, and the delivery outcome of each secondary
/// served so far (the first `outcomes.len()` targets, in order).
pub struct BroadcastView {
    pub message: Seq<char>,
    pub timestamp: Seq<char>,
    pub targets: Seq<SecondaryInfo>,
    pub outcomes: Seq<bool>,
}

/// A broadcast in progress.
pub struct Broadcast {
    message: String,
    timestamp: String,
    targets: Vec<SecondaryInfo>,
    delivered: Vec<String>,
    failed: Vec<String>,
    served: usize,
    outcomes: Ghost<Seq<bool>>,
}

impl View for Broadcast {
    type V = BroadcastView;

    closed spec fn view(&self) -> BroadcastView {
        BroadcastView {
            message: self.message@,
            timestamp: self.timestamp@,
            targets: self.targets@,
            outcomes: self.outcomes@,
        }
    }
}

impl Broadcast {
    /// The broadcast's internal consistency: no more outcomes than targets,
    /// and the delivered and failed lists are exactly the tallies of the
    /// outcomes recorded.
    pub closed spec fn wf(&self) -> bool {
        &&& self.outcomes@.len() <= self.targets@.len()
        &&& self.served == self.outcomes@.len()
        &&& self.delivered@ == acked_ids(self.targets@, self.outcomes@)
        &&& self.failed@ == unacked_ids(self.targets@, self.outcomes@)
    }

    /// Whether every target has an outcome.
    pub open spec fn complete(&self) -> bool {
        self@.outcomes.len() == self@.targets.len()
    }

    /// Starts a broadcast of `message`, stamped `timestamp`, to `targets`.
    pub fn start(message: String, timestamp: String, targets: Vec<SecondaryInfo>) -> (b: Broadcast)
        ensures
            b.wf(),
            b@.message == message@,
            b@.timestamp == timestamp@,
            b@.targets == targets@,
            b@.outcomes == Seq::<bool>::empty(),
    {
        Broadcast {
            message,
            timestamp,
            targets,
            delivered: Vec::new(),
            failed: Vec::new(),
            served: 0,
            outcomes: Ghost(Seq::empty()),
        }
    }

    /// The message as it is sent to each secondary.
    pub fn wire_entry(&self) -> (e: LoggedMessage)
        ensures
            e.message@ == self@.message,
            e.timestamp@ == self@.timestamp,
    {
        LoggedMessage { message: self.message.clone(), timestamp: self.timestamp.clone() }
    }

    /// Whether every target has been served.
    pub fn is_complete(&self) -> (r: bool)
        requires
            self.wf(),
        ensures
            r == self.complete(),
    {
        self.served == self.targets.len()
    }

    /// The endpoint of the next secondary to deliver to, or `None` once
    /// every target has been served.
    pub fn next_url(&self) -> (r: Option<String>)
        requires
            self.wf(),
        ensures
            self.complete() ==> r is None,
            !self.complete() ==> (r matches Some(u) && u@ == self@.targets[self@.outcomes.len() as int].address@
                + "/receive"@),
    {
        let k = self.served;
        if k < self.targets.len() {
            Some(receive_url(self.targets[k].address.as_str()))
        } else {
            None
        }
    }

    /// Records whether the next secondary acknowledged the message.
    pub fn record(&mut self, acked: bool)
        requires
            old(self).wf(),
            !old(self).complete(),
        ensures
            final(self).wf(),
            final(self)@ == (BroadcastView { outcomes: old(self)@.outcomes.push(acked), ..old(self)@ }),
    {
        let k = self.served;
        let n = self.targets.len();
        assert(k < n);
        let id = self.targets[k].id.clone();
        let ghost before = self.outcomes@;
        let ghost after = before.push(acked);
        if acked {
            self.delivered.push(id);
        } else {
            self.failed.push(id);
        }
        self.served = k + 1;
        self.outcomes = Ghost(after);
        proof {
            assert(after.drop_last() =~= before);
        }
    }

    /// Ends a broadcast in which every target has been served: the master's
    /// log entry for it and the answer to the client.
    pub fn finish(self) -> (r: (MasterLogEntry, BroadcastResult))
        requires
            self.wf(),
            self.complete(),
        ensures
            r.0.message@ == self@.message,
            r.0.timestamp@ == self@.timestamp,
            r.0.sent == self@.targets.len(),
            r.0.acked == acked_ids(self@.targets, self@.outcomes).len(),
            r.1.message@ == self@.message,
            r.1.timestamp@ == self@.timestamp,
            r.1.delivered@ == acked_ids(self@.targets, self@.outcomes),
            r.1.failed@ == unacked_ids(self@.targets, self@.outcomes),
    {
        let entry = MasterLogEntry {
            message: self.message.clone(),
            timestamp: self.timestamp.clone(),
            sent: self.targets.len(),
            acked: self.delivered.len(),
        };
        proof {
            lemma_tally_len(self.targets@, self.outcomes@);
        }
        let result = BroadcastResult {
            message: self.message,
            timestamp: self.timestamp,
            delivered: self.delivered,
            failed: self.failed,
        };
        (entry, result)
    }
}

proof fn lemma_tally_len(targets: Seq<SecondaryInfo>, outcomes: Seq<bool>)
    ensures
        acked_ids(targets, outcomes).len() + unacked_ids(targets, outcomes).len() == outcomes.len(),
    decreases outcomes.len(),
{
    if outcomes.len() > 0 {
        lemma_tally_len(targets, outcomes.drop_last());
    }
}

/// Every served secondary is tallied exactly once: the acknowledged and the
/// failed lists together are as long as the outcomes, and the `i`-th
/// target's id is in the acknowledged list when its delivery succeeded and
/// in the failed list when it did not.
pub proof fn law_broadcast_tally(targets: Seq<SecondaryInfo>, outcomes: Seq<bool>, i: int)
    requires
        outcomes.len() <= targets.len(),
        0 <= i < outcomes.len(),
    ensures
        acked_ids(targets, outcomes).len() + unacked_ids(targets, outcomes).len() == outcomes.len(),
        outcomes[i] ==> acked_ids(targets, outcomes).contains(targets[i].id),
        !outcomes[i] ==> unacked_ids(targets, outcomes).contains(targets[i].id),
    decreases outcomes.len(),
{
    lemma_tally_len(targets, outcomes);
    let k = outcomes.len() - 1;
    let prev = outcomes.drop_last();
    if i == k {
        if outcomes[i] {
            assert(acked_ids(targets, outcomes).last() == targets[i].id);
        } else {
            assert(unacked_ids(targets, outcomes).last() == targets[i].id);
        }
    } else {
        law_broadcast_tally(targets, prev, i);
        assert(prev[i] == outcomes[i]);
        if outcomes[i] {
            let ids = acked_ids(targets, prev);
            let j = choose|j: int| 0 <= j < ids.len() && ids[j] == targets[i].id;
            assert(acked_ids(targets, outcomes)[j] == targets[i].id);
        } else {
            let ids = unacked_ids(targets, prev);
            let j = choose|j: int| 0 <= j < ids.len() && ids[j] == targets[i].id;
            assert(unacked_ids(targets, outcomes)[j] == targets[i].id);
        }
    }
}

/// The tally only grows at its end: the lists tallied from the first `i`
/// outcomes are prefixes of the lists tallied from all of them, so both
/// lists keep the order in which the secondaries were served.
pub proof fn law_tally_grows_at_end(targets: Seq<SecondaryInfo>, outcomes: Seq<bool>, i: int)
    requires
        0 <= i <= outcomes.len(),
    ensures
        acked_ids(targets, outcomes.take(i)).is_prefix_of(acked_ids(targets, outcomes)),
        unacked_ids(targets, outcomes.take(i)).is_prefix_of(unacked_ids(targets, outcomes)),
    decreases outcomes.len() - i,
{
    if i == outcomes.len() {
        assert(outcomes.take(i) =~= outcomes);
    } else {
        law_tally_grows_at_end(targets, outcomes, i + 1);
        let t = outcomes.take(i + 1);
        assert(t.drop_last() =~= outcomes.take(i));
    }
}

} // verus!
