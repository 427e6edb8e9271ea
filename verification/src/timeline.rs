//! Putting logs in chronological order. Timestamps are RFC 3339 strings
//! from one clock, so their lexicographic order is their chronological
//! order; every listing of a log is sorted by it.

use vstd::prelude::*;
use vstd::seq_lib::*;
use crate::model::{LoggedMessage, LogsResponse, MasterLogEntry, SecondaryInfo, SecondaryLog};
use crate::text::{lex_le, str_le, lemma_lex_le_total, lemma_lex_le_transitive,
    lemma_lex_le_antisymmetric, lemma_lex_le_reflexive};

verus! {

/// A log record that carries the timestamp by which logs are ordered.
pub trait Stamped: Sized {
    /// The record's timestamp.
    spec fn stamp(&self) -> Seq<char>;

    /// The record's timestamp, to compare by.
    fn timestamp_str(&self) -> (r: &str)
        ensures
            r@ == self.stamp(),
    ;
}

impl Stamped for MasterLogEntry {
    open spec fn stamp(&self) -> Seq<char> {
        self.timestamp@
    }

    fn timestamp_str(&self) -> (r: &str) {
        self.timestamp.as_str()
    }
}

impl Stamped for LoggedMessage {
    open spec fn stamp(&self) -> Seq<char> {
        self.timestamp@
    }

    fn timestamp_str(&self) -> (r: &str) {
        self.timestamp.as_str()
    }
}

/// Whether the records of `s` come in nondecreasing timestamp order.
pub open spec fn stamps_sorted<T: Stamped>(s: Seq<T>) -> bool {
    forall|i: int, j: int| 0 <= i < j < s.len() ==> lex_le(#[trigger] s[i].stamp(), #[trigger] s[j].stamp())
}

/// Whether no two records of `s` carry the same timestamp.
pub open spec fn stamps_distinct<T: Stamped>(s: Seq<T>) -> bool {
    forall|i: int, j: int| 0 <= i < s.len() && 0 <= j < s.len() && i != j ==> #[trigger] s[i].stamp() != #[trigger] s[j].stamp()
}

/// `perm` arranges `input` into `output`: `output[i]` is `input[perm[i]]`,
/// every record of `input` is used exactly once, and records with equal
/// timestamps keep their relative order.
pub open spec fn stable_arrangement<T: Stamped>(input: Seq<T>, output: Seq<T>, perm: Seq<int>) -> bool {
    &&& perm.len() == output.len()
    &&& output.len() == input.len()
    &&& forall|i: int| 0 <= i < perm.len() ==> 0 <= #[trigger] perm[i] < input.len() && output[i] == input[perm[i]]
    &&& forall|i: int, j: int| 0 <= i < j < perm.len() ==> #[trigger] perm[i] != #[trigger] perm[j]
    &&& forall|i: int, j: int|
        0 <= i < j < perm.len() && #[trigger] output[i].stamp() == #[trigger] output[j].stamp() ==> perm[i] < perm[j]
}

/// `output` is `input` stably sorted by timestamp.
pub open spec fn stable_sort_of<T: Stamped>(input: Seq<T>, output: Seq<T>) -> bool {
    &&& stamps_sorted(output)
    &&& exists|perm: Seq<int>| stable_arrangement(input, output, perm)
}

/// The records of `items` in nondecreasing timestamp order; records with
/// equal timestamps keep the order they had in `items`.
pub fn sort_by_timestamp<T: Stamped>(items: Vec<T>) -> (r: Vec<T>)
    ensures
        stable_sort_of(items@, r@),
        r@.to_multiset() == items@.to_multiset(),
{
    let ghost input = items@;
    let mut rest = items;
    let mut out: Vec<T> = Vec::new();
    let ghost mut perm: Seq<int> = Seq::empty();
    assert(out@.to_multiset().add(rest@.to_multiset()) =~= input.to_multiset()) by {
        to_multiset_len(out@);
        broadcast use vstd::multiset::group_multiset_axioms;
    }
    assert(rest@ =~= input.take(input.len() as int));
    while rest.len() > 0
        invariant
            stamps_sorted(out@),
            out@.to_multiset().add(rest@.to_multiset()) == input.to_multiset(),
            rest@ == input.take(rest@.len() as int),
            rest@.len() <= input.len(),
            out@.len() + rest@.len() == input.len(),
            perm.len() == out@.len(),
            forall|i: int| 0 <= i < perm.len() ==> rest@.len() <= #[trigger] perm[i] < input.len() && out@[i] == input[perm[i]],
            forall|i: int, j: int| 0 <= i < j < perm.len() ==> #[trigger] perm[i] != #[trigger] perm[j],
            forall|i: int, j: int|
                0 <= i < j < perm.len() && #[trigger] out@[i].stamp() == #[trigger] out@[j].stamp() ==> perm[i] < perm[j],
        decreases rest.len(),
    {
        let ghost before = rest@;
        let x = rest.pop().unwrap();
        let ghost m = rest@.len() as int;
        proof {
            assert(before =~= rest@.push(x));
            assert(x == input[m]);
            assert(rest@ =~= input.take(m));
        }
        let mut pos: usize = 0;
        while pos < out.len() && !str_le(x.timestamp_str(), out[pos].timestamp_str())
            invariant
                pos <= out.len(),
                forall|k: int| 0 <= k < pos ==> !lex_le(x.stamp(), #[trigger] out@[k].stamp()),
            decreases out.len() - pos,
        {
            pos = pos + 1;
        }
        let ghost old_out = out@;
        let ghost old_perm = perm;
        proof {
            assert forall|k: int| 0 <= k < pos implies lex_le(#[trigger] old_out[k].stamp(), x.stamp()) by {
                lemma_lex_le_total(old_out[k].stamp(), x.stamp());
            }
            assert forall|k: int| 0 <= k < pos implies #[trigger] old_out[k].stamp() != x.stamp() by {
                lemma_lex_le_reflexive(x.stamp());
            }
            assert forall|k: int| pos <= k < old_out.len() implies lex_le(x.stamp(), #[trigger] old_out[k].stamp()) by {
                if k > pos {
                    lemma_lex_le_transitive(x.stamp(), old_out[pos as int].stamp(), old_out[k].stamp());
                }
            }
        }
        out.insert(pos, x);
        proof {
            perm = old_perm.insert(pos as int, m);
            let n = out@;
            assert(n == old_out.insert(pos as int, x));
            assert forall|i: int, j: int| 0 <= i < j < n.len() implies lex_le(#[trigger] n[i].stamp(), #[trigger] n[j].stamp()) by {
                if j < pos {
                    assert(n[i] == old_out[i] && n[j] == old_out[j]);
                } else if j == pos {
                    assert(n[i] == old_out[i]);
                } else if i < pos {
                    assert(n[i] == old_out[i] && n[j] == old_out[j - 1]);
                    lemma_lex_le_transitive(n[i].stamp(), x.stamp(), n[j].stamp());
                } else if i == pos {
                    assert(n[j] == old_out[j - 1]);
                } else {
                    assert(n[i] == old_out[i - 1] && n[j] == old_out[j - 1]);
                }
            }
            assert forall|i: int| 0 <= i < perm.len() implies rest@.len() <= #[trigger] perm[i] < input.len() && n[i] == input[perm[i]] by {
                if i < pos {
                    assert(perm[i] == old_perm[i] && n[i] == old_out[i]);
                } else if i > pos {
                    assert(perm[i] == old_perm[i - 1] && n[i] == old_out[i - 1]);
                }
            }
            assert forall|i: int, j: int| 0 <= i < j < perm.len() implies #[trigger] perm[i] != #[trigger] perm[j] by {
                if i < pos && j < pos {
                    assert(perm[i] == old_perm[i] && perm[j] == old_perm[j]);
                } else if i < pos && j > pos {
                    assert(perm[i] == old_perm[i] && perm[j] == old_perm[j - 1]);
                } else if i > pos && j > pos {
                    assert(perm[i] == old_perm[i - 1] && perm[j] == old_perm[j - 1]);
                } else if i == pos {
                    assert(perm[j] == old_perm[j - 1]);
                } else {
                    assert(perm[i] == old_perm[i]);
                }
            }
            assert forall|i: int, j: int|
                0 <= i < j < perm.len() && #[trigger] n[i].stamp() == #[trigger] n[j].stamp() implies perm[i] < perm[j] by {
                if i < pos && j < pos {
                    assert(perm[i] == old_perm[i] && perm[j] == old_perm[j]);
                    assert(n[i] == old_out[i] && n[j] == old_out[j]);
                } else if i < pos && j == pos {
                    assert(n[i] == old_out[i]);
                } else if i < pos && j > pos {
                    assert(perm[i] == old_perm[i] && perm[j] == old_perm[j - 1]);
                    assert(n[i] == old_out[i] && n[j] == old_out[j - 1]);
                } else if i > pos && j > pos {
                    assert(perm[i] == old_perm[i - 1] && perm[j] == old_perm[j - 1]);
                    assert(n[i] == old_out[i - 1] && n[j] == old_out[j - 1]);
                } else {
                    assert(perm[j] == old_perm[j - 1]);
                }
            }
            to_multiset_insert(old_out, pos as int, x);
            to_multiset_build(rest@, x);
            assert(out@.to_multiset() == old_out.to_multiset().insert(x));
            assert(before.to_multiset() == rest@.to_multiset().insert(x));
            assert(out@.to_multiset().add(rest@.to_multiset()) =~= old_out.to_multiset().add(before.to_multiset())) by {
                broadcast use vstd::multiset::group_multiset_axioms;
            }
        }
    }
    proof {
        assert(rest@.to_multiset() =~= vstd::multiset::Multiset::empty()) by {
            to_multiset_len(rest@);
            broadcast use vstd::multiset::group_multiset_axioms;
        }
        assert(out@.to_multiset().add(rest@.to_multiset()) =~= out@.to_multiset()) by {
            broadcast use vstd::multiset::group_multiset_axioms;
        }
        assert(stable_arrangement(input, out@, perm));
    }
    out
}

/// The message that a secondary stores under `timestamp`.
pub open spec fn field_message(field: (String, String)) -> LoggedMessage {
    LoggedMessage { message: field.1, timestamp: field.0 }
}

/// A secondary's stored messages, given as (timestamp, message) fields of
/// its hash in the order they were read, as a log in timestamp order.
pub fn messages_from_fields(fields: &Vec<(String, String)>) -> (r: Vec<LoggedMessage>)
    ensures
        stable_sort_of(fields@.map_values(|f: (String, String)| field_message(f)), r@),
        r@.to_multiset() == fields@.map_values(|f: (String, String)| field_message(f)).to_multiset(),
{
    let mut messages: Vec<LoggedMessage> = Vec::new();
    let mut i: usize = 0;
    while i < fields.len()
        invariant
            i <= fields@.len(),
            messages@ == fields@.take(i as int).map_values(|f: (String, String)| field_message(f)),
        decreases fields.len() - i,
    {
        let timestamp = fields[i].0.clone();
        let message = fields[i].1.clone();
        messages.push(LoggedMessage { message, timestamp });
        proof {
            assert(fields@.take(i + 1).map_values(|f: (String, String)| field_message(f)) =~= fields@.take(
                i as int,
            ).map_values(|f: (String, String)| field_message(f)).push(field_message(fields@[i as int])));
        }
        i = i + 1;
    }
    assert(fields@.take(i as int) =~= fields@);
    sort_by_timestamp(messages)
}

/// A log's order does not depend on the order in which its records were
/// read: two timestamp-sorted listings of the same records, whose
/// timestamps are distinct, are the same listing.
pub proof fn law_sorted_listing_unique<T: Stamped>(a: Seq<T>, b: Seq<T>)
    requires
        stamps_sorted(a),
        stamps_sorted(b),
        stamps_distinct(a),
        a.to_multiset() == b.to_multiset(),
    ensures
        a == b,
    decreases a.len(),
{
    broadcast use group_to_multiset_ensures;

    to_multiset_len(a);
    to_multiset_len(b);
    if a.len() == 0 {
        assert(b.len() == 0);
        assert(a =~= b);
    } else {
        to_multiset_len(a);
        to_multiset_len(b);
        assert(b.len() == a.len());
        let x = a[0];
        assert(a.contains(x));
        assert(a.to_multiset().count(x) > 0);
        assert(b.to_multiset().count(x) > 0);
        let y = b[0];
        assert(b.contains(y));
        assert(b.to_multiset().count(y) > 0);
        assert(a.to_multiset().count(y) > 0);
        assert(a.contains(y));
        let k = choose|k: int| 0 <= k < a.len() && a[k] == y;
        assert(b.contains(x));
        let m = choose|m: int| 0 <= m < b.len() && b[m] == x;
        if k > 0 {
            assert(lex_le(a[0].stamp(), a[k].stamp()));
        }
        if m > 0 {
            assert(lex_le(b[0].stamp(), b[m].stamp()));
        }
        lemma_lex_le_reflexive(x.stamp());
        lemma_lex_le_antisymmetric(x.stamp(), y.stamp());
        assert(k == 0);
        assert(x == y);
        let a1 = a.drop_first();
        let b1 = b.drop_first();
        assert(a.remove(0) =~= a1);
        assert(b.remove(0) =~= b1);
        assert(a1.to_multiset() == b1.to_multiset());
        assert forall|i: int, j: int| 0 <= i < j < a1.len() implies lex_le(#[trigger] a1[i].stamp(), #[trigger] a1[j].stamp()) by {
            assert(a1[i] == a[i + 1] && a1[j] == a[j + 1]);
        }
        assert forall|i: int, j: int| 0 <= i < j < b1.len() implies lex_le(#[trigger] b1[i].stamp(), #[trigger] b1[j].stamp()) by {
            assert(b1[i] == b[i + 1] && b1[j] == b[j + 1]);
        }
        assert forall|i: int, j: int| 0 <= i < a1.len() && 0 <= j < a1.len() && i != j implies #[trigger] a1[i].stamp() != #[trigger] a1[j].stamp() by {
            assert(a1[i] == a[i + 1] && a1[j] == a[j + 1]);
        }
        law_sorted_listing_unique(a1, b1);
        assert forall|i: int| 0 <= i < a.len() implies a[i] == b[i] by {
            if i > 0 {
                assert(a[i] == a1[i - 1] && b[i] == b1[i - 1]);
            }
        }
        assert(a =~= b);
    }
}

/// The combined log view: the master's log and, for each listed secondary
/// in the order given (the registration order), its id with its messages.
/// `messages[i]` holds the messages of `secondaries[i]`.
pub fn assemble_logs(
    master: Vec<MasterLogEntry>,
    secondaries: &Vec<SecondaryInfo>,
    messages: Vec<Vec<LoggedMessage>>,
) -> (r: LogsResponse)
    requires
        secondaries@.len() == messages@.len(),
    ensures
        r.master@ == master@,
        r.secondaries@.len() == secondaries@.len(),
        forall|i: int|
            0 <= i < secondaries@.len() ==> (#[trigger] r.secondaries@[i]).id == secondaries@[i].id
                && r.secondaries@[i].messages@ == messages@[i]@,
{
    let mut rest = messages;
    let mut logs: Vec<SecondaryLog> = Vec::new();
    let mut i: usize = 0;
    while i < secondaries.len()
        invariant
            secondaries@.len() == messages@.len(),
            i <= secondaries@.len(),
            rest@ == messages@.skip(i as int),
            logs@.len() == i,
            forall|k: int|
                0 <= k < i ==> (#[trigger] logs@[k]).id == secondaries@[k].id && logs@[k].messages@ == messages@[k]@,
        decreases secondaries.len() - i,
    {
        let batch = rest.remove(0);
        proof {
            assert(batch == messages@[i as int]);
            assert(rest@ =~= messages@.skip(i + 1));
        }
        logs.push(SecondaryLog { id: secondaries[i].id.clone(), messages: batch });
        i = i + 1;
    }
    LogsResponse { master, secondaries: logs }
}

} // verus!
