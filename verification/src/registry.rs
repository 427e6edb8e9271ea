//! The master's registry of secondaries. Each secondary has a live record
//! that expires unless renewed by its heartbeat, a permanent address record,
//! and a place in the registration order, which is set the first time it
//! registers and never moved. The application reads these records from the
//! store; here they are turned into listings.

use vstd::prelude::*;
use crate::clock::now_millis;
use crate::model::SecondaryInfo;

verus! {

/// The positions of `s` that hold a value, in increasing order.
pub open spec fn present_indices<A>(s: Seq<Option<A>>) -> Seq<int>
    decreases s.len(),
{
    if s.len() == 0 {
        Seq::empty()
    } else {
        let p = present_indices(s.drop_last());
        if s.last() is Some {
            p.push(s.len() - 1)
        } else {
            p
        }
    }
}

/// The score under which a registering secondary enters the registration
/// order, given the clock reading `now_millis`: none when it is already
/// ordered (its place is kept), the current time otherwise.
pub fn first_seen_score_at(already_ordered: bool, now_millis: i64) -> (r: Option<i64>)
    ensures
        r == (if already_ordered { None } else { Some(now_millis) }),
{
    if already_ordered {
        None
    } else {
        Some(now_millis)
    }
}

/// The score under which a registering secondary enters the registration
/// order: none when it is already ordered, the current time otherwise (the
/// clock is read only then).
pub fn first_seen_score(already_ordered: bool) -> (r: Option<i64>)
    ensures
        r is None <==> already_ordered,
{
    if already_ordered {
        None
    } else {
        first_seen_score_at(false, now_millis())
    }
}

proof fn lemma_present_indices_step<A>(s: Seq<Option<A>>, i: int)
    requires
        0 <= i < s.len(),
    ensures
        present_indices(s.take(i + 1)) == (if s[i] is Some {
            present_indices(s.take(i)).push(i)
        } else {
            present_indices(s.take(i))
        }),
{
    assert(s.take(i + 1).drop_last() =~= s.take(i));
    assert(s.take(i + 1).last() == s[i]);
}

/// The secondaries whose live registration record was found, in
/// registration order. `entries[i]` is what was read for the `i`-th id of
/// the registration order: `None` where the record has expired or could not
/// be read.
pub fn live_secondaries(entries: &Vec<Option<SecondaryInfo>>) -> (r: Vec<SecondaryInfo>)
    ensures
        r@.len() == present_indices(entries@).len(),
        forall|j: int| 0 <= j < r@.len() ==> r@[j] == entries@[present_indices(entries@)[j]]->Some_0,
{
    let mut out: Vec<SecondaryInfo> = Vec::new();
    let mut i: usize = 0;
    while i < entries.len()
        invariant
            i <= entries@.len(),
            out@.len() == present_indices(entries@.take(i as int)).len(),
            forall|j: int| 0 <= j < out@.len() ==> out@[j] == entries@[present_indices(entries@.take(i as int))[j]]->Some_0,
        decreases entries.len() - i,
    {
        proof {
            lemma_present_indices_step(entries@, i as int);
        }
        match &entries[i] {
            Some(info) => {
                out.push(SecondaryInfo { id: info.id.clone(), address: info.address.clone() });
            },
            None => {},
        }
        i = i + 1;
    }
    assert(entries@.take(i as int) =~= entries@);
    out
}

/// Every secondary ever registered, with its last known address, in
/// registration order. `ids` is the registration order and `addresses[i]`
/// the address recorded for `ids[i]`, `None` where there is none.
pub fn known_secondaries(ids: &Vec<String>, addresses: &Vec<Option<String>>) -> (r: Vec<SecondaryInfo>)
    requires
        ids@.len() == addresses@.len(),
    ensures
        r@.len() == present_indices(addresses@).len(),
        forall|j: int|
            0 <= j < r@.len() ==> {
                let i = #[trigger] present_indices(addresses@)[j];
                r@[j].id == ids@[i] && r@[j].address == addresses@[i]->Some_0
            },
{
    let mut out: Vec<SecondaryInfo> = Vec::new();
    let mut i: usize = 0;
    while i < ids.len()
        invariant
            ids@.len() == addresses@.len(),
            i <= ids@.len(),
            out@.len() == present_indices(addresses@.take(i as int)).len(),
            forall|j: int|
                0 <= j < out@.len() ==> {
                    let k = #[trigger] present_indices(addresses@.take(i as int))[j];
                    out@[j].id == ids@[k] && out@[j].address == addresses@[k]->Some_0
                },
        decreases ids.len() - i,
    {
        proof {
            lemma_present_indices_step(addresses@, i as int);
        }
        match &addresses[i] {
            Some(address) => {
                out.push(SecondaryInfo { id: ids[i].clone(), address: address.clone() });
            },
            None => {},
        }
        i = i + 1;
    }
    assert(addresses@.take(i as int) =~= addresses@);
    out
}

/// A listing drawn from the registration order keeps that order and leaves
/// out exactly the secondaries whose record is missing: the positions it
/// draws from are strictly increasing, each holds a record, and every
/// position that holds a record is drawn from.
pub proof fn law_listing_keeps_registration_order<A>(s: Seq<Option<A>>)
    ensures
        forall|j: int, k: int|
            0 <= j < k < present_indices(s).len() ==> #[trigger] present_indices(s)[j] < #[trigger] present_indices(s)[k],
        forall|j: int|
            0 <= j < present_indices(s).len() ==> 0 <= #[trigger] present_indices(s)[j] < s.len() && s[present_indices(s)[j]] is Some,
        forall|i: int| 0 <= i < s.len() && #[trigger] s[i] is Some ==> present_indices(s).contains(i),
    decreases s.len(),
{
    if s.len() > 0 {
        let t = s.drop_last();
        law_listing_keeps_registration_order(t);
        let p = present_indices(t);
        assert forall|j: int| 0 <= j < p.len() implies #[trigger] s[p[j]] is Some by {
            assert(s[p[j]] == t[p[j]]);
        }
        assert forall|i: int| 0 <= i < s.len() && #[trigger] s[i] is Some implies present_indices(s).contains(i) by {
            if i < s.len() - 1 {
                assert(t[i] == s[i]);
                let j = choose|j: int| 0 <= j < p.len() && p[j] == i;
                assert(present_indices(s)[j] == i);
            } else {
                assert(present_indices(s).last() == i);
            }
        }
    }
}

/// Every live secondary is a known one, in the same relative order. The
/// registration order `ids`, the live records `entries` and the address
/// records `addresses` are read at the same positions; registration writes a
/// secondary's live record and its address record together and the address
/// record outlives the live one, so wherever a live record is found an
/// address record is too, for the same id. Then each position that the
/// live listing draws from is also drawn from by the known listing, for the
/// same id, and the known listing has them in the same order.
pub proof fn law_live_within_known(
    ids: Seq<String>,
    entries: Seq<Option<SecondaryInfo>>,
    addresses: Seq<Option<String>>,
)
    requires
        entries.len() == ids.len(),
        addresses.len() == ids.len(),
        forall|i: int|
            0 <= i < entries.len() && (#[trigger] entries[i]) is Some ==> addresses[i] is Some
                && entries[i]->Some_0.id == ids[i],
    ensures
        forall|j: int|
            0 <= j < present_indices(entries).len() ==> exists|k: int|
                0 <= k < present_indices(addresses).len() && #[trigger] present_indices(addresses)[k]
                    == #[trigger] present_indices(entries)[j] && entries[present_indices(entries)[j]]->Some_0.id
                    == ids[present_indices(addresses)[k]],
        forall|j1: int, j2: int, k1: int, k2: int|
            0 <= j1 < j2 < present_indices(entries).len() && 0 <= k1 < present_indices(addresses).len() && 0
                <= k2 < present_indices(addresses).len() && #[trigger] present_indices(addresses)[k1]
                == #[trigger] present_indices(entries)[j1] && #[trigger] present_indices(addresses)[k2]
                == #[trigger] present_indices(entries)[j2] ==> k1 < k2,
{
    law_listing_keeps_registration_order(entries);
    law_listing_keeps_registration_order(addresses);
    let pe = present_indices(entries);
    let pa = present_indices(addresses);
    assert forall|j: int| 0 <= j < pe.len() implies exists|k: int|
        0 <= k < pa.len() && #[trigger] pa[k] == #[trigger] pe[j] && entries[pe[j]]->Some_0.id == ids[pa[k]] by {
        let i = pe[j];
        assert(entries[i] is Some);
        assert(addresses[i] is Some);
        assert(pa.contains(i));
        let k = choose|k: int| 0 <= k < pa.len() && pa[k] == i;
        assert(pa[k] == pe[j]);
    }
    assert forall|j1: int, j2: int, k1: int, k2: int|
        0 <= j1 < j2 < pe.len() && 0 <= k1 < pa.len() && 0 <= k2 < pa.len() && #[trigger] pa[k1] == #[trigger] pe[j1]
            && #[trigger] pa[k2] == #[trigger] pe[j2] implies k1 < k2 by {
        assert(pe[j1] < pe[j2]);
        if k2 < k1 {
            assert(pa[k2] < pa[k1]);
        }
    }
}

} // verus!
