//! Names of the records that the master and the secondaries keep in the
//! shared store, and the endpoints they call on one another.

use vstd::prelude::*;
use crate::text::concat_strs;

verus! {

/// How long, in seconds, a secondary's registration stays live without a
/// fresh heartbeat.
pub const SECONDARY_TTL_SECONDS: u64 = 20;

/// How often, in seconds, a secondary renews its registration.
pub const HEARTBEAT_SECONDS: u64 = 5;

/// Sorted set of secondary ids, scored by first-registration time, so the
/// registry can be listed in the order secondaries first appeared.
pub const SECONDARY_ORDER_KEY: &'static str = "secondary:order";

/// Hash of the master's log entries, keyed by timestamp.
pub const MASTER_MESSAGES_KEY: &'static str = "messages:master";

/// Prefix of the hash in which a secondary keeps its received messages.
pub open spec fn messages_prefix() -> Seq<char> {
    "messages:secondary:"@
}

/// Prefix of a secondary's live (expiring) registration record.
pub open spec fn registry_prefix() -> Seq<char> {
    "secondary:registry:"@
}

/// Prefix of a secondary's permanent address record.
pub open spec fn address_prefix() -> Seq<char> {
    "secondary:address:"@
}

/// Prefix of the list of delivery retries made against a secondary.
pub open spec fn retries_prefix() -> Seq<char> {
    "retries:secondary:"@
}

/// The hash in which secondary `id` keeps the messages it received.
pub fn key_for(id: &str) -> (r: String)
    ensures
        r@ == messages_prefix() + id@,
{
    concat_strs("messages:secondary:", id)
}

/// The live registration record of secondary `id`.
pub fn registry_key(id: &str) -> (r: String)
    ensures
        r@ == registry_prefix() + id@,
{
    concat_strs("secondary:registry:", id)
}

/// The permanent address record of secondary `id`.
pub fn address_key(id: &str) -> (r: String)
    ensures
        r@ == address_prefix() + id@,
{
    concat_strs("secondary:address:", id)
}

/// The list of delivery retries made against secondary `id`.
pub fn retries_key(id: &str) -> (r: String)
    ensures
        r@ == retries_prefix() + id@,
{
    concat_strs("retries:secondary:", id)
}

/// The endpoint at which a secondary reachable at `address` receives messages.
pub fn receive_url(address: &str) -> (r: String)
    ensures
        r@ == address@ + "/receive"@,
{
    concat_strs(address, "/receive")
}

/// The endpoint at which secondaries register with the master at `master_url`.
pub fn register_url(master_url: &str) -> (r: String)
    ensures
        r@ == master_url@ + "/secondaries/register"@,
{
    concat_strs(master_url, "/secondaries/register")
}

/// A secondary's registrations follow one another closely enough that its
/// registration never lapses while it keeps heartbeating. Its loop sends a
/// registration request, waits for it to finish, sleeps
/// `HEARTBEAT_SECONDS`, and sends the next. If a request starts at `start`
/// and takes `took` seconds, and the next one takes `next_took`, and the
/// master records them at `renewed` and `next_renewed` (each while its
/// request is under way), then, as long as the two requests together take
/// under `SECONDARY_TTL_SECONDS - HEARTBEAT_SECONDS` (15 s), the next
/// renewal comes after the previous one and before it expires.
pub proof fn law_heartbeat_keeps_registration_live(
    start: int,
    took: int,
    next_took: int,
    renewed: int,
    next_renewed: int,
)
    requires
        0 <= took,
        0 <= next_took,
        took + next_took + HEARTBEAT_SECONDS < SECONDARY_TTL_SECONDS,
        start <= renewed <= start + took,
        start + took + HEARTBEAT_SECONDS <= next_renewed <= start + took + HEARTBEAT_SECONDS + next_took,
    ensures
        renewed < next_renewed,
        next_renewed < renewed + SECONDARY_TTL_SECONDS,
{
}

proof fn lemma_prefix_cancel(p: Seq<char>, a: Seq<char>, b: Seq<char>)
    requires
        p + a == p + b,
    ensures
        a == b,
{
    assert((p + a).skip(p.len() as int) =~= a);
    assert((p + b).skip(p.len() as int) =~= b);
}

/// Each kind of per-secondary record names distinct secondaries by distinct
/// keys: a key determines the id it was made for.
pub proof fn law_keys_determine_id(a: Seq<char>, b: Seq<char>)
    ensures
        messages_prefix() + a == messages_prefix() + b ==> a == b,
        registry_prefix() + a == registry_prefix() + b ==> a == b,
        address_prefix() + a == address_prefix() + b ==> a == b,
        retries_prefix() + a == retries_prefix() + b ==> a == b,
{
    if messages_prefix() + a == messages_prefix() + b {
        lemma_prefix_cancel(messages_prefix(), a, b);
    }
    if registry_prefix() + a == registry_prefix() + b {
        lemma_prefix_cancel(registry_prefix(), a, b);
    }
    if address_prefix() + a == address_prefix() + b {
        lemma_prefix_cancel(address_prefix(), a, b);
    }
    if retries_prefix() + a == retries_prefix() + b {
        lemma_prefix_cancel(retries_prefix(), a, b);
    }
}

proof fn lemma_differ_at(p: Seq<char>, q: Seq<char>, a: Seq<char>, b: Seq<char>, i: int)
    requires
        0 <= i < p.len(),
        i < q.len(),
        p[i] != q[i],
    ensures
        p + a != q + b,
{
    assert((p + a)[i] == p[i]);
    assert((q + b)[i] == q[i]);
}

/// Records of different kinds never share a key, whatever the ids: a
/// secondary's messages, registration, address and retries, the master's
/// log and the registration order are kept apart in the store.
pub proof fn law_key_spaces_disjoint(a: Seq<char>, b: Seq<char>)
    ensures
        messages_prefix() + a != registry_prefix() + b,
        messages_prefix() + a != address_prefix() + b,
        messages_prefix() + a != retries_prefix() + b,
        messages_prefix() + a != MASTER_MESSAGES_KEY@,
        messages_prefix() + a != SECONDARY_ORDER_KEY@,
        registry_prefix() + a != address_prefix() + b,
        registry_prefix() + a != retries_prefix() + b,
        registry_prefix() + a != MASTER_MESSAGES_KEY@,
        registry_prefix() + a != SECONDARY_ORDER_KEY@,
        address_prefix() + a != retries_prefix() + b,
        address_prefix() + a != MASTER_MESSAGES_KEY@,
        address_prefix() + a != SECONDARY_ORDER_KEY@,
        retries_prefix() + a != MASTER_MESSAGES_KEY@,
        retries_prefix() + a != SECONDARY_ORDER_KEY@,
{
    reveal_strlit("messages:secondary:");
    reveal_strlit("secondary:registry:");
    reveal_strlit("secondary:address:");
    reveal_strlit("retries:secondary:");
    reveal_strlit("messages:master");
    reveal_strlit("secondary:order");
    let e: Seq<char> = Seq::empty();
    lemma_differ_at(messages_prefix(), registry_prefix(), a, b, 0);
    lemma_differ_at(messages_prefix(), address_prefix(), a, b, 0);
    lemma_differ_at(messages_prefix(), retries_prefix(), a, b, 0);
    lemma_differ_at(messages_prefix(), MASTER_MESSAGES_KEY@, a, e, 9);
    assert(MASTER_MESSAGES_KEY@ + e =~= MASTER_MESSAGES_KEY@);
    lemma_differ_at(messages_prefix(), SECONDARY_ORDER_KEY@, a, e, 0);
    assert(SECONDARY_ORDER_KEY@ + e =~= SECONDARY_ORDER_KEY@);
    lemma_differ_at(registry_prefix(), address_prefix(), a, b, 10);
    lemma_differ_at(registry_prefix(), retries_prefix(), a, b, 0);
    lemma_differ_at(registry_prefix(), MASTER_MESSAGES_KEY@, a, e, 0);
    lemma_differ_at(registry_prefix(), SECONDARY_ORDER_KEY@, a, e, 10);
    lemma_differ_at(address_prefix(), retries_prefix(), a, b, 0);
    lemma_differ_at(address_prefix(), MASTER_MESSAGES_KEY@, a, e, 0);
    lemma_differ_at(address_prefix(), SECONDARY_ORDER_KEY@, a, e, 10);
    lemma_differ_at(retries_prefix(), MASTER_MESSAGES_KEY@, a, e, 0);
    lemma_differ_at(retries_prefix(), SECONDARY_ORDER_KEY@, a, e, 0);
}

} // verus!
