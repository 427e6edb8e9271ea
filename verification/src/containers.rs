//! How the master describes the containers it manages and how it derives
//! a new secondary container from its own.

use vstd::prelude::*;
use vstd::string::*;
use crate::model::ContainerInfo;
use crate::text::{concat_strs, prefix_chars, replace_all, replace_all_spec, strip_leading, trim_leading};

verus! {

/// How many characters of a container id make its short form (the form a
/// container reports as its host name, and so the id a secondary
/// registers under).
pub const SHORT_ID_LEN: usize = 12;

/// The label that marks every secondary container.
pub const SECONDARY_LABEL: &'static str = "app.role=secondary";

/// The label key and value set on a spawned secondary.
pub const ROLE_LABEL_KEY: &'static str = "app.role";

/// See `ROLE_LABEL_KEY`.
pub const ROLE_LABEL_VALUE: &'static str = "secondary";

/// The first `SHORT_ID_LEN` characters of a container id; empty when the
/// id is missing.
pub open spec fn short_id_spec(id: Option<Seq<char>>) -> Seq<char> {
    match id {
        Some(s) => s.take(if s.len() < 12 { s.len() as int } else { 12 }),
        None => Seq::empty(),
    }
}

/// The view of an optional string.
pub open spec fn opt_view(s: Option<String>) -> Option<Seq<char>> {
    match s {
        Some(v) => Some(v@),
        None => None,
    }
}

/// An optional string's value, or the empty string.
pub open spec fn or_empty(s: Option<String>) -> Seq<char> {
    match s {
        Some(v) => v@,
        None => Seq::empty(),
    }
}

/// The short form of a container id.
pub fn short_id(id: &Option<String>) -> (r: String)
    ensures
        r@ == short_id_spec(opt_view(*id)),
        id.is_some() && id->Some_0@.len() >= SHORT_ID_LEN ==> r@ == id->Some_0@.take(SHORT_ID_LEN as int),
        id.is_some() && id->Some_0@.len() < SHORT_ID_LEN ==> r@ == id->Some_0@,
        id.is_none() ==> r@.len() == 0,
{
    match id {
        Some(s) => prefix_chars(s.as_str(), SHORT_ID_LEN),
        None => String::new(),
    }
}

fn string_or_empty(s: &Option<String>) -> (r: String)
    ensures
        r@ == or_empty(*s),
{
    match s {
        Some(v) => v.clone(),
        None => String::new(),
    }
}

/// A container's display name: its first name without the leading slashes
/// that the container engine puts there; empty when it has no name.
pub open spec fn display_name_spec(names: Option<Seq<String>>) -> Seq<char> {
    match names {
        Some(ns) => if ns.len() > 0 {
            strip_leading(ns[0]@, '/')
        } else {
            Seq::empty()
        },
        None => Seq::empty(),
    }
}

/// The display name of a container with the given names.
pub fn display_name(names: &Option<Vec<String>>) -> (r: String)
    ensures
        r@ == display_name_spec(match *names {
            Some(v) => Some(v@),
            None => None,
        }),
{
    match names {
        Some(ns) => {
            if ns.len() > 0 {
                trim_leading(ns[0].as_str(), '/')
            } else {
                String::new()
            }
        },
        None => String::new(),
    }
}

/// How a running container is listed: its short id, display name, image,
/// state and status, each empty where the engine gave none.
pub fn container_info(
    id: &Option<String>,
    names: &Option<Vec<String>>,
    image: &Option<String>,
    state: &Option<String>,
    status: &Option<String>,
) -> (r: ContainerInfo)
    ensures
        r.id@ == short_id_spec(opt_view(*id)),
        r.name@ == display_name_spec(match *names {
            Some(v) => Some(v@),
            None => None,
        }),
        r.image@ == or_empty(*image),
        r.state@ == or_empty(*state),
        r.status@ == or_empty(*status),
{
    ContainerInfo {
        id: short_id(id),
        name: display_name(names),
        image: string_or_empty(image),
        state: string_or_empty(state),
        status: string_or_empty(status),
    }
}

/// Whether a container state is the running state.
pub fn is_running(state: &Option<String>) -> (r: bool)
    ensures
        r == (opt_view(*state) == Some("running"@)),
{
    match state {
        Some(s) => {
            let running = String::from_str("running");
            *s == running
        },
        None => false,
    }
}

/// How a secondary container is listed: its short id and whether it runs.
pub fn secondary_container(id: &Option<String>, state: &Option<String>) -> (r: (String, bool))
    ensures
        r.0@ == short_id_spec(opt_view(*id)),
        r.1 == (opt_view(*state) == Some("running"@)),
{
    (short_id(id), is_running(state))
}

/// The image of a new secondary: the master's own image name with each
/// `-master` replaced by `-secondary`.
pub fn secondary_image(master_image: &str) -> (r: String)
    ensures
        r@ == replace_all_spec(master_image@, "-master"@, "-secondary"@),
{
    proof {
        reveal_strlit("-master");
    }
    replace_all(master_image, "-master", "-secondary")
}

/// The environment of a new secondary: where its store is and where the
/// master is.
pub fn secondary_env(redis_url: &str, master_url: &str) -> (r: Vec<String>)
    ensures
        r@.len() == 2,
        r@[0]@ == "REDIS_URL="@ + redis_url@,
        r@[1]@ == "MASTER_URL="@ + master_url@,
{
    let mut env: Vec<String> = Vec::new();
    env.push(concat_strs("REDIS_URL=", redis_url));
    env.push(concat_strs("MASTER_URL=", master_url));
    env
}

/// How a new secondary container is created: its image, the command it
/// runs, its environment, its labels and the network it joins.
#[derive(Clone, Debug, PartialEq, Eq)]
pub struct SecondaryLaunch {
    pub image: String,
    pub cmd: Vec<String>,
    pub env: Vec<String>,
    pub labels: Vec<(String, String)>,
    pub network_mode: String,
}

/// The launch of a new secondary beside a master whose own container runs
/// `master_image` on `network`: the secondary image (each `-master`
/// replaced by `-secondary`), the `secondary` command, the environment that
/// points it at the store and the master, the role label that marks it as a
/// secondary, and the master's network.
pub fn secondary_launch(master_image: &str, network: String, redis_url: &str, master_url: &str) -> (r: SecondaryLaunch)
    ensures
        r.image@ == replace_all_spec(master_image@, "-master"@, "-secondary"@),
        r.cmd@.len() == 1,
        r.cmd@[0]@ == "secondary"@,
        r.env@.len() == 2,
        r.env@[0]@ == "REDIS_URL="@ + redis_url@,
        r.env@[1]@ == "MASTER_URL="@ + master_url@,
        r.labels@.len() == 1,
        r.labels@[0].0@ == ROLE_LABEL_KEY@,
        r.labels@[0].1@ == ROLE_LABEL_VALUE@,
        r.network_mode == network,
{
    let mut cmd: Vec<String> = Vec::new();
    cmd.push(String::from_str("secondary"));
    let mut labels: Vec<(String, String)> = Vec::new();
    labels.push((String::from_str(ROLE_LABEL_KEY), String::from_str(ROLE_LABEL_VALUE)));
    SecondaryLaunch {
        image: secondary_image(master_image),
        cmd,
        env: secondary_env(redis_url, master_url),
        labels,
        network_mode: network,
    }
}

/// The role label of a launched secondary is the label by which the master
/// finds its secondaries: `key=value` is `SECONDARY_LABEL`.
pub proof fn law_launched_secondary_is_found(r: SecondaryLaunch)
    requires
        r.labels@.len() == 1,
        r.labels@[0].0@ == ROLE_LABEL_KEY@,
        r.labels@[0].1@ == ROLE_LABEL_VALUE@,
    ensures
        r.labels@[0].0@ + seq!['='] + r.labels@[0].1@ == SECONDARY_LABEL@,
{
    reveal_strlit("app.role");
    reveal_strlit("secondary");
    reveal_strlit("app.role=secondary");
    assert(r.labels@[0].0@ + seq!['='] + r.labels@[0].1@ =~= SECONDARY_LABEL@);
}

/// The short id of a container id is its first `SHORT_ID_LEN` (12)
/// characters, exactly 12 of them for a full id, and the whole id when it is
/// shorter; shortening is idempotent, so the short id that a secondary
/// reports for itself is also its short container id.
pub proof fn law_short_id_stable(id: Seq<char>)
    ensures
        id.len() >= SHORT_ID_LEN ==> short_id_spec(Some(id)) == id.take(SHORT_ID_LEN as int)
            && short_id_spec(Some(id)).len() == SHORT_ID_LEN,
        short_id_spec(Some(short_id_spec(Some(id)))) == short_id_spec(Some(id)),
        short_id_spec(Some(id)).len() <= 12,
        id.len() <= 12 ==> short_id_spec(Some(id)) == id,
        short_id_spec(Some(id)) == id.take(short_id_spec(Some(id)).len() as int),
{
    let s = short_id_spec(Some(id));
    assert(s.take(s.len() as int) =~= s);
    assert(id.len() >= 12 ==> id.take(12).len() == 12);
    assert(id.len() <= 12 ==> id.take(id.len() as int) =~= id);
}

/// A display name never starts with a slash.
pub proof fn law_display_name_unslashed(names: Option<Seq<String>>)
    ensures
        display_name_spec(names).len() > 0 ==> display_name_spec(names)[0] != '/',
{
    match names {
        Some(ns) => {
            if ns.len() > 0 {
                lemma_strip_leading_head(ns[0]@, '/');
            }
        },
        None => {},
    }
}

proof fn lemma_strip_leading_head(s: Seq<char>, c: char)
    ensures
        strip_leading(s, c).len() > 0 ==> strip_leading(s, c)[0] != c,
    decreases s.len(),
{
    if s.len() > 0 && s[0] == c {
        lemma_strip_leading_head(s.drop_first(), c);
    }
}

} // verus!
