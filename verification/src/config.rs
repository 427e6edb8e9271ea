//! Start-up settings of the master and the secondaries, derived from what
//! the environment provides.

use vstd::prelude::*;
use vstd::string::*;
use crate::text::{concat_strs, decimal, parse_u16, parse_u16_spec, push_char, push_decimal};

verus! {

/// The port a secondary listens on when none is configured.
pub const DEFAULT_PORT: u16 = 4000;

/// An optional setting's value, or `default` where it is not set.
pub open spec fn setting_or(value: Option<String>, default: Seq<char>) -> Seq<char> {
    match value {
        Some(v) => v@,
        None => default,
    }
}

/// An optional setting's value, or `default` where it is not set.
pub fn or_default(value: Option<String>, default: &str) -> (r: String)
    ensures
        r@ == setting_or(value, default@),
{
    match value {
        Some(v) => v,
        None => String::from_str(default),
    }
}

/// Where the store is, given the `REDIS_URL` setting: a local store by
/// default.
pub fn store_url(configured: Option<String>) -> (r: String)
    ensures
        r@ == setting_or(configured, "redis://127.0.0.1:6379"@),
{
    or_default(configured, "redis://127.0.0.1:6379")
}

/// Where a spawned secondary finds the store, given the master's
/// `REDIS_URL` setting: the `redis` service by default.
pub fn spawned_store_url(configured: Option<String>) -> (r: String)
    ensures
        r@ == setting_or(configured, "redis://redis:6379"@),
{
    or_default(configured, "redis://redis:6379")
}

/// Where the master is, given the `MASTER_URL` setting of a secondary or the
/// master's own `SELF_URL`: the `master` service by default.
pub fn master_url(configured: Option<String>) -> (r: String)
    ensures
        r@ == setting_or(configured, "http://master:3000"@),
{
    or_default(configured, "http://master:3000")
}

/// The port a secondary listens on, given the `PORT` setting: the setting
/// where it is a valid port number, `DEFAULT_PORT` otherwise.
pub fn listen_port(configured: &Option<String>) -> (r: u16)
    ensures
        r == (match *configured {
            Some(v) => match parse_u16_spec(v@) {
                Some(p) => p,
                None => DEFAULT_PORT,
            },
            None => DEFAULT_PORT,
        }),
{
    match configured {
        Some(v) => match parse_u16(v.as_str()) {
            Some(p) => p,
            None => DEFAULT_PORT,
        },
        None => DEFAULT_PORT,
    }
}

/// A secondary's id: its host name (its short container id), or, outside a
/// container, `secondary-` followed by its process id.
pub fn secondary_id(hostname: Option<String>, pid: u32) -> (r: String)
    ensures
        r@ == (match hostname {
            Some(h) => h@,
            None => "secondary-"@ + decimal(pid as nat),
        }),
{
    match hostname {
        Some(h) => h,
        None => {
            let mut id = String::from_str("secondary-");
            push_decimal(&mut id, pid as u64);
            id
        },
    }
}

/// The address at which other containers reach a secondary listening on
/// `port` at `ip`.
pub fn secondary_address(ip: &str, port: u16) -> (r: String)
    ensures
        r@ == "http://"@ + ip@ + seq![':'] + decimal(port as nat),
{
    let mut address = concat_strs("http://", ip);
    push_char(&mut address, ':');
    push_decimal(&mut address, port as u64);
    address
}

} // verus!
