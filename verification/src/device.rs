//! The proving device's side of the protocol: connecting with retries,
//! the subscription and submission it sends, what it reads from the pool,
//! and the host name it reports by default.

use vstd::prelude::*;
use crate::json::{all_plain, json_array_text, json_string_list, read_string_list, strings_view};

verus! {

/// How many failed connection attempts the device makes before it gives up.
pub const MAX_CONNECT_ATTEMPTS: u32 = 30;

/// What to do after a failed connection attempt.
#[derive(Debug, PartialEq, Eq, Structural)]
pub enum RetryDecision {
    /// Wait a second and try again.
    Retry,
    /// Stop trying.
    GiveUp,
}

/// The count of failed connection attempts.
pub struct ConnectRetry {
    failures: u32,
}

impl ConnectRetry {
    /// The failed attempts so far.
    pub closed spec fn spec_failures(&self) -> u32 {
        self.failures
    }

    /// No attempt failed yet.
    pub fn new() -> (r: ConnectRetry)
        ensures
            r.spec_failures() == 0,
    {
        ConnectRetry { failures: 0 }
    }

    /// An attempt failed: the device tries again until the
    /// `MAX_CONNECT_ATTEMPTS`-th failure, and gives up there.
    pub fn on_failure(&mut self) -> (d: RetryDecision)
        requires
            old(self).spec_failures() < MAX_CONNECT_ATTEMPTS,
        ensures
            final(self).spec_failures() == old(self).spec_failures() + 1,
            d == (if final(self).spec_failures() >= MAX_CONNECT_ATTEMPTS {
                RetryDecision::GiveUp
            } else {
                RetryDecision::Retry
            }),
    {
        self.failures = self.failures + 1;
        if self.failures >= MAX_CONNECT_ATTEMPTS {
            RetryDecision::GiveUp
        } else {
            RetryDecision::Retry
        }
    }
}

/// The protocol the device speaks.
pub open spec fn protocol_text() -> Seq<char> {
    "AleoStratum-1.0.0"@
}

/// The host name reported when none can be read.
pub open spec fn unknown_host() -> Seq<char> {
    "unknown"@
}

/// The bytes of `s` before its first zero byte (all of them when there is none).
pub open spec fn until_nul(s: Seq<u8>) -> Seq<u8>
    decreases s.len(),
{
    if s.len() == 0 {
        s
    } else if s[0] == 0 {
        Seq::<u8>::empty()
    } else {
        seq![s[0]] + until_nul(s.drop_first())
    }
}

/// What `String::from_utf8` gives for `bytes`: `Some` of the text when the
/// bytes are UTF-8, `None` otherwise.
pub uninterp spec fn utf8_text(bytes: Seq<u8>) -> Option<Seq<char>>;

#[verifier::external_type_specification]
#[verifier::external_body]
pub struct ExFromUtf8Error(std::string::FromUtf8Error);

/// Calls `String::from_utf8` on `bytes`. Claimed: the result is `Ok`
/// exactly when the name `utf8_text` gives `Some` for `bytes`, and then
/// holds that text.
#[verifier::external_body]
fn string_from_utf8(bytes: Vec<u8>) -> (r: Result<String, std::string::FromUtf8Error>)
    ensures
        match r {
            Ok(s) => utf8_text(bytes@) == Some(s@),
            Err(_) => utf8_text(bytes@) is None,
        },
{
    String::from_utf8(bytes)
}

/// The host name from the answer of the system call: `status` is its
/// result and `buffer` the bytes it filled. A failed call, or bytes that are
/// no UTF-8 text, give `unknown`; otherwise the text before the first zero
/// byte.
pub fn hostname_from_buffer(status: i32, buffer: Vec<u8>) -> (r: String)
    ensures
        status != 0 ==> r@ == unknown_host(),
        status == 0 ==> r@ == match utf8_text(until_nul(buffer@)) {
            Some(t) => t,
            None => unknown_host(),
        },
{
    if status != 0 {
        return String::from_str("unknown");
    }
    let mut bytes = buffer;
    let len = bytes.len();
    let mut end: usize = 0;
    while end < len && bytes[end] != 0
        invariant
            end <= len == bytes@.len(),
            forall|j: int| 0 <= j < end ==> bytes@[j] != 0,
        decreases len - end,
    {
        end = end + 1;
    }
    proof {
        lemma_until_nul_prefix(bytes@, end as int);
    }
    bytes.truncate(end);
    match string_from_utf8(bytes) {
        Ok(s) => s,
        Err(_) => String::from_str("unknown"),
    }
}

/// What `String::from_utf16` gives for `units`: `Some` of the text when the
/// units are UTF-16, `None` otherwise.
pub uninterp spec fn utf16_text(units: Seq<u16>) -> Option<Seq<char>>;

#[verifier::external_type_specification]
#[verifier::external_body]
pub struct ExFromUtf16Error(std::string::FromUtf16Error);

/// Calls `String::from_utf16` on `units`. Claimed: the result is `Ok`
/// exactly when the name `utf16_text` gives `Some` for `units`, and then
/// holds that text.
#[verifier::external_body]
fn string_from_utf16(units: &[u16]) -> (r: Result<String, std::string::FromUtf16Error>)
    ensures
        match r {
            Ok(s) => utf16_text(units@) == Some(s@),
            Err(_) => utf16_text(units@) is None,
        },
{
    String::from_utf16(units)
}

/// The host name from the answer of the wide-character system call:
/// `succeeded` is its result (non-zero on success) and `buffer` the units it
/// wrote. A failed call, or units that are no UTF-16 text, give `unknown`;
/// otherwise the text of the units.
pub fn hostname_from_wide(succeeded: i32, buffer: Vec<u16>) -> (r: String)
    ensures
        succeeded == 0 ==> r@ == unknown_host(),
        succeeded != 0 ==> r@ == match utf16_text(buffer@) {
            Some(t) => t,
            None => unknown_host(),
        },
{
    if succeeded == 0 {
        return String::from_str("unknown");
    }
    match string_from_utf16(buffer.as_slice()) {
        Ok(s) => s,
        Err(_) => String::from_str("unknown"),
    }
}

/// When the first zero byte of `s` is at `end` (or there is none and `end`
/// is its length), the bytes before it are the first `end` ones.
pub proof fn lemma_until_nul_prefix(s: Seq<u8>, end: int)
    requires
        0 <= end <= s.len(),
        forall|j: int| 0 <= j < end ==> s[j] != 0,
        end == s.len() || s[end] == 0,
    ensures
        until_nul(s) == s.subrange(0, end),
    decreases s.len(),
{
    if s.len() == 0 {
        assert(s.subrange(0, end) =~= s);
    } else if end == 0 {
        assert(s.subrange(0, end) =~= Seq::<u8>::empty());
    } else {
        let t = s.drop_first();
        assert forall|j: int| 0 <= j < end - 1 implies t[j] != 0 by {
            assert(t[j] == s[j + 1]);
        }
        lemma_until_nul_prefix(t, end - 1);
        assert(seq![s[0]] + t.subrange(0, end - 1) =~= s.subrange(0, end));
    }
}

/// The device's plain values: the worker it proves for.
#[derive(Clone)]
pub struct Device {
    workername: String,
    apikey: String,
}

impl Device {
    /// The worker: `(workername, apikey)`.
    pub closed spec fn worker(&self) -> (Seq<char>, Seq<char>) {
        (self.workername@, self.apikey@)
    }

    /// A device proving for `workername` with `apikey`.
    pub fn new(workername: String, apikey: String) -> (d: Device)
        ensures
            d.worker() == (workername@, apikey@),
    {
        Device { workername, apikey }
    }

    /// The agent name of the device: `<package>-<version>`.
    pub fn agent(package: &str, version: &str) -> (r: String)
        ensures
            r@ == package@ + "-"@ + version@,
    {
        let mut r = String::from_str(package);
        r.append("-");
        r.append(version);
        r
    }

    /// The parameters of the subscription: agent, protocol, workername, apikey.
    pub fn subscribe_params(&self, agent: String) -> (r: Vec<String>)
        ensures
            strings_view(r@) == seq![agent@, protocol_text(), self.worker().0, self.worker().1],
    {
        let mut r: Vec<String> = Vec::new();
        r.push(agent);
        r.push(String::from_str("AleoStratum-1.0.0"));
        r.push(self.workername.clone());
        r.push(self.apikey.clone());
        assert(strings_view(r@) =~= seq![
            r@[0]@,
            protocol_text(),
            self.worker().0,
            self.worker().1,
        ]);
        r
    }

    /// The parameters of a submission: workername, apikey, proofs made.
    pub fn submit_params(&self, prove_count: u32) -> (r: (String, String, u32))
        ensures
            (r.0@, r.1@) == self.worker(),
            r.2 == prove_count,
    {
        (self.workername.clone(), self.apikey.clone(), prove_count)
    }

    /// Whether the pool took a submission: its answer, or `false` when
    /// there was none.
    pub fn submit_accepted(reply: Option<bool>) -> (ok: bool)
        ensures
            ok == (reply == Some(true)),
    {
        match reply {
            Some(b) => b,
            None => false,
        }
    }

    /// Reads a message from the pool, a JSON array of strings. A message
    /// that is no such array reads as empty; an empty one is refused.
    pub fn parse_message_to_miner(&self, msg: &str) -> (r: Option<Vec<String>>)
        ensures
            match json_string_list(msg@) {
                Some(l) => if l.len() > 0 {
                    r is Some && strings_view(r->Some_0@) == l
                } else {
                    r is None
                },
                None => r is None,
            },
            forall|items: Seq<Seq<char>>| #[trigger] json_array_text(items) == msg@ && all_plain(
                items,
            ) && items.len() > 0 ==> r is Some && strings_view(r->Some_0@) == items,
    {
        match read_string_list(msg) {
            Ok(v) => {
                if v.len() < 1 {
                    None
                } else {
                    Some(v)
                }
            },
            Err(_) => None,
        }
    }
}

} // verus!
