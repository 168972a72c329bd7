//! Latency records and the measurement pipeline around them.
//!
//! Opening the connection and reading the clock belong to the caller; what a
//! probe came to is handed in as `Ok(elapsed milliseconds)` or `Err(reason)`.
use vstd::prelude::*;
use vstd::string::*;
use crate::canonical::{canonical_address, canonicalize_http_address};

verus! {

/// A measured round trip to one address.
pub struct Latency {
    /// The canonical address that was requested.
    pub url: String,
    /// The time in milliseconds that the request took.
    pub latency_ms: i64,
}

/// The mathematical view of a `Latency`.
pub struct LatencyRecord {
    pub address: Seq<char>,
    pub latency_ms: int,
}

impl View for Latency {
    type V = LatencyRecord;

    open spec fn view(&self) -> LatencyRecord {
        LatencyRecord { address: self.url@, latency_ms: self.latency_ms as int }
    }
}

impl Latency {
    /// A latency is never negative.
    pub open spec fn wf(&self) -> bool {
        self.latency_ms >= 0
    }
}

pub open spec fn string_views(v: Seq<String>) -> Seq<Seq<char>> {
    v.map_values(|s: String| s@)
}

pub open spec fn latency_views(v: Seq<Latency>) -> Seq<LatencyRecord> {
    v.map_values(|l: Latency| l@)
}

/// The record that a probe of `address` yields: one where the request
/// completed in a non-negative number of milliseconds, none otherwise.
pub open spec fn record_of(address: Seq<char>, outcome: Result<i64, String>) -> Option<LatencyRecord> {
    match outcome {
        Ok(ms) => if ms >= 0 {
            Some(LatencyRecord { address, latency_ms: ms as int })
        } else {
            None
        },
        Err(_) => None,
    }
}

/// The records of the probes that succeeded, in the order of the addresses.
pub open spec fn records_of(addresses: Seq<Seq<char>>, outcomes: Seq<Result<i64, String>>) -> Seq<LatencyRecord>
    decreases addresses.len(),
{
    if addresses.len() == 0 {
        Seq::empty()
    } else {
        let n = addresses.len() - 1;
        let earlier = records_of(addresses.take(n), outcomes.take(n));
        match record_of(addresses[n], outcomes[n]) {
            Some(l) => earlier.push(l),
            None => earlier,
        }
    }
}

/// The canonical forms of the addresses that are not refused, in input order.
pub open spec fn canonical_all(raw: Seq<Seq<char>>) -> Seq<Seq<char>>
    decreases raw.len(),
{
    if raw.len() == 0 {
        Seq::empty()
    } else {
        let n = raw.len() - 1;
        let earlier = canonical_all(raw.take(n));
        match canonical_address(raw[n]) {
            Some(t) => earlier.push(t),
            None => earlier,
        }
    }
}

/// Packages the measured round trip to `s` as a latency record.
///
/// `elapsed_ms` is `Ok` with the milliseconds between the start of the request
/// and its response, or `Err` with the reason the transport failed. A failure
/// is handed back as it came; a negative elapsed time (the clock was set back
/// during the request) is refused.
pub fn record_latency(s: &String, elapsed_ms: Result<i64, String>) -> (r: Result<Latency, String>)
    ensures
        match r {
            Ok(l) => record_of(s@, elapsed_ms) == Some(l@) && l.wf(),
            Err(e) => record_of(s@, elapsed_ms) is None && (elapsed_ms matches Err(f) ==> e == f),
        },
{
    match elapsed_ms {
        Ok(ms) => if ms >= 0 {
            Ok(Latency { url: s.clone(), latency_ms: ms })
        } else {
            Err(String::from_str("the clock went backwards during the request"))
        },
        Err(e) => Err(e),
    }
}

/// The record of one probe of `site`, or `None` where it failed: a failed
/// probe is skipped, never fatal, and yields no more than one record.
pub fn get_latency(site: &String, elapsed_ms: Result<i64, String>) -> (r: Option<Latency>)
    ensures
        match r {
            Some(l) => record_of(site@, elapsed_ms) == Some(l@) && l.wf(),
            None => record_of(site@, elapsed_ms) is None,
        },
{
    match record_latency(site, elapsed_ms) {
        Ok(l) => Some(l),
        Err(_) => None,
    }
}

/// Canonicalizes each address, dropping those that are refused and keeping
/// the order of the rest.
pub fn canonical_addresses(raw: &Vec<String>) -> (r: Vec<String>)
    ensures
        string_views(r@) == canonical_all(string_views(raw@)),
{
    let mut out: Vec<String> = Vec::new();
    let mut i: usize = 0;
    while i < raw.len()
        invariant
            i <= raw@.len(),
            string_views(out@) == canonical_all(string_views(raw@).take(i as int)),
        decreases raw@.len() - i,
    {
        let ghost before = out@;
        let c = canonicalize_http_address(&raw[i]);
        proof {
            let all = string_views(raw@);
            assert(all.take(i + 1).take(i as int) == all.take(i as int));
            assert(all.take(i + 1)[i as int] == raw@[i as int]@);
        }
        match c {
            Some(t) => {
                out.push(t);
                assert(string_views(out@) == string_views(before).push(t@));
            },
            None => {},
        }
        i = i + 1;
    }
    assert(string_views(raw@).take(i as int) == string_views(raw@));
    out
}

/// Keeps the records of the probes that succeeded, in the order of the
/// addresses: `outcomes[i]` is what the probe of `addresses[i]` came to.
pub fn collect_latencies(addresses: &Vec<String>, outcomes: &Vec<Result<i64, String>>) -> (r: Vec<Latency>)
    requires
        addresses@.len() == outcomes@.len(),
    ensures
        latency_views(r@) == records_of(string_views(addresses@), outcomes@),
        r@.len() <= addresses@.len(),
        forall|i: int| 0 <= i < r@.len() ==> (#[trigger] r@[i]).wf(),
{
    let mut out: Vec<Latency> = Vec::new();
    let mut i: usize = 0;
    while i < addresses.len()
        invariant
            i <= addresses@.len(),
            addresses@.len() == outcomes@.len(),
            latency_views(out@) == records_of(string_views(addresses@).take(i as int), outcomes@.take(i as int)),
            out@.len() <= i,
            forall|j: int| 0 <= j < out@.len() ==> (#[trigger] out@[j]).wf(),
        decreases addresses@.len() - i,
    {
        let ghost before = out@;
        let outcome: Result<i64, String> = match &outcomes[i] {
            Ok(ms) => Ok(*ms),
            Err(e) => Err(e.clone()),
        };
        proof {
            let all = string_views(addresses@);
            assert(all.take(i + 1).take(i as int) == all.take(i as int));
            assert(outcomes@.take(i + 1).take(i as int) == outcomes@.take(i as int));
            assert(all.take(i + 1)[i as int] == addresses@[i as int]@);
            assert(outcomes@.take(i + 1)[i as int] == outcomes@[i as int]);
        }
        match get_latency(&addresses[i], outcome) {
            Some(l) => {
                out.push(l);
                assert(latency_views(out@) == latency_views(before).push(l@));
            },
            None => {},
        }
        i = i + 1;
    }
    assert(string_views(addresses@).take(i as int) == string_views(addresses@));
    assert(outcomes@.take(i as int) == outcomes@);
    out
}

} // verus!
