//! Rendering of ages and readiness ratios.

use vstd::prelude::*;
use vstd::string::StringExecFns;

use crate::text::{dec_seq, i64_to_string, int_seq};

verus! {

/// The rendered age of something created `created` and observed at
/// `now`, both in seconds since the Unix epoch: the whole number of
/// days, else hours, else minutes, else seconds, with a unit suffix.
pub open spec fn age_seq(created: int, now: int) -> Seq<char> {
    let d = now - created;
    if d >= 86400 {
        dec_seq(d / 86400) + "d"@
    } else if d >= 3600 {
        dec_seq(d / 3600) + "h"@
    } else if d >= 60 {
        dec_seq(d / 60) + "m"@
    } else {
        int_seq(d) + "s"@
    }
}

/// Render a creation instant as a relative age ("5d", "3h", "10m",
/// "45s"), or "Unknown" where none was observed.
pub fn format_age(created: Option<i64>, now: i64) -> (r: String)
    requires
        created is Some ==> i64::MIN <= now - created.unwrap() <= i64::MAX,
    ensures
        r@ == match created {
            Some(c) => age_seq(c as int, now as int),
            None => "Unknown"@,
        },
{
    match created {
        None => "Unknown".to_owned(),
        Some(c) => {
            let d: i64 = now - c;
            if d >= 86400 {
                let q = ((d as u64) / 86400) as i64;
                let mut s = i64_to_string(q);
                s.append("d");
                s
            } else if d >= 3600 {
                let q = ((d as u64) / 3600) as i64;
                let mut s = i64_to_string(q);
                s.append("h");
                s
            } else if d >= 60 {
                let q = ((d as u64) / 60) as i64;
                let mut s = i64_to_string(q);
                s.append("m");
                s
            } else {
                let mut s = i64_to_string(d);
                s.append("s");
                s
            }
        },
    }
}

/// The readiness ratio text `ready/total`.
pub open spec fn ratio_seq(a: int, b: int) -> Seq<char> {
    int_seq(a) + "/"@ + int_seq(b)
}

/// Render the readiness ratio of two replica counts.
pub fn ready_ratio(a: i32, b: i32) -> (r: String)
    ensures
        r@ == ratio_seq(a as int, b as int),
{
    let mut s = i64_to_string(a as i64);
    s.append("/");
    let t = i64_to_string(b as i64);
    s.append(t.as_str());
    s
}

/// Render the readiness ratio of two counts.
pub fn count_ratio(a: usize, b: usize) -> (r: String)
    ensures
        r@ == ratio_seq(a as int, b as int),
{
    let mut s = i64_to_string_usize(a);
    s.append("/");
    let t = i64_to_string_usize(b);
    s.append(t.as_str());
    s
}

/// Render a count in decimal.
fn i64_to_string_usize(n: usize) -> (r: String)
    ensures
        r@ == int_seq(n as int),
{
    let mut s = String::new();
    crate::text::push_dec_usize(&mut s, n);
    s
}

} // verus!
