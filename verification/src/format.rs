//! Text of the test target's samples: a SYSTEMTIME as
//! "YYYY-MM-DD hh:mm:ss.mmm", and a FILETIME shown through its SYSTEMTIME.

use vstd::prelude::*;
use crate::text::{decimal, padded_decimal, push_char, push_decimal, push_padded_decimal};
use crate::ticks::{FileTime, SystemTime, filetime_count};

verus! {

/// "YYYY-MM-DD hh:mm:ss.mmm", each field zero-padded (year to 4 digits,
/// milliseconds to 3, the others to 2).
pub open spec fn spec_fmt_systemtime(st: SystemTime) -> Seq<char> {
    padded_decimal(st.year as nat, 4) + "-"@ + padded_decimal(st.month as nat, 2) + "-"@
        + padded_decimal(st.day as nat, 2) + " "@ + padded_decimal(st.hour as nat, 2) + ":"@
        + padded_decimal(st.minute as nat, 2) + ":"@ + padded_decimal(st.second as nat, 2) + "."@
        + padded_decimal(st.milliseconds as nat, 3)
}

/// Formats a SYSTEMTIME as "YYYY-MM-DD hh:mm:ss.mmm".
pub fn fmt_systemtime(st: &SystemTime) -> (s: String)
    ensures
        s@ == spec_fmt_systemtime(*st),
{
    proof {
        reveal_strlit("-");
        reveal_strlit(" ");
        reveal_strlit(":");
        reveal_strlit(".");
    }
    let mut s = String::new();
    push_padded_decimal(&mut s, st.year as u64, 4);
    push_char(&mut s, '-');
    push_padded_decimal(&mut s, st.month as u64, 2);
    push_char(&mut s, '-');
    push_padded_decimal(&mut s, st.day as u64, 2);
    push_char(&mut s, ' ');
    push_padded_decimal(&mut s, st.hour as u64, 2);
    push_char(&mut s, ':');
    push_padded_decimal(&mut s, st.minute as u64, 2);
    push_char(&mut s, ':');
    push_padded_decimal(&mut s, st.second as u64, 2);
    push_char(&mut s, '.');
    push_padded_decimal(&mut s, st.milliseconds as u64, 3);
    assert(s@ =~= spec_fmt_systemtime(*st));
    s
}

/// A FILETIME as the test target prints it: "UTC   " and its SYSTEMTIME
/// when the conversion succeeded, else its raw 64-bit count.
pub open spec fn spec_fmt_filetime(ft: FileTime, converted: Option<SystemTime>) -> Seq<char> {
    match converted {
        Some(st) => "UTC   "@ + spec_fmt_systemtime(st),
        None => "(raw "@ + decimal(filetime_count(ft) as nat) + "; FileTimeToSystemTime failed)"@,
    }
}

/// Formats a FILETIME given the outcome of converting it to a SYSTEMTIME.
pub fn fmt_filetime_as_systemtime(ft: &FileTime, converted: Option<SystemTime>) -> (s: String)
    ensures
        s@ == spec_fmt_filetime(*ft, converted),
{
    match converted {
        Some(st) => {
            let mut s = String::from_str("UTC   ");
            let body = fmt_systemtime(&st);
            s.append(body.as_str());
            s
        },
        None => {
            let raw: u64 = ft.high_date_time as u64 * 0x1_0000_0000 + ft.low_date_time as u64;
            let mut s = String::from_str("(raw ");
            push_decimal(&mut s, raw);
            s.append("; FileTimeToSystemTime failed)");
            s
        },
    }
}

} // verus!
