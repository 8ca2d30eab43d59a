//! Configuration decisions: the per-event timeout, the verbose flag,
//! the log level, and the candidate install locations of the backend
//! executable. Each takes the externally supplied value as a plain
//! argument; reading the environment is the caller's business.

use vstd::prelude::*;
use vstd::string::StringExecFns;

use crate::text::{parse_u64_dec, parsed_u64};

verus! {

/// The per-event timeout used when no valid override is supplied.
pub const DEFAULT_EVENT_TIMEOUT_SECS: u64 = 120;

/// The per-event timeout, in seconds, for a configured value: the
/// parsed number when the value is a decimal number in range, the
/// default when the value is absent or unparsable.
pub open spec fn timeout_secs_of(v: Option<Seq<char>>) -> u64 {
    match v {
        Some(s) => match parsed_u64(s) {
            Some(n) => n,
            None => DEFAULT_EVENT_TIMEOUT_SECS,
        },
        None => DEFAULT_EVENT_TIMEOUT_SECS,
    }
}

/// Decides the per-event timeout from the configured value, if any.
pub fn event_timeout_secs(v: Option<&str>) -> (r: u64)
    ensures
        (match v {
            Some(s) => r == timeout_secs_of(Some(s@)),
            None => r == timeout_secs_of(None),
        }),
{
    match v {
        Some(s) => match parse_u64_dec(s) {
            Some(n) => n,
            None => DEFAULT_EVENT_TIMEOUT_SECS,
        },
        None => DEFAULT_EVENT_TIMEOUT_SECS,
    }
}

/// `c` with an ASCII uppercase letter folded to lowercase.
pub open spec fn lower_char(c: char) -> char {
    if 65 <= (c as u32) <= 90 {
        (((c as u32) + 32) as char)
    } else {
        c
    }
}

/// Whether two texts are equal up to ASCII letter case.
pub open spec fn ascii_eq_icase(a: Seq<char>, b: Seq<char>) -> bool {
    a.len() == b.len() && forall|i: int|
        0 <= i < a.len() ==> lower_char(#[trigger] a[i]) == lower_char(b[i])
}

fn char_eq_icase(a: char, b: char) -> (r: bool)
    ensures
        r == (lower_char(a) == lower_char(b)),
{
    let au = a as u32;
    let bu = b as u32;
    let al: u32 = if au >= 65 && au <= 90 {
        au + 32
    } else {
        au
    };
    let bl: u32 = if bu >= 65 && bu <= 90 {
        bu + 32
    } else {
        bu
    };
    al == bl
}

/// Compares two strings up to ASCII letter case.
pub fn str_eq_icase(a: &str, b: &str) -> (r: bool)
    ensures
        r == ascii_eq_icase(a@, b@),
{
    let alen = a.unicode_len();
    let blen = b.unicode_len();
    if alen != blen {
        return false;
    }
    let mut i: usize = 0;
    while i < alen
        invariant
            0 <= i <= alen,
            alen == a@.len(),
            alen == b@.len(),
            forall|m: int| 0 <= m < i ==> lower_char(#[trigger] a@[m]) == lower_char(b@[m]),
        decreases alen - i,
    {
        if !char_eq_icase(a.get_char(i), b.get_char(i)) {
            return false;
        }
        i = i + 1;
    }
    true
}

/// Whether a configured value asks for verbose output.
pub open spec fn verbose_of(v: Option<Seq<char>>) -> bool {
    match v {
        Some(s) => ascii_eq_icase(s, "1"@) || ascii_eq_icase(s, "true"@) || ascii_eq_icase(
            s,
            "debug"@,
        ) || ascii_eq_icase(s, "trace"@),
        None => false,
    }
}

/// Decides whether verbose output is enabled from the configured value.
pub fn verbose_enabled(v: Option<&str>) -> (r: bool)
    ensures
        (match v {
            Some(s) => r == verbose_of(Some(s@)),
            None => r == verbose_of(None),
        }),
{
    match v {
        Some(s) => str_eq_icase(s, "1") || str_eq_icase(s, "true") || str_eq_icase(s, "debug")
            || str_eq_icase(s, "trace"),
        None => false,
    }
}

/// How much the logging layer should record.
#[derive(Clone, Copy, Debug, PartialEq, Eq, Structural)]
pub enum LogLevel {
    Trace,
    Debug,
    Info,
}

/// The log level a configured value asks for: everything for "trace",
/// debug detail for the verbose values, the ordinary level otherwise.
pub open spec fn log_level_of(v: Option<Seq<char>>) -> LogLevel {
    match v {
        Some(s) => if ascii_eq_icase(s, "trace"@) {
            LogLevel::Trace
        } else if ascii_eq_icase(s, "1"@) || ascii_eq_icase(s, "true"@) || ascii_eq_icase(
            s,
            "debug"@,
        ) {
            LogLevel::Debug
        } else {
            LogLevel::Info
        },
        None => LogLevel::Info,
    }
}

/// Decides the log level from the configured value.
pub fn log_level_for(v: Option<&str>) -> (r: LogLevel)
    ensures
        (match v {
            Some(s) => r == log_level_of(Some(s@)),
            None => r == log_level_of(None),
        }),
{
    match v {
        Some(s) => if str_eq_icase(s, "trace") {
            LogLevel::Trace
        } else if str_eq_icase(s, "1") || str_eq_icase(s, "true") || str_eq_icase(s, "debug") {
            LogLevel::Debug
        } else {
            LogLevel::Info
        },
        None => LogLevel::Info,
    }
}

/// The fixed install locations searched for the backend executable,
/// followed by the per-user locations when the home directory is known,
/// in search order.
pub open spec fn cli_candidates_of(home: Option<Seq<char>>) -> Seq<Seq<char>> {
    let fixed = seq![
        "/opt/homebrew/bin/copilot"@,
        "/usr/local/bin/copilot"@,
        "/usr/bin/copilot"@,
        "/snap/bin/copilot"@,
    ];
    match home {
        Some(h) => fixed + seq![
            h + "/.local/bin/copilot"@,
            h + "/.cargo/bin/copilot"@,
            h + "/bin/copilot"@,
        ],
        None => fixed,
    }
}

/// Builds the ordered list of candidate paths for the backend
/// executable; the caller probes them for an existing file.
pub fn cli_candidate_paths(home: Option<&str>) -> (r: Vec<String>)
    ensures
        (match home {
            Some(h) => r.deep_view() == cli_candidates_of(Some(h@)),
            None => r.deep_view() == cli_candidates_of(None),
        }),
{
    let mut r: Vec<String> = Vec::new();
    r.push(String::from_str("/opt/homebrew/bin/copilot"));
    r.push(String::from_str("/usr/local/bin/copilot"));
    r.push(String::from_str("/usr/bin/copilot"));
    r.push(String::from_str("/snap/bin/copilot"));
    match home {
        Some(h) => {
            r.push(String::from_str(h).concat("/.local/bin/copilot"));
            r.push(String::from_str(h).concat("/.cargo/bin/copilot"));
            r.push(String::from_str(h).concat("/bin/copilot"));
            proof {
                assert(r.deep_view() =~= cli_candidates_of(Some(h@)));
            }
        },
        None => {
            proof {
                assert(r.deep_view() =~= cli_candidates_of(None::<Seq<char>>));
            }
        },
    }
    r
}

} // verus!
