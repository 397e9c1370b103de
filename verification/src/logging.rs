//! Settings read from the environment, and the log file: flags, the log
//! level and format, where the log goes, when it is rotated, and how a line
//! of it reads; also where the workspace monitor watches.
use crate::config::{joined_path, path_join};
use crate::text::{
    all_ascii_digits_value, chars_of, decimal_value, eq_ignore_case, has_prefix, is_ascii_digit, opt_text, str_eq,
    str_eq_ignore_case, string_of, trim_str, trimmed,
};
use vstd::prelude::*;
use vstd::string::*;

verus! {

// ---------------------------------------------------------------------------
// Flags
// ---------------------------------------------------------------------------

/// A flag that is off unless set to `1`, `true` or `yes` (any ASCII case).
pub open spec fn flag_on(v: Option<Seq<char>>) -> bool {
    match v {
        Some(s) => s == "1"@ || eq_ignore_case(s, "true"@) || eq_ignore_case(s, "yes"@),
        None => false,
    }
}

/// A flag that is on unless set to `0`, `false` or `no` (any ASCII case).
pub open spec fn flag_not_off(v: Option<Seq<char>>) -> bool {
    match v {
        Some(s) => !(s == "0"@ || eq_ignore_case(s, "false"@) || eq_ignore_case(s, "no"@)),
        None => true,
    }
}

pub open spec fn opt_str(v: Option<&str>) -> Option<Seq<char>> {
    match v {
        Some(s) => Some(s@),
        None => None,
    }
}

/// Reads a flag that is off by default; `value` is the variable's value.
pub fn env_flag(value: Option<&str>) -> (b: bool)
    ensures
        b == flag_on(opt_str(value)),
{
    proof {
        reveal_strlit("1");
        reveal_strlit("true");
        reveal_strlit("yes");
    }
    match value {
        Some(v) => str_eq(v, "1") || str_eq_ignore_case(v, "true") || str_eq_ignore_case(v, "yes"),
        None => false,
    }
}

/// Reads a flag that is on by default; `value` is the variable's value.
pub fn env_flag_default_true(value: Option<&str>) -> (b: bool)
    ensures
        b == flag_not_off(opt_str(value)),
{
    proof {
        reveal_strlit("0");
        reveal_strlit("false");
        reveal_strlit("no");
    }
    match value {
        Some(v) => !(str_eq(v, "0") || str_eq_ignore_case(v, "false") || str_eq_ignore_case(v, "no")),
        None => true,
    }
}

/// The log filter: `debug` in debug mode, `info` otherwise.
pub fn default_log_filter(debug_mode: bool) -> (s: &'static str)
    ensures
        s@ == (if debug_mode {
            "debug"@
        } else {
            "info"@
        }),
{
    proof {
        reveal_strlit("debug");
        reveal_strlit("info");
    }
    if debug_mode {
        "debug"
    } else {
        "info"
    }
}

/// Whether log lines are written as JSON: the format variable says `json`
/// in any ASCII case.
pub fn json_log_format(value: Option<&str>) -> (b: bool)
    ensures
        b == match opt_str(value) {
            Some(s) => eq_ignore_case(s, "json"@),
            None => false,
        },
{
    proof {
        reveal_strlit("json");
    }
    match value {
        Some(v) => str_eq_ignore_case(v, "json"),
        None => false,
    }
}

// ---------------------------------------------------------------------------
// Rotation
// ---------------------------------------------------------------------------

/// The size at which the log is rotated unless configured: five mebibytes.
pub const DEFAULT_LOG_MAX_BYTES: u64 = 5242880;

/// `str::parse::<u64>`: an optional `+`, then digits, the value fitting.
pub open spec fn parses_u64(s: Seq<char>) -> Option<nat> {
    let d = if s.len() > 0 && s[0] == '+' {
        s.drop_first()
    } else {
        s
    };
    match all_ascii_digits_value(d) {
        Some(v) => if v <= u64::MAX {
            Some(v)
        } else {
            None
        },
        None => None,
    }
}

/// `str::parse::<u64>`.
pub fn parse_u64(s: &str) -> (r: Option<u64>)
    ensures
        match parses_u64(s@) {
            Some(v) => r == Some(v as u64),
            None => r is None,
        },
{
    let v = chars_of(s);
    let start: usize = if v.len() > 0 && v[0] == '+' {
        1
    } else {
        0
    };
    let ghost d = v@.subrange(start as int, v@.len() as int);
    proof {
        if v@.len() > 0 && v@[0] == '+' {
            assert(d == v@.drop_first());
        } else {
            assert(d == v@);
        }
    }
    if start >= v.len() {
        return None;
    }
    // the value, held at `cap` once it passes what a u64 can hold
    let cap: u128 = 0x1_0000_0000_0000_0000;
    let mut acc: u128 = 0;
    let mut i: usize = start;
    proof {
        assert(v@.subrange(start as int, start as int).len() == 0);
    }
    while i < v.len()
        invariant
            start <= i <= v.len(),
            start < v.len(),
            d == v@.subrange(start as int, v@.len() as int),
            v@ == s@,
            d == (if v@.len() > 0 && v@[0] == '+' {
                v@.drop_first()
            } else {
                v@
            }),
            cap == 0x1_0000_0000_0000_0000u128,
            forall|j: int| start <= j < i ==> is_ascii_digit(#[trigger] v@[j]),
            acc == (if decimal_value(v@.subrange(start as int, i as int)) <= cap {
                decimal_value(v@.subrange(start as int, i as int))
            } else {
                cap as nat
            }),
        decreases v.len() - i,
    {
        let c = v[i];
        let ghost p = v@.subrange(start as int, i as int + 1);
        proof {
            assert(p.drop_last() == v@.subrange(start as int, i as int));
            assert(p.last() == c);
        }
        if !('0' <= c && c <= '9') {
            proof {
                assert(d[i - start] == c);
                assert(!is_ascii_digit(d[i - start]));
            }
            return None;
        }
        let digit = (c as u32 - '0' as u32) as u128;
        let next = acc * 10 + digit;
        acc = if next > cap {
            cap
        } else {
            next
        };
        i += 1;
    }
    proof {
        assert(v@.subrange(start as int, v@.len() as int) == d);
        assert(all_ascii_digits_value(d) == Some(decimal_value(d)));
    }
    if acc >= cap {
        None
    } else {
        Some(acc as u64)
    }
}

/// The size at which the log is rotated: the configured number, else the
/// default.
pub fn log_max_bytes(value: Option<&str>) -> (n: u64)
    ensures
        n == match opt_str(value) {
            Some(s) => match parses_u64(s) {
                Some(v) => v as u64,
                None => DEFAULT_LOG_MAX_BYTES,
            },
            None => DEFAULT_LOG_MAX_BYTES,
        },
{
    match value {
        Some(v) => match parse_u64(v) {
            Some(x) => x,
            None => DEFAULT_LOG_MAX_BYTES,
        },
        None => DEFAULT_LOG_MAX_BYTES,
    }
}

/// Whether the log is moved aside before writing: it exists and has
/// reached the limit (`size` is `None` when there is no log yet).
pub fn needs_rotation(size: Option<u64>, max_bytes: u64) -> (b: bool)
    ensures
        b == (size matches Some(s) && s >= max_bytes),
{
    match size {
        Some(s) => s >= max_bytes,
        None => false,
    }
}

/// Where a rotated log goes: the log's path with `.1` appended.
pub fn rotated_log_path(path: &str) -> (s: String)
    ensures
        s@ == path@ + ".1"@,
{
    let mut s = String::from_str(path);
    s.append(".1");
    s
}

/// Where the log is written: the path the variable gives (trimmed) when it
/// is not blank, else `mentalOS/logs/mentalOS.log` under the user's state
/// directory, else `/tmp/mentalOS.log`.
pub open spec fn log_location(configured: Option<Seq<char>>, state_dir: Option<Seq<char>>) -> Seq<char> {
    let from_var = match configured {
        Some(p) => if trimmed(p).len() > 0 {
            Some(trimmed(p))
        } else {
            None
        },
        None => None,
    };
    match from_var {
        Some(p) => p,
        None => match state_dir {
            Some(d) => joined_path(joined_path(joined_path(d, "mentalOS"@), "logs"@), "mentalOS.log"@),
            None => "/tmp/mentalOS.log"@,
        },
    }
}

/// Where the log is written; see `log_location`.
pub fn log_file_path(configured: Option<&str>, state_dir: Option<&str>) -> (s: String)
    ensures
        s@ == log_location(opt_str(configured), opt_str(state_dir)),
{
    proof {
        reveal_strlit("mentalOS");
        reveal_strlit("logs");
        reveal_strlit("mentalOS.log");
        reveal_strlit("/tmp/mentalOS.log");
    }
    match configured {
        Some(p) => {
            let t = trim_str(p);
            if !t.as_str().is_empty() {
                return t;
            }
        },
        None => {},
    }
    match state_dir {
        Some(d) => {
            let a = path_join(d, "mentalOS");
            let b = path_join(a.as_str(), "logs");
            path_join(b.as_str(), "mentalOS.log")
        },
        None => String::from_str("/tmp/mentalOS.log"),
    }
}

/// One line of the text log: `[time level target] message`.
pub fn log_line(timestamp: &str, level: &str, target: &str, message: &str) -> (s: String)
    ensures
        s@ == "["@ + timestamp@ + " "@ + level@ + " "@ + target@ + "] "@ + message@,
{
    let mut s = String::from_str("[");
    s.append(timestamp);
    s.append(" ");
    s.append(level);
    s.append(" ");
    s.append(target);
    s.append("] ");
    s.append(message);
    s
}

// ---------------------------------------------------------------------------
// Paths from the environment
// ---------------------------------------------------------------------------

/// The directory the workspace monitor watches: the one the variable names,
/// else `workspaces` in the home directory, else `/home/user/workspaces`.
pub fn resolve_workspace_dir(configured: Option<&str>, home: Option<&str>) -> (s: String)
    ensures
        s@ == match opt_str(configured) {
            Some(d) => d,
            None => match opt_str(home) {
                Some(h) => joined_path(h, "workspaces"@),
                None => "/home/user/workspaces"@,
            },
        },
{
    proof {
        reveal_strlit("workspaces");
        reveal_strlit("/home/user/workspaces");
    }
    match configured {
        Some(d) => String::from_str(d),
        None => match home {
            Some(h) => path_join(h, "workspaces"),
            None => String::from_str("/home/user/workspaces"),
        },
    }
}

/// A path whose `~/` prefix is replaced by the home directory (when there is
/// one); any other path as it is.
pub open spec fn home_expanded(path: Seq<char>, home: Option<Seq<char>>) -> Seq<char> {
    if has_prefix(path, "~/"@) && home is Some {
        joined_path(home.unwrap(), path.subrange(2, path.len() as int))
    } else {
        path
    }
}

/// Expands a leading `~/` with the given home directory.
pub fn expand_home_path(path: &str, home: Option<&str>) -> (s: String)
    ensures
        s@ == home_expanded(path@, opt_str(home)),
{
    let p = chars_of(path);
    let prefix = chars_of("~/");
    proof {
        reveal_strlit("~/");
    }
    if crate::text::starts_with(&p, &prefix) {
        match home {
            Some(h) => {
                let rest = crate::text::sub_chars(&p, 2, p.len());
                return path_join(h, string_of(&rest).as_str());
            },
            None => {},
        }
    }
    String::from_str(path)
}

/// The directory of the gateway's log: `.local/share/mentalOS/logs` under
/// the home directory, or under `/tmp` when there is none.
pub open spec fn gateway_log_dir(home: Option<Seq<char>>) -> Seq<char> {
    let base = match home {
        Some(h) => h,
        None => "/tmp"@,
    };
    joined_path(joined_path(joined_path(joined_path(base, ".local"@), "share"@), "mentalOS"@), "logs"@)
}

/// The directory of the gateway's log; see `gateway_log_dir`.
pub fn default_log_path(home: Option<&str>) -> (s: String)
    ensures
        s@ == gateway_log_dir(opt_str(home)),
{
    proof {
        reveal_strlit("/tmp");
        reveal_strlit(".local");
        reveal_strlit("share");
        reveal_strlit("mentalOS");
        reveal_strlit("logs");
    }
    let base = match home {
        Some(h) => String::from_str(h),
        None => String::from_str("/tmp"),
    };
    let a = path_join(base.as_str(), ".local");
    let b = path_join(a.as_str(), "share");
    let c = path_join(b.as_str(), "mentalOS");
    path_join(c.as_str(), "logs")
}

} // verus!
