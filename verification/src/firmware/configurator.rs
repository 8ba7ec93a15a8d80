//! Reading the Wi-Fi credentials that arrive on the serial console as a line
//! `<WIFI_SSID>:::<WIFI_PSK>`.

use vstd::prelude::*;
use crate::text::{chars_of, trim, trimmed};

verus! {

broadcast use vstd::string::group_string_axioms;

/// `s` holds the separator `:::` starting at position `i`.
pub open spec fn separator_at(s: Seq<char>, i: int) -> bool {
    &&& 0 <= i
    &&& i + 3 <= s.len()
    &&& s[i] == ':'
    &&& s[i + 1] == ':'
    &&& s[i + 2] == ':'
}

/// The first position at or after `from` where the separator `:::` starts.
pub open spec fn find_separator(s: Seq<char>, from: int) -> Option<int>
    decreases s.len() - from,
{
    if from < 0 || from + 3 > s.len() {
        None
    } else if separator_at(s, from) {
        Some(from)
    } else {
        find_separator(s, from + 1)
    }
}

/// What the configurator reads from one console line: the line is trimmed and
/// split at `:::`; with at least two pieces, the first is the SSID and the
/// second the pre-shared key.
pub open spec fn credentials_of(line: Seq<char>) -> Option<(Seq<char>, Seq<char>)> {
    let t = trimmed(line);
    match find_separator(t, 0) {
        None => None,
        Some(i) => {
            let j = match find_separator(t, i + 3) {
                Some(j) => j,
                None => t.len() as int,
            };
            Some((t.subrange(0, i), t.subrange(i + 3, j)))
        },
    }
}

/// The found position is a separator, and none starts earlier.
pub proof fn lemma_find_separator(s: Seq<char>, from: int)
    requires
        0 <= from,
    ensures
        find_separator(s, from) matches Some(i) ==> from <= i && separator_at(s, i),
        find_separator(s, from) matches Some(i) ==> forall|k: int|
            from <= k < i ==> !separator_at(s, k),
        find_separator(s, from) is None ==> forall|k: int| from <= k ==> !separator_at(s, k),
    decreases s.len() - from,
{
    if from + 3 > s.len() {
    } else if separator_at(s, from) {
    } else {
        lemma_find_separator(s, from + 1);
    }
}

/// The first separator position at or after `from`.
fn find_separator_in(cs: &Vec<char>, from: usize) -> (r: Option<usize>)
    ensures
        match r {
            Some(i) => find_separator(cs@, from as int) == Some(i as int),
            None => find_separator(cs@, from as int) is None,
        },
{
    let n = cs.len();
    let mut k = from;
    while k < n && n - k >= 3
        invariant
            n == cs.len(),
            from <= k,
            find_separator(cs@, from as int) == find_separator(cs@, k as int),
        decreases n - k,
    {
        if cs[k] == ':' && cs[k + 1] == ':' && cs[k + 2] == ':' {
            return Some(k);
        }
        k = k + 1;
    }
    None
}

/// Parses one console line into `(ssid, psk)`; `None` when the line, once
/// trimmed, holds no `:::`.
pub fn parse_credentials(line: &str) -> (r: Option<(String, String)>)
    ensures
        match r {
            Some((ssid, psk)) => credentials_of(line@) == Some((ssid@, psk@)),
            None => credentials_of(line@) is None,
        },
{
    let t = trim(line);
    let cs = chars_of(t);
    match find_separator_in(&cs, 0) {
        None => None,
        Some(i) => {
            proof {
                lemma_find_separator(cs@, 0);
            }
            let j = match find_separator_in(&cs, i + 3) {
                Some(j) => {
                    proof {
                        lemma_find_separator(cs@, i + 3);
                    }
                    j
                },
                None => cs.len(),
            };
            let ssid = String::from_str(t.substring_char(0, i));
            let psk = String::from_str(t.substring_char(i + 3, j));
            Some((ssid, psk))
        },
    }
}


/// What one attempt to read a line from the serial console gave.
pub enum ConsoleRead {
    /// Nothing was there (end of input).
    Eof,
    /// A line was read.
    Line(String),
    /// No data for the moment.
    WouldBlock,
    /// Any other read error.
    Failed,
}

/// What the configuration loop does after a read.
pub enum ConfigureStep {
    /// Read again, after printing the prompt if `prompt` is set and waiting
    /// `wait_ms` milliseconds.
    Retry { prompt: bool, wait_ms: u64 },
    /// Stop reading: these are the credentials.
    Done { ssid: String, psk: String },
}

/// Pause after an empty read or a line that held no credentials.
pub const RETRY_WAIT_MS: u64 = 500;

/// Pause when the console had no data for the moment.
pub const WOULD_BLOCK_WAIT_MS: u64 = 200;

/// One turn of the configuration loop: a line with credentials ends it with
/// them, a failed read ends it with `unknown` for both, anything else asks for
/// another read.
pub fn configure_step(read: ConsoleRead) -> (r: ConfigureStep)
    ensures
        match read {
            ConsoleRead::Eof => r == (ConfigureStep::Retry { prompt: true, wait_ms: RETRY_WAIT_MS }),
            ConsoleRead::WouldBlock => r == (ConfigureStep::Retry {
                prompt: true,
                wait_ms: WOULD_BLOCK_WAIT_MS,
            }),
            ConsoleRead::Line(line) => match credentials_of(line@) {
                Some((ssid, psk)) => r matches ConfigureStep::Done { ssid: s, psk: p } && s@
                    == ssid && p@ == psk,
                None => r == (ConfigureStep::Retry { prompt: false, wait_ms: RETRY_WAIT_MS }),
            },
            ConsoleRead::Failed => r matches ConfigureStep::Done { ssid: s, psk: p } && s@
                == "unknown"@ && p@ == "unknown"@,
        },
{
    match read {
        ConsoleRead::Eof => ConfigureStep::Retry { prompt: true, wait_ms: RETRY_WAIT_MS },
        ConsoleRead::WouldBlock => ConfigureStep::Retry {
            prompt: true,
            wait_ms: WOULD_BLOCK_WAIT_MS,
        },
        ConsoleRead::Line(line) => match parse_credentials(line.as_str()) {
            Some((ssid, psk)) => ConfigureStep::Done { ssid, psk },
            None => ConfigureStep::Retry { prompt: false, wait_ms: RETRY_WAIT_MS },
        },
        ConsoleRead::Failed => ConfigureStep::Done {
            ssid: String::from_str("unknown"),
            psk: String::from_str("unknown"),
        },
    }
}


/// The separator is three colons in a row.
pub proof fn law_separator(s: Seq<char>, i: int)
    ensures
        separator_at(s, i) <==> (0 <= i && i + 3 <= s.len() && s.subrange(i, i + 3) == seq![
            ':',
            ':',
            ':',
        ]),
{
    if 0 <= i && i + 3 <= s.len() {
        let w = s.subrange(i, i + 3);
        assert(w[0] == s[i] && w[1] == s[i + 1] && w[2] == s[i + 2]);
        if separator_at(s, i) {
            assert(w =~= seq![':', ':', ':']);
        }
    }
}

/// What a console line gives: nothing when the trimmed line holds no
/// separator; otherwise the SSID is all of the trimmed line before its first
/// separator, and the key is all that follows that separator up to the next
/// one or to the end.
pub proof fn law_credentials_split(line: Seq<char>)
    ensures
        credentials_of(line) is None <==> (forall|i: int| !separator_at(trimmed(line), i)),
        credentials_of(line) matches Some((ssid, psk)) ==> {
            let t = trimmed(line);
            let k = ssid.len() as int;
            let e = k + 3 + psk.len();
            &&& separator_at(t, k)
            &&& t.subrange(0, k) == ssid
            &&& forall|i: int| 0 <= i < k ==> !separator_at(t, i)
            &&& e <= t.len()
            &&& t.subrange(k + 3, e) == psk
            &&& forall|i: int| k + 3 <= i < e ==> !separator_at(t, i)
            &&& (e == t.len() || separator_at(t, e))
        },
{
    let t = trimmed(line);
    lemma_find_separator(t, 0);
    match find_separator(t, 0) {
        None => {},
        Some(k) => {
            lemma_find_separator(t, k + 3);
        },
    }
}

} // verus!
