//! The `configure` command: sends the Wi-Fi credentials to the device over the
//! serial line, in the form that the firmware's configurator reads.

use vstd::prelude::*;
use crate::text::{trim, trimmed, is_space, lemma_trimmed_edges, lemma_trim_bounds};
use crate::firmware::configurator::{credentials_of, separator_at, find_separator};

verus! {

broadcast use vstd::string::group_string_axioms;

/// The `configure` command.
pub struct Configure {
    args: Vec<String>,
}

impl View for Configure {
    type V = Seq<String>;

    closed spec fn view(&self) -> Seq<String> {
        self.args@
    }
}

impl Configure {
    /// The command with its arguments.
    pub fn new(args: Vec<String>) -> (r: Configure)
        ensures
            r@ == args@,
    {
        Configure { args }
    }
}

/// The separator between SSID and pre-shared key.
pub open spec fn separator() -> Seq<char> {
    seq![':', ':', ':']
}

/// What is written to the device for the two answers typed by the user: both
/// trimmed, joined by `:::`, and followed by two line ends.
pub open spec fn message_of(ssid_input: Seq<char>, psk_input: Seq<char>) -> Seq<char> {
    trimmed(ssid_input) + separator() + trimmed(psk_input) + seq!['\n', '\n']
}

/// The text that `configure` writes to the device.
pub fn credentials_message(ssid_input: &str, psk_input: &str) -> (r: String)
    ensures
        r@ == message_of(ssid_input@, psk_input@),
        r@ == trimmed(ssid_input@) + ":::"@ + trimmed(psk_input@) + "\n\n"@,
{
    let mut r = String::from_str(trim(ssid_input));
    r.append(":::");
    r.append(trim(psk_input));
    r.append("\n\n");
    proof {
        reveal_strlit(":::");
        reveal_strlit("\n\n");
        assert(r@ =~= message_of(ssid_input@, psk_input@));
    }
    r
}

/// The first line of a text as a line reader returns it: up to and with the
/// first line end, or all of it when there is none.
pub open spec fn first_line(s: Seq<char>) -> Seq<char>
    decreases s.len(),
{
    if s.len() == 0 {
        s
    } else if s[0] == '\n' {
        seq!['\n']
    } else {
        seq![s[0]] + first_line(s.drop_first())
    }
}

proof fn lemma_first_line(s: Seq<char>, k: int)
    requires
        0 <= k < s.len(),
        s[k] == '\n',
        forall|i: int| 0 <= i < k ==> s[i] != '\n',
    ensures
        first_line(s) =~= s.subrange(0, k + 1),
    decreases k,
{
    if k > 0 {
        let t = s.drop_first();
        assert forall|i: int| 0 <= i < k - 1 implies t[i] != '\n' by {
            assert(t[i] == s[i + 1]);
        }
        lemma_first_line(t, k - 1);
    }
}

proof fn lemma_find_separator_at(s: Seq<char>, from: int, i: int)
    requires
        0 <= from <= i,
        separator_at(s, i),
        forall|k: int| from <= k < i ==> !separator_at(s, k),
    ensures
        find_separator(s, from) == Some(i),
    decreases i - from,
{
    if from < i {
        lemma_find_separator_at(s, from + 1, i);
    }
}

proof fn lemma_find_separator_none(s: Seq<char>, from: int)
    requires
        0 <= from,
        forall|k: int| from <= k ==> !separator_at(s, k),
    ensures
        find_separator(s, from) is None,
    decreases s.len() - from,
{
    if from + 3 <= s.len() {
        lemma_find_separator_none(s, from + 1);
    }
}

/// The SSID can be followed by the separator without a separator starting
/// inside it: it holds no `:::` and does not end in `:`.
pub open spec fn ends_before_separator(ssid: Seq<char>) -> bool {
    forall|i: int| 0 <= i < ssid.len() ==> !separator_at(ssid + separator(), i)
}

/// The pre-shared key holds no `:::`.
pub open spec fn holds_no_separator(psk: Seq<char>) -> bool {
    forall|i: int| !separator_at(psk, i)
}

/// What `configure` sends is read back by the firmware's configurator as the
/// same credentials: the first line of the message, parsed as the firmware
/// parses a console line, gives the trimmed SSID and pre-shared key. This holds
/// whenever the trimmed answers hold no line end, the SSID holds no `:::` and
/// does not end in `:`, and the key holds no `:::`.
pub proof fn law_credentials_round_trip(ssid_input: Seq<char>, psk_input: Seq<char>)
    requires
        !trimmed(ssid_input).contains('\n'),
        !trimmed(psk_input).contains('\n'),
        ends_before_separator(trimmed(ssid_input)),
        holds_no_separator(trimmed(psk_input)),
    ensures
        credentials_of(first_line(message_of(ssid_input, psk_input))) == Some(
            (trimmed(ssid_input), trimmed(psk_input)),
        ),
{
    let ssid = trimmed(ssid_input);
    let psk = trimmed(psk_input);
    let t = ssid + separator() + psk;
    let msg = message_of(ssid_input, psk_input);
    let line = t + seq!['\n'];
    let n = t.len() as int;
    // The first line ends at the first of the two line ends.
    assert(msg =~= line + seq!['\n']);
    assert forall|i: int| 0 <= i < n implies msg[i] != '\n' by {
        if i < ssid.len() {
            assert(msg[i] == ssid[i]);
            assert(ssid.contains(ssid[i]));
        } else if i < ssid.len() + 3 {
            assert(msg[i] == ':');
        } else {
            assert(msg[i] == psk[i - ssid.len() - 3]);
            assert(psk.contains(psk[i - ssid.len() - 3]));
        }
    }
    lemma_first_line(msg, n);
    assert(first_line(msg) =~= line);
    // Trimming the line only drops its line end.
    lemma_trimmed_edges(ssid_input);
    lemma_trimmed_edges(psk_input);
    assert(!is_space(line[0])) by {
        if ssid.len() > 0 {
            assert(line[0] == ssid[0]);
        } else {
            assert(line[0] == ':');
        }
    }
    assert(!is_space(line[n - 1])) by {
        if psk.len() > 0 {
            assert(line[n - 1] == psk.last());
        } else {
            assert(line[n - 1] == ':');
        }
    }
    assert(is_space(line[n]));
    lemma_trim_bounds(line, 0, n);
    assert(line.subrange(0, n) =~= t);
    // The first separator is the one after the SSID, and no other follows.
    assert forall|k: int| 0 <= k < ssid.len() implies !separator_at(t, k) by {
        assert(!separator_at(ssid + separator(), k));
        if separator_at(t, k) {
            assert(t[k] == (ssid + separator())[k]);
            assert(t[k + 1] == (ssid + separator())[k + 1]);
            assert(t[k + 2] == (ssid + separator())[k + 2]);
        }
    }
    assert(separator_at(t, ssid.len() as int));
    lemma_find_separator_at(t, 0, ssid.len() as int);
    let start = ssid.len() as int + 3;
    assert forall|k: int| start <= k implies !separator_at(t, k) by {
        if separator_at(t, k) {
            assert(t[k] == psk[k - start]);
            assert(t[k + 1] == psk[k + 1 - start]);
            assert(t[k + 2] == psk[k + 2 - start]);
            assert(separator_at(psk, k - start));
        }
    }
    lemma_find_separator_none(t, start);
    assert(t.subrange(0, ssid.len() as int) =~= ssid);
    assert(t.subrange(start, t.len() as int) =~= psk);
}

} // verus!
