//! Character-level text helpers: Unicode whitespace, trimming, and the
//! conversions between `&str` and character vectors that the parsers use.

use vstd::prelude::*;

verus! {

broadcast use vstd::string::group_string_axioms;

/// Whether `c` has the Unicode `White_Space` property, which is the set that
/// `char::is_whitespace`, and therefore `str::trim`, removes.
pub open spec fn is_space(c: char) -> bool {
    let v = c as u32;
    ||| 0x9 <= v <= 0xD
    ||| v == 0x20
    ||| v == 0x85
    ||| v == 0xA0
    ||| v == 0x1680
    ||| 0x2000 <= v <= 0x200A
    ||| v == 0x2028
    ||| v == 0x2029
    ||| v == 0x202F
    ||| v == 0x205F
    ||| v == 0x3000
}

/// Tests the Unicode `White_Space` property of a character.
pub fn is_whitespace(c: char) -> (r: bool)
    ensures
        r == is_space(c),
{
    let v = c as u32;
    (0x9 <= v && v <= 0xD) || v == 0x20 || v == 0x85 || v == 0xA0 || v == 0x1680 || (0x2000
        <= v && v <= 0x200A) || v == 0x2028 || v == 0x2029 || v == 0x202F || v == 0x205F || v
        == 0x3000
}

/// The characters of a string, in order.
pub fn chars_of(s: &str) -> (v: Vec<char>)
    ensures
        v@ == s@,
{
    let mut v: Vec<char> = Vec::new();
    for c in it: s.chars()
        invariant
            v@ == it.seq().take(it.index() as int),
    {
        v.push(c);
    }
    v
}


/// The text with its leading whitespace removed.
pub open spec fn trimmed_start(s: Seq<char>) -> Seq<char>
    decreases s.len(),
{
    if s.len() > 0 && is_space(s[0]) {
        trimmed_start(s.drop_first())
    } else {
        s
    }
}

/// The text with its trailing whitespace removed.
pub open spec fn trimmed_end(s: Seq<char>) -> Seq<char>
    decreases s.len(),
{
    if s.len() > 0 && is_space(s.last()) {
        trimmed_end(s.drop_last())
    } else {
        s
    }
}

/// The text with leading and trailing whitespace removed, as `str::trim` does.
pub open spec fn trimmed(s: Seq<char>) -> Seq<char> {
    trimmed_end(trimmed_start(s))
}

/// Skipping a prefix made of whitespace and ending before a non-space
/// character (or at the end) is what `trimmed_start` does.
pub proof fn lemma_trim_start(s: Seq<char>, a: int)
    requires
        0 <= a <= s.len(),
        forall|i: int| 0 <= i < a ==> is_space(#[trigger] s[i]),
        a == s.len() || !is_space(s[a]),
    ensures
        trimmed_start(s) == s.subrange(a, s.len() as int),
    decreases a,
{
    if a == 0 {
        assert(s.subrange(0, s.len() as int) =~= s);
    } else {
        let t = s.drop_first();
        assert forall|i: int| 0 <= i < a - 1 implies is_space(#[trigger] t[i]) by {
            assert(t[i] == s[i + 1]);
        }
        if a - 1 < t.len() {
            assert(t[a - 1] == s[a]);
        }
        lemma_trim_start(t, a - 1);
        assert(t.subrange(a - 1, t.len() as int) =~= s.subrange(a, s.len() as int));
    }
}

/// Dropping a suffix made of whitespace that starts after a non-space
/// character (or at the start) is what `trimmed_end` does.
pub proof fn lemma_trim_end(s: Seq<char>, b: int)
    requires
        0 <= b <= s.len(),
        forall|i: int| b <= i < s.len() ==> is_space(#[trigger] s[i]),
        b == 0 || !is_space(s[b - 1]),
    ensures
        trimmed_end(s) == s.subrange(0, b),
    decreases s.len() - b,
{
    if b == s.len() {
        assert(s.subrange(0, b) =~= s);
    } else {
        let t = s.drop_last();
        assert forall|i: int| b <= i < t.len() implies is_space(#[trigger] t[i]) by {
            assert(t[i] == s[i]);
        }
        if b > 0 {
            assert(t[b - 1] == s[b - 1]);
        }
        lemma_trim_end(t, b);
        assert(t.subrange(0, b) =~= s.subrange(0, b));
    }
}

/// The bounds of the trimmed text: it is `s[a..b]`, where everything before
/// `a` and from `b` on is whitespace, and `s[a]`, `s[b - 1]` are not.
pub proof fn lemma_trim_bounds(s: Seq<char>, a: int, b: int)
    requires
        0 <= a <= b <= s.len(),
        forall|i: int| 0 <= i < a ==> is_space(#[trigger] s[i]),
        forall|i: int| b <= i < s.len() ==> is_space(#[trigger] s[i]),
        a == b ==> a == s.len(),
        a < b ==> !is_space(s[a]) && !is_space(s[b - 1]),
    ensures
        trimmed(s) == s.subrange(a, b),
{
    lemma_trim_start(s, a);
    let t = s.subrange(a, s.len() as int);
    assert forall|i: int| b - a <= i < t.len() implies is_space(#[trigger] t[i]) by {
        assert(t[i] == s[a + i]);
    }
    if b > a {
        assert(t[b - a - 1] == s[b - 1]);
    }
    lemma_trim_end(t, b - a);
    assert(t.subrange(0, b - a) =~= s.subrange(a, b));
}

/// `str::trim`: the text without its leading and trailing Unicode whitespace.
pub fn trim(s: &str) -> (r: &str)
    ensures
        r@ == trimmed(s@),
{
    let cs = chars_of(s);
    let n = cs.len();
    let mut a: usize = 0;
    while a < n && is_whitespace(cs[a])
        invariant
            cs@ == s@,
            n == cs.len(),
            a <= n,
            forall|i: int| 0 <= i < a ==> is_space(#[trigger] cs@[i]),
        decreases n - a,
    {
        a = a + 1;
    }
    let mut b: usize = n;
    while b > a && is_whitespace(cs[b - 1])
        invariant
            cs@ == s@,
            n == cs.len(),
            a <= b <= n,
            a == n || !is_space(cs@[a as int]),
            forall|i: int| b <= i < n ==> is_space(#[trigger] cs@[i]),
        decreases b - a,
    {
        b = b - 1;
    }
    proof {
        lemma_trim_bounds(s@, a as int, b as int);
    }
    s.substring_char(a, b)
}


/// Whether two strings hold the same characters.
pub fn same_text(a: &str, b: &str) -> (r: bool)
    ensures
        r == (a@ == b@),
{
    let x = chars_of(a);
    let y = chars_of(b);
    if x.len() != y.len() {
        return false;
    }
    let mut i: usize = 0;
    while i < x.len()
        invariant
            x@ == a@,
            y@ == b@,
            x.len() == y.len(),
            i <= x.len(),
            forall|k: int| 0 <= k < i ==> x@[k] == y@[k],
        decreases x.len() - i,
    {
        if x[i] != y[i] {
            return false;
        }
        i = i + 1;
    }
    assert(x@ =~= y@);
    true
}


/// The trimmed text is a piece of the text, and if it is not empty, it starts
/// and ends with a character that is not whitespace.
pub proof fn lemma_trimmed_edges(s: Seq<char>)
    ensures
        trimmed(s).len() > 0 ==> !is_space(trimmed(s)[0]) && !is_space(trimmed(s).last()),
{
    lemma_trimmed_start_edge(s);
    lemma_trimmed_end_prefix(trimmed_start(s));
}

proof fn lemma_trimmed_start_edge(s: Seq<char>)
    ensures
        trimmed_start(s).len() > 0 ==> !is_space(trimmed_start(s)[0]),
    decreases s.len(),
{
    if s.len() > 0 && is_space(s[0]) {
        lemma_trimmed_start_edge(s.drop_first());
    }
}

proof fn lemma_trimmed_end_prefix(s: Seq<char>)
    ensures
        trimmed_end(s).len() <= s.len(),
        trimmed_end(s) =~= s.subrange(0, trimmed_end(s).len() as int),
        trimmed_end(s).len() > 0 ==> !is_space(trimmed_end(s).last()),
        forall|i: int| trimmed_end(s).len() <= i < s.len() ==> is_space(#[trigger] s[i]),
    decreases s.len(),
{
    if s.len() > 0 && is_space(s.last()) {
        lemma_trimmed_end_prefix(s.drop_last());
        assert forall|i: int| trimmed_end(s).len() <= i < s.len() implies is_space(
            #[trigger] s[i],
        ) by {
            if i < s.len() - 1 {
                assert(s[i] == s.drop_last()[i]);
            }
        }
        assert(s.drop_last().subrange(0, trimmed_end(s).len() as int) =~= s.subrange(
            0,
            trimmed_end(s).len() as int,
        ));
    } else {
        assert(s.subrange(0, s.len() as int) =~= s);
    }
}

/// `std::str::from_utf8`: the bytes as text when they are valid UTF-8.
/// Trusted: the standard library returns `Ok` exactly for valid UTF-8, with a
/// string slice over the same bytes.
#[verifier::external_body]
pub fn str_from_utf8(bytes: &[u8]) -> (r: Option<&str>)
    ensures
        r is Some <==> vstd::utf8::valid_utf8(bytes@),
        r matches Some(s) ==> vstd::utf8::encode_utf8(s@) == bytes@,
{
    std::str::from_utf8(bytes).ok()
}


/// The character of a decimal digit.
pub open spec fn digit_char(d: nat) -> char {
    ((d + 48) as u32) as char
}

/// The decimal notation of a number, without sign or leading zeros.
pub open spec fn decimal_of(n: nat) -> Seq<char>
    decreases n,
{
    if n < 10 {
        seq![digit_char(n)]
    } else {
        decimal_of(n / 10) + seq![digit_char(n % 10)]
    }
}

fn digit_text(d: u64) -> (r: &'static str)
    requires
        d < 10,
    ensures
        r@ == seq![digit_char(d as nat)],
{
    proof {
        reveal_strlit("0");
        reveal_strlit("1");
        reveal_strlit("2");
        reveal_strlit("3");
        reveal_strlit("4");
        reveal_strlit("5");
        reveal_strlit("6");
        reveal_strlit("7");
        reveal_strlit("8");
        reveal_strlit("9");
    }
    let r = if d == 0 {
        "0"
    } else if d == 1 {
        "1"
    } else if d == 2 {
        "2"
    } else if d == 3 {
        "3"
    } else if d == 4 {
        "4"
    } else if d == 5 {
        "5"
    } else if d == 6 {
        "6"
    } else if d == 7 {
        "7"
    } else if d == 8 {
        "8"
    } else {
        "9"
    };
    assert(r@ =~= seq![digit_char(d as nat)]);
    r
}

/// The decimal notation of `n`, as `{}` formats an unsigned integer.
pub fn decimal(n: u64) -> (r: String)
    ensures
        r@ == decimal_of(n as nat),
    decreases n,
{
    if n < 10 {
        String::from_str(digit_text(n))
    } else {
        let mut r = decimal(n / 10);
        r.append(digit_text(n % 10));
        r
    }
}

/// Whether `c` is one of `0` to `9`.
pub open spec fn is_digit(c: char) -> bool {
    '0' <= c <= '9'
}

/// The value of a string of decimal digits.
pub open spec fn digits_value(s: Seq<char>) -> nat
    decreases s.len(),
{
    if s.len() == 0 {
        0
    } else {
        digits_value(s.drop_last()) * 10 + ((s.last() as u32) - 48) as nat
    }
}

/// The digits of a number text: without its leading `+`, if it has one.
pub open spec fn unsigned_digits(s: Seq<char>) -> Seq<char> {
    if s.len() > 0 && s[0] == '+' {
        s.drop_first()
    } else {
        s
    }
}

/// Every character is a decimal digit.
pub open spec fn all_digits(d: Seq<char>) -> bool {
    forall|i: int| 0 <= i < d.len() ==> is_digit(#[trigger] d[i])
}

/// What `str::parse::<usize>` gives: an optional `+` followed by at least one
/// decimal digit and nothing else, with a value that fits in `usize`.
pub open spec fn parsed_usize(s: Seq<char>) -> Option<usize> {
    let d = unsigned_digits(s);
    if d.len() > 0 && all_digits(d) && digits_value(d) <= usize::MAX {
        Some(digits_value(d) as usize)
    } else {
        None
    }
}

proof fn lemma_digits_value_grows(s: Seq<char>, j: int)
    requires
        0 <= j <= s.len(),
        forall|i: int| 0 <= i < s.len() ==> is_digit(#[trigger] s[i]),
    ensures
        digits_value(s.take(j)) <= digits_value(s),
    decreases s.len() - j,
{
    if j < s.len() {
        let t = s.drop_last();
        assert forall|i: int| 0 <= i < t.len() implies is_digit(#[trigger] t[i]) by {
            assert(t[i] == s[i]);
        }
        lemma_digits_value_grows(t, j);
        assert(t.take(j) =~= s.take(j));
    } else {
        assert(s.take(j) =~= s);
    }
}

/// `str::parse::<usize>`.
pub fn parse_usize(s: &str) -> (r: Option<usize>)
    ensures
        r == parsed_usize(s@),
{
    let cs = chars_of(s);
    let ghost d = unsigned_digits(s@);
    let first: usize = if cs.len() > 0 && cs[0] == '+' {
        1
    } else {
        0
    };
    assert(d =~= s@.subrange(first as int, s@.len() as int));
    if first >= cs.len() {
        return None;
    }
    let mut value: usize = 0;
    let mut i: usize = first;
    while i < cs.len()
        invariant
            cs@ == s@,
            first <= i <= cs.len(),
            first < cs.len(),
            d == cs@.subrange(first as int, cs@.len() as int),
            d == unsigned_digits(s@),
            forall|k: int| 0 <= k < i - first ==> is_digit(#[trigger] d[k]),
            value == digits_value(d.take(i - first)),
        decreases cs.len() - i,
    {
        let c = cs[i];
        assert(c == d[i - first]);
        if !('0' <= c && c <= '9') {
            assert(!is_digit(d[i - first]));

            return None;
        }
        let v = (c as u32 - 48) as usize;
        assert(d.take(i - first + 1).drop_last() =~= d.take(i - first));
        assert(d.take(i - first + 1).last() == c);
        assert(digits_value(d.take(i - first + 1)) == value * 10 + v);
        match value.checked_mul(10) {
            None => {
                proof {
                    lemma_not_digits_or_too_big(d, i - first + 1);
                }
                return None;
            },
            Some(m) => match m.checked_add(v) {
                None => {
                    proof {
                        lemma_not_digits_or_too_big(d, i - first + 1);
                    }
                    return None;
                },
                Some(next) => {
                    value = next;
                },
            },
        }
        i = i + 1;
    }
    assert(d.take(i - first) =~= d);
    Some(value)
}

proof fn lemma_not_digits_or_too_big(d: Seq<char>, j: int)
    requires
        0 < j <= d.len(),
        digits_value(d.take(j)) > usize::MAX,
    ensures
        !(all_digits(d) && digits_value(d) <= usize::MAX),
{
    if all_digits(d) {
        lemma_digits_value_grows(d, j);
    }
}


/// The texts one after another with `sep` between each two, as `join` does.
pub open spec fn joined(list: Seq<Seq<char>>, sep: Seq<char>) -> Seq<char>
    decreases list.len(),
{
    if list.len() == 0 {
        Seq::empty()
    } else if list.len() == 1 {
        list[0]
    } else {
        joined(list.drop_last(), sep) + sep + list.last()
    }
}

/// The views of a list of strings.
pub open spec fn texts(list: Seq<String>) -> Seq<Seq<char>> {
    list.map_values(|s: String| s@)
}

/// `[String]::join`: the strings with `sep` between each two.
pub fn join(list: &Vec<String>, sep: &str) -> (r: String)
    ensures
        r@ == joined(texts(list@), sep@),
{
    let mut r = String::new();
    let mut i: usize = 0;
    while i < list.len()
        invariant
            i <= list.len(),
            r@ == joined(texts(list@).take(i as int), sep@),
        decreases list.len() - i,
    {
        let ghost before = texts(list@).take(i as int);
        assert(texts(list@).take(i + 1).drop_last() =~= before);
        assert(texts(list@).take(i + 1).last() == list@[i as int]@);
        if i > 0 {
            r.append(sep);
        } else {
            assert(texts(list@).take(1) =~= seq![list@[0]@]);
        }
        r.append(list[i].as_str());
        i = i + 1;
    }
    assert(texts(list@).take(i as int) =~= texts(list@));
    r
}


/// Trimming twice is trimming once.
pub proof fn law_trim_idempotent(s: Seq<char>)
    ensures
        trimmed(trimmed(s)) == trimmed(s),
{
    let t = trimmed(s);
    lemma_trimmed_edges(s);
    if t.len() == 0 {
        lemma_trim_bounds(t, 0, 0);
    } else {
        lemma_trim_bounds(t, 0, t.len() as int);
    }
    assert(t.subrange(0, t.len() as int) =~= t);
}

/// The decimal notation is made of digits only, starts with one, and its
/// value is the number written.
pub proof fn lemma_decimal_digits(n: nat)
    ensures
        decimal_of(n).len() > 0,
        all_digits(decimal_of(n)),
        digits_value(decimal_of(n)) == n,
    decreases n,
{
    if n < 10 {
        assert((digit_char(n) as u32) == n + 48);
        assert(decimal_of(n).drop_last() =~= Seq::<char>::empty());
        assert(digits_value(decimal_of(n).drop_last()) == 0);
        assert(digits_value(decimal_of(n)) == n);
    } else {
        lemma_decimal_digits(n / 10);
        let d = decimal_of(n);
        assert(d.drop_last() =~= decimal_of(n / 10));
        assert(d.last() == digit_char(n % 10));
        assert((digit_char(n % 10) as u32) == n % 10 + 48);
        assert(n == (n / 10) * 10 + n % 10);
        assert(digits_value(d.drop_last()) == n / 10);
        assert(digits_value(d) == n);
        assert forall|i: int| 0 <= i < d.len() implies is_digit(#[trigger] d[i]) by {
            if i < d.len() - 1 {
                assert(d[i] == decimal_of(n / 10)[i]);
            }
        }
    }
}

/// Reading back the decimal notation of a number gives the number, as long as
/// it fits in `usize`.
pub proof fn law_decimal_parses_back(n: usize)
    ensures
        parsed_usize(decimal_of(n as nat)) == Some(n),
{
    lemma_decimal_digits(n as nat);
    let d = decimal_of(n as nat);
    assert(is_digit(d[0]));
    assert(unsigned_digits(d) == d);
}


proof fn trim_start_offset(s: Seq<char>) -> (a: int)
    ensures
        0 <= a <= s.len(),
        trimmed_start(s) =~= s.subrange(a, s.len() as int),
        forall|i: int| 0 <= i < a ==> is_space(#[trigger] s[i]),
    decreases s.len(),
{
    if s.len() > 0 && is_space(s[0]) {
        let t = s.drop_first();
        let a = trim_start_offset(t);
        assert forall|i: int| 0 <= i < a + 1 implies is_space(#[trigger] s[i]) by {
            if i > 0 {
                assert(s[i] == t[i - 1]);
            }
        }
        assert(t.subrange(a, t.len() as int) =~= s.subrange(a + 1, s.len() as int));
        a + 1
    } else {
        assert(s.subrange(0, s.len() as int) =~= s);
        0
    }
}

/// Trimming removes whitespace only, and all of it at both ends: the result is
/// a stretch `s[a..b]` of the text such that everything before `a` and from
/// `b` on is whitespace, and which, unless empty, starts and ends with a
/// character that is not.
pub proof fn law_trim_characterized(s: Seq<char>)
    ensures
        exists|a: int, b: int|
            0 <= a <= b <= s.len() && trimmed(s) == s.subrange(a, b) && (forall|i: int|
                0 <= i < a ==> is_space(#[trigger] s[i])) && (forall|i: int|
                b <= i < s.len() ==> is_space(#[trigger] s[i])),
        trimmed(s).len() > 0 ==> !is_space(trimmed(s)[0]) && !is_space(trimmed(s).last()),
{
    lemma_trimmed_edges(s);
    let a = trim_start_offset(s);
    let t = trimmed_start(s);
    lemma_trimmed_end_prefix(t);
    let k = trimmed_end(t).len() as int;
    let b = a + k;
    assert(trimmed(s) =~= s.subrange(a, b));
    assert forall|i: int| b <= i < s.len() implies is_space(#[trigger] s[i]) by {
        assert(s[i] == t[i - a]);
    }
}

/// The whitespace characters are exactly tab, line feed, vertical tab, form
/// feed, carriage return, space, next line, no-break space, ogham space mark,
/// the spaces U+2000 to U+200A, line and paragraph separator, narrow no-break
/// space, medium mathematical space and ideographic space.
pub proof fn law_whitespace_chars(c: char)
    ensures
        is_space(c) <==> (c == '\t' || c == '\n' || c == '\u{B}' || c == '\u{C}' || c == '\r'
            || c == ' ' || c == '\u{85}' || c == '\u{A0}' || c == '\u{1680}' || ('\u{2000}' <= c
            && c <= '\u{200A}') || c == '\u{2028}' || c == '\u{2029}' || c == '\u{202F}' || c
            == '\u{205F}' || c == '\u{3000}'),
{
}

/// Reading a single digit gives its value.
pub proof fn law_parse_digit(c: char)
    requires
        '0' <= c <= '9',
    ensures
        parsed_usize(seq![c]) == Some(((c as u32) - 48) as usize),
{
    let d = seq![c];
    assert(d.drop_last() =~= Seq::<char>::empty());
    assert(unsigned_digits(d) == d);
    assert(is_digit(d[0]));
    assert(all_digits(d));
    assert(d.last() == c);
    assert(digits_value(d.drop_last()) == 0);
    assert(digits_value(d) == ((c as u32) - 48) as nat);
}

/// Reading digits with one more digit at the end gives ten times the value
/// plus that digit, or nothing when that does not fit in `usize`.
pub proof fn law_parse_next_digit(d: Seq<char>, c: char, v: usize)
    requires
        parsed_usize(d) == Some(v),
        d[0] != '+',
        '0' <= c <= '9',
    ensures
        v * 10 + ((c as u32) - 48) <= usize::MAX ==> parsed_usize(d.push(c)) == Some(
            (v * 10 + ((c as u32) - 48)) as usize,
        ),
        v * 10 + ((c as u32) - 48) > usize::MAX ==> parsed_usize(d.push(c)) is None,
{
    let e = d.push(c);
    assert(unsigned_digits(d) == d);
    assert(e[0] == d[0]);
    assert(unsigned_digits(e) == e);
    assert(e.drop_last() =~= d);
    assert forall|i: int| 0 <= i < e.len() implies is_digit(#[trigger] e[i]) by {
        if i < d.len() {
            assert(e[i] == d[i]);
        }
    }
}

/// A leading `+` is allowed once, before at least one digit, and changes
/// nothing.
pub proof fn law_parse_plus(d: Seq<char>)
    requires
        d.len() > 0,
        d[0] != '+',
    ensures
        parsed_usize(seq!['+'] + d) == parsed_usize(d),
        parsed_usize(seq!['+']) is None,
        parsed_usize(Seq::empty()) is None,
{
    assert((seq!['+'] + d).drop_first() =~= d);
    assert(seq!['+'].drop_first() =~= Seq::<char>::empty());
}

/// A text with any character other than a digit, bar one leading `+`, is no
/// number.
pub proof fn law_parse_rejects(s: Seq<char>, i: int)
    requires
        0 <= i < s.len(),
        !('0' <= s[i] <= '9'),
        !(i == 0 && s[i] == '+'),
    ensures
        parsed_usize(s) is None,
{
    let d = unsigned_digits(s);
    if s[0] == '+' {
        assert(d[i - 1] == s[i]);
        assert(!is_digit(d[i - 1]));
    } else {
        assert(!is_digit(d[i]));
    }
}

/// The decimal notation has no leading zero, except for zero itself.
pub proof fn law_decimal_canonical(n: nat)
    ensures
        n == 0 ==> decimal_of(n) == seq!['0'],
        n > 0 ==> decimal_of(n)[0] != '0',
    decreases n,
{
    if n >= 10 {
        law_decimal_canonical(n / 10);
        lemma_decimal_digits(n / 10);
        assert(decimal_of(n)[0] == decimal_of(n / 10)[0]);
    } else {
        assert((digit_char(n) as u32) == n + 48);
    }
}

/// Joining: nothing gives nothing, one text gives itself, and one more text
/// adds the separator and that text.
pub proof fn law_joined(list: Seq<Seq<char>>, sep: Seq<char>, x: Seq<char>)
    ensures
        joined(Seq::empty(), sep) == Seq::<char>::empty(),
        joined(seq![x], sep) == x,
        list.len() > 0 ==> joined(list.push(x), sep) == joined(list, sep) + sep + x,
{
    assert(list.push(x).drop_last() =~= list);
}

} // verus!
