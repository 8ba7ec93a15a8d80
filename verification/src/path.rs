//! The final component of a `/`-separated path, as `Path::file_name` gives it
//! on Unix.

use vstd::prelude::*;
use crate::text::chars_of;

verus! {

broadcast use vstd::string::group_string_axioms;

/// Where the last piece of `s` starts: just after its last `/`, or at 0.
pub open spec fn last_piece_start(s: Seq<char>) -> int
    decreases s.len(),
{
    if s.len() == 0 {
        0
    } else if s.last() == '/' {
        s.len() as int
    } else {
        last_piece_start(s.drop_last())
    }
}

/// A piece that names nothing: empty (from repeated or trailing slashes) or `.`.
pub open spec fn is_filler(piece: Seq<char>) -> bool {
    piece.len() == 0 || piece == seq!['.']
}

/// The final component of a path: its last piece that is neither empty nor
/// `.`, unless that piece is `..`; `None` when there is no such piece.
pub open spec fn file_name_of(s: Seq<char>) -> Option<Seq<char>>
    decreases s.len(),
{
    let k = last_piece_start(s);
    let piece = s.subrange(k, s.len() as int);
    if s.len() == 0 {
        None
    } else if is_filler(piece) {
        if k == 0 {
            None
        } else {
            proof {
                lemma_last_piece_start_bounds(s);
            }
            file_name_of(s.subrange(0, k - 1))
        }
    } else if piece == seq!['.', '.'] {
        None
    } else {
        Some(piece)
    }
}

/// The last piece starts within the text, right after a `/` unless at 0.
pub proof fn lemma_last_piece_start_bounds(s: Seq<char>)
    ensures
        0 <= last_piece_start(s) <= s.len(),
        last_piece_start(s) > 0 ==> s[last_piece_start(s) - 1] == '/',
    decreases s.len(),
{
    if s.len() > 0 && s.last() != '/' {
        lemma_last_piece_start_bounds(s.drop_last());
    }
}

proof fn lemma_last_piece_start(s: Seq<char>, start: int)
    requires
        0 <= start <= s.len(),
        start == 0 || s[start - 1] == '/',
        forall|i: int| start <= i < s.len() ==> s[i] != '/',
    ensures
        last_piece_start(s) == start,
    decreases s.len(),
{
    if s.len() > start {
        let t = s.drop_last();
        assert forall|i: int| start <= i < t.len() implies t[i] != '/' by {
            assert(t[i] == s[i]);
        }
        lemma_last_piece_start(t, start);
    }
}

/// `Path::file_name` for a Unix path: the final component if it is a normal
/// name, `None` for an empty path, `/`, `.` or one that ends in `..`.
pub fn file_name(path: &str) -> (r: Option<String>)
    ensures
        match r {
            Some(name) => file_name_of(path@) == Some(name@),
            None => file_name_of(path@) is None,
        },
{
    let cs = chars_of(path);
    let mut end: usize = cs.len();
    assert(path@.subrange(0, end as int) =~= path@);
    loop
        invariant
            cs@ == path@,
            end <= cs.len(),
            file_name_of(path@) == file_name_of(path@.subrange(0, end as int)),
        decreases end,
    {
        let ghost s = path@.subrange(0, end as int);
        if end == 0 {
            return None;
        }
        let mut start: usize = end;
        while start > 0 && cs[start - 1] != '/'
            invariant
                cs@ == path@,
                start <= end <= cs.len(),
                s == path@.subrange(0, end as int),
                forall|i: int| start <= i < end ==> s[i] != '/',
            decreases start,
        {
            start = start - 1;
        }
        proof {
            lemma_last_piece_start(s, start as int);
        }
        let len = end - start;
        let is_dot = len == 1 && cs[start] == '.';
        if len == 0 || is_dot {
            proof {
                if len == 1 {
                    assert(s.subrange(start as int, end as int) =~= seq!['.']);
                } else {
                    assert(s.subrange(start as int, end as int).len() == 0);
                }
            }
            if start == 0 {
                return None;
            }
            proof {
                assert(s.subrange(0, start - 1) =~= path@.subrange(0, start - 1));
            }
            end = start - 1;
        } else if len == 2 && cs[start] == '.' && cs[start + 1] == '.' {
            proof {
                assert(s.subrange(start as int, end as int) =~= seq!['.', '.']);
            }
            return None;
        } else {
            proof {
                let piece = s.subrange(start as int, end as int);
                if piece == seq!['.'] {
                    assert(piece[0] == cs@[start as int]);
                }
                if piece == seq!['.', '.'] {
                    assert(piece[0] == cs@[start as int]);
                    assert(piece[1] == cs@[start + 1]);
                }
                assert(path@.subrange(start as int, end as int) =~= piece);
            }
            return Some(String::from_str(path.substring_char(start, end)));
        }
    }
}


proof fn lemma_last_piece_no_slash(s: Seq<char>)
    ensures
        forall|i: int| last_piece_start(s) <= i < s.len() ==> s[i] != '/',
    decreases s.len(),
{
    if s.len() > 0 && s.last() != '/' {
        lemma_last_piece_no_slash(s.drop_last());
        lemma_last_piece_start_bounds(s.drop_last());
        assert forall|i: int| last_piece_start(s) <= i < s.len() implies s[i] != '/' by {
            if i < s.len() - 1 {
                assert(s[i] == s.drop_last()[i]);
            }
        }
    }
}

/// A file name is a name: not empty, not `.` or `..`, and without `/`.
pub proof fn law_file_name_is_a_name(s: Seq<char>)
    ensures
        file_name_of(s) matches Some(n) ==> n.len() > 0 && !n.contains('/') && n != seq!['.']
            && n != seq!['.', '.'],
    decreases s.len(),
{
    if s.len() > 0 {
        lemma_last_piece_start_bounds(s);
        lemma_last_piece_no_slash(s);
        let k = last_piece_start(s);
        let piece = s.subrange(k, s.len() as int);
        if is_filler(piece) {
            if k > 0 {
                law_file_name_is_a_name(s.subrange(0, k - 1));
            }
        } else if piece != seq!['.', '.'] {
            assert forall|i: int| 0 <= i < piece.len() implies piece[i] != '/' by {
                assert(piece[i] == s[k + i]);
            }
        }
    }
}

/// A plain name, without `/` and other than `.` and `..`, is its own file name.
pub proof fn law_plain_name(name: Seq<char>)
    requires
        name.len() > 0,
        !name.contains('/'),
        name != seq!['.'],
        name != seq!['.', '.'],
    ensures
        file_name_of(name) == Some(name),
{
    assert forall|i: int| 0 <= i < name.len() implies name[i] != '/' by {
        assert(name.contains(name[i]));
    }
    lemma_last_piece_start(name, 0);
    assert(name.subrange(0, name.len() as int) =~= name);
}

/// A trailing `/` does not change the file name.
pub proof fn law_trailing_slash(s: Seq<char>)
    ensures
        file_name_of(s.push('/')) == file_name_of(s),
{
    let t = s.push('/');
    assert(t.subrange(t.len() as int, t.len() as int).len() == 0);
    assert(t.subrange(0, t.len() - 1) =~= s);
}


/// The file name of `dir/name`, for a plain name, is that name, whatever the
/// directory.
pub proof fn law_last_component(dir: Seq<char>, name: Seq<char>)
    requires
        name.len() > 0,
        !name.contains('/'),
        name != seq!['.'],
        name != seq!['.', '.'],
    ensures
        file_name_of(dir.push('/') + name) == Some(name),
{
    let s = dir.push('/') + name;
    let k = dir.len() + 1;
    assert forall|i: int| k <= i < s.len() implies s[i] != '/' by {
        assert(s[i] == name[i - k]);
        assert(name.contains(name[i - k]));
    }
    assert(s[k - 1] == '/');
    lemma_last_piece_start(s, k as int);
    assert(s.subrange(k as int, s.len() as int) =~= name);
}

} // verus!
