//! Text primitives used by the description format: Unicode whitespace and
//! trimming, splitting at the first occurrence of a character, and lines.
use vstd::prelude::*;

verus! {

/// The Unicode `White_Space` property, which `char::is_whitespace` tests.
pub open spec fn is_whitespace(c: char) -> bool {
    let u = c as u32;
    ||| 0x09 <= u <= 0x0d
    ||| u == 0x20
    ||| u == 0x85
    ||| u == 0xa0
    ||| u == 0x1680
    ||| 0x2000 <= u <= 0x200a
    ||| u == 0x2028
    ||| u == 0x2029
    ||| u == 0x202f
    ||| u == 0x205f
    ||| u == 0x3000
}

/// `s` without its leading whitespace.
pub open spec fn trim_start(s: Seq<char>) -> Seq<char>
    decreases s.len(),
{
    if s.len() > 0 && is_whitespace(s[0]) {
        trim_start(s.drop_first())
    } else {
        s
    }
}

/// `s` without its trailing whitespace.
pub open spec fn trim_end(s: Seq<char>) -> Seq<char>
    decreases s.len(),
{
    if s.len() > 0 && is_whitespace(s.last()) {
        trim_end(s.drop_last())
    } else {
        s
    }
}

/// `s` without leading and trailing whitespace.
pub open spec fn trim(s: Seq<char>) -> Seq<char> {
    trim_end(trim_start(s))
}

/// `i` is the position of the first `c` in `s`.
pub open spec fn is_first_index(s: Seq<char>, c: char, i: int) -> bool {
    &&& 0 <= i < s.len()
    &&& s[i] == c
    &&& forall|j: int| 0 <= j < i ==> s[j] != c
}

/// The parts of `s` before and after the first `c`, or `None` where `s` has no `c`.
pub open spec fn split_once(s: Seq<char>, c: char) -> Option<(Seq<char>, Seq<char>)> {
    if s.contains(c) {
        let i = choose|i: int| is_first_index(s, c, i);
        Some((s.take(i), s.skip(i + 1)))
    } else {
        None
    }
}

/// `line` without one trailing carriage return.
pub open spec fn strip_cr(line: Seq<char>) -> Seq<char> {
    if line.len() > 0 && line.last() == '\r' {
        line.drop_last()
    } else {
        line
    }
}

/// The first line of `s` and the text after its terminator, as `str::lines`
/// sees them: a line ends at `\n` or `\r\n`, the last terminator is optional,
/// and empty text has no line.
pub open spec fn next_line(s: Seq<char>) -> Option<(Seq<char>, Seq<char>)> {
    if s.len() == 0 {
        None
    } else {
        match split_once(s, '\n') {
            Some((line, rest)) => Some((strip_cr(line), rest)),
            None => Some((s, Seq::empty())),
        }
    }
}

/// Where `i` is the first index of `c`, `split_once` splits there.
pub proof fn lemma_split_once_at(s: Seq<char>, c: char, i: int)
    requires
        is_first_index(s, c, i),
    ensures
        split_once(s, c) == Some((s.take(i), s.skip(i + 1))),
{
    assert(s.contains(c));
    let k = choose|k: int| is_first_index(s, c, k);
    assert(is_first_index(s, c, k));
    if k < i {
        assert(s[k] != c);
    } else if k > i {
        assert(s[i] != c);
    }
}

/// Dropping a trailing whitespace character of `s` changes where its
/// leading whitespace ends only by that character.
proof fn lemma_trim_start_drop_last(s: Seq<char>)
    requires
        s.len() > 0,
        is_whitespace(s.last()),
    ensures
        trim_start(s).len() > 0 ==> trim_start(s).last() == s.last(),
        trim_start(s.drop_last()) == if trim_start(s).len() > 0 {
            trim_start(s).drop_last()
        } else {
            Seq::<char>::empty()
        },
    decreases s.len(),
{
    if s.len() == 1 {
        assert(s[0] == s.last());
        assert(s.drop_last() =~= Seq::<char>::empty());
        assert(s.drop_first() =~= Seq::<char>::empty());
        assert(trim_start(Seq::<char>::empty()) == Seq::<char>::empty());
        assert(trim_start(s).len() == 0);
    } else if is_whitespace(s[0]) {
        assert(s.drop_last().drop_first() =~= s.drop_first().drop_last());
        assert(s.drop_first().last() == s.last());
        lemma_trim_start_drop_last(s.drop_first());
    }
}

/// Trimming ignores a trailing whitespace character.
pub proof fn lemma_trim_drop_last(s: Seq<char>)
    requires
        s.len() > 0,
        is_whitespace(s.last()),
    ensures
        trim(s.drop_last()) == trim(s),
{
    lemma_trim_start_drop_last(s);
}

/// Relies on `str::split_once`: the parts before and after the first
/// occurrence of the delimiter, or `None` where it does not occur.
#[verifier::external_body]
pub(crate) fn split_once_char(s: &str, c: char) -> (r: Option<(&str, &str)>)
    ensures
        match r {
            Some((a, b)) => split_once(s@, c) == Some((a@, b@)),
            None => split_once(s@, c) is None,
        },
{
    s.split_once(c)
}

/// Relies on `str::trim`: removes leading and trailing characters with the
/// `White_Space` property.
#[verifier::external_body]
pub(crate) fn trim_str(s: &str) -> (r: &str)
    ensures
        r@ == trim(s@),
{
    s.trim()
}

/// The first line of `s` and the text after it.
pub fn split_line(s: &str) -> (r: Option<(&str, &str)>)
    ensures
        match r {
            Some((line, rest)) => next_line(s@) == Some((line@, rest@)),
            None => next_line(s@) is None,
        },
{
    if s.is_empty() {
        return None;
    }
    match split_once_char(s, '\n') {
        Some((line, rest)) => {
            let n = line.unicode_len();
            if n > 0 && line.get_char(n - 1) == '\r' {
                Some((line.substring_char(0, n - 1), rest))
            } else {
                Some((line, rest))
            }
        },
        None => {
            proof {
                reveal_strlit("");
            }
            Some((s, ""))
        },
    }
}

} // verus!
