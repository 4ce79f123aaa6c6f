//! The `description.txt` format: two lines of `label: value`, giving a
//! document's name and its category.
use vstd::prelude::*;

use crate::text::{
    is_first_index, is_whitespace, lemma_split_once_at, lemma_trim_drop_last, next_line, split_line,
    split_once, split_once_char, strip_cr, trim, trim_str,
};

verus! {

/// Why a description text could not be read.
#[derive(Clone, Copy, Debug, PartialEq, Eq, Structural)]
pub enum FormatError {
    /// The text has no first line.
    MissingNameLine,
    /// The first line has no colon.
    MalformedNameLine,
    /// The text has no second line.
    MissingCategoryLine,
    /// The second line has no colon.
    MalformedCategoryLine,
}

/// A document's metadata: its name and its category.
#[derive(Clone, Debug)]
pub struct Description {
    pub name: String,
    pub category: String,
}

/// The abstract value of a `Description`.
pub struct DescriptionView {
    pub name: Seq<char>,
    pub category: Seq<char>,
}

impl View for Description {
    type V = DescriptionView;

    open spec fn view(&self) -> DescriptionView {
        DescriptionView { name: self.name@, category: self.category@ }
    }
}

/// The value of a `label: value` line: what follows its first colon, trimmed.
pub open spec fn field_value(line: Seq<char>) -> Option<Seq<char>> {
    match split_once(line, ':') {
        Some((_, value)) => Some(trim(value)),
        None => None,
    }
}

/// What a description text holds: the values of its first two lines.
pub open spec fn parse_description(s: Seq<char>) -> Result<DescriptionView, FormatError> {
    match next_line(s) {
        None => Err(FormatError::MissingNameLine),
        Some((first, rest)) => match field_value(first) {
            None => Err(FormatError::MalformedNameLine),
            Some(name) => match next_line(rest) {
                None => Err(FormatError::MissingCategoryLine),
                Some((second, _)) => match field_value(second) {
                    None => Err(FormatError::MalformedCategoryLine),
                    Some(category) => Ok(DescriptionView { name, category }),
                },
            },
        },
    }
}

/// The value of `label:value` where the label holds no colon.
proof fn lemma_field_value(label: Seq<char>, value: Seq<char>)
    requires
        !label.contains(':'),
    ensures
        field_value(label + seq![':'] + value) == Some(trim(value)),
{
    let line = label + seq![':'] + value;
    let i = label.len() as int;
    assert forall|j: int| 0 <= j < i implies line[j] != ':' by {
        assert(line[j] == label[j]);
    }
    lemma_split_once_at(line, ':', i);
    assert(line.skip(i + 1) =~= value);
}

/// A text `x:a` newline `y:b`, whose labels `x` and `y` hold no colon and
/// no line break and whose values `a` and `b` hold no line break, describes
/// the name `a` and the category `b`, each without surrounding whitespace.
pub proof fn lemma_parse_two_lines(x: Seq<char>, a: Seq<char>, y: Seq<char>, b: Seq<char>)
    requires
        !x.contains(':'),
        !x.contains('\n'),
        !a.contains('\n'),
        !y.contains(':'),
        !y.contains('\n'),
        !b.contains('\n'),
    ensures
        parse_description(x + seq![':'] + a + seq!['\n'] + y + seq![':'] + b) == Ok::<
            DescriptionView,
            FormatError,
        >(DescriptionView { name: trim(a), category: trim(b) }),
{
    let first = x + seq![':'] + a;
    let second = y + seq![':'] + b;
    let s = x + seq![':'] + a + seq!['\n'] + y + seq![':'] + b;
    assert(s =~= first + seq!['\n'] + second);
    let i = first.len() as int;
    assert forall|j: int| 0 <= j < i implies s[j] != '\n' by {
        assert(s[j] == first[j]);
        if j >= x.len() + 1 {
            assert(a[j - x.len() - 1] == first[j]);
        }
    }
    assert(s[i] == '\n');
    lemma_split_once_at(s, '\n', i);
    assert(s.take(i) =~= first);
    assert(s.skip(i + 1) =~= second);
    lemma_field_value(x, a);
    if a.len() > 0 && a.last() == '\r' {
        assert(strip_cr(first) =~= x + seq![':'] + a.drop_last());
        lemma_field_value(x, a.drop_last());
        assert(is_whitespace(a.last()));
        lemma_trim_drop_last(a);
    }
    if second.contains('\n') {
        let k = choose|k: int| 0 <= k < second.len() && second[k] == '\n';
        if k < y.len() {
            assert(y[k] == second[k]);
        } else if k > y.len() {
            assert(b[k - y.len() - 1] == second[k]);
        }
    }
    lemma_field_value(y, b);
}

/// Reading fails exactly where the text has fewer than two lines, or where
/// one of its first two lines has no colon.
pub proof fn lemma_parse_fails(s: Seq<char>)
    ensures
        parse_description(s) is Err <==> match next_line(s) {
            None => true,
            Some((first, rest)) => !first.contains(':') || match next_line(rest) {
                None => true,
                Some((second, _)) => !second.contains(':'),
            },
        },
{
}

/// Reading depends on the text alone: equal texts describe the same document.
pub proof fn lemma_parse_deterministic(s: Seq<char>, t: Seq<char>)
    requires
        s == t,
    ensures
        parse_description(s) == parse_description(t),
{
}

/// The value of one `label: value` line.
fn read_field(line: &str) -> (r: Option<String>)
    ensures
        match r {
            Some(v) => field_value(line@) == Some(v@),
            None => field_value(line@) is None,
        },
{
    match split_once_char(line, ':') {
        Some((_, value)) => Some(String::from_str(trim_str(value))),
        None => None,
    }
}

impl Description {
    /// Reads a description text: the name from its first line and the
    /// category from its second, each the trimmed text after the line's
    /// first colon.
    pub fn parse(s: &str) -> (r: Result<Description, FormatError>)
        ensures
            match r {
                Ok(d) => parse_description(s@) == Ok::<DescriptionView, FormatError>(d@),
                Err(e) => parse_description(s@) == Err::<DescriptionView, FormatError>(e),
            },
    {
        let (first, rest) = match split_line(s) {
            Some(p) => p,
            None => return Err(FormatError::MissingNameLine),
        };
        let name = match read_field(first) {
            Some(v) => v,
            None => return Err(FormatError::MalformedNameLine),
        };
        let (second, _) = match split_line(rest) {
            Some(p) => p,
            None => return Err(FormatError::MissingCategoryLine),
        };
        let category = match read_field(second) {
            Some(v) => v,
            None => return Err(FormatError::MalformedCategoryLine),
        };
        Ok(Description { name, category })
    }
}

impl std::str::FromStr for Description {
    type Err = FormatError;

    /// Reads a description text, as `Description::parse` does.
    fn from_str(s: &str) -> (r: Result<Description, FormatError>)
        ensures
            match r {
                Ok(d) => parse_description(s@) == Ok::<DescriptionView, FormatError>(d@),
                Err(e) => parse_description(s@) == Err::<DescriptionView, FormatError>(e),
            },
    {
        Description::parse(s)
    }
}

} // verus!
