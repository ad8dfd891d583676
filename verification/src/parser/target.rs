//! Target names of a makefile: the lines that match `^[^.#\s\t].+:.*$`.
use crate::model::make::string_views;
use crate::text::{
    before_first, contains_char, copy_range, find_char, is_whitespace, is_ws, lines, lines_of,
    string_of, to_chars, trim, trim_of, views,
};
use vstd::prelude::*;

verus! {

/// The target names of a makefile.
pub type Targets = Vec<String>;

/// Whether a line matches `^[^.#\s\t].+:.*$`: its first character is not `.`, `#` or
/// whitespace, a `:` comes at the third character or later, and there is no line break.
pub open spec fn is_target_line(line: Seq<char>) -> bool {
    &&& line.len() >= 1
    &&& line[0] != '.'
    &&& line[0] != '#'
    &&& !is_ws(line[0])
    &&& !line.contains('\n')
    &&& exists|j: int| 2 <= j < line.len() && #[trigger] line[j] == ':'
}

/// The target that a line defines: the part before its first `:`, trimmed.
pub open spec fn target_of_line(line: Seq<char>) -> Option<Seq<char>> {
    if is_target_line(line) {
        Some(trim_of(before_first(line, ':')))
    } else {
        None
    }
}

/// The targets among the first `n` lines, in order.
pub open spec fn targets_in_lines(ls: Seq<Seq<char>>, n: int) -> Seq<Seq<char>>
    decreases n,
{
    if n <= 0 {
        seq![]
    } else {
        let earlier = targets_in_lines(ls, n - 1);
        match target_of_line(ls[n - 1]) {
            Some(t) => earlier.push(t),
            None => earlier,
        }
    }
}

/// The targets that `content` defines, in order.
pub open spec fn targets_of(content: Seq<char>) -> Seq<Seq<char>> {
    targets_in_lines(lines_of(content), lines_of(content).len() as int)
}

/// Executable form of [`target_of_line`].
pub fn target_in_line(line: &[char]) -> (r: Option<Vec<char>>)
    ensures
        match r {
            Some(t) => target_of_line(line@) == Some(t@),
            None => target_of_line(line@) == None::<Seq<char>>,
        },
{
    let len = line.len();
    if len == 0 {
        return None;
    }
    let c = line[0];
    if c == '.' || c == '#' || c == '\t' || is_whitespace(c) || contains_char(line, '\n') {
        return None;
    }
    let mut j: usize = 2;
    while j < len && line[j] != ':'
        invariant
            2 <= j,
            len == line@.len(),
            forall|k: int| 2 <= k < j && k < len ==> line@[k] != ':',
        decreases len - j,
    {
        j += 1;
    }
    if j >= len {
        assert(!(exists|k: int| 2 <= k < line@.len() && #[trigger] line@[k] == ':'));
        return None;
    }
    assert(line@[j as int] == ':');
    let before = match find_char(line, ':') {
        Some(i) => copy_range(line, 0, i),
        None => copy_range(line, 0, len),
    };
    assert(before@ =~= before_first(line@, ':'));
    Some(trim(before.as_slice()))
}

/// The target that a line defines, if it defines one.
pub fn line_to_target(line: String) -> (r: Option<String>)
    ensures
        match r {
            Some(t) => target_of_line(line@) == Some(t@),
            None => target_of_line(line@) == None::<Seq<char>>,
        },
{
    let chars = to_chars(line.as_str());
    match target_in_line(chars.as_slice()) {
        Some(t) => Some(string_of(t.as_slice())),
        None => None,
    }
}

/// The targets that a makefile's content defines, in order.
pub fn content_to_targets(content: String) -> (r: Targets)
    ensures
        string_views(r@) == targets_of(content@),
{
    let chars = to_chars(content.as_str());
    let ls = lines(chars.as_slice());
    let ghost lv = views(ls@);
    let mut result: Vec<String> = Vec::new();
    let mut i: usize = 0;
    while i < ls.len()
        invariant
            lv == views(ls@),
            lv == lines_of(content@),
            i <= ls@.len(),
            string_views(result@) == targets_in_lines(lv, i as int),
        decreases ls@.len() - i,
    {
        assert(lv[i as int] == ls@[i as int]@);
        match target_in_line(ls[i].as_slice()) {
            Some(t) => {
                let ghost prev = string_views(result@);
                result.push(string_of(t.as_slice()));
                assert(string_views(result@) =~= prev.push(t@));
            },
            None => {},
        }
        i += 1;
    }
    result
}

} // verus!
