//! Target names of a makefile, without the place that defines them.
use super::make::target::{kw_define, kw_endef, kw_override, target_in_line, target_of_line};
use super::make::string_views;
use crate::text::{chars_equal, lines, lines_of, string_of, to_chars, trim, trim_of, views, words, words_of};
use vstd::prelude::*;

verus! {

/// How a line is treated when target names are collected.
#[derive(Debug, PartialEq, Eq, Structural, Clone, Copy)]
pub enum LineType {
    Normal,
    DefineStart,
    DefineEnd,
}

/// `override define` opens a `define` block; otherwise the trimmed line decides: exactly
/// `define` opens one and exactly `endef` closes one.
pub open spec fn line_type_of(line: Seq<char>) -> LineType {
    let w = words_of(line);
    if w.len() >= 2 && w[0] == kw_override() && w[1] == kw_define() {
        LineType::DefineStart
    } else if trim_of(line) == kw_define() {
        LineType::DefineStart
    } else if trim_of(line) == kw_endef() {
        LineType::DefineEnd
    } else {
        LineType::Normal
    }
}

/// The `define` nesting depth before line `i`.
pub open spec fn define_depth(ls: Seq<Seq<char>>, i: int) -> int
    decreases i,
{
    if i <= 0 {
        0
    } else {
        define_depth(ls, i - 1) + match line_type_of(ls[i - 1]) {
            LineType::DefineStart => 1int,
            LineType::DefineEnd => -1int,
            LineType::Normal => 0int,
        }
    }
}

/// The target names among the first `n` lines that lie outside any `define` block.
pub open spec fn target_names_in_lines(ls: Seq<Seq<char>>, n: int) -> Seq<Seq<char>>
    decreases n,
{
    if n <= 0 {
        seq![]
    } else {
        let earlier = target_names_in_lines(ls, n - 1);
        let line = ls[n - 1];
        if line_type_of(line) == LineType::Normal && define_depth(ls, n - 1) == 0 && target_of_line(
            line,
        ) is Some {
            earlier.push(target_of_line(line)->0)
        } else {
            earlier
        }
    }
}

/// The target names that `content` defines, in order.
pub open spec fn target_names_of(content: Seq<char>) -> Seq<Seq<char>> {
    target_names_in_lines(lines_of(content), lines_of(content).len() as int)
}

/// The first line, counted from 1, that defines `target`, looking at the first `n` lines.
pub open spec fn first_definition_in_lines(ls: Seq<Seq<char>>, target: Seq<char>, n: int) -> Option<
    int,
>
    decreases n,
{
    if n <= 0 {
        None
    } else {
        match first_definition_in_lines(ls, target, n - 1) {
            Some(k) => Some(k),
            None => if target_of_line(ls[n - 1]) == Some(target) {
                Some(n)
            } else {
                None
            },
        }
    }
}

proof fn lemma_first_definition_stays(ls: Seq<Seq<char>>, target: Seq<char>, a: int, b: int)
    requires
        0 <= a <= b,
        first_definition_in_lines(ls, target, a) is Some,
    ensures
        first_definition_in_lines(ls, target, b) == first_definition_in_lines(ls, target, a),
    decreases b - a,
{
    if a < b {
        lemma_first_definition_stays(ls, target, a, b - 1);
    }
}

fn line_type(line: &[char]) -> (r: LineType)
    ensures
        r == line_type_of(line@),
{
    let w = words(line);
    if w.len() >= 2 && chars_equal(w[0].as_slice(), &['o', 'v', 'e', 'r', 'r', 'i', 'd', 'e'])
        && chars_equal(w[1].as_slice(), &['d', 'e', 'f', 'i', 'n', 'e']) {
        proof {
            assert(views(w@)[0] == w@[0]@);
            assert(views(w@)[1] == w@[1]@);
        }
        return LineType::DefineStart;
    }
    proof {
        if w@.len() >= 2 {
            assert(views(w@)[0] == w@[0]@);
            assert(views(w@)[1] == w@[1]@);
        }
    }
    let trimmed = trim(line);
    if chars_equal(trimmed.as_slice(), &['d', 'e', 'f', 'i', 'n', 'e']) {
        LineType::DefineStart
    } else if chars_equal(trimmed.as_slice(), &['e', 'n', 'd', 'e', 'f']) {
        LineType::DefineEnd
    } else {
        LineType::Normal
    }
}

/// The target names of a makefile, in the order they are defined.
#[derive(Debug, Clone, PartialEq)]
pub struct Targets(pub Vec<String>);

impl Targets {
    /// Collects the target names that `content` defines outside `define` blocks.
    pub fn new(content: String) -> (r: Targets)
        requires
            lines_of(content@).len() <= isize::MAX,
        ensures
            string_views(r.0@) == target_names_of(content@),
    {
        let chars = to_chars(content.as_str());
        let ls = lines(chars.as_slice());
        let ghost lv = views(ls@);
        let mut result: Vec<String> = Vec::new();
        let mut define_block_depth: isize = 0;
        let mut i: usize = 0;
        while i < ls.len()
            invariant
                lv == views(ls@),
                lv == lines_of(content@),
                ls@.len() <= isize::MAX,
                i <= ls@.len(),
                define_block_depth == define_depth(lv, i as int),
                -(i as int) <= define_block_depth <= i,
                string_views(result@) == target_names_in_lines(lv, i as int),
            decreases ls@.len() - i,
        {
            assert(lv[i as int] == ls@[i as int]@);
            match line_type(ls[i].as_slice()) {
                LineType::DefineStart => {
                    define_block_depth += 1;
                },
                LineType::DefineEnd => {
                    define_block_depth -= 1;
                },
                LineType::Normal => {
                    if define_block_depth == 0 {
                        match target_in_line(ls[i].as_slice()) {
                            Some(t) => {
                                let ghost prev = string_views(result@);
                                result.push(string_of(t.as_slice()));
                                assert(string_views(result@) =~= prev.push(t@));
                            },
                            None => {},
                        }
                    }
                },
            }
            i += 1;
        }
        Targets(result)
    }
}

/// The line number, counted from 1, of the first line of `content` that defines
/// `target_to_search`, if any.
pub fn target_line_number(content: String, target_to_search: String) -> (r: Option<u32>)
    requires
        lines_of(content@).len() < u32::MAX,
    ensures
        match r {
            Some(n) => first_definition_in_lines(
                lines_of(content@),
                target_to_search@,
                lines_of(content@).len() as int,
            ) == Some(n as int),
            None => first_definition_in_lines(
                lines_of(content@),
                target_to_search@,
                lines_of(content@).len() as int,
            ) == None::<int>,
        },
{
    let chars = to_chars(content.as_str());
    let wanted = to_chars(target_to_search.as_str());
    let ls = lines(chars.as_slice());
    let ghost lv = views(ls@);
    let mut index: usize = 0;
    while index < ls.len()
        invariant
            lv == views(ls@),
            lv == lines_of(content@),
            ls@.len() < u32::MAX,
            index <= ls@.len(),
            wanted@ == target_to_search@,
            first_definition_in_lines(lv, wanted@, index as int) == None::<int>,
        decreases ls@.len() - index,
    {
        assert(lv[index as int] == ls@[index as int]@);
        match target_in_line(ls[index].as_slice()) {
            Some(t) => {
                if chars_equal(t.as_slice(), wanted.as_slice()) {
                    proof {
                        lemma_first_definition_stays(lv, wanted@, index + 1, lv.len() as int);
                    }
                    return Some((index + 1) as u32);
                }
            },
            None => {},
        }
        index += 1;
    }
    None
}

} // verus!
