//! The targets that a makefile defines.
use crate::model::command::{command_views, CommandWithPreview, CommandWithPreviewView};
use crate::model::runner_type::RunnerType;
use crate::text::{
    before_first, chars_equal, contains_char, find_char, is_whitespace, is_ws, lemma_before_first,
    lemma_trim_range, lines, lines_of, string_of, to_chars, trim, trim_of, views, words, words_of,
};
use vstd::prelude::*;

verus! {

/// The targets of one makefile, in the order they are defined.
#[derive(Debug, Clone, PartialEq)]
pub struct Targets(pub Vec<CommandWithPreview>);

/// How a line of a makefile is treated when targets are collected.
#[derive(Debug, PartialEq, Eq, Structural, Clone, Copy)]
pub enum LineType {
    Normal,
    DefineStart,
    DefineEnd,
    Recipe,
}

pub open spec fn kw_define() -> Seq<char> {
    seq!['d', 'e', 'f', 'i', 'n', 'e']
}

pub open spec fn kw_endef() -> Seq<char> {
    seq!['e', 'n', 'd', 'e', 'f']
}

pub open spec fn kw_override() -> Seq<char> {
    seq!['o', 'v', 'e', 'r', 'r', 'i', 'd', 'e']
}

/// A line that starts with the recipe prefix (a tab unless `.RECIPEPREFIX` sets one) is a
/// recipe line. Otherwise the first words decide: `define` and `override define` open a
/// `define` block, `endef` closes one.
pub open spec fn line_type_of(line: Seq<char>, recipe_prefix: Option<char>) -> LineType {
    let prefix = match recipe_prefix {
        Some(p) => p,
        None => '\t',
    };
    if line.len() > 0 && line[0] == prefix {
        LineType::Recipe
    } else {
        let w = words_of(line);
        if w.len() == 0 {
            LineType::Normal
        } else if w.len() >= 2 && w[0] == kw_override() && w[1] == kw_define() {
            LineType::DefineStart
        } else if w[0] == kw_define() {
            LineType::DefineStart
        } else if w[0] == kw_endef() {
            LineType::DefineEnd
        } else {
            LineType::Normal
        }
    }
}

/// Number of leading `' '` characters.
pub open spec fn leading_spaces(s: Seq<char>) -> nat
    decreases s.len(),
{
    if s.len() == 0 || s[0] != ' ' {
        0
    } else {
        1 + leading_spaces(s.drop_first())
    }
}

pub proof fn lemma_leading_spaces_at(s: Seq<char>, m: int)
    requires
        0 <= m <= s.len(),
        forall|k: int| 0 <= k < m ==> s[k] == ' ',
        m == s.len() || s[m] != ' ',
    ensures
        leading_spaces(s) == m,
    decreases m,
{
    if m > 0 {
        lemma_leading_spaces_at(s.drop_first(), m - 1);
    }
}

/// Whether a line defines a target: it matches `^ *[^.#\s　][^=]*:[^=]*$`. After the leading
/// spaces comes a character that is not `.`, `#` or whitespace, and the rest of the line holds a
/// `:` and no `=`.
pub open spec fn is_target_line(line: Seq<char>) -> bool {
    let p = leading_spaces(line);
    &&& p < line.len()
    &&& line[p as int] != '.'
    &&& line[p as int] != '#'
    &&& !is_ws(line[p as int])
    &&& line.skip(p + 1 as int).contains(':')
    &&& !line.skip(p + 1 as int).contains('=')
}

/// The target that a line defines: the part before its first `:`, trimmed.
pub open spec fn target_of_line(line: Seq<char>) -> Option<Seq<char>> {
    if is_target_line(line) {
        Some(trim_of(before_first(line, ':')))
    } else {
        None
    }
}

/// A name that is neither a special target such as `.PHONY`, nor a comment, nor part of a
/// rule: it holds no `:`, and when it is not empty it starts with neither `.`, `#` nor
/// whitespace.
pub open spec fn is_plain_target(t: Seq<char>) -> bool {
    &&& !t.contains(':')
    &&& t.len() > 0 ==> t[0] != '.' && t[0] != '#' && !is_ws(t[0])
}

proof fn lemma_leading_spaces(s: Seq<char>)
    ensures
        leading_spaces(s) <= s.len(),
        forall|k: int| 0 <= k < leading_spaces(s) ==> s[k] == ' ',
    decreases s.len(),
{
    if s.len() > 0 && s[0] == ' ' {
        lemma_leading_spaces(s.drop_first());
        assert forall|k: int| 0 <= k < leading_spaces(s) implies s[k] == ' ' by {
            if k > 0 {
                assert(s[k] == s.drop_first()[k - 1]);
            }
        }
    }
}

proof fn lemma_target_of_line_is_plain(line: Seq<char>)
    ensures
        target_of_line(line) matches Some(t) ==> is_plain_target(t),
{
    if is_target_line(line) {
        let p = leading_spaces(line) as int;
        lemma_leading_spaces(line);
        let x = before_first(line, ':');
        lemma_before_first(line, ':');
        let m = x.len() as int;
        // The first `:` comes after the leading spaces.
        let rest = line.skip(p + 1);
        let j = choose|j: int| 0 <= j < rest.len() && #[trigger] rest[j] == ':';
        assert(line[p + 1 + j] == ':');
        if m < p {
            assert(line[m] == ':');
            assert(line[m] == ' ');
        }
        assert(m <= p + 1 + j) by {
            if m > p + 1 + j {
                assert(x[p + 1 + j] == ':');
                assert(x.contains(':'));
            }
        }
        let ab = lemma_trim_range(x);
        let t = trim_of(x);
        assert(!t.contains(':')) by {
            if t.contains(':') {
                let k = choose|k: int| 0 <= k < t.len() && t[k] == ':';
                assert(x[ab.0 + k] == ':');
            }
        }
        if t.len() > 0 {
            assert(ab.0 < ab.1);
            assert(ab.0 == p) by {
                if ab.0 < p {
                    assert(x[ab.0] == line[ab.0]);
                    assert(is_ws(' '));
                }
                if ab.0 > p {
                    assert(m > p);
                    assert(x[p] == line[p]);
                }
            }
            assert(t[0] == x[p]);
            assert(x[p] == line[p]);
        }
    }
}

/// No listed target is a special target such as `.PHONY`, a comment or a line of a recipe:
/// every name holds no `:`, and one that is not empty starts with neither `.`, `#` nor
/// whitespace.
pub proof fn law_listed_targets_are_plain(content: Seq<char>, recipe_prefix: Option<char>, path: Seq<char>)
    ensures
        forall|k: int|
            0 <= k < targets_of(content, recipe_prefix, path).len() ==> is_plain_target(
                #[trigger] targets_of(content, recipe_prefix, path)[k].args,
            ),
{
    let ls = lines_of(content);
    lemma_targets_in_lines_are_plain(ls, recipe_prefix, path, ls.len() as int);
}

proof fn lemma_targets_in_lines_are_plain(ls: Seq<Seq<char>>, recipe_prefix: Option<char>, path: Seq<char>, n: int)
    ensures
        forall|k: int|
            0 <= k < targets_in_lines(ls, recipe_prefix, path, n).len() ==> is_plain_target(
                #[trigger] targets_in_lines(ls, recipe_prefix, path, n)[k].args,
            ),
    decreases n,
{
    if n > 0 {
        lemma_targets_in_lines_are_plain(ls, recipe_prefix, path, n - 1);
        lemma_target_of_line_is_plain(ls[n - 1]);
    }
}

/// The `define` nesting depth before line `i`.
pub open spec fn define_depth(ls: Seq<Seq<char>>, recipe_prefix: Option<char>, i: int) -> int
    decreases i,
{
    if i <= 0 {
        0
    } else {
        define_depth(ls, recipe_prefix, i - 1) + match line_type_of(ls[i - 1], recipe_prefix) {
            LineType::DefineStart => 1int,
            LineType::DefineEnd => -1int,
            _ => 0int,
        }
    }
}

/// The commands for the targets among the first `n` lines: a normal line outside any `define`
/// block that defines a target gives a command whose line number is the line's, counted from 1.
pub open spec fn targets_in_lines(
    ls: Seq<Seq<char>>,
    recipe_prefix: Option<char>,
    path: Seq<char>,
    n: int,
) -> Seq<CommandWithPreviewView>
    decreases n,
{
    if n <= 0 {
        seq![]
    } else {
        let earlier = targets_in_lines(ls, recipe_prefix, path, n - 1);
        let line = ls[n - 1];
        if line_type_of(line, recipe_prefix) == LineType::Normal && define_depth(
            ls,
            recipe_prefix,
            n - 1,
        ) == 0 && target_of_line(line) is Some {
            earlier.push(
                CommandWithPreviewView {
                    runner_type: RunnerType::Make,
                    args: target_of_line(line)->0,
                    file_path: path,
                    line_number: n as u32,
                },
            )
        } else {
            earlier
        }
    }
}

/// The commands for the targets that `content` defines.
pub open spec fn targets_of(content: Seq<char>, recipe_prefix: Option<char>, path: Seq<char>) -> Seq<
    CommandWithPreviewView,
> {
    targets_in_lines(lines_of(content), recipe_prefix, path, lines_of(content).len() as int)
}

/// Classifies a line of a makefile.
pub fn get_line_type(line: &str, recipe_prefix: Option<char>) -> (r: LineType)
    ensures
        r == line_type_of(line@, recipe_prefix),
{
    let chars = to_chars(line);
    line_type(chars.as_slice(), recipe_prefix)
}

fn line_type(line: &[char], recipe_prefix: Option<char>) -> (r: LineType)
    ensures
        r == line_type_of(line@, recipe_prefix),
{
    let prefix = match recipe_prefix {
        Some(p) => p,
        None => '\t',
    };
    if line.len() > 0 && line[0] == prefix {
        return LineType::Recipe;
    }
    let w = words(line);
    if w.len() == 0 {
        return LineType::Normal;
    }
    proof {
        assert(views(w@)[0] == w@[0]@);
    }
    if w.len() >= 2 && chars_equal(w[0].as_slice(), &['o', 'v', 'e', 'r', 'r', 'i', 'd', 'e'])
        && chars_equal(w[1].as_slice(), &['d', 'e', 'f', 'i', 'n', 'e']) {
        proof {
            assert(views(w@)[1] == w@[1]@);
        }
        return LineType::DefineStart;
    }
    proof {
        if w@.len() >= 2 {
            assert(views(w@)[1] == w@[1]@);
        }
    }
    if chars_equal(w[0].as_slice(), &['d', 'e', 'f', 'i', 'n', 'e']) {
        LineType::DefineStart
    } else if chars_equal(w[0].as_slice(), &['e', 'n', 'd', 'e', 'f']) {
        LineType::DefineEnd
    } else {
        LineType::Normal
    }
}

pub fn target_in_line(line: &[char]) -> (r: Option<Vec<char>>)
    ensures
        match r {
            Some(t) => target_of_line(line@) == Some(t@),
            None => target_of_line(line@) == None::<Seq<char>>,
        },
{
    let len = line.len();
    let mut p: usize = 0;
    while p < len && line[p] == ' '
        invariant
            p <= len == line@.len(),
            forall|k: int| 0 <= k < p ==> line@[k] == ' ',
        decreases len - p,
    {
        p += 1;
    }
    proof {
        lemma_leading_spaces_at(line@, p as int);
    }
    if p >= len {
        return None;
    }
    let c = line[p];
    if c == '.' || c == '#' || is_whitespace(c) {
        return None;
    }
    let rest = crate::text::copy_range(line, p + 1, len);
    assert(rest@ =~= line@.skip(p + 1));
    if !contains_char(rest.as_slice(), ':') || contains_char(rest.as_slice(), '=') {
        return None;
    }
    let colon = find_char(line, ':');
    let before = match colon {
        Some(i) => crate::text::copy_range(line, 0, i),
        None => crate::text::copy_range(line, 0, len),
    };
    assert(before@ =~= before_first(line@, ':'));
    Some(trim(before.as_slice()))
}

/// The target that a line defines, if it defines one.
pub fn line_to_target(line: String) -> (r: Option<String>)
    ensures
        match r {
            Some(t) => target_of_line(line@) == Some(t@),
            None => target_of_line(line@) == None::<Seq<char>>,
        },
{
    let chars = to_chars(line.as_str());
    match target_in_line(chars.as_slice()) {
        Some(t) => Some(string_of(t.as_slice())),
        None => None,
    }
}

impl Targets {
    /// Collects the targets that `content`, the content of the makefile at `path`, defines.
    /// `recipe_prefix` is the character set by `.RECIPEPREFIX`, if any.
    pub fn new(content: String, path: String, recipe_prefix: Option<char>) -> (r: Targets)
        requires
            lines_of(content@).len() < u32::MAX,
        ensures
            command_views(r.0@) == targets_of(content@, recipe_prefix, path@),
    {
        let chars = to_chars(content.as_str());
        let ls = lines(chars.as_slice());
        let ghost lv = views(ls@);
        let mut result: Vec<CommandWithPreview> = Vec::new();
        let mut define_block_depth: i64 = 0;
        let mut i: usize = 0;
        while i < ls.len()
            invariant
                lv == views(ls@),
                lv == lines_of(content@),
                ls@.len() < u32::MAX,
                i <= ls@.len(),
                define_block_depth == define_depth(lv, recipe_prefix, i as int),
                -(i as int) <= define_block_depth <= i,
                command_views(result@) == targets_in_lines(lv, recipe_prefix, path@, i as int),
            decreases ls@.len() - i,
        {
            assert(lv[i as int] == ls@[i as int]@);
            let t = line_type(ls[i].as_slice(), recipe_prefix);
            match t {
                LineType::DefineStart => {
                    define_block_depth += 1;
                },
                LineType::DefineEnd => {
                    define_block_depth -= 1;
                },
                LineType::Normal => {
                    if define_block_depth == 0 {
                        match target_in_line(ls[i].as_slice()) {
                            Some(target) => {
                                let ghost prev = command_views(result@);
                                let command = CommandWithPreview::new(
                                    RunnerType::Make,
                                    string_of(target.as_slice()),
                                    path.clone(),
                                    (i + 1) as u32,
                                );
                                let ghost cv = command@;
                                result.push(command);
                                assert(command_views(result@) =~= prev.push(cv));
                            },
                            None => {},
                        }
                    }
                },
                LineType::Recipe => {},
            }
            i += 1;
        }
        Targets(result)
    }
}

} // verus!
