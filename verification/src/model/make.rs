//! A makefile, with the makefiles that it includes.
pub mod target;

use super::command::{
    command_line, command_views, duplicate_commands, CommandForExec, CommandWithPreview,
    CommandWithPreviewView,
};
use super::runner_type::RunnerType;
use crate::text::{
    before_first, chars_equal, contains_chars, contains_seq, copy_range, find_char, is_ws, join,
    join_path, lines, lines_of, starts_with, string_of, to_chars, views, words, words_of,
};
use target::{targets_of, Targets};
use vstd::prelude::*;

verus! {

/// Make represents a makefile: its targets and the makefiles that it includes.
#[derive(Debug, PartialEq)]
pub struct Make {
    pub path: String,
    pub include_files: Vec<Make>,
    pub targets: Targets,
}

/// The commands of a makefile: its own targets, then those of each included makefile in turn.
pub open spec fn make_commands(m: Make) -> Seq<CommandWithPreviewView>
    decreases m,
{
    command_views(m.targets.0@) + includes_commands(m.include_files@)
}

/// The commands of a sequence of makefiles, one after the other.
pub open spec fn includes_commands(s: Seq<Make>) -> Seq<CommandWithPreviewView>
    decreases s,
{
    if s.len() == 0 {
        seq![]
    } else {
        make_commands(s[0]) + includes_commands(s.drop_first())
    }
}

proof fn lemma_includes_commands_push(s: Seq<Make>, m: Make)
    ensures
        includes_commands(s.push(m)) == includes_commands(s) + make_commands(m),
    decreases s.len(),
{
    if s.len() == 0 {
        assert(s.push(m).drop_first() =~= Seq::<Make>::empty());
        assert(includes_commands(s.push(m).drop_first()) =~= Seq::<CommandWithPreviewView>::empty());
        assert(s.push(m)[0] == m);
        assert(includes_commands(s.push(m)) =~= make_commands(m));
        assert(includes_commands(s) =~= Seq::<CommandWithPreviewView>::empty());
    } else {
        lemma_includes_commands_push(s.drop_first(), m);
        assert(s.push(m).drop_first() =~= s.drop_first().push(m));
        assert(includes_commands(s.push(m)) =~= includes_commands(s) + make_commands(m));
    }
}

pub open spec fn kw_include() -> Seq<char> {
    seq!['i', 'n', 'c', 'l', 'u', 'd', 'e']
}

pub open spec fn kw_dash_include() -> Seq<char> {
    seq!['-', 'i', 'n', 'c', 'l', 'u', 'd', 'e']
}

pub open spec fn kw_sinclude() -> Seq<char> {
    seq!['s', 'i', 'n', 'c', 'l', 'u', 'd', 'e']
}

pub open spec fn starts_with_seq(s: Seq<char>, prefix: Seq<char>) -> bool {
    prefix.len() <= s.len() && s.take(prefix.len() as int) == prefix
}

/// Whether a line is an include directive: it matches `^ *(include|-include|sinclude).*$`.
pub open spec fn is_include_line(line: Seq<char>) -> bool {
    let rest = line.skip(target::leading_spaces(line) as int);
    &&& (starts_with_seq(rest, kw_include()) || starts_with_seq(rest, kw_dash_include())
        || starts_with_seq(rest, kw_sinclude()))
    &&& !line.contains('\n')
}

/// The files that an include line names: the words before any `#` comment, without the
/// directive itself.
pub open spec fn include_paths_of_line(line: Seq<char>) -> Option<Seq<Seq<char>>> {
    if is_include_line(line) {
        Some(words_of(before_first(line, '#')).drop_first())
    } else {
        None
    }
}

/// The files that the first `n` lines include, in order.
pub open spec fn include_paths_in_lines(ls: Seq<Seq<char>>, n: int) -> Seq<Seq<char>>
    decreases n,
{
    if n <= 0 {
        seq![]
    } else {
        include_paths_in_lines(ls, n - 1) + match include_paths_of_line(ls[n - 1]) {
            Some(paths) => paths,
            None => seq![],
        }
    }
}

/// The files that the makefile content includes, in order.
pub open spec fn include_paths_of(content: Seq<char>) -> Seq<Seq<char>> {
    include_paths_in_lines(lines_of(content), lines_of(content).len() as int)
}

/// The string values of a vector of strings.
pub open spec fn string_views(s: Seq<String>) -> Seq<Seq<char>> {
    Seq::new(s.len(), |i: int| s[i]@)
}

proof fn lemma_words_nonempty(s: Seq<char>, k: int)
    requires
        0 <= k < s.len(),
        !is_ws(s[k]),
    ensures
        words_of(s).len() >= 1,
    decreases s.len(),
{
    if is_ws(s[0]) {
        lemma_words_nonempty(s.drop_first(), k - 1);
    }
}

/// The file names an include directive line names, if the line is one.
pub fn line_to_including_file_paths(line: String) -> (r: Option<Vec<String>>)
    ensures
        match r {
            Some(paths) => include_paths_of_line(line@) == Some(string_views(paths@)),
            None => include_paths_of_line(line@) == None::<Seq<Seq<char>>>,
        },
{
    let chars = to_chars(line.as_str());
    match include_paths_in(chars.as_slice()) {
        Some(paths) => {
            let mut r: Vec<String> = Vec::new();
            let mut i: usize = 0;
            while i < paths.len()
                invariant
                    i <= paths@.len(),
                    string_views(r@) == views(paths@).take(i as int),
                decreases paths@.len() - i,
            {
                let ghost prev = string_views(r@);
                r.push(string_of(paths[i].as_slice()));
                assert(string_views(r@) =~= prev.push(views(paths@)[i as int]));
                assert(views(paths@).take(i + 1) =~= views(paths@).take(i as int).push(
                    views(paths@)[i as int],
                ));
                i += 1;
            }
            assert(views(paths@).take(paths@.len() as int) =~= views(paths@));
            Some(r)
        },
        None => None,
    }
}

fn include_paths_in(line: &[char]) -> (r: Option<Vec<Vec<char>>>)
    ensures
        match r {
            Some(paths) => include_paths_of_line(line@) == Some(views(paths@)),
            None => include_paths_of_line(line@) == None::<Seq<Seq<char>>>,
        },
{
    let len = line.len();
    let mut p: usize = 0;
    while p < len && line[p] == ' '
        invariant
            p <= len == line@.len(),
            forall|k: int| 0 <= k < p ==> line@[k] == ' ',
        decreases len - p,
    {
        p += 1;
    }
    proof {
        target::lemma_leading_spaces_at(line@, p as int);
    }
    let rest = copy_range(line, p, len);
    assert(rest@ =~= line@.skip(p as int));
    let is_directive = starts_with(rest.as_slice(), &['i', 'n', 'c', 'l', 'u', 'd', 'e'])
        || starts_with(rest.as_slice(), &['-', 'i', 'n', 'c', 'l', 'u', 'd', 'e'])
        || starts_with(rest.as_slice(), &['s', 'i', 'n', 'c', 'l', 'u', 'd', 'e']);
    if !is_directive || crate::text::contains_char(line, '\n') {
        return None;
    }
    let before = match find_char(line, '#') {
        Some(i) => copy_range(line, 0, i),
        None => copy_range(line, 0, len),
    };
    assert(before@ =~= before_first(line@, '#'));
    proof {
        // The directive's first character comes before any `#`.
        assert(rest@[0] == line@[p as int]);
        assert(line@[p as int] != '#');
        match crate::text::first_index_of(line@, '#') {
            Some(h) => {
                if h <= p {
                    assert(line@[h] == '#');
                }
                assert(before@[p as int] == line@[p as int]);
            },
            None => {},
        }
        lemma_words_nonempty(before@, p as int);
    }
    let w = words(before.as_slice());
    let mut paths: Vec<Vec<char>> = Vec::new();
    let mut i: usize = 1;
    while i < w.len()
        invariant
            1 <= i <= w@.len(),
            views(paths@) == views(w@).subrange(1, i as int),
        decreases w@.len() - i,
    {
        let ghost prev = views(paths@);
        paths.push(copy_range(w[i].as_slice(), 0, w[i].len()));
        assert(w[i as int]@.subrange(0, w[i as int]@.len() as int) =~= w[i as int]@);
        assert(views(paths@) =~= prev.push(views(w@)[i as int]));
        assert(views(w@).subrange(1, i + 1) =~= views(w@).subrange(1, i as int).push(
            views(w@)[i as int],
        ));
        i += 1;
    }
    assert(views(w@).subrange(1, w@.len() as int) =~= views(w@).drop_first());
    Some(paths)
}

/// The files that a makefile includes. The paths are taken as they are written, relative to the
/// directory in which make runs. A line with only the directive includes nothing; patterns such
/// as `include foo *.mk $(bar)` are not expanded.
pub fn content_to_include_file_paths(file_content: String) -> (r: Vec<String>)
    ensures
        string_views(r@) == include_paths_of(file_content@),
{
    let chars = to_chars(file_content.as_str());
    let ls = lines(chars.as_slice());
    let ghost lv = views(ls@);
    let mut result: Vec<String> = Vec::new();
    let mut i: usize = 0;
    while i < ls.len()
        invariant
            lv == views(ls@),
            lv == lines_of(file_content@),
            i <= ls@.len(),
            string_views(result@) == include_paths_in_lines(lv, i as int),
        decreases ls@.len() - i,
    {
        assert(lv[i as int] == ls@[i as int]@);
        match include_paths_in(ls[i].as_slice()) {
            Some(paths) => {
                let ghost prev = string_views(result@);
                let mut j: usize = 0;
                while j < paths.len()
                    invariant
                        j <= paths@.len(),
                        string_views(result@) == prev + views(paths@).take(j as int),
                    decreases paths@.len() - j,
                {
                    let ghost before = string_views(result@);
                    result.push(string_of(paths[j].as_slice()));
                    assert(string_views(result@) =~= before.push(views(paths@)[j as int]));
                    assert(views(paths@).take(j + 1) =~= views(paths@).take(j as int).push(
                        views(paths@)[j as int],
                    ));
                    j += 1;
                }
                assert(views(paths@).take(paths@.len() as int) =~= views(paths@));
            },
            None => {
                assert(string_views(result@) =~= string_views(result@) + Seq::<Seq<char>>::empty());
            },
        }
        i += 1;
    }
    result
}

/// The file names that make looks for, in the order it tries them.
pub open spec fn makefile_name_options() -> Seq<Seq<char>> {
    seq![
        seq!['G', 'N', 'U', 'm', 'a', 'k', 'e', 'f', 'i', 'l', 'e'],
        seq!['m', 'a', 'k', 'e', 'f', 'i', 'l', 'e'],
        seq!['M', 'a', 'k', 'e', 'f', 'i', 'l', 'e'],
    ]
}

/// The paths under `current_dir` of the entries that are named like a makefile, in the order of
/// `file_names`.
pub open spec fn makefile_candidates(current_dir: Seq<char>, file_names: Seq<Seq<char>>, n: int) -> Seq<
    Seq<char>,
>
    decreases n,
{
    if n <= 0 {
        seq![]
    } else {
        let earlier = makefile_candidates(current_dir, file_names, n - 1);
        if makefile_name_options().contains(file_names[n - 1]) {
            earlier.push(join_path(current_dir, file_names[n - 1]))
        } else {
            earlier
        }
    }
}

/// The first candidate whose path contains `option`.
pub open spec fn first_containing(candidates: Seq<Seq<char>>, option: Seq<char>) -> Option<
    Seq<char>,
>
    decreases candidates.len(),
{
    if candidates.len() == 0 {
        None
    } else if contains_seq(candidates[0], option) {
        Some(candidates[0])
    } else {
        first_containing(candidates.drop_first(), option)
    }
}

/// The makefile that make uses in a directory whose entries are `file_names`: by priority
/// `GNUmakefile`, `makefile`, `Makefile`, the first candidate path that contains the name.
pub open spec fn chosen_makefile(current_dir: Seq<char>, file_names: Seq<Seq<char>>) -> Option<
    Seq<char>,
> {
    let candidates = makefile_candidates(current_dir, file_names, file_names.len() as int);
    match first_containing(candidates, makefile_name_options()[0]) {
        Some(p) => Some(p),
        None => match first_containing(candidates, makefile_name_options()[1]) {
            Some(p) => Some(p),
            None => first_containing(candidates, makefile_name_options()[2]),
        },
    }
}

fn first_candidate_containing(candidates: &Vec<String>, option: &[char]) -> (r: Option<String>)
    ensures
        match r {
            Some(p) => first_containing(string_views(candidates@), option@) == Some(p@),
            None => first_containing(string_views(candidates@), option@) == None::<Seq<char>>,
        },
{
    let mut i: usize = 0;
    let ghost cv = string_views(candidates@);
    assert(cv.skip(0) =~= cv);
    while i < candidates.len()
        invariant
            cv == string_views(candidates@),
            i <= cv.len(),
            first_containing(cv, option@) == first_containing(cv.skip(i as int), option@),
        decreases cv.len() - i,
    {
        let chars = to_chars(candidates[i].as_str());
        assert(cv.skip(i as int)[0] == cv[i as int]);
        if contains_chars(chars.as_slice(), option) {
            return Some(candidates[i].clone());
        }
        assert(cv.skip(i as int).drop_first() =~= cv.skip(i + 1));
        i += 1;
    }
    None
}

impl Make {
    /// `make {target}`.
    pub fn command_to_run(command: &CommandForExec) -> (r: String)
        ensures
            r@ == command_line(RunnerType::Make, command.args@),
    {
        crate::model::command::format_command(RunnerType::Make, &command.args)
    }

    /// A makefile at `path` with the given content and the makefiles it includes.
    pub fn from_content(
        path: String,
        file_content: String,
        recipe_prefix: Option<char>,
        include_files: Vec<Make>,
    ) -> (r: Make)
        requires
            lines_of(file_content@).len() < u32::MAX,
        ensures
            r.path@ == path@,
            r.include_files@ == include_files@,
            command_views(r.targets.0@) == targets_of(file_content@, recipe_prefix, path@),
    {
        let targets = Targets::new(file_content, path.clone(), recipe_prefix);
        Make { path, include_files, targets }
    }

    /// The commands of the makefile and of the makefiles it includes, depth first.
    pub fn to_commands(&self) -> (r: Vec<CommandWithPreview>)
        ensures
            command_views(r@) == make_commands(*self),
        decreases self,
    {
        let mut result = duplicate_commands(&self.targets.0);
        let mut i: usize = 0;
        assert(self.include_files@.take(0) =~= Seq::<Make>::empty());
        while i < self.include_files.len()
            invariant
                i <= self.include_files@.len(),
                command_views(result@) == command_views(self.targets.0@) + includes_commands(
                    self.include_files@.take(i as int),
                ),
            decreases self.include_files@.len() - i,
        {
            let included = &self.include_files[i];
            assert(decreases_to!(*self => self.include_files@[i as int]));
            let commands = included.to_commands();
            let ghost prev = command_views(result@);
            let mut j: usize = 0;
            while j < commands.len()
                invariant
                    j <= commands@.len(),
                    command_views(result@) == prev + command_views(commands@).take(j as int),
                decreases commands@.len() - j,
            {
                let ghost before = command_views(result@);
                result.push(commands[j].duplicate());
                assert(command_views(result@) =~= before.push(command_views(commands@)[j as int]));
                assert(command_views(commands@).take(j + 1) =~= command_views(commands@).take(
                    j as int,
                ).push(command_views(commands@)[j as int]));
                j += 1;
            }
            assert(command_views(commands@).take(commands@.len() as int) =~= command_views(
                commands@,
            ));
            proof {
                lemma_includes_commands_push(self.include_files@.take(i as int), *included);
                assert(self.include_files@.take(i + 1) =~= self.include_files@.take(i as int).push(
                    *included,
                ));
            }
            i += 1;
        }
        assert(self.include_files@.take(self.include_files@.len() as int)
            =~= self.include_files@);
        result
    }

    /// The makefile that make would use in `current_dir`, whose entries are `file_names`: by
    /// priority `GNUmakefile`, `makefile` and `Makefile`. `Makefile` is looked for too so that
    /// this works on a case-insensitive file system.
    pub fn specify_makefile_name(current_dir: String, file_names: Vec<String>) -> (r: Option<
        String,
    >)
        ensures
            match r {
                Some(p) => chosen_makefile(current_dir@, string_views(file_names@)) == Some(p@),
                None => chosen_makefile(current_dir@, string_views(file_names@)) == None::<
                    Seq<char>,
                >,
            },
    {
        let ghost names = string_views(file_names@);
        let mut candidates: Vec<String> = Vec::new();
        let mut i: usize = 0;
        while i < file_names.len()
            invariant
                names == string_views(file_names@),
                i <= file_names@.len(),
                string_views(candidates@) == makefile_candidates(current_dir@, names, i as int),
            decreases file_names@.len() - i,
        {
            let name = to_chars(file_names[i].as_str());
            let is_option = chars_equal(
                name.as_slice(),
                &['G', 'N', 'U', 'm', 'a', 'k', 'e', 'f', 'i', 'l', 'e'],
            ) || chars_equal(name.as_slice(), &['m', 'a', 'k', 'e', 'f', 'i', 'l', 'e'])
                || chars_equal(name.as_slice(), &['M', 'a', 'k', 'e', 'f', 'i', 'l', 'e']);
            proof {
                let o = makefile_name_options();
                assert(o.contains(names[i as int]) <==> (names[i as int] == o[0] || names[i as int]
                    == o[1] || names[i as int] == o[2])) by {
                    if o.contains(names[i as int]) {
                        let k = choose|k: int| 0 <= k < o.len() && o[k] == names[i as int];
                        assert(k == 0 || k == 1 || k == 2);
                    }
                    if names[i as int] == o[0] {
                        assert(o[0] == names[i as int]);
                    }
                }
            }
            if is_option {
                let ghost prev = string_views(candidates@);
                let p = join(current_dir.as_str(), file_names[i].as_str());
                candidates.push(p);
                assert(string_views(candidates@) =~= prev.push(
                    join_path(current_dir@, names[i as int]),
                ));
            }
            i += 1;
        }
        match first_candidate_containing(
            &candidates,
            &['G', 'N', 'U', 'm', 'a', 'k', 'e', 'f', 'i', 'l', 'e'],
        ) {
            Some(p) => Some(p),
            None => match first_candidate_containing(
                &candidates,
                &['m', 'a', 'k', 'e', 'f', 'i', 'l', 'e'],
            ) {
                Some(p) => Some(p),
                None => first_candidate_containing(
                    &candidates,
                    &['M', 'a', 'k', 'e', 'f', 'i', 'l', 'e'],
                ),
            },
        }
    }
}

/// The files that a line names when it is an include directive; none otherwise.
spec fn line_paths(l: Seq<char>) -> Seq<Seq<char>> {
    match include_paths_of_line(l) {
        Some(paths) => paths,
        None => seq![],
    }
}

proof fn lemma_include_paths_prepend(x: Seq<char>, ls: Seq<Seq<char>>, k: int)
    requires
        0 <= k <= ls.len(),
    ensures
        include_paths_in_lines(seq![x] + ls, k + 1) == line_paths(x) + include_paths_in_lines(ls, k),
    decreases k,
{
    let s = seq![x] + ls;
    if k == 0 {
        assert(s[0] == x);
        assert(include_paths_in_lines(s, 0) =~= Seq::<Seq<char>>::empty());
        assert(include_paths_in_lines(s, 1) == include_paths_in_lines(s, 0) + line_paths(s[0]));
        assert(include_paths_in_lines(s, 1) =~= line_paths(x));
        assert(line_paths(x) + include_paths_in_lines(ls, 0) =~= line_paths(x));
    } else {
        lemma_include_paths_prepend(x, ls, k - 1);
        assert(s[k] == ls[k - 1]);
        assert(include_paths_in_lines(s, k + 1) == include_paths_in_lines(s, k) + line_paths(ls[k - 1]));
        assert(include_paths_in_lines(ls, k) == include_paths_in_lines(ls, k - 1) + line_paths(ls[k - 1]));
        assert(line_paths(x) + include_paths_in_lines(ls, k - 1) + line_paths(ls[k - 1]) =~= line_paths(x) + (
        include_paths_in_lines(ls, k - 1) + line_paths(ls[k - 1])));
    }
}

proof fn lemma_single_line(line: Seq<char>)
    requires
        line.len() > 0,
        !line.contains('\n'),
    ensures
        lines_of(line) == seq![line],
{
    assert forall|k: int| 0 <= k < line.len() implies line[k] != '\n' by {
        if line[k] == '\n' {
            assert(line.contains('\n'));
        }
    }
    crate::text::lemma_line_len_at(line, line.len() as int);
}

/// An include directive names the files written after it: a line that, after its leading
/// spaces, starts with `include`, `-include` or `sinclude` includes the words that follow the
/// directive, up to a `#` comment.
pub proof fn law_include_directives_name_their_files(line: Seq<char>)
    requires
        !line.contains('\n'),
        ({
            let rest = line.skip(target::leading_spaces(line) as int);
            ||| starts_with_seq(rest, seq!['i', 'n', 'c', 'l', 'u', 'd', 'e'])
            ||| starts_with_seq(rest, seq!['-', 'i', 'n', 'c', 'l', 'u', 'd', 'e'])
            ||| starts_with_seq(rest, seq!['s', 'i', 'n', 'c', 'l', 'u', 'd', 'e'])
        }),
    ensures
        include_paths_of(line) == words_of(before_first(line, '#')).drop_first(),
{
    let rest = line.skip(target::leading_spaces(line) as int);
    assert(rest.len() >= 7);
    assert(line.len() > 0);
    lemma_single_line(line);
    assert(kw_include() =~= seq!['i', 'n', 'c', 'l', 'u', 'd', 'e']);
    assert(kw_dash_include() =~= seq!['-', 'i', 'n', 'c', 'l', 'u', 'd', 'e']);
    assert(kw_sinclude() =~= seq!['s', 'i', 'n', 'c', 'l', 'u', 'd', 'e']);
    assert(is_include_line(line));
    assert(seq![line][0] == line);
    assert(include_paths_in_lines(seq![line], 0) =~= Seq::<Seq<char>>::empty());
    assert(include_paths_in_lines(seq![line], 1) == include_paths_in_lines(seq![line], 0) + line_paths(line));
    assert(include_paths_in_lines(seq![line], 1) =~= words_of(before_first(line, '#')).drop_first());
}

/// The files that a makefile includes are read line by line: those of a first line (without a
/// line break or a carriage return) followed by those of the rest of the content.
pub proof fn law_include_paths_line_by_line(first: Seq<char>, rest: Seq<char>)
    requires
        !first.contains('\n'),
        !first.contains('\r'),
    ensures
        include_paths_of(first + seq!['\n'] + rest) == include_paths_of(first) + include_paths_of(rest),
{
    let s = first + seq!['\n'] + rest;
    assert forall|k: int| 0 <= k < first.len() implies s[k] != '\n' by {
        assert(s[k] == first[k]);
        if first[k] == '\n' {
            assert(first.contains('\n'));
        }
    }
    assert(s[first.len() as int] == '\n');
    crate::text::lemma_line_len_at(s, first.len() as int);
    assert(s.take(first.len() as int) =~= first);
    assert(s.skip(first.len() + 1 as int) =~= rest);
    if first.len() > 0 {
        assert(first.last() != '\r') by {
            assert(first.contains(first.last()));
        }
    }
    assert(crate::text::strip_cr(first) == first);
    assert(lines_of(s) == seq![first] + lines_of(rest));
    lemma_include_paths_prepend(first, lines_of(rest), lines_of(rest).len() as int);
    if first.len() > 0 {
        lemma_single_line(first);
        assert(seq![first][0] == first);
        assert(include_paths_in_lines(seq![first], 0) =~= Seq::<Seq<char>>::empty());
        assert(include_paths_in_lines(seq![first], 1) == include_paths_in_lines(seq![first], 0) + line_paths(first));
        assert(include_paths_of(first) =~= line_paths(first));
    } else {
        assert(lines_of(first) =~= Seq::<Seq<char>>::empty());
        assert(!is_include_line(first));
        assert(include_paths_of(first) =~= line_paths(first));
    }
}

} // verus!
