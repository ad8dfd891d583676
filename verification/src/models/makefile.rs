//! A makefile with the makefiles it includes, and where its targets are defined.
pub use crate::model::make::content_to_include_file_paths;
use crate::model::make::string_views;
use crate::model::target::{first_definition_in_lines, target_line_number, target_names_of, Targets};
use crate::text::{chars_equal, lines_of, to_chars};
use vstd::prelude::*;

verus! {

/// Makefile represents a Makefile.
#[derive(Debug, PartialEq)]
pub struct Makefile {
    pub path: String,
    pub include_files: Vec<Makefile>,
    pub targets: Targets,
}

/// The paths of a makefile and of the makefiles it includes, depth first.
pub open spec fn makefile_paths(m: Makefile) -> Seq<Seq<char>>
    decreases m,
{
    seq![m.path@] + included_paths(m.include_files@)
}

/// The paths of a sequence of makefiles, one after the other.
pub open spec fn included_paths(s: Seq<Makefile>) -> Seq<Seq<char>>
    decreases s,
{
    if s.len() == 0 {
        seq![]
    } else {
        makefile_paths(s[0]) + included_paths(s.drop_first())
    }
}

/// The targets of a makefile and of the makefiles it includes, depth first.
pub open spec fn makefile_targets(m: Makefile) -> Seq<Seq<char>>
    decreases m,
{
    string_views(m.targets.0@) + included_targets(m.include_files@)
}

/// The targets of a sequence of makefiles, one after the other.
pub open spec fn included_targets(s: Seq<Makefile>) -> Seq<Seq<char>>
    decreases s,
{
    if s.len() == 0 {
        seq![]
    } else {
        makefile_targets(s[0]) + included_targets(s.drop_first())
    }
}

proof fn lemma_included_push(s: Seq<Makefile>, m: Makefile)
    ensures
        included_paths(s.push(m)) == included_paths(s) + makefile_paths(m),
        included_targets(s.push(m)) == included_targets(s) + makefile_targets(m),
    decreases s.len(),
{
    if s.len() == 0 {
        assert(s.push(m).drop_first() =~= Seq::<Makefile>::empty());
        assert(included_paths(s.push(m).drop_first()) =~= Seq::<Seq<char>>::empty());
        assert(included_targets(s.push(m).drop_first()) =~= Seq::<Seq<char>>::empty());
        assert(s.push(m)[0] == m);
        assert(included_paths(s.push(m)) =~= makefile_paths(m));
        assert(included_targets(s.push(m)) =~= makefile_targets(m));
        assert(included_paths(s) =~= Seq::<Seq<char>>::empty());
        assert(included_targets(s) =~= Seq::<Seq<char>>::empty());
    } else {
        lemma_included_push(s.drop_first(), m);
        assert(s.push(m).drop_first() =~= s.drop_first().push(m));
        assert(included_paths(s.push(m)) =~= included_paths(s) + makefile_paths(m));
        assert(included_targets(s.push(m)) =~= included_targets(s) + makefile_targets(m));
    }
}

fn append_strings(result: &mut Vec<String>, items: &Vec<String>)
    ensures
        string_views(final(result)@) == string_views(old(result)@) + string_views(items@),
{
    let ghost start = string_views(result@);
    let mut j: usize = 0;
    while j < items.len()
        invariant
            j <= items@.len(),
            string_views(result@) == start + string_views(items@).take(j as int),
        decreases items@.len() - j,
    {
        let ghost before = string_views(result@);
        result.push(items[j].clone());
        assert(string_views(result@) =~= before.push(string_views(items@)[j as int]));
        assert(string_views(items@).take(j + 1) =~= string_views(items@).take(j as int).push(
            string_views(items@)[j as int],
        ));
        j += 1;
    }
    assert(string_views(items@).take(items@.len() as int) =~= string_views(items@));
}

/// The content read for `path`, the first pair of `contents` with that path.
pub open spec fn content_for(contents: Seq<(Seq<char>, Seq<char>)>, path: Seq<char>) -> Option<Seq<char>>
    decreases contents.len(),
{
    if contents.len() == 0 {
        None
    } else if contents[0].0 == path {
        Some(contents[0].1)
    } else {
        content_for(contents.drop_first(), path)
    }
}

/// The line, counted from 1, of the first line of the content that defines `target`; none
/// when the file could not be read or does not define it.
pub open spec fn line_of_target(content: Option<Seq<char>>, target: Seq<char>) -> Option<u32> {
    match content {
        Some(c) => match first_definition_in_lines(lines_of(c), target, lines_of(c).len() as int) {
            Some(n) => Some(n as u32),
            None => None,
        },
        None => None,
    }
}

/// Where `target` is defined: the first makefile, depth first, that lists it and whose file
/// defines it on a line; `(None, None)` when there is none.
pub open spec fn file_and_line(m: Makefile, target: Seq<char>, contents: Seq<(Seq<char>, Seq<char>)>) -> (
    Option<Seq<char>>,
    Option<u32>,
)
    decreases m,
{
    let line = line_of_target(content_for(contents, m.path@), target);
    if string_views(m.targets.0@).contains(target) && line is Some {
        (Some(m.path@), line)
    } else {
        file_and_line_in(m.include_files@, target, contents)
    }
}

/// Where `target` is defined among a sequence of makefiles: the first whose answer names a file.
pub open spec fn file_and_line_in(s: Seq<Makefile>, target: Seq<char>, contents: Seq<(Seq<char>, Seq<char>)>) -> (
    Option<Seq<char>>,
    Option<u32>,
)
    decreases s,
{
    if s.len() == 0 {
        (None, None)
    } else {
        let r = file_and_line(s[0], target, contents);
        if r.0 is Some {
            r
        } else {
            file_and_line_in(s.drop_first(), target, contents)
        }
    }
}

pub open spec fn content_views(contents: Seq<(String, String)>) -> Seq<(Seq<char>, Seq<char>)> {
    Seq::new(contents.len(), |i: int| (contents[i].0@, contents[i].1@))
}

impl Makefile {
    /// The paths of this makefile and of the makefiles it includes, depth first.
    pub fn to_include_files_string(&self) -> (r: Vec<String>)
        ensures
            string_views(r@) == makefile_paths(*self),
        decreases self,
    {
        let mut result: Vec<String> = Vec::new();
        result.push(self.path.clone());
        assert(self.include_files@.take(0) =~= Seq::<Makefile>::empty());
        assert(string_views(result@) =~= seq![self.path@]);
        let mut i: usize = 0;
        while i < self.include_files.len()
            invariant
                i <= self.include_files@.len(),
                string_views(result@) == seq![self.path@] + included_paths(
                    self.include_files@.take(i as int),
                ),
            decreases self.include_files@.len() - i,
        {
            let included = &self.include_files[i];
            assert(decreases_to!(*self => self.include_files@[i as int]));
            let paths = included.to_include_files_string();
            append_strings(&mut result, &paths);
            proof {
                lemma_included_push(self.include_files@.take(i as int), *included);
                assert(self.include_files@.take(i + 1) =~= self.include_files@.take(i as int).push(
                    *included,
                ));
            }
            i += 1;
        }
        assert(self.include_files@.take(self.include_files@.len() as int)
            =~= self.include_files@);
        result
    }

    /// The targets of this makefile and of the makefiles it includes, depth first.
    pub fn to_targets_string(&self) -> (r: Vec<String>)
        ensures
            string_views(r@) == makefile_targets(*self),
        decreases self,
    {
        let mut result: Vec<String> = Vec::new();
        append_strings(&mut result, &self.targets.0);
        assert(self.include_files@.take(0) =~= Seq::<Makefile>::empty());
        assert(string_views(result@) =~= string_views(self.targets.0@));
        let mut i: usize = 0;
        while i < self.include_files.len()
            invariant
                i <= self.include_files@.len(),
                string_views(result@) == string_views(self.targets.0@) + included_targets(
                    self.include_files@.take(i as int),
                ),
            decreases self.include_files@.len() - i,
        {
            let included = &self.include_files[i];
            assert(decreases_to!(*self => self.include_files@[i as int]));
            let targets = included.to_targets_string();
            append_strings(&mut result, &targets);
            proof {
                lemma_included_push(self.include_files@.take(i as int), *included);
                assert(self.include_files@.take(i + 1) =~= self.include_files@.take(i as int).push(
                    *included,
                ));
            }
            i += 1;
        }
        assert(self.include_files@.take(self.include_files@.len() as int)
            =~= self.include_files@);
        result
    }

    /// A makefile at `path` with the given content and the makefiles that it includes.
    pub fn from_content(path: String, file_content: String, include_files: Vec<Makefile>) -> (r:
        Makefile)
        requires
            lines_of(file_content@).len() <= isize::MAX,
        ensures
            r.path@ == path@,
            r.include_files@ == include_files@,
            string_views(r.targets.0@) == target_names_of(file_content@),
    {
        Makefile { path, include_files, targets: Targets::new(file_content) }
    }

    /// The file that defines `target_to_search` and its line, counted from 1, looking at this
    /// makefile and then at the ones it includes, depth first. `contents` holds the content
    /// read for each path; a path without one could not be read.
    pub fn target_to_file_and_line_number(
        &self,
        target_to_search: &Option<&String>,
        contents: &Vec<(String, String)>,
    ) -> (r: (Option<String>, Option<u32>))
        requires
            forall|i: int| 0 <= i < contents@.len() ==> lines_of(#[trigger] contents@[i].1@).len() < u32::MAX,
        ensures
            match *target_to_search {
                None => r.0 is None && r.1 is None,
                Some(t) => {
                    let expected = file_and_line(*self, t@, content_views(contents@));
                    &&& match r.0 {
                        Some(p) => expected.0 == Some(p@),
                        None => expected.0 is None,
                    }
                    &&& r.1 == expected.1
                },
            },
        decreases self,
    {
        let target = match target_to_search {
            Some(t) => *t,
            None => return (None, None),
        };
        let listed = self.lists(target);
        let line = match self.content_in(contents) {
            Some(c) => target_line_number(c, target.clone()),
            None => None,
        };
        assert(line == line_of_target(content_for(content_views(contents@), self.path@), target@));
        if listed && line.is_some() {
            return (Some(self.path.clone()), line);
        }
        assert(file_and_line(*self, target@, content_views(contents@)) == file_and_line_in(
            self.include_files@,
            target@,
            content_views(contents@),
        ));
        let mut i: usize = 0;
        assert(self.include_files@.skip(0) =~= self.include_files@);
        while i < self.include_files.len()
            invariant
                i <= self.include_files@.len(),
                *target_to_search == Some(target),
                file_and_line(*self, target@, content_views(contents@)) == file_and_line_in(
                    self.include_files@,
                    target@,
                    content_views(contents@),
                ),
                forall|k: int| 0 <= k < contents@.len() ==> lines_of(#[trigger] contents@[k].1@).len() < u32::MAX,
                file_and_line_in(self.include_files@, target@, content_views(contents@))
                    == file_and_line_in(self.include_files@.skip(i as int), target@, content_views(contents@)),
            decreases self.include_files@.len() - i,
        {
            let included = &self.include_files[i];
            assert(decreases_to!(*self => self.include_files@[i as int]));
            let r = included.target_to_file_and_line_number(&Some(target), contents);
            assert(self.include_files@.skip(i as int)[0] == *included);
            assert(self.include_files@.skip(i as int).drop_first() =~= self.include_files@.skip(i + 1));
            if r.0.is_some() {
                assert(*target_to_search matches Some(t) && t == target);
                return r;
            }
            i += 1;
        }
        assert(self.include_files@.skip(i as int) =~= Seq::<Makefile>::empty());
        (None, None)
    }

    fn lists(&self, target: &String) -> (r: bool)
        ensures
            r == string_views(self.targets.0@).contains(target@),
    {
        let ghost names = string_views(self.targets.0@);
        let wanted = to_chars(target.as_str());
        let mut i: usize = 0;
        while i < self.targets.0.len()
            invariant
                names == string_views(self.targets.0@),
                wanted@ == target@,
                i <= names.len(),
                forall|k: int| 0 <= k < i ==> names[k] != target@,
            decreases names.len() - i,
        {
            let name = to_chars(self.targets.0[i].as_str());
            if chars_equal(name.as_slice(), wanted.as_slice()) {
                assert(names[i as int] == target@);
                return true;
            }
            i += 1;
        }
        false
    }

    fn content_in(&self, contents: &Vec<(String, String)>) -> (r: Option<String>)
        ensures
            match r {
                Some(c) => content_for(content_views(contents@), self.path@) == Some(c@) && exists|i: int| 0 <= i < contents@.len() && contents@[i].1@ == c@,
                None => content_for(content_views(contents@), self.path@) is None,
            },
    {
        let ghost cv = content_views(contents@);
        let path = to_chars(self.path.as_str());
        let mut i: usize = 0;
        assert(cv.skip(0) =~= cv);
        while i < contents.len()
            invariant
                cv == content_views(contents@),
                path@ == self.path@,
                i <= cv.len(),
                content_for(cv, self.path@) == content_for(cv.skip(i as int), self.path@),
            decreases cv.len() - i,
        {
            let candidate = to_chars(contents[i].0.as_str());
            assert(cv.skip(i as int)[0] == cv[i as int]);
            assert(cv.skip(i as int).drop_first() =~= cv.skip(i + 1));
            if chars_equal(candidate.as_slice(), path.as_slice()) {
                return Some(contents[i].1.clone());
            }
            i += 1;
        }
        None
    }
}

} // verus!
