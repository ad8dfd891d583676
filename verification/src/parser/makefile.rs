//! A makefile read for its target names: its path, its targets and the makefiles it includes.
use super::target::{content_to_targets, targets_of, Targets};
use crate::model::make::string_views;
use crate::text::{chars_equal, to_chars};
use vstd::prelude::*;

verus! {

/// Makefile represents a Makefile.
#[derive(Debug, PartialEq)]
pub struct Makefile {
    pub path: String,
    pub include_files: Vec<Makefile>,
    pub targets: Targets,
}

/// The paths of a makefile and of the makefiles it includes, depth first.
pub open spec fn makefile_paths(m: Makefile) -> Seq<Seq<char>>
    decreases m,
{
    seq![m.path@] + included_paths(m.include_files@)
}

/// The paths of a sequence of makefiles, one after the other.
pub open spec fn included_paths(s: Seq<Makefile>) -> Seq<Seq<char>>
    decreases s,
{
    if s.len() == 0 {
        seq![]
    } else {
        makefile_paths(s[0]) + included_paths(s.drop_first())
    }
}

/// The targets of a makefile and of the makefiles it includes, depth first.
pub open spec fn makefile_targets(m: Makefile) -> Seq<Seq<char>>
    decreases m,
{
    string_views(m.targets@) + included_targets(m.include_files@)
}

/// The targets of a sequence of makefiles, one after the other.
pub open spec fn included_targets(s: Seq<Makefile>) -> Seq<Seq<char>>
    decreases s,
{
    if s.len() == 0 {
        seq![]
    } else {
        makefile_targets(s[0]) + included_targets(s.drop_first())
    }
}

proof fn lemma_included_push(s: Seq<Makefile>, m: Makefile)
    ensures
        included_paths(s.push(m)) == included_paths(s) + makefile_paths(m),
        included_targets(s.push(m)) == included_targets(s) + makefile_targets(m),
    decreases s.len(),
{
    if s.len() == 0 {
        assert(s.push(m).drop_first() =~= Seq::<Makefile>::empty());
        assert(included_paths(s.push(m).drop_first()) =~= Seq::<Seq<char>>::empty());
        assert(included_targets(s.push(m).drop_first()) =~= Seq::<Seq<char>>::empty());
        assert(s.push(m)[0] == m);
        assert(included_paths(s.push(m)) =~= makefile_paths(m));
        assert(included_targets(s.push(m)) =~= makefile_targets(m));
        assert(included_paths(s) =~= Seq::<Seq<char>>::empty());
        assert(included_targets(s) =~= Seq::<Seq<char>>::empty());
    } else {
        lemma_included_push(s.drop_first(), m);
        assert(s.push(m).drop_first() =~= s.drop_first().push(m));
        assert(included_paths(s.push(m)) =~= included_paths(s) + makefile_paths(m));
        assert(included_targets(s.push(m)) =~= included_targets(s) + makefile_targets(m));
    }
}

/// Appends copies of `items` to `result`.
fn append_strings(result: &mut Vec<String>, items: &Vec<String>)
    ensures
        string_views(final(result)@) == string_views(old(result)@) + string_views(items@),
{
    let ghost start = string_views(result@);
    let mut j: usize = 0;
    while j < items.len()
        invariant
            j <= items@.len(),
            string_views(result@) == start + string_views(items@).take(j as int),
        decreases items@.len() - j,
    {
        let ghost before = string_views(result@);
        result.push(items[j].clone());
        assert(string_views(result@) =~= before.push(string_views(items@)[j as int]));
        assert(string_views(items@).take(j + 1) =~= string_views(items@).take(j as int).push(
            string_views(items@)[j as int],
        ));
        j += 1;
    }
    assert(string_views(items@).take(items@.len() as int) =~= string_views(items@));
}

/// The file names that make looks for, in the order it tries them.
pub open spec fn makefile_names() -> Seq<Seq<char>> {
    seq![
        seq!['G', 'N', 'U', 'm', 'a', 'k', 'e', 'f', 'i', 'l', 'e'],
        seq!['m', 'a', 'k', 'e', 'f', 'i', 'l', 'e'],
        seq!['M', 'a', 'k', 'e', 'f', 'i', 'l', 'e'],
    ]
}

/// The makefile that make picks among the files of a directory: the first of `GNUmakefile`,
/// `makefile` and `Makefile` that is there.
pub open spec fn picked_makefile_name(file_names: Seq<Seq<char>>) -> Option<Seq<char>> {
    if file_names.contains(makefile_names()[0]) {
        Some(makefile_names()[0])
    } else if file_names.contains(makefile_names()[1]) {
        Some(makefile_names()[1])
    } else if file_names.contains(makefile_names()[2]) {
        Some(makefile_names()[2])
    } else {
        None
    }
}

/// Whether `name` is among `file_names`.
fn has_file(file_names: &Vec<String>, name: &[char]) -> (r: bool)
    ensures
        r == string_views(file_names@).contains(name@),
{
    let ghost names = string_views(file_names@);
    let mut i: usize = 0;
    while i < file_names.len()
        invariant
            names == string_views(file_names@),
            i <= names.len(),
            forall|k: int| 0 <= k < i ==> names[k] != name@,
        decreases names.len() - i,
    {
        let chars = to_chars(file_names[i].as_str());
        if chars_equal(chars.as_slice(), name) {
            assert(names[i as int] == name@);
            return true;
        }
        i += 1;
    }
    false
}

impl Makefile {
    /// The paths of this makefile and of the makefiles it includes, depth first.
    pub fn to_include_path_string(&self) -> (r: Vec<String>)
        ensures
            string_views(r@) == makefile_paths(*self),
        decreases self,
    {
        let mut result: Vec<String> = Vec::new();
        result.push(self.path.clone());
        assert(self.include_files@.take(0) =~= Seq::<Makefile>::empty());
        assert(string_views(result@) =~= seq![self.path@]);
        let mut i: usize = 0;
        while i < self.include_files.len()
            invariant
                i <= self.include_files@.len(),
                string_views(result@) == seq![self.path@] + included_paths(
                    self.include_files@.take(i as int),
                ),
            decreases self.include_files@.len() - i,
        {
            let included = &self.include_files[i];
            assert(decreases_to!(*self => self.include_files@[i as int]));
            let paths = included.to_include_path_string();
            append_strings(&mut result, &paths);
            proof {
                lemma_included_push(self.include_files@.take(i as int), *included);
                assert(self.include_files@.take(i + 1) =~= self.include_files@.take(i as int).push(
                    *included,
                ));
            }
            i += 1;
        }
        assert(self.include_files@.take(self.include_files@.len() as int)
            =~= self.include_files@);
        result
    }

    /// The targets of this makefile and of the makefiles it includes, depth first.
    pub fn to_target_string(&self) -> (r: Vec<String>)
        ensures
            string_views(r@) == makefile_targets(*self),
        decreases self,
    {
        let mut result: Vec<String> = Vec::new();
        append_strings(&mut result, &self.targets);
        assert(self.include_files@.take(0) =~= Seq::<Makefile>::empty());
        assert(string_views(result@) =~= string_views(self.targets@));
        let mut i: usize = 0;
        while i < self.include_files.len()
            invariant
                i <= self.include_files@.len(),
                string_views(result@) == string_views(self.targets@) + included_targets(
                    self.include_files@.take(i as int),
                ),
            decreases self.include_files@.len() - i,
        {
            let included = &self.include_files[i];
            assert(decreases_to!(*self => self.include_files@[i as int]));
            let targets = included.to_target_string();
            append_strings(&mut result, &targets);
            proof {
                lemma_included_push(self.include_files@.take(i as int), *included);
                assert(self.include_files@.take(i + 1) =~= self.include_files@.take(i as int).push(
                    *included,
                ));
            }
            i += 1;
        }
        assert(self.include_files@.take(self.include_files@.len() as int)
            =~= self.include_files@);
        result
    }

    /// A makefile at `path` with the given content and the makefiles that it includes.
    pub fn from_content(path: String, file_content: String, include_files: Vec<Makefile>) -> (r:
        Makefile)
        ensures
            r.path@ == path@,
            r.include_files@ == include_files@,
            string_views(r.targets@) == targets_of(file_content@),
    {
        let targets = content_to_targets(file_content);
        Makefile { path, include_files, targets }
    }

    /// The name of the makefile that make uses in a directory whose files are `file_names`: by
    /// priority `GNUmakefile`, `makefile` and `Makefile`. `Makefile` is looked for too so that
    /// this works on a case-insensitive file system.
    pub fn specify_makefile_name(file_names: Vec<String>) -> (r: Option<String>)
        ensures
            match r {
                Some(name) => picked_makefile_name(string_views(file_names@)) == Some(name@),
                None => picked_makefile_name(string_views(file_names@)) == None::<Seq<char>>,
            },
    {
        let gnu = ['G', 'N', 'U', 'm', 'a', 'k', 'e', 'f', 'i', 'l', 'e'];
        let lower = ['m', 'a', 'k', 'e', 'f', 'i', 'l', 'e'];
        let upper = ['M', 'a', 'k', 'e', 'f', 'i', 'l', 'e'];
        assert(gnu@ =~= makefile_names()[0]);
        assert(lower@ =~= makefile_names()[1]);
        assert(upper@ =~= makefile_names()[2]);
        if has_file(&file_names, &gnu) {
            Some(crate::text::string_of(&gnu))
        } else if has_file(&file_names, &lower) {
            Some(crate::text::string_of(&lower))
        } else if has_file(&file_names, &upper) {
            Some(crate::text::string_of(&upper))
        } else {
            None
        }
    }
}

} // verus!
