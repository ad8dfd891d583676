//! Looking for a file by name among the entries of a directory.
use crate::model::make::string_views;
use vstd::prelude::*;

verus! {

/// `str::to_lowercase` of `s`.
pub uninterp spec fn lowercase(s: Seq<char>) -> Seq<char>;

/// `str::to_lowercase`.
#[verifier::external_body]
fn to_lowercase(s: &str) -> (r: String)
    ensures
        r@ == lowercase(s@),
{
    s.to_lowercase()
}

/// The index of the first entry, from `from` on, whose name in lower case is one of `names`.
pub open spec fn first_named(entries: Seq<Seq<char>>, names: Seq<Seq<char>>, from: int) -> Option<int>
    decreases entries.len() - from,
{
    if from < 0 || from >= entries.len() {
        None
    } else if names.contains(lowercase(entries[from])) {
        Some(from)
    } else {
        first_named(entries, names, from + 1)
    }
}

/// The index of the first of the entry names of a directory that, in lower case, is one of
/// `file_names`.
pub fn find_file_in_dir(entry_names: &Vec<String>, file_names: &Vec<String>) -> (r: Option<usize>)
    ensures
        match r {
            Some(i) => first_named(string_views(entry_names@), string_views(file_names@), 0) == Some(
                i as int,
            ) && i < entry_names@.len(),
            None => first_named(string_views(entry_names@), string_views(file_names@), 0) is None,
        },
{
    let ghost es = string_views(entry_names@);
    let ghost ns = string_views(file_names@);
    let mut i: usize = 0;
    while i < entry_names.len()
        invariant
            es == string_views(entry_names@),
            ns == string_views(file_names@),
            i <= es.len(),
            first_named(es, ns, 0) == first_named(es, ns, i as int),
        decreases es.len() - i,
    {
        let lower = to_lowercase(entry_names[i].as_str());
        assert(es[i as int] == entry_names@[i as int]@);
        let lower_chars = crate::text::to_chars(lower.as_str());
        let mut j: usize = 0;
        let mut found = false;
        while j < file_names.len()
            invariant
                ns == string_views(file_names@),
                j <= ns.len(),
                lower_chars@ == lowercase(es[i as int]),
                found == exists|k: int| 0 <= k < j && ns[k] == lowercase(es[i as int]),
            decreases ns.len() - j,
        {
            let name = crate::text::to_chars(file_names[j].as_str());
            assert(ns[j as int] == file_names@[j as int]@);
            if crate::text::chars_equal(name.as_slice(), lower_chars.as_slice()) {
                found = true;
            }
            j += 1;
        }
        proof {
            if ns.contains(lowercase(es[i as int])) {
                let k = choose|k: int| 0 <= k < ns.len() && ns[k] == lowercase(es[i as int]);
                assert(ns[k] == lowercase(es[i as int]));
            }
        }
        if found {
            return Some(i);
        }
        i += 1;
    }
    None
}

/// Each directory by its path and, when they could be read, the names of its entries.
pub open spec fn listing_views(dirs: Seq<(String, Option<Vec<String>>)>) -> Seq<(Seq<char>, Option<Seq<Seq<char>>>)> {
    Seq::new(
        dirs.len(),
        |i: int|
            (
                dirs[i].0@,
                match dirs[i].1 {
                    Some(es) => Some(string_views(es@)),
                    None => None,
                },
            ),
    )
}

/// The file found by looking at the directories in turn, from `from` on: in the first one whose
/// entries could be read and hold a name that, in lower case, is one of `names`, the first such
/// entry, joined to the directory's path. Directories that could not be read are passed over.
pub open spec fn first_in_dirs(dirs: Seq<(Seq<char>, Option<Seq<Seq<char>>>)>, names: Seq<Seq<char>>, from: int) -> Option<Seq<char>>
    decreases dirs.len() - from,
{
    if from < 0 || from >= dirs.len() {
        None
    } else {
        match dirs[from].1 {
            Some(es) => match first_named(es, names, 0) {
                Some(k) => Some(crate::text::join_path(dirs[from].0, es[k])),
                None => first_in_dirs(dirs, names, from + 1),
            },
            None => first_in_dirs(dirs, names, from + 1),
        }
    }
}

/// The first file named, in lower case, one of `file_names` in a directory and then in each of its
/// ancestors in turn. `ancestors` gives the directory and its ancestors, nearest first, each
/// with the names of its entries, or `None` when it could not be read.
pub fn find_file_in_ancestors(ancestors: &Vec<(String, Option<Vec<String>>)>, file_names: &Vec<String>) -> (r: Option<String>)
    ensures
        match r {
            Some(f) => first_in_dirs(listing_views(ancestors@), string_views(file_names@), 0) == Some(f@),
            None => first_in_dirs(listing_views(ancestors@), string_views(file_names@), 0) is None,
        },
{
    let ghost dirs = listing_views(ancestors@);
    let ghost ns = string_views(file_names@);
    let mut i: usize = 0;
    while i < ancestors.len()
        invariant
            dirs == listing_views(ancestors@),
            ns == string_views(file_names@),
            i <= dirs.len(),
            first_in_dirs(dirs, ns, 0) == first_in_dirs(dirs, ns, i as int),
        decreases dirs.len() - i,
    {
        let (dir, entries) = &ancestors[i];
        assert(dirs[i as int].0 == dir@);
        match entries {
            Some(es) => {
                assert(dirs[i as int].1 == Some(string_views(es@)));
                match find_file_in_dir(es, file_names) {
                    Some(k) => {
                        assert(string_views(es@)[k as int] == es@[k as int]@);
                        return Some(crate::text::join(dir.as_str(), es[k].as_str()));
                    },
                    None => {},
                }
            },
            None => {
                assert(dirs[i as int].1 is None);
            },
        }
        i += 1;
    }
    None
}

} // verus!
