//! The preview shown beside each target in the external fuzzy finder: a shell command that
//! finds the line that defines the target in the makefiles and shows the file from there.
use crate::model::make::string_views;
use crate::text::{string_of, to_chars};
use crate::usecase::tui::app::{join_with_spaces, joined_with_spaces};
use vstd::prelude::*;

verus! {

/// What comes before the list of makefiles in the preview command.
pub const PREVIEW_HEAD: &'static str = "\n    files=\"";

/// What comes after the list of makefiles: `{}` is where the finder puts the target.
pub const PREVIEW_TAIL: &'static str = "\" \\\n    result=$(grep -rnE '^{}\\s*:' $(echo $files)); \\\n    IFS=':' read -r filename lineno _ <<< $result; \\\n    bat --style=numbers --color=always --line-range $lineno: \\\n    --highlight-line $lineno $filename;";

/// The file that stands beside a single makefile, so that `grep` prints the file name.
pub const NULL_DEVICE: &'static str = "/dev/null";

/// The makefiles that the preview searches: `/dev/null` is added to a single one.
pub open spec fn preview_files(file_paths: Seq<Seq<char>>) -> Seq<Seq<char>> {
    if file_paths.len() == 1 {
        file_paths.push(NULL_DEVICE@)
    } else {
        file_paths
    }
}

/// The preview command for the makefiles at `file_paths`.
pub open spec fn preview_command(file_paths: Seq<Seq<char>>) -> Seq<char> {
    PREVIEW_HEAD@ + joined_with_spaces(preview_files(file_paths)) + PREVIEW_TAIL@
}

fn push_all(out: &mut Vec<char>, s: &str)
    ensures
        final(out)@ == old(out)@ + s@,
{
    let chars = to_chars(s);
    let mut i: usize = 0;
    while i < chars.len()
        invariant
            i <= chars@.len(),
            chars@ == s@,
            out@ == old(out)@ + chars@.take(i as int),
        decreases chars@.len() - i,
    {
        out.push(chars[i]);
        assert(chars@.take(i + 1) =~= chars@.take(i as int).push(chars@[i as int]));
        i += 1;
    }
    assert(chars@.take(chars@.len() as int) =~= chars@);
}

/// The preview command for the makefiles at `file_paths`.
pub fn get_preview_command(file_paths: Vec<String>) -> (r: String)
    ensures
        r@ == preview_command(string_views(file_paths@)),
{
    let mut file_paths = file_paths;
    let ghost given = string_views(file_paths@);
    if file_paths.len() == 1 {
        let null = string_of(to_chars(NULL_DEVICE).as_slice());
        file_paths.push(null);
        assert(string_views(file_paths@) =~= given.push(NULL_DEVICE@));
    }
    assert(string_views(file_paths@) == preview_files(given));
    let mut out: Vec<char> = Vec::new();
    push_all(&mut out, PREVIEW_HEAD);
    let joined = join_with_spaces(&file_paths);
    let mut i: usize = 0;
    let ghost head = out@;
    while i < joined.len()
        invariant
            i <= joined@.len(),
            out@ == head + joined@.take(i as int),
        decreases joined@.len() - i,
    {
        out.push(joined[i]);
        assert(joined@.take(i + 1) =~= joined@.take(i as int).push(joined@[i as int]));
        i += 1;
    }
    assert(joined@.take(joined@.len() as int) =~= joined@);
    push_all(&mut out, PREVIEW_TAIL);
    assert(out@ =~= preview_command(given));
    string_of(out.as_slice())
}

} // verus!
