//! The first way fzf-make listed make targets: the targets of `Makefile` and of the `*.mk` files
//! beside it, one per line.
use crate::model::make::string_views;
use crate::parser::target::{target_of_line, targets_of};
use crate::text::{find_last, last_index_of, to_chars};
use vstd::prelude::*;

verus! {

/// The target that a line defines, as for [`crate::parser::target::line_to_target`].
pub fn line_to_command(line: String) -> (r: Option<String>)
    ensures
        match r {
            Some(t) => target_of_line(line@) == Some(t@),
            None => target_of_line(line@) == None::<Seq<char>>,
        },
{
    crate::parser::target::line_to_target(line)
}

/// The targets that the contents define, in order; an error when there is none.
pub fn contents_to_commands(contents: String) -> (r: Result<Vec<String>, &'static str>)
    ensures
        match r {
            Ok(commands) => string_views(commands@) == targets_of(contents@) && commands@.len() > 0,
            Err(e) => targets_of(contents@).len() == 0 && e@ == "make command not found"@,
        },
{
    let result = crate::parser::target::content_to_targets(contents);
    if result.len() > 0 {
        Ok(result)
    } else {
        Err("make command not found")
    }
}

/// The contents one after the other, each after a line break unless all before it is empty.
pub open spec fn concatenated(contents: Seq<Seq<char>>) -> Seq<char>
    decreases contents.len(),
{
    if contents.len() == 0 {
        seq![]
    } else {
        let before = concatenated(contents.drop_last());
        if before.len() == 0 {
            contents.last()
        } else {
            before + seq!['\n'] + contents.last()
        }
    }
}

fn append_chars(out: &mut Vec<char>, s: &String)
    ensures
        final(out)@ == old(out)@ + s@,
{
    let chars = to_chars(s.as_str());
    let ghost start = out@;
    let mut i: usize = 0;
    while i < chars.len()
        invariant
            i <= chars@.len(),
            out@ == start + chars@.take(i as int),
        decreases chars@.len() - i,
    {
        out.push(chars[i]);
        assert(chars@.take(i + 1) =~= chars@.take(i as int).push(chars@[i as int]));
        i += 1;
    }
    assert(chars@.take(i as int) =~= chars@);
}

/// The contents of the files, concatenated with line breaks between them.
pub fn concat_file_contents(file_contents: Vec<String>) -> (r: String)
    ensures
        r@ == concatenated(string_views(file_contents@)),
{
    let ghost cv = string_views(file_contents@);
    let mut out: Vec<char> = Vec::new();
    let mut i: usize = 0;
    assert(cv.take(0) =~= Seq::<Seq<char>>::empty());
    while i < file_contents.len()
        invariant
            cv == string_views(file_contents@),
            i <= cv.len(),
            out@ == concatenated(cv.take(i as int)),
        decreases cv.len() - i,
    {
        assert(cv.take(i + 1).drop_last() =~= cv.take(i as int));
        assert(cv[i as int] == file_contents@[i as int]@);
        if out.len() > 0 {
            out.push('\n');
        }
        append_chars(&mut out, &file_contents[i]);
        i += 1;
    }
    assert(cv.take(cv.len() as int) =~= cv);
    crate::text::string_of(out.as_slice())
}

/// The lines joined by line breaks.
pub open spec fn joined_by_newline(lines: Seq<Seq<char>>) -> Seq<char>
    decreases lines.len(),
{
    if lines.len() == 0 {
        seq![]
    } else if lines.len() == 1 {
        lines[0]
    } else {
        joined_by_newline(lines.drop_last()) + seq!['\n'] + lines.last()
    }
}

/// The targets that the contents define, one per line; an error when there is none.
pub fn extract_command_from_contents(contents: String) -> (r: Result<String, &'static str>)
    ensures
        match r {
            Ok(text) => targets_of(contents@).len() > 0 && text@ == joined_by_newline(targets_of(contents@)),
            Err(e) => targets_of(contents@).len() == 0 && e@ == "make command not found"@,
        },
{
    let commands = match contents_to_commands(contents) {
        Ok(c) => c,
        Err(e) => return Err(e),
    };
    let ghost cv = string_views(commands@);
    let mut out: Vec<char> = Vec::new();
    let mut i: usize = 0;
    assert(cv.take(0) =~= Seq::<Seq<char>>::empty());
    while i < commands.len()
        invariant
            cv == string_views(commands@),
            i <= cv.len(),
            out@ == joined_by_newline(cv.take(i as int)),
        decreases cv.len() - i,
    {
        assert(cv.take(i + 1).drop_last() =~= cv.take(i as int));
        assert(cv[i as int] == commands@[i as int]@);
        if i > 0 {
            out.push('\n');
        }
        append_chars(&mut out, &commands[i]);
        i += 1;
    }
    assert(cv.take(cv.len() as int) =~= cv);
    Ok(crate::text::string_of(out.as_slice()))
}

/// Whether a file name has the extension `mk`: the part after its last `.`, when that `.` does
/// not start the name.
pub open spec fn has_mk_extension(name: Seq<char>) -> bool {
    match last_index_of(name, '.') {
        Some(d) => d > 0 && name.skip(d + 1) == seq!['m', 'k'],
        None => false,
    }
}

/// The makefiles to read: `Makefile`, then the entries of the directory whose extension is `mk`,
/// in the order given. An error when there is no `Makefile`, or when the directory could not be
/// listed (`entries` is `None`).
pub fn get_makefile_file_names(makefile_exists: bool, entries: Option<Vec<String>>) -> (r: Result<
    Vec<String>,
    &'static str,
>)
    ensures
        !makefile_exists ==> r == Err::<Vec<String>, &'static str>("Makefile not found"),
        makefile_exists && entries is None ==> r == Err::<Vec<String>, &'static str>(
            "fail to read directory",
        ),
        makefile_exists ==> (entries matches Some(es) ==> (r matches Ok(names) && string_views(names@)
            == seq!["Makefile"@] + string_views(es@).filter(|n: Seq<char>| has_mk_extension(n)))),
{
    if !makefile_exists {
        return Err("Makefile not found");
    }
    let entries = match entries {
        Some(es) => es,
        None => return Err("fail to read directory"),
    };
    let ghost ev = string_views(entries@);
    let mut names: Vec<String> = Vec::new();
    names.push(String::from_str("Makefile"));
    let mut i: usize = 0;
    assert(ev.take(0).filter(|n: Seq<char>| has_mk_extension(n)) =~= Seq::<Seq<char>>::empty());
    while i < entries.len()
        invariant
            ev == string_views(entries@),
            i <= ev.len(),
            string_views(names@) == seq!["Makefile"@] + ev.take(i as int).filter(
                |n: Seq<char>| has_mk_extension(n),
            ),
        decreases ev.len() - i,
    {
        let name = to_chars(entries[i].as_str());
        assert(ev[i as int] == name@);
        let is_mk = match find_last(name.as_slice(), '.') {
            Some(d) => d > 0 && name.len() - d == 3 && name[d + 1] == 'm' && name[d + 2] == 'k',
            None => false,
        };
        proof {
            match last_index_of(name@, '.') {
                Some(d) => {
                    if d > 0 && name@.len() == d + 3 && name@[d + 1] == 'm' && name@[d + 2] == 'k' {
                        assert(name@.skip(d + 1) =~= seq!['m', 'k']);
                    }
                    if name@.skip(d + 1) == seq!['m', 'k'] {
                        assert(name@.skip(d + 1).len() == 2);
                        assert(name@.skip(d + 1)[0] == name@[d + 1]);
                        assert(name@.skip(d + 1)[1] == name@[d + 2]);
                    }
                },
                None => {},
            }
            assert(is_mk == has_mk_extension(name@));
            reveal_with_fuel(Seq::filter, 1);
            assert(ev.take(i + 1).drop_last() =~= ev.take(i as int));
        }
        let ghost prev = string_views(names@);
        if is_mk {
            names.push(entries[i].clone());
            assert(string_views(names@) =~= prev.push(ev[i as int]));
        }
        i += 1;
    }
    assert(ev.take(ev.len() as int) =~= ev);
    Ok(names)
}

} // verus!
