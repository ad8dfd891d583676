//! pnpm as a runner of its own: the scripts of the root `package.json` and of the packages
//! two levels below it.
use super::command::{command_line, command_views, CommandWithPreview, CommandWithPreviewView};
use super::js_package_manager::{
    metadata_file_name, package_json_of, parse_package_json, pnpm_workspace_args, script_views,
};
use super::make::string_views;
use super::runner_type::{JsPackageManager, RunnerType};
use crate::text::{chars_equal, join, join_path, string_of, to_chars, words, words_of};
use vstd::prelude::*;

verus! {

/// The runner type of pnpm.
pub open spec fn pnpm_type() -> RunnerType {
    RunnerType::JsPackageManager(JsPackageManager::Pnpm)
}

/// The index of the first of `args`, from `from` on, that equals `word`.
pub open spec fn index_of_word(args: Seq<Seq<char>>, word: Seq<char>, from: int) -> Option<int>
    decreases args.len() - from,
{
    if from < 0 || from >= args.len() {
        None
    } else if args[from] == word {
        Some(from)
    } else {
        index_of_word(args, word, from + 1)
    }
}

/// Whether a script body uses `-F` or, failing that, `--filter`, followed by another argument.
pub open spec fn filters(value: Seq<char>) -> bool {
    let args = words_of(value);
    let index = match index_of_word(args, seq!['-', 'F'], 0) {
        Some(i) => Some(i),
        None => index_of_word(args, seq!['-', '-', 'f', 'i', 'l', 't', 'e', 'r'], 0),
    };
    match index {
        Some(i) => i + 1 < args.len(),
        None => false,
    }
}

/// The root scripts, among the first `n`, that do not filter, as commands of the `package.json`
/// at `path`.
pub open spec fn root_script_commands(path: Seq<char>, scripts: Seq<(Seq<char>, Seq<char>, u32)>, n: int) -> Seq<
    CommandWithPreviewView,
>
    decreases n,
{
    if n <= 0 {
        seq![]
    } else {
        let earlier = root_script_commands(path, scripts, n - 1);
        if filters(scripts[n - 1].1) {
            earlier
        } else {
            earlier.push(
                CommandWithPreviewView {
                    runner_type: pnpm_type(),
                    args: scripts[n - 1].0,
                    file_path: path,
                    line_number: scripts[n - 1].2,
                },
            )
        }
    }
}

/// The first `n` scripts of a workspace package named `name`, as commands of its `package.json`
/// at `path`.
pub open spec fn package_script_commands(
    name: Seq<char>,
    path: Seq<char>,
    scripts: Seq<(Seq<char>, Seq<char>, u32)>,
    n: int,
) -> Seq<CommandWithPreviewView>
    decreases n,
{
    if n <= 0 {
        seq![]
    } else {
        package_script_commands(name, path, scripts, n - 1).push(
            CommandWithPreviewView {
                runner_type: pnpm_type(),
                args: pnpm_workspace_args(name, scripts[n - 1].0),
                file_path: path,
                line_number: scripts[n - 1].2,
            },
        )
    }
}

/// The commands of the first `n` workspace packages, given as the path and the content of their
/// `package.json`; a content that is not a JSON object gives none.
pub open spec fn packages_commands(packages: Seq<(Seq<char>, Seq<char>)>, n: int) -> Seq<
    CommandWithPreviewView,
>
    decreases n,
{
    if n <= 0 {
        seq![]
    } else {
        packages_commands(packages, n - 1) + match package_json_of(packages[n - 1].1) {
            Some((name, scripts)) => package_script_commands(
                name,
                packages[n - 1].0,
                scripts,
                scripts.len() as int,
            ),
            None => seq![],
        }
    }
}

/// pnpm and the commands it defines.
#[derive(Debug, PartialEq)]
pub struct Pnpm {
    pub path: String,
    pub commands: Vec<CommandWithPreview>,
}

impl Pnpm {
    pub fn new(path: String, commands: Vec<CommandWithPreview>) -> (r: Pnpm)
        ensures
            r.path == path,
            r.commands == commands,
    {
        Pnpm { path, commands }
    }

    /// Whether the file is pnpm's lockfile, `pnpm-lock.yaml`.
    pub fn use_pnpm(file_name: String) -> (r: bool)
        ensures
            r == (file_name@ == seq!['p', 'n', 'p', 'm', '-', 'l', 'o', 'c', 'k', '.', 'y', 'a', 'm', 'l']),
    {
        let chars = to_chars(file_name.as_str());
        chars_equal(
            chars.as_slice(),
            &['p', 'n', 'p', 'm', '-', 'l', 'o', 'c', 'k', '.', 'y', 'a', 'm', 'l'],
        )
    }

    /// The commands.
    pub fn to_commands(&self) -> (r: Vec<CommandWithPreview>)
        ensures
            command_views(r@) == command_views(self.commands@),
    {
        crate::model::command::duplicate_commands(&self.commands)
    }

    /// `pnpm {args}` for a command that pnpm defines; an error for any other command.
    pub fn command_to_run(&self, command: &CommandWithPreview) -> (r: Result<String, String>)
        ensures
            match r {
                Ok(s) => command_views(self.commands@).contains(command@) && s@ == command_line(
                    pnpm_type(),
                    command.args@,
                ),
                Err(e) => !command_views(self.commands@).contains(command@) && e@ == seq![
                    'c',
                    'o',
                    'm',
                    'm',
                    'a',
                    'n',
                    'd',
                    ' ',
                    'n',
                    'o',
                    't',
                    ' ',
                    'f',
                    'o',
                    'u',
                    'n',
                    'd',
                ],
            },
    {
        match self.get_command(command) {
            Some(c) => Ok(
                crate::model::command::format_command(
                    RunnerType::JsPackageManager(JsPackageManager::Pnpm),
                    &c.args,
                ),
            ),
            None => {
                proof {
                    reveal_strlit("command not found");
                }
                Err("command not found".to_string())
            },
        }
    }

    /// The command of pnpm that equals `command`, if pnpm defines it.
    pub fn get_command(&self, command: &CommandWithPreview) -> (r: Option<&CommandWithPreview>)
        ensures
            match r {
                Some(c) => c@ == command@ && command_views(self.commands@).contains(command@),
                None => !command_views(self.commands@).contains(command@),
            },
    {
        let ghost cv = command_views(self.commands@);
        let mut i: usize = 0;
        while i < self.commands.len()
            invariant
                cv == command_views(self.commands@),
                i <= cv.len(),
                forall|k: int| 0 <= k < i ==> cv[k] != command@,
            decreases cv.len() - i,
        {
            if same_command(&self.commands[i], command) {
                assert(cv[i as int] == command@);
                return Some(&self.commands[i]);
            }
            i += 1;
        }
        None
    }

    /// Whether a script body runs pnpm with `-F` or `--filter` and a package after it
    /// (<https://pnpm.io/filtering>).
    pub fn use_filtering(value: String) -> (r: bool)
        ensures
            r == filters(value@),
    {
        let chars = to_chars(value.as_str());
        let args = words(chars.as_slice());
        let ghost av = crate::text::views(args@);
        let index = match first_word(&args, &['-', 'F']) {
            Some(i) => Some(i),
            None => first_word(&args, &['-', '-', 'f', 'i', 'l', 't', 'e', 'r']),
        };
        match index {
            Some(i) => args.len() > 0 && i < args.len() - 1,
            None => false,
        }
    }

    /// The commands of the scripts of the `package.json` in `current_dir` that do not filter,
    /// followed by all the scripts of each workspace package, given as the path and the content
    /// of its `package.json`.
    pub fn scripts_to_commands(
        current_dir: String,
        scripts_parsing_result: (String, Vec<(String, String, u32)>),
        packages: &Vec<(String, String)>,
    ) -> (r: Vec<CommandWithPreview>)
        ensures
            command_views(r@) == root_script_commands(
                join_path(current_dir@, metadata_file_name()),
                script_views(scripts_parsing_result.1@),
                scripts_parsing_result.1@.len() as int,
            ) + packages_commands(
                Seq::new(packages@.len(), |i: int| (packages@[i].0@, packages@[i].1@)),
                packages@.len() as int,
            ),
    {
        let (_, scripts) = scripts_parsing_result;
        let ghost sv = script_views(scripts@);
        let metadata = string_of(&['p', 'a', 'c', 'k', 'a', 'g', 'e', '.', 'j', 's', 'o', 'n']);
        assert(metadata@ =~= metadata_file_name());
        let root_path = join(current_dir.as_str(), metadata.as_str());
        let mut result: Vec<CommandWithPreview> = Vec::new();
        let mut i: usize = 0;
        while i < scripts.len()
            invariant
                sv == script_views(scripts@),
                i <= sv.len(),
                command_views(result@) == root_script_commands(root_path@, sv, i as int),
            decreases sv.len() - i,
        {
            let (key, value, line) = &scripts[i];
            assert(sv[i as int] == (key@, value@, *line));
            if !Pnpm::use_filtering(value.clone()) {
                let c = CommandWithPreview::new(
                    RunnerType::JsPackageManager(JsPackageManager::Pnpm),
                    key.clone(),
                    root_path.clone(),
                    *line,
                );
                let ghost prev = command_views(result@);
                result.push(c);
                assert(command_views(result@) =~= prev.push(c@));
            }
            i += 1;
        }
        let ghost root = command_views(result@);
        let ghost pv = Seq::new(packages@.len(), |i: int| (packages@[i].0@, packages@[i].1@));
        let mut p: usize = 0;
        while p < packages.len()
            invariant
                pv == Seq::new(packages@.len(), |i: int| (packages@[i].0@, packages@[i].1@)),
                p <= pv.len(),
                command_views(result@) == root + packages_commands(pv, p as int),
            decreases pv.len() - p,
        {
            let (path, content) = &packages[p];
            assert(pv[p as int] == (path@, content@));
            let ghost before = command_views(result@);
            match parse_package_json(content) {
                Some((name, package_scripts)) => {
                    let ghost psv = script_views(package_scripts@);
                    let mut j: usize = 0;
                    while j < package_scripts.len()
                        invariant
                            psv == script_views(package_scripts@),
                            j <= psv.len(),
                            command_views(result@) == before + package_script_commands(
                                name@,
                                path@,
                                psv,
                                j as int,
                            ),
                        decreases psv.len() - j,
                    {
                        let (key, _, line) = &package_scripts[j];
                        assert(psv[j as int].0 == key@ && psv[j as int].2 == *line);
                        let args = crate::model::js_package_manager::Pnpm.workspace_script_args(
                            name.as_str(),
                            key.as_str(),
                        );
                        let c = CommandWithPreview::new(
                            RunnerType::JsPackageManager(JsPackageManager::Pnpm),
                            args,
                            path.clone(),
                            *line,
                        );
                        let ghost prev = command_views(result@);
                        result.push(c);
                        assert(command_views(result@) =~= prev.push(c@));
                        j += 1;
                    }
                },
                None => {
                    assert(before + Seq::<CommandWithPreviewView>::empty() =~= before);
                },
            }
            assert(command_views(result@) =~= root + packages_commands(pv, p + 1));
            p += 1;
        }
        result
    }
}

fn same_command(a: &CommandWithPreview, b: &CommandWithPreview) -> (r: bool)
    ensures
        r == (a@ == b@),
{
    let a_args = to_chars(a.args.as_str());
    let b_args = to_chars(b.args.as_str());
    let a_path = to_chars(a.file_path.as_str());
    let b_path = to_chars(b.file_path.as_str());
    a.runner_type == b.runner_type && chars_equal(a_args.as_slice(), b_args.as_slice())
        && chars_equal(a_path.as_slice(), b_path.as_slice()) && a.line_number == b.line_number
}

fn first_word(args: &Vec<Vec<char>>, word: &[char]) -> (r: Option<usize>)
    ensures
        match r {
            Some(i) => index_of_word(crate::text::views(args@), word@, 0) == Some(i as int),
            None => index_of_word(crate::text::views(args@), word@, 0) == None::<int>,
        },
{
    let ghost av = crate::text::views(args@);
    let mut i: usize = 0;
    while i < args.len()
        invariant
            av == crate::text::views(args@),
            i <= av.len(),
            index_of_word(av, word@, 0) == index_of_word(av, word@, i as int),
        decreases av.len() - i,
    {
        assert(av[i as int] == args@[i as int]@);
        if chars_equal(args[i].as_slice(), word) {
            return Some(i);
        }
        i += 1;
    }
    None
}

} // verus!
