//! The state of the interface and how the messages that key input produces change it.
//!
//! The interface runs as a loop outside this module: it reads a key, asks
//! [`Model::handle_key_input`] for the message, and hands the message to [`update`], which
//! changes the model and tells what to do outside it ([`Action`]): edit a text box, store the
//! command in the history file, copy a command to the clipboard.
use super::config::Config;
use crate::model::command::{command_line, command_views, CommandForExec, CommandWithPreview, CommandWithPreviewView};
use crate::model::histories::{history_command_views, history_of, lemma_history_index_of_at, Histories, HistoryCommand, HistoryCommandView};
use crate::model::js_package_manager::concat_all;
use crate::model::make::string_views;
use crate::model::runner::{all_commands, runner_commands, type_of_runner, Runner};
use crate::model::runner_type::RunnerType;
use crate::text::{is_ws, is_whitespace, string_of, to_chars};
use fuzzy_matcher::FuzzyMatcher;
use vstd::prelude::*;

verus! {

/// The score that `SkimMatcherV2::default()` gives to `choice` for `pattern`, or `None` when it
/// does not match.
pub uninterp spec fn skim_score(choice: Seq<char>, pattern: Seq<char>) -> Option<i64>;

/// `SkimMatcherV2::default().fuzzy_indices(choice, pattern)`, keeping the score.
#[verifier::external_body]
pub(crate) fn fuzzy_score(choice: &str, pattern: &str) -> (r: Option<i64>)
    ensures
        r == skim_score(choice@, pattern@),
{
    fuzzy_matcher::skim::SkimMatcherV2::default().fuzzy_indices(choice, pattern).map(|(score, _)| score)
}

/// The text without its whitespace.
pub open spec fn without_ws(s: Seq<char>) -> Seq<char>
    decreases s.len(),
{
    if s.len() == 0 {
        seq![]
    } else if is_ws(s.last()) {
        without_ws(s.drop_last())
    } else {
        without_ws(s.drop_last()).push(s.last())
    }
}

/// The pattern typed in the search box: its lines joined, without whitespace.
pub open spec fn search_query(lines: Seq<Seq<char>>) -> Seq<char> {
    without_ws(concat_all(lines))
}

/// Whether a text box is empty: it holds one line and that line is empty.
pub open spec fn is_empty_text(lines: Seq<Seq<char>>) -> bool {
    lines.len() == 1 && lines[0].len() == 0
}

/// How a command is shown, and matched: `{runner} {args}`.
pub open spec fn shown(c: CommandWithPreviewView) -> Seq<char> {
    command_line(c.runner_type, c.args)
}

/// The score and the index of each of the first `n` commands that match `pattern`, in order.
pub open spec fn matches_in(cmds: Seq<CommandWithPreviewView>, pattern: Seq<char>, n: int) -> Seq<(i64, int)>
    decreases n,
{
    if n <= 0 {
        seq![]
    } else {
        let earlier = matches_in(cmds, pattern, n - 1);
        match skim_score(shown(cmds[n - 1]), pattern) {
            Some(score) => earlier.push((score, n - 1)),
            None => earlier,
        }
    }
}

/// Whether `a` comes before `b`: a higher score first, and the later command first among equal
/// scores (a stable ascending sort, reversed).
pub open spec fn ranks_before(a: (i64, int), b: (i64, int)) -> bool {
    a.0 > b.0 || (a.0 == b.0 && a.1 > b.1)
}

/// `x` put in front of the first element that it ranks before.
pub open spec fn insert_ranked(s: Seq<(i64, int)>, x: (i64, int)) -> Seq<(i64, int)>
    decreases s.len(),
{
    if s.len() == 0 {
        seq![x]
    } else if ranks_before(x, s[0]) {
        seq![x] + s
    } else {
        seq![s[0]] + insert_ranked(s.drop_first(), x)
    }
}

/// The matches ranked: higher scores first, later commands first among equal scores.
pub open spec fn ranked(m: Seq<(i64, int)>) -> Seq<(i64, int)>
    decreases m.len(),
{
    if m.len() == 0 {
        seq![]
    } else {
        insert_ranked(ranked(m.drop_last()), m.last())
    }
}

/// The last of the first `n` commands that is shown as `line`.
pub open spec fn last_shown_as(cmds: Seq<CommandWithPreviewView>, line: Seq<char>, n: int) -> Option<int>
    decreases n,
{
    if n <= 0 {
        None
    } else if shown(cmds[n - 1]) == line {
        Some(n - 1)
    } else {
        last_shown_as(cmds, line, n - 1)
    }
}

/// The command that stands for the `k`-th ranked match: the last command shown like it.
pub open spec fn representative(cmds: Seq<CommandWithPreviewView>, r: Seq<(i64, int)>, k: int) -> CommandWithPreviewView {
    match last_shown_as(cmds, shown(cmds[r[k].1]), cmds.len() as int) {
        Some(j) => cmds[j],
        None => cmds[r[k].1],
    }
}

/// The commands that remain for the text of the search box: all of them when it is empty;
/// otherwise those that the fuzzy matcher accepts, best first. Commands shown alike are
/// represented by the last of them.
pub open spec fn narrowed(cmds: Seq<CommandWithPreviewView>, search_lines: Seq<Seq<char>>) -> Seq<
    CommandWithPreviewView,
> {
    if is_empty_text(search_lines) {
        cmds
    } else {
        let r = ranked(matches_in(cmds, search_query(search_lines), cmds.len() as int));
        Seq::new(r.len(), |k: int| representative(cmds, r, k))
    }
}

pub open spec fn pair_views(v: Seq<(i64, usize)>) -> Seq<(i64, int)> {
    Seq::new(v.len(), |k: int| (v[k].0, v[k].1 as int))
}

proof fn lemma_insert_at(s: Seq<(i64, int)>, x: (i64, int), p: int)
    requires
        0 <= p <= s.len(),
        forall|k: int| 0 <= k < p ==> !ranks_before(x, #[trigger] s[k]),
        p < s.len() ==> ranks_before(x, s[p]),
    ensures
        insert_ranked(s, x) == s.take(p) + seq![x] + s.skip(p),
    decreases s.len(),
{
    if s.len() == 0 {
        assert(s.take(p) + seq![x] + s.skip(p) =~= seq![x]);
    } else if p == 0 {
        assert(s.take(p) + seq![x] + s.skip(p) =~= seq![x] + s);
    } else {
        assert forall|k: int| 0 <= k < p - 1 implies !ranks_before(x, #[trigger] s.drop_first()[k]) by {
            assert(s.drop_first()[k] == s[k + 1]);
        }
        lemma_insert_at(s.drop_first(), x, p - 1);
        assert(!ranks_before(x, s[0]));
        assert(seq![s[0]] + (s.drop_first().take(p - 1) + seq![x] + s.drop_first().skip(p - 1))
            =~= s.take(p) + seq![x] + s.skip(p));
    }
}

pub(crate) fn remove_whitespace(s: &Vec<char>) -> (r: Vec<char>)
    ensures
        r@ == without_ws(s@),
{
    let mut r: Vec<char> = Vec::new();
    let mut i: usize = 0;
    assert(s@.take(0) =~= Seq::<char>::empty());
    while i < s.len()
        invariant
            i <= s@.len(),
            r@ == without_ws(s@.take(i as int)),
        decreases s@.len() - i,
    {
        assert(s@.take(i + 1).drop_last() =~= s@.take(i as int));
        if !is_whitespace(s[i]) {
            r.push(s[i]);
        }
        i += 1;
    }
    assert(s@.take(s@.len() as int) =~= s@);
    r
}

fn join_lines(lines: &Vec<String>) -> (r: Vec<char>)
    ensures
        r@ == concat_all(string_views(lines@)),
{
    let ghost lv = string_views(lines@);
    let mut r: Vec<char> = Vec::new();
    let mut i: usize = 0;
    assert(lv.take(0) =~= Seq::<Seq<char>>::empty());
    while i < lines.len()
        invariant
            lv == string_views(lines@),
            i <= lv.len(),
            r@ == concat_all(lv.take(i as int)),
        decreases lv.len() - i,
    {
        let line = to_chars(lines[i].as_str());
        let ghost before = r@;
        let mut j: usize = 0;
        while j < line.len()
            invariant
                j <= line@.len(),
                r@ == before + line@.take(j as int),
            decreases line@.len() - j,
        {
            r.push(line[j]);
            assert(line@.take(j + 1) =~= line@.take(j as int).push(line@[j as int]));
            j += 1;
        }
        assert(line@.take(j as int) =~= line@);
        assert(lv.take(i + 1).drop_last() =~= lv.take(i as int));
        assert(lv[i as int] == line@);
        i += 1;
    }
    assert(lv.take(lv.len() as int) =~= lv);
    r
}

fn is_empty_lines(lines: &Vec<String>) -> (r: bool)
    ensures
        r == is_empty_text(string_views(lines@)),
{
    lines.len() == 1 && to_chars(lines[0].as_str()).len() == 0
}

fn last_index_shown_as(commands: &Vec<CommandWithPreview>, wanted: &Vec<char>) -> (r: Option<usize>)
    ensures
        match r {
            Some(j) => j < commands@.len() && last_shown_as(command_views(commands@), wanted@, commands@.len() as int) == Some(j as int),
            None => last_shown_as(command_views(commands@), wanted@, commands@.len() as int) == None::<int>,
        },
{
    let ghost cmds = command_views(commands@);
    let mut j: usize = commands.len();
    while j > 0
        invariant
            j <= cmds.len(),
            cmds == command_views(commands@),
            last_shown_as(cmds, wanted@, cmds.len() as int) == last_shown_as(cmds, wanted@, j as int),
        decreases j,
    {
        let candidate = to_chars(commands[j - 1].to_string().as_str());
        assert(cmds[j - 1] == commands@[j - 1]@);
        if crate::text::chars_equal(candidate.as_slice(), wanted.as_slice()) {
            return Some(j - 1);
        }
        j -= 1;
    }
    None
}

/// The matches ranked: higher scores first, later indices first among equal scores.
pub(crate) fn rank_matches(matched: &Vec<(i64, usize)>, bound: usize) -> (order: Vec<(i64, usize)>)
    requires
        forall|k: int| 0 <= k < matched@.len() ==> (#[trigger] matched@[k]).1 < bound,
    ensures
        pair_views(order@) == ranked(pair_views(matched@)),
        forall|k: int| 0 <= k < order@.len() ==> (#[trigger] order@[k]).1 < bound,
{
    let mut order: Vec<(i64, usize)> = Vec::new();
    let ghost mv = pair_views(matched@);
    let mut m: usize = 0;
    assert(mv.take(0) =~= Seq::<(i64, int)>::empty());
    while m < matched.len()
        invariant
            mv == pair_views(matched@),
            m <= mv.len(),
            pair_views(order@) == ranked(mv.take(m as int)),
            forall|k: int| 0 <= k < order@.len() ==> (#[trigger] order@[k]).1 < bound,
            forall|k: int| 0 <= k < matched@.len() ==> (#[trigger] matched@[k]).1 < bound,
        decreases mv.len() - m,
    {
        let x = matched[m];
        let ghost ov = pair_views(order@);
        let mut p: usize = 0;
        while p < order.len() && !(x.0 > order[p].0 || (x.0 == order[p].0 && x.1 > order[p].1))
            invariant
                p <= order@.len(),
                ov == pair_views(order@),
                forall|k: int| 0 <= k < p ==> !ranks_before((x.0, x.1 as int), #[trigger] ov[k]),
            decreases order@.len() - p,
        {
            assert(ov[p as int] == (order@[p as int].0, order@[p as int].1 as int));
            p += 1;
        }
        proof {
            if p < order@.len() {
                assert(ov[p as int] == (order@[p as int].0, order@[p as int].1 as int));
            }
            lemma_insert_at(ov, (x.0, x.1 as int), p as int);
            assert(mv.take(m + 1).drop_last() =~= mv.take(m as int));
            assert(mv.take(m + 1).last() == (x.0, x.1 as int));
        }
        order.insert(p, x);
        assert(pair_views(order@) =~= ov.take(p as int) + seq![(x.0, x.1 as int)] + ov.skip(p as int));
        m += 1;
    }
    assert(mv.take(mv.len() as int) =~= mv);
    order
}

/// The commands that remain for the text of the search box.
pub fn narrow_down(commands: &Vec<CommandWithPreview>, search_lines: &Vec<String>) -> (r: Vec<
    CommandWithPreview,
>)
    ensures
        command_views(r@) == narrowed(command_views(commands@), string_views(search_lines@)),
{
    let ghost cmds = command_views(commands@);
    if is_empty_lines(search_lines) {
        return crate::model::command::duplicate_commands(commands);
    }
    let joined = join_lines(search_lines);
    let query_chars = remove_whitespace(&joined);
    let query = string_of(query_chars.as_slice());
    let ghost q = search_query(string_views(search_lines@));
    assert(query@ == q);
    // Score every command.
    let mut matched: Vec<(i64, usize)> = Vec::new();
    let mut i: usize = 0;
    while i < commands.len()
        invariant
            cmds == command_views(commands@),
            query@ == q,
            i <= cmds.len(),
            pair_views(matched@) == matches_in(cmds, q, i as int),
            forall|k: int| 0 <= k < matched@.len() ==> (#[trigger] matched@[k]).1 < i,
        decreases cmds.len() - i,
    {
        let line = commands[i].to_string();
        assert(cmds[i as int] == commands@[i as int]@);
        match fuzzy_score(line.as_str(), query.as_str()) {
            Some(score) => {
                let ghost prev = pair_views(matched@);
                matched.push((score, i));
                assert(pair_views(matched@) =~= prev.push((score, i as int)));
            },
            None => {},
        }
        i += 1;
    }
    // Rank the matches.
    let order = rank_matches(&matched, commands.len());
    // Each match is represented by the last command that is shown alike.
    let ghost ord = pair_views(order@);
    let mut result: Vec<CommandWithPreview> = Vec::new();
    let mut k: usize = 0;
    while k < order.len()
        invariant
            ord == pair_views(order@),
            ord == ranked(matches_in(cmds, q, cmds.len() as int)),
            cmds == command_views(commands@),
            k <= ord.len(),
            forall|t: int| 0 <= t < order@.len() ==> (#[trigger] order@[t]).1 < cmds.len(),
            command_views(result@) == Seq::new(k as nat, |t: int| representative(cmds, ord, t)),
        decreases ord.len() - k,
    {
        let idx = order[k].1;
        let wanted = to_chars(commands[idx].to_string().as_str());
        assert(cmds[idx as int] == commands@[idx as int]@);
        assert(ord[k as int] == (order@[k as int].0, order@[k as int].1 as int));
        assert(wanted@ == shown(cmds[ord[k as int].1]));
        let found = match last_index_shown_as(commands, &wanted) {
            Some(j) => j,
            None => idx,
        };
        assert(cmds[found as int] == commands@[found as int]@);
        let ghost prev = command_views(result@);
        let c = commands[found].duplicate();
        result.push(c);
        assert(c@ == representative(cmds, ord, k as int));
        assert(command_views(result@) =~= prev.push(c@));
        assert(Seq::new((k + 1) as nat, |t: int| representative(cmds, ord, t)) =~= Seq::new(
            k as nat,
            |t: int| representative(cmds, ord, t),
        ).push(representative(cmds, ord, k as int)));
        k += 1;
    }
    result
}

/// The pane that has the focus.
#[derive(Clone, Copy, PartialEq, Eq, Structural, Debug)]
pub enum CurrentPane {
    Main,
    History,
}

impl CurrentPane {
    pub fn is_main(&self) -> (r: bool)
        ensures
            r == (*self == CurrentPane::Main),
    {
        match self {
            CurrentPane::Main => true,
            CurrentPane::History => false,
        }
    }

    pub fn is_history(&self) -> (r: bool)
        ensures
            r == (*self == CurrentPane::History),
    {
        match self {
            CurrentPane::Main => false,
            CurrentPane::History => true,
        }
    }
}

/// The popup in which arguments are added to a command: the lines typed in it and the command.
#[derive(Debug, PartialEq)]
pub struct AdditionalWindowState {
    pub arguments_lines: Vec<String>,
    pub command: CommandForExec,
}

/// The arguments typed in the popup: its lines joined by spaces, trimmed.
pub open spec fn typed_arguments(lines: Seq<Seq<char>>) -> Seq<char> {
    crate::text::trim_of(joined_with_spaces(lines))
}

/// The lines joined by single spaces.
pub open spec fn joined_with_spaces(lines: Seq<Seq<char>>) -> Seq<char>
    decreases lines.len(),
{
    if lines.len() == 0 {
        seq![]
    } else if lines.len() == 1 {
        lines[0]
    } else {
        joined_with_spaces(lines.drop_last()) + seq![' '] + lines.last()
    }
}

/// The command with the typed arguments appended after a space, when there are any.
pub open spec fn with_arguments(command: HistoryCommandView, lines: Seq<Seq<char>>) -> HistoryCommandView {
    let arguments = typed_arguments(lines);
    if arguments.len() == 0 {
        command
    } else {
        HistoryCommandView { runner_type: command.runner_type, args: command.args + seq![' '] + arguments }
    }
}

/// The lines joined by single spaces.
pub(crate) fn join_with_spaces(lines: &Vec<String>) -> (joined: Vec<char>)
    ensures
        joined@ == joined_with_spaces(string_views(lines@)),
{
    let ghost lv = string_views(lines@);
    let mut joined: Vec<char> = Vec::new();
    let mut i: usize = 0;
    while i < lines.len()
        invariant
            lv == string_views(lines@),
            i <= lv.len(),
            joined@ == joined_with_spaces(lv.take(i as int)),
        decreases lv.len() - i,
    {
        let line = to_chars(lines[i].as_str());
        let ghost before = joined@;
        if i > 0 {
            joined.push(' ');
        }
        let ghost with_sep = joined@;
        let mut j: usize = 0;
        while j < line.len()
            invariant
                j <= line@.len(),
                joined@ == with_sep + line@.take(j as int),
            decreases line@.len() - j,
        {
            joined.push(line[j]);
            assert(line@.take(j + 1) =~= line@.take(j as int).push(line@[j as int]));
            j += 1;
        }
        assert(line@.take(j as int) =~= line@);
        assert(lv[i as int] == line@);
        assert(lv.take(i + 1).drop_last() =~= lv.take(i as int));
        assert(joined@ =~= joined_with_spaces(lv.take(i + 1)));
        i += 1;
    }
    assert(lv.take(lv.len() as int) =~= lv);
    joined
}

impl AdditionalWindowState {
    /// The popup for `command`, with nothing typed.
    pub fn new(command: CommandForExec) -> (r: Self)
        ensures
            r.command == command,
            is_empty_text(string_views(r.arguments_lines@)),
    {
        let mut lines: Vec<String> = Vec::new();
        lines.push(String::new());
        Self { arguments_lines: lines, command }
    }

    /// The command with the typed arguments appended.
    pub fn append_arguments(&self) -> (r: CommandForExec)
        ensures
            r@ == with_arguments(self.command@, string_views(self.arguments_lines@)),
    {
        let joined = join_with_spaces(&self.arguments_lines);
        let arguments = crate::text::trim(joined.as_slice());
        let mut new_command = self.command.duplicate();
        if arguments.len() > 0 {
            let mut args = to_chars(new_command.args.as_str());
            let ghost before = args@;
            args.push(' ');
            let mut k: usize = 0;
            while k < arguments.len()
                invariant
                    k <= arguments@.len(),
                    args@ == before + seq![' '] + arguments@.take(k as int),
                decreases arguments@.len() - k,
            {
                args.push(arguments[k]);
                assert(arguments@.take(k + 1) =~= arguments@.take(k as int).push(arguments@[k as int]));
                k += 1;
            }
            assert(arguments@.take(k as int) =~= arguments@);
            new_command.args = string_of(args.as_slice());
        }
        new_command
    }
}

/// The selection after moving down a list of `n` items: the next one, wrapping to the first;
/// nothing when the list is empty.
pub open spec fn next_index(selected: Option<usize>, n: nat) -> Option<usize> {
    if n == 0 {
        None
    } else {
        match selected {
            Some(i) => if n - 1 <= i {
                Some(0usize)
            } else {
                Some((i + 1) as usize)
            },
            None => Some(0usize),
        }
    }
}

/// The selection after moving up a list of `n` items: the previous one, wrapping to the last;
/// nothing when the list is empty.
pub open spec fn previous_index(selected: Option<usize>, n: nat) -> Option<usize> {
    if n == 0 {
        None
    } else {
        match selected {
            Some(i) => if i == 0 {
                Some((n - 1) as usize)
            } else {
                Some((i - 1) as usize)
            },
            None => Some(0usize),
        }
    }
}

fn next_of(selected: Option<usize>, n: usize) -> (r: Option<usize>)
    ensures
        r == next_index(selected, n as nat),
{
    if n == 0 {
        None
    } else {
        match selected {
            Some(i) => if n - 1 <= i {
                Some(0)
            } else {
                Some(i + 1)
            },
            None => Some(0),
        }
    }
}

fn previous_of(selected: Option<usize>, n: usize) -> (r: Option<usize>)
    ensures
        r == previous_index(selected, n as nat),
{
    if n == 0 {
        None
    } else {
        match selected {
            Some(i) => if i == 0 {
                Some(n - 1)
            } else {
                Some(i - 1)
            },
            None => Some(0),
        }
    }
}

/// The state while a command is being selected. The text boxes are held as the lines they
/// contain; editing them is done where the keys are read.
#[derive(Debug, PartialEq)]
pub struct SelectCommandState {
    pub current_dir: String,
    pub current_pane: CurrentPane,
    pub runners: Vec<Runner>,
    pub search_lines: Vec<String>,
    pub commands_list_state: Option<usize>,
    pub history: Vec<HistoryCommand>,
    pub history_list_state: Option<usize>,
    pub additional_arguments_popup_state: Option<AdditionalWindowState>,
    pub latest_version: Option<String>,
    pub copy_command_state: Option<Result<String, String>>,
}

/// The commands that the runners define, one runner after the other.
pub open spec fn state_commands(s: SelectCommandState) -> Seq<CommandWithPreviewView> {
    all_commands(s.runners@)
}

/// The commands listed in the main pane.
pub open spec fn listed_commands(s: SelectCommandState) -> Seq<CommandWithPreviewView> {
    narrowed(state_commands(s), string_views(s.search_lines@))
}

/// The command that the focused pane selects, as a command to execute.
pub open spec fn selected_command(s: SelectCommandState) -> Option<HistoryCommandView> {
    match s.current_pane {
        CurrentPane::Main => match s.commands_list_state {
            Some(i) => if i < listed_commands(s).len() {
                Some(
                    HistoryCommandView {
                        runner_type: listed_commands(s)[i as int].runner_type,
                        args: listed_commands(s)[i as int].args,
                    },
                )
            } else {
                None
            },
            None => None,
        },
        CurrentPane::History => match s.history_list_state {
            Some(i) => if i < s.history@.len() {
                Some(s.history@[i as int]@)
            } else {
                None
            },
            None => None,
        },
    }
}

/// The index of the first runner, from `from` on, whose type is `runner_type`.
pub open spec fn runner_index(runners: Seq<Runner>, runner_type: RunnerType, from: int) -> Option<int>
    decreases runners.len() - from,
{
    if from < 0 || from >= runners.len() {
        None
    } else if type_of_runner(runners[from]) == runner_type {
        Some(from)
    } else {
        runner_index(runners, runner_type, from + 1)
    }
}

proof fn lemma_all_commands_push(rs: Seq<Runner>, r: Runner)
    ensures
        all_commands(rs.push(r)) == all_commands(rs) + runner_commands(r),
{
    assert(rs.push(r).drop_last() =~= rs);
}

/// The message when no task runner was found.
pub open spec fn no_runner_message() -> Seq<char> {
    "No task runner found.\nRun following command to see usage.\nopen \"https://github.com/kyu08/fzf-make?tab=readme-ov-file#-usage\""@
}

/// Whether `s` is the state in which the selection starts: in `current_dir`, with the given
/// runners and history, nothing typed, the first command and the first history entry selected,
/// and the pane that `config` focuses.
pub open spec fn starts_selection(
    s: SelectCommandState,
    config: Config,
    current_dir: String,
    runners: Vec<Runner>,
    history: Vec<HistoryCommand>,
) -> bool {
    &&& s.current_dir == current_dir
    &&& s.current_pane == (if config.focus_history() {
        CurrentPane::History
    } else {
        CurrentPane::Main
    })
    &&& s.runners == runners
    &&& is_empty_text(string_views(s.search_lines@))
    &&& s.commands_list_state == Some(0usize)
    &&& s.history == history
    &&& s.history_list_state == Some(0usize)
    &&& s.additional_arguments_popup_state is None
    &&& s.latest_version is None
    &&& s.copy_command_state is None
}

impl SelectCommandState {
    /// The state when the interface starts in `current_dir` with the runners found there and
    /// the history of the directory; an error when no runner was found.
    pub fn new(
        config: Config,
        current_dir: String,
        runners: Vec<Runner>,
        history: Vec<HistoryCommand>,
    ) -> (r: Result<Self, String>)
        ensures
            runners@.len() == 0 <==> r is Err,
            r matches Ok(s) ==> starts_selection(s, config, current_dir, runners, history),
            r matches Err(e) ==> e@ == no_runner_message(),
    {
        if runners.len() == 0 {
            return Err(String::from_str("No task runner found.\nRun following command to see usage.\nopen \"https://github.com/kyu08/fzf-make?tab=readme-ov-file#-usage\""));
        }
        let current_pane = if config.get_focus_history() {
            CurrentPane::History
        } else {
            CurrentPane::Main
        };
        let mut search_lines: Vec<String> = Vec::new();
        search_lines.push(String::new());
        Ok(SelectCommandState {
            current_dir,
            current_pane,
            runners,
            search_lines,
            commands_list_state: Some(0),
            history,
            history_list_state: Some(0),
            additional_arguments_popup_state: None,
            latest_version: None,
            copy_command_state: None,
        })
    }

    /// The commands of all the runners.
    pub fn all_commands(&self) -> (r: Vec<CommandWithPreview>)
        ensures
            command_views(r@) == state_commands(*self),
    {
        let mut commands: Vec<CommandWithPreview> = Vec::new();
        let mut i: usize = 0;
        assert(self.runners@.take(0) =~= Seq::<Runner>::empty());
        while i < self.runners.len()
            invariant
                i <= self.runners@.len(),
                command_views(commands@) == all_commands(self.runners@.take(i as int)),
            decreases self.runners@.len() - i,
        {
            let listed = self.runners[i].list_commands();
            let ghost before = command_views(commands@);
            let mut j: usize = 0;
            while j < listed.len()
                invariant
                    j <= listed@.len(),
                    command_views(commands@) == before + command_views(listed@).take(j as int),
                decreases listed@.len() - j,
            {
                let ghost prev = command_views(commands@);
                commands.push(listed[j].duplicate());
                assert(command_views(commands@) =~= prev.push(command_views(listed@)[j as int]));
                assert(command_views(listed@).take(j + 1) =~= command_views(listed@).take(j as int).push(
                    command_views(listed@)[j as int],
                ));
                j += 1;
            }
            assert(command_views(listed@).take(j as int) =~= command_views(listed@));
            proof {
                lemma_all_commands_push(self.runners@.take(i as int), self.runners@[i as int]);
                assert(self.runners@.take(i + 1) =~= self.runners@.take(i as int).push(self.runners@[i as int]));
            }
            i += 1;
        }
        assert(self.runners@.take(self.runners@.len() as int) =~= self.runners@);
        commands
    }

    /// The commands listed in the main pane: those that the search box narrows down to.
    pub fn narrow_down_commands(&self) -> (r: Vec<CommandWithPreview>)
        ensures
            command_views(r@) == listed_commands(*self),
    {
        let commands = self.all_commands();
        narrow_down(&commands, &self.search_lines)
    }

    /// The history of the current directory, most recent first.
    pub fn get_history(&self) -> (r: Vec<HistoryCommand>)
        ensures
            history_command_views(r@) == history_command_views(self.history@),
    {
        let mut r: Vec<HistoryCommand> = Vec::new();
        let mut i: usize = 0;
        while i < self.history.len()
            invariant
                i <= self.history@.len(),
                history_command_views(r@) == history_command_views(self.history@).take(i as int),
            decreases self.history@.len() - i,
        {
            let ghost prev = history_command_views(r@);
            let c = self.history[i].duplicate();
            r.push(c);
            assert(history_command_views(r@) =~= prev.push(c@));
            assert(history_command_views(r@) =~= history_command_views(self.history@).take(i + 1));
            i += 1;
        }
        assert(history_command_views(self.history@).take(i as int) =~= history_command_views(self.history@));
        r
    }

    /// The most recently executed command of the directory.
    pub fn get_latest_command(&self) -> (r: Option<&HistoryCommand>)
        ensures
            self.history@.len() == 0 ==> r is None,
            self.history@.len() > 0 ==> r == Some(&self.history@[0]),
    {
        if self.history.len() == 0 {
            None
        } else {
            Some(&self.history[0])
        }
    }

    /// The first runner of the given type.
    pub fn get_runner(&self, runner_type: &RunnerType) -> (r: Option<&Runner>)
        ensures
            match runner_index(self.runners@, *runner_type, 0) {
                Some(i) => r == Some(&self.runners@[i]),
                None => r is None,
            },
    {
        match self.runner_position(runner_type) {
            Some(i) => Some(&self.runners[i]),
            None => None,
        }
    }

    fn runner_position(&self, runner_type: &RunnerType) -> (r: Option<usize>)
        ensures
            match r {
                Some(i) => runner_index(self.runners@, *runner_type, 0) == Some(i as int) && i
                    < self.runners@.len(),
                None => runner_index(self.runners@, *runner_type, 0) is None,
            },
    {
        let mut i: usize = 0;
        while i < self.runners.len()
            invariant
                i <= self.runners@.len(),
                runner_index(self.runners@, *runner_type, 0) == runner_index(
                    self.runners@,
                    *runner_type,
                    i as int,
                ),
            decreases self.runners@.len() - i,
        {
            if self.runners[i].runner_type() == *runner_type {
                return Some(i);
            }
            i += 1;
        }
        None
    }

    /// Whether the popup to add arguments is open.
    pub fn is_additional_arguments_popup_opened(&self) -> (r: bool)
        ensures
            r == self.additional_arguments_popup_state is Some,
    {
        self.additional_arguments_popup_state.is_some()
    }

    /// The command that the focused pane selects.
    pub fn get_selected_command(&self) -> (r: Option<CommandForExec>)
        ensures
            match r {
                Some(c) => selected_command(*self) == Some(c@),
                None => selected_command(*self) is None,
            },
    {
        match self.current_pane {
            CurrentPane::Main => match self.commands_list_state {
                Some(i) => {
                    let listed = self.narrow_down_commands();
                    if i < listed.len() {
                        let c = &listed[i];
                        assert(command_views(listed@)[i as int] == c@);
                        Some(CommandForExec { runner_type: c.runner_type, args: c.args.clone() })
                    } else {
                        None
                    }
                },
                None => None,
            },
            CurrentPane::History => match self.history_list_state {
                Some(i) => if i < self.history.len() {
                    Some(CommandForExec::from(self.history[i].duplicate()))
                } else {
                    None
                },
                None => None,
            },
        }
    }

    /// Moves the selection in the main pane down, wrapping around.
    pub fn next_command(&mut self)
        ensures
            *final(self) == (SelectCommandState {
                commands_list_state: next_index(
                    old(self).commands_list_state,
                    listed_commands(*old(self)).len(),
                ),
                ..*old(self)
            }),
    {
        let n = self.narrow_down_commands().len();
        self.commands_list_state = next_of(self.commands_list_state, n);
    }

    /// Moves the selection in the main pane up, wrapping around.
    pub fn previous_command(&mut self)
        ensures
            *final(self) == (SelectCommandState {
                commands_list_state: previous_index(
                    old(self).commands_list_state,
                    listed_commands(*old(self)).len(),
                ),
                ..*old(self)
            }),
    {
        let n = self.narrow_down_commands().len();
        self.commands_list_state = previous_of(self.commands_list_state, n);
    }

    /// Moves the selection in the history pane down, wrapping around.
    pub fn next_history(&mut self)
        ensures
            *final(self) == (SelectCommandState {
                history_list_state: next_index(old(self).history_list_state, old(self).history@.len()),
                ..*old(self)
            }),
    {
        let n = self.history.len();
        self.history_list_state = next_of(self.history_list_state, n);
    }

    /// Moves the selection in the history pane up, wrapping around.
    pub fn previous_history(&mut self)
        ensures
            *final(self) == (SelectCommandState {
                history_list_state: previous_index(
                    old(self).history_list_state,
                    old(self).history@.len(),
                ),
                ..*old(self)
            }),
    {
        let n = self.history.len();
        self.history_list_state = previous_of(self.history_list_state, n);
    }

    /// Gives the focus to the other pane.
    pub fn move_to_next_pane(&mut self)
        ensures
            *final(self) == (SelectCommandState {
                current_pane: match old(self).current_pane {
                    CurrentPane::Main => CurrentPane::History,
                    CurrentPane::History => CurrentPane::Main,
                },
                ..*old(self)
            }),
    {
        self.current_pane = match self.current_pane {
            CurrentPane::Main => CurrentPane::History,
            CurrentPane::History => CurrentPane::Main,
        };
    }

    /// Selects the first command again, as when the search text changes.
    pub fn reset_selection(&mut self)
        ensures
            *final(self) == (SelectCommandState { commands_list_state: Some(0usize), ..*old(self) }),
    {
        self.commands_list_state = Some(0);
    }

    /// Opens the popup to add arguments to the selected command, unless it is open or nothing
    /// is selected.
    pub fn open_additional_arguments_popup(&mut self)
        ensures
            old(self).additional_arguments_popup_state is None && selected_command(*old(self)) is Some
                ==> {
                &&& final(self).additional_arguments_popup_state matches Some(p) && p.command@
                    == selected_command(*old(self))->0 && is_empty_text(
                    string_views(p.arguments_lines@),
                )
                &&& *final(self) == (SelectCommandState {
                    additional_arguments_popup_state: final(self).additional_arguments_popup_state,
                    ..*old(self)
                })
            },
            !(old(self).additional_arguments_popup_state is None && selected_command(*old(self)) is Some)
                ==> *final(self) == *old(self),
    {
        if self.additional_arguments_popup_state.is_none() {
            match self.get_selected_command() {
                Some(command) => {
                    self.additional_arguments_popup_state = Some(AdditionalWindowState::new(command));
                },
                None => {},
            }
        }
    }

    /// Closes the popup.
    pub fn close_additional_arguments_popup(&mut self)
        ensures
            *final(self) == (SelectCommandState { additional_arguments_popup_state: None, ..*old(self) }),
    {
        self.additional_arguments_popup_state = None;
    }

    /// Records the lines of the search box after an edit.
    pub fn set_search_lines(&mut self, lines: Vec<String>)
        ensures
            *final(self) == (SelectCommandState { search_lines: lines, ..*old(self) }),
    {
        self.search_lines = lines;
    }

    /// Records the lines of the popup's text box after an edit, when the popup is open.
    pub fn set_arguments_lines(&mut self, lines: Vec<String>)
        ensures
            match old(self).additional_arguments_popup_state {
                Some(p) => *final(self) == (SelectCommandState {
                    additional_arguments_popup_state: Some(
                        AdditionalWindowState { arguments_lines: lines, command: p.command },
                    ),
                    ..*old(self)
                }),
                None => *final(self) == *old(self),
            },
    {
        let popup = self.additional_arguments_popup_state.take();
        match popup {
            Some(p) => {
                self.additional_arguments_popup_state = Some(
                    AdditionalWindowState { arguments_lines: lines, command: p.command },
                );
            },
            None => {},
        }
    }

    /// Records the outcome of copying a command to the clipboard: the command, or the error.
    pub fn set_copy_command_state(&mut self, outcome: Result<String, String>)
        ensures
            *final(self) == (SelectCommandState { copy_command_state: Some(outcome), ..*old(self) }),
    {
        self.copy_command_state = Some(outcome);
    }

    /// Records the latest release, once it is known.
    pub fn set_latest_version(&mut self, version: String)
        ensures
            *final(self) == (SelectCommandState { latest_version: Some(version), ..*old(self) }),
    {
        self.latest_version = Some(version);
    }
}

/// A key, as far as the interface tells keys apart.
#[derive(Clone, Copy, PartialEq, Eq, Structural, Debug)]
pub enum KeyCode {
    Char(char),
    Backspace,
    Enter,
    Tab,
    Esc,
    Up,
    Down,
    Other,
}

/// A key press: the key and whether Control was held.
#[derive(Clone, Copy, PartialEq, Eq, Structural, Debug)]
pub struct KeyInput {
    pub code: KeyCode,
    pub ctrl: bool,
}

/// What a key press asks for.
#[derive(Debug, PartialEq)]
pub enum Message {
    SearchTextAreaKeyInput(KeyInput),
    ExecuteCommand(CommandForExec),
    NextCommand,
    PreviousCommand,
    MoveToNextPane,
    NextHistory,
    PreviousHistory,
    Quit,
    OpenAdditionalArgumentsWindow,
    CloseAdditionalArgumentsWindow,
    AdditionalArgumentsKeyInput(KeyInput),
    CopyCommandToClipboard,
    NoCommandSelected,
}

/// The value of a [`Message`].
pub enum MessageView {
    SearchTextAreaKeyInput(KeyInput),
    ExecuteCommand(HistoryCommandView),
    NextCommand,
    PreviousCommand,
    MoveToNextPane,
    NextHistory,
    PreviousHistory,
    Quit,
    OpenAdditionalArgumentsWindow,
    CloseAdditionalArgumentsWindow,
    AdditionalArgumentsKeyInput(KeyInput),
    CopyCommandToClipboard,
    NoCommandSelected,
}

impl View for Message {
    type V = MessageView;

    open spec fn view(&self) -> MessageView {
        match self {
            Message::SearchTextAreaKeyInput(k) => MessageView::SearchTextAreaKeyInput(*k),
            Message::ExecuteCommand(c) => MessageView::ExecuteCommand(c@),
            Message::NextCommand => MessageView::NextCommand,
            Message::PreviousCommand => MessageView::PreviousCommand,
            Message::MoveToNextPane => MessageView::MoveToNextPane,
            Message::NextHistory => MessageView::NextHistory,
            Message::PreviousHistory => MessageView::PreviousHistory,
            Message::Quit => MessageView::Quit,
            Message::OpenAdditionalArgumentsWindow => MessageView::OpenAdditionalArgumentsWindow,
            Message::CloseAdditionalArgumentsWindow => MessageView::CloseAdditionalArgumentsWindow,
            Message::AdditionalArgumentsKeyInput(k) => MessageView::AdditionalArgumentsKeyInput(*k),
            Message::CopyCommandToClipboard => MessageView::CopyCommandToClipboard,
            Message::NoCommandSelected => MessageView::NoCommandSelected,
        }
    }
}

pub open spec fn message_view(m: Option<Message>) -> Option<MessageView> {
    match m {
        Some(m) => Some(m@),
        None => None,
    }
}

pub open spec fn is_ctrl(key: KeyInput, c: char) -> bool {
    key.ctrl && key.code == KeyCode::Char(c)
}

/// Enter, with the selected command or without one.
pub open spec fn execute_message(s: SelectCommandState) -> MessageView {
    match selected_command(s) {
        Some(c) => MessageView::ExecuteCommand(c),
        None => MessageView::NoCommandSelected,
    }
}

/// What a key asks for while the popup is open.
pub open spec fn popup_message(p: AdditionalWindowState, key: KeyInput) -> Option<MessageView> {
    if key.code == KeyCode::Esc {
        Some(MessageView::CloseAdditionalArgumentsWindow)
    } else if key.code == KeyCode::Tab {
        None
    } else if key.code == KeyCode::Enter {
        Some(MessageView::ExecuteCommand(with_arguments(p.command@, string_views(p.arguments_lines@))))
    } else {
        Some(MessageView::AdditionalArgumentsKeyInput(key))
    }
}

/// What a key asks for in the main pane.
pub open spec fn main_pane_message(s: SelectCommandState, key: KeyInput) -> Option<MessageView> {
    if key.code == KeyCode::Tab {
        Some(MessageView::MoveToNextPane)
    } else if key.code == KeyCode::Esc || is_ctrl(key, 'c') {
        Some(MessageView::Quit)
    } else if key.code == KeyCode::Down || is_ctrl(key, 'n') {
        Some(MessageView::NextCommand)
    } else if key.code == KeyCode::Up || is_ctrl(key, 'p') {
        Some(MessageView::PreviousCommand)
    } else if is_ctrl(key, 'o') {
        Some(MessageView::OpenAdditionalArgumentsWindow)
    } else if is_ctrl(key, 'y') {
        Some(MessageView::CopyCommandToClipboard)
    } else if key.code == KeyCode::Enter {
        Some(execute_message(s))
    } else {
        Some(MessageView::SearchTextAreaKeyInput(key))
    }
}

/// What a key asks for in the history pane.
pub open spec fn history_pane_message(s: SelectCommandState, key: KeyInput) -> Option<MessageView> {
    if key.code == KeyCode::Tab {
        Some(MessageView::MoveToNextPane)
    } else if key.code == KeyCode::Esc || is_ctrl(key, 'c') || key.code == KeyCode::Char('q') {
        Some(MessageView::Quit)
    } else if key.code == KeyCode::Down || is_ctrl(key, 'n') {
        Some(MessageView::NextHistory)
    } else if key.code == KeyCode::Up || is_ctrl(key, 'p') {
        Some(MessageView::PreviousHistory)
    } else if is_ctrl(key, 'o') {
        Some(MessageView::OpenAdditionalArgumentsWindow)
    } else if is_ctrl(key, 'y') {
        Some(MessageView::CopyCommandToClipboard)
    } else if key.code == KeyCode::Enter || key.code == KeyCode::Char(' ') {
        Some(execute_message(s))
    } else {
        None
    }
}

/// What a key asks for in a state.
pub open spec fn key_message(s: SelectCommandState, key: KeyInput) -> Option<MessageView> {
    match s.additional_arguments_popup_state {
        Some(p) => popup_message(p, key),
        None => match s.current_pane {
            CurrentPane::Main => main_pane_message(s, key),
            CurrentPane::History => history_pane_message(s, key),
        },
    }
}

/// What is left to do outside the model after an update.
#[derive(Debug, PartialEq)]
pub enum Action {
    /// Nothing.
    Nothing,
    /// Apply the key to the search box, then record its lines with
    /// [`SelectCommandState::set_search_lines`].
    EditSearchText,
    /// Apply the key to the popup's text box, then record its lines with
    /// [`SelectCommandState::set_arguments_lines`].
    EditArguments,
    /// Put the command at the head of the history of `current_dir` in the history file.
    StoreHistory { current_dir: String, command: CommandForExec },
    /// Copy the text to the clipboard, then record the outcome with
    /// [`SelectCommandState::set_copy_command_state`].
    CopyToClipboard(String),
}

/// The command chosen for execution, with the runner that executes it.
#[derive(Debug, PartialEq)]
pub struct ExecuteCommandState {
    pub executor: Runner,
    pub command: CommandForExec,
}

impl ExecuteCommandState {
    pub fn new(executor: Runner, command: CommandForExec) -> (r: Self)
        ensures
            r.executor == executor,
            r.command == command,
    {
        ExecuteCommandState { executor, command }
    }
}

/// The state of the interface: selecting a command, or done, with a command to execute, with
/// nothing, or with an error.
#[derive(Debug, PartialEq)]
pub enum AppState {
    SelectCommand(Box<SelectCommandState>),
    ExecuteCommand(ExecuteCommandState),
    ShouldQuit,
    QuitWithError(String),
}

/// The model of the interface.
#[derive(Debug, PartialEq)]
pub struct Model {
    pub app_state: AppState,
}

impl Model {
    /// The model when the interface starts; an error when no runner was found.
    pub fn new(
        config: Config,
        current_dir: String,
        runners: Vec<Runner>,
        history: Vec<HistoryCommand>,
    ) -> (r: Result<Model, String>)
        ensures
            runners@.len() == 0 <==> r is Err,
            r matches Ok(m) ==> (m.app_state matches AppState::SelectCommand(s) && starts_selection(
                *s,
                config,
                current_dir,
                runners,
                history,
            )),
            r matches Err(e) ==> e@ == no_runner_message(),
    {
        match SelectCommandState::new(config, current_dir, runners, history) {
            Ok(s) => Ok(Model { app_state: AppState::SelectCommand(Box::new(s)) }),
            Err(e) => Err(e),
        }
    }

    /// What a key asks for; nothing once a command is chosen or the interface quits.
    pub fn handle_key_input(&self, key: KeyInput) -> (r: Option<Message>)
        ensures
            match self.app_state {
                AppState::SelectCommand(s) => message_view(r) == key_message(*s, key),
                _ => r is None,
            },
    {
        match &self.app_state {
            AppState::SelectCommand(s) => {
                let s: &SelectCommandState = &**s;
                let ctrl = key.ctrl;
                match &s.additional_arguments_popup_state {
                    Some(p) => match key.code {
                        KeyCode::Esc => Some(Message::CloseAdditionalArgumentsWindow),
                        KeyCode::Tab => None,
                        KeyCode::Enter => Some(Message::ExecuteCommand(p.append_arguments())),
                        _ => Some(Message::AdditionalArgumentsKeyInput(key)),
                    },
                    None => match s.current_pane {
                        CurrentPane::Main => {
                            if key.code == KeyCode::Tab {
                                Some(Message::MoveToNextPane)
                            } else if key.code == KeyCode::Esc || (ctrl && key.code == KeyCode::Char('c')) {
                                Some(Message::Quit)
                            } else if key.code == KeyCode::Down || (ctrl && key.code == KeyCode::Char('n')) {
                                Some(Message::NextCommand)
                            } else if key.code == KeyCode::Up || (ctrl && key.code == KeyCode::Char('p')) {
                                Some(Message::PreviousCommand)
                            } else if ctrl && key.code == KeyCode::Char('o') {
                                Some(Message::OpenAdditionalArgumentsWindow)
                            } else if ctrl && key.code == KeyCode::Char('y') {
                                Some(Message::CopyCommandToClipboard)
                            } else if key.code == KeyCode::Enter {
                                match s.get_selected_command() {
                                    Some(c) => Some(Message::ExecuteCommand(c)),
                                    None => Some(Message::NoCommandSelected),
                                }
                            } else {
                                Some(Message::SearchTextAreaKeyInput(key))
                            }
                        },
                        CurrentPane::History => {
                            if key.code == KeyCode::Tab {
                                Some(Message::MoveToNextPane)
                            } else if key.code == KeyCode::Esc || (ctrl && key.code == KeyCode::Char('c'))
                                || key.code == KeyCode::Char('q') {
                                Some(Message::Quit)
                            } else if key.code == KeyCode::Down || (ctrl && key.code == KeyCode::Char('n')) {
                                Some(Message::NextHistory)
                            } else if key.code == KeyCode::Up || (ctrl && key.code == KeyCode::Char('p')) {
                                Some(Message::PreviousHistory)
                            } else if ctrl && key.code == KeyCode::Char('o') {
                                Some(Message::OpenAdditionalArgumentsWindow)
                            } else if ctrl && key.code == KeyCode::Char('y') {
                                Some(Message::CopyCommandToClipboard)
                            } else if key.code == KeyCode::Enter || key.code == KeyCode::Char(' ') {
                                match s.get_selected_command() {
                                    Some(c) => Some(Message::ExecuteCommand(c)),
                                    None => Some(Message::NoCommandSelected),
                                }
                            } else {
                                None
                            }
                        },
                    },
                }
            },
            _ => None,
        }
    }

    /// The commands of the history of `current_working_directory`, most recent first; none when
    /// the directory has no history.
    pub fn get_histories(current_working_directory: &String, histories: &Histories) -> (r: Vec<
        HistoryCommand,
    >)
        ensures
            match history_of(histories@, current_working_directory@) {
                Some(h) => history_command_views(r@) == h.commands,
                None => r@.len() == 0,
            },
    {
        let ghost hs = histories@;
        let cwd = to_chars(current_working_directory.as_str());
        let mut i: usize = 0;
        while i < histories.histories.len()
            invariant
                hs == histories@,
                cwd@ == current_working_directory@,
                i <= hs.len(),
                forall|k: int| 0 <= k < i ==> hs[k].path != cwd@,
            decreases hs.len() - i,
        {
            let h = &histories.histories[i];
            let path = to_chars(h.path.as_str());
            assert(hs[i as int] == h@);
            if crate::text::chars_equal(path.as_slice(), cwd.as_slice()) {
                proof {
                    lemma_history_index_of_at(hs, cwd@, i as int);
                }
                return h.duplicate().commands;
            }
            i += 1;
        }
        proof {
            lemma_history_index_of_at(hs, cwd@, i as int);
        }
        Vec::new()
    }

    /// Whether the interface quits without a command.
    pub fn should_quit(&self) -> (r: bool)
        ensures
            r == self.app_state is ShouldQuit,
    {
        match self.app_state {
            AppState::ShouldQuit => true,
            _ => false,
        }
    }

    /// Whether a command is chosen for execution.
    pub fn is_command_selected(&self) -> (r: bool)
        ensures
            r == self.app_state is ExecuteCommand,
    {
        match self.app_state {
            AppState::ExecuteCommand(_) => true,
            _ => false,
        }
    }

    /// The runner and the command chosen for execution, if any.
    pub fn command_to_execute(self) -> (r: Option<(Runner, CommandForExec)>)
        ensures
            match self.app_state {
                AppState::ExecuteCommand(e) => r == Some((e.executor, e.command)),
                _ => r is None,
            },
    {
        match self.app_state {
            AppState::ExecuteCommand(e) => Some((e.executor, e.command)),
            _ => None,
        }
    }
}

/// The state after a message, while a command is being selected, when the message does not
/// execute a command: `None` when the message ends the selection.
pub open spec fn next_select_state(s: SelectCommandState, message: MessageView) -> SelectCommandState {
    match message {
        MessageView::SearchTextAreaKeyInput(key) => if key.code is Char || key.code is Backspace {
            SelectCommandState { commands_list_state: Some(0usize), ..s }
        } else {
            s
        },
        MessageView::NextCommand => SelectCommandState {
            commands_list_state: next_index(s.commands_list_state, listed_commands(s).len()),
            ..s
        },
        MessageView::PreviousCommand => SelectCommandState {
            commands_list_state: previous_index(s.commands_list_state, listed_commands(s).len()),
            ..s
        },
        MessageView::MoveToNextPane => SelectCommandState {
            current_pane: match s.current_pane {
                CurrentPane::Main => CurrentPane::History,
                CurrentPane::History => CurrentPane::Main,
            },
            ..s
        },
        MessageView::NextHistory => SelectCommandState {
            history_list_state: next_index(s.history_list_state, s.history@.len()),
            ..s
        },
        MessageView::PreviousHistory => SelectCommandState {
            history_list_state: previous_index(s.history_list_state, s.history@.len()),
            ..s
        },
        MessageView::CloseAdditionalArgumentsWindow => SelectCommandState {
            additional_arguments_popup_state: None,
            ..s
        },
        _ => s,
    }
}

/// Applies a message to the model and tells what is left to do outside it.
pub fn update(model: &mut Model, message: Option<Message>) -> (action: Action)
    ensures
        !(old(model).app_state is SelectCommand) ==> *final(model) == *old(model) && action
            == Action::Nothing,
        old(model).app_state matches AppState::SelectCommand(s) ==> match message {
            None => *final(model) == *old(model) && action == Action::Nothing,
            Some(Message::Quit) => final(model).app_state == AppState::ShouldQuit && action
                == Action::Nothing,
            Some(Message::NoCommandSelected) => final(model).app_state matches AppState::QuitWithError(
                e,
            ) && e@ == "No command selected"@ && action == Action::Nothing,
            Some(Message::ExecuteCommand(c)) => {
                &&& action matches Action::StoreHistory { current_dir, command }
                &&& current_dir@ == s.current_dir@ && command@ == c@
                &&& match runner_index(s.runners@, c.runner_type, 0) {
                    Some(i) => final(model).app_state matches AppState::ExecuteCommand(e)
                        && e.executor == s.runners@[i] && e.command == c,
                    None => *final(model) == *old(model),
                }
            },
            Some(Message::OpenAdditionalArgumentsWindow) => {
                &&& action == Action::Nothing
                &&& final(model).app_state matches AppState::SelectCommand(t)
                &&& if s.additional_arguments_popup_state is None && selected_command(*s) is Some {
                    &&& t.additional_arguments_popup_state matches Some(p) && p.command@
                        == selected_command(*s)->0 && is_empty_text(string_views(p.arguments_lines@))
                    &&& *t == (SelectCommandState {
                        additional_arguments_popup_state: t.additional_arguments_popup_state,
                        ..*s
                    })
                } else {
                    *t == *s
                }
            },
            Some(Message::AdditionalArgumentsKeyInput(_)) => *final(model) == *old(model) && action
                == (if s.additional_arguments_popup_state is Some {
                Action::EditArguments
            } else {
                Action::Nothing
            }),
            Some(Message::CopyCommandToClipboard) => *final(model) == *old(model) && match selected_command(*s) {
                Some(c) => action matches Action::CopyToClipboard(text) && text@ == command_line(
                    c.runner_type,
                    c.args,
                ),
                None => action == Action::Nothing,
            },
            Some(m) => final(model).app_state matches AppState::SelectCommand(t) && *t
                == next_select_state(*s, m@) && action == (if m is SearchTextAreaKeyInput {
                Action::EditSearchText
            } else {
                Action::Nothing
            }),
        },
{
    let mut state = AppState::ShouldQuit;
    std::mem::swap(&mut state, &mut model.app_state);
    let mut s: SelectCommandState = match state {
        AppState::SelectCommand(boxed) => *boxed,
        other => {
            model.app_state = other;
            return Action::Nothing;
        },
    };
    let message = match message {
        Some(m) => m,
        None => {
            model.app_state = AppState::SelectCommand(Box::new(s));
            return Action::Nothing;
        },
    };
    match message {
        Message::SearchTextAreaKeyInput(key) => {
            match key.code {
                KeyCode::Char(_) | KeyCode::Backspace => s.reset_selection(),
                _ => {},
            }
            model.app_state = AppState::SelectCommand(Box::new(s));
            Action::EditSearchText
        },
        Message::ExecuteCommand(command) => {
            let action = Action::StoreHistory {
                current_dir: s.current_dir.clone(),
                command: command.duplicate(),
            };
            match s.runner_position(&command.runner_type) {
                Some(i) => {
                    let runner = s.runners.remove(i);
                    model.app_state = AppState::ExecuteCommand(ExecuteCommandState::new(runner, command));
                },
                None => {
                    model.app_state = AppState::SelectCommand(Box::new(s));
                },
            }
            action
        },
        Message::NextCommand => {
            s.next_command();
            model.app_state = AppState::SelectCommand(Box::new(s));
            Action::Nothing
        },
        Message::PreviousCommand => {
            s.previous_command();
            model.app_state = AppState::SelectCommand(Box::new(s));
            Action::Nothing
        },
        Message::MoveToNextPane => {
            s.move_to_next_pane();
            model.app_state = AppState::SelectCommand(Box::new(s));
            Action::Nothing
        },
        Message::NextHistory => {
            s.next_history();
            model.app_state = AppState::SelectCommand(Box::new(s));
            Action::Nothing
        },
        Message::PreviousHistory => {
            s.previous_history();
            model.app_state = AppState::SelectCommand(Box::new(s));
            Action::Nothing
        },
        Message::Quit => {
            model.app_state = AppState::ShouldQuit;
            Action::Nothing
        },
        Message::NoCommandSelected => {
            model.app_state = AppState::QuitWithError(String::from_str("No command selected"));
            Action::Nothing
        },
        Message::OpenAdditionalArgumentsWindow => {
            s.open_additional_arguments_popup();
            model.app_state = AppState::SelectCommand(Box::new(s));
            Action::Nothing
        },
        Message::CloseAdditionalArgumentsWindow => {
            s.close_additional_arguments_popup();
            model.app_state = AppState::SelectCommand(Box::new(s));
            Action::Nothing
        },
        Message::AdditionalArgumentsKeyInput(_) => {
            let open = s.is_additional_arguments_popup_opened();
            model.app_state = AppState::SelectCommand(Box::new(s));
            if open {
                Action::EditArguments
            } else {
                Action::Nothing
            }
        },
        Message::CopyCommandToClipboard => {
            let selected = s.get_selected_command();
            model.app_state = AppState::SelectCommand(Box::new(s));
            match selected {
                Some(c) => Action::CopyToClipboard(c.to_string()),
                None => Action::Nothing,
            }
        },
    }
}

// ---------------------------------------------------------------------------------------------
// Laws of the interface
// ---------------------------------------------------------------------------------------------
/// Whether each element ranks before every later one.
pub open spec fn is_ranked(s: Seq<(i64, int)>) -> bool {
    forall|i: int, j: int| 0 <= i < j < s.len() ==> ranks_before(s[i], s[j])
}

/// Whether no two elements have the same index.
pub open spec fn distinct_indices(s: Seq<(i64, int)>) -> bool {
    forall|i: int, j: int| 0 <= i < j < s.len() ==> s[i].1 != s[j].1
}

proof fn lemma_matches_in(cmds: Seq<CommandWithPreviewView>, pattern: Seq<char>, n: int)
    requires
        0 <= n <= cmds.len(),
    ensures
        forall|k: int| 0 <= k < matches_in(cmds, pattern, n).len() ==> 0 <= #[trigger] matches_in(cmds, pattern, n)[k].1 < n,
        forall|i: int, j: int| 0 <= i < j < matches_in(cmds, pattern, n).len() ==> matches_in(cmds, pattern, n)[i].1 < matches_in(cmds, pattern, n)[j].1,
        forall|k: int| 0 <= k < n && skim_score(shown(cmds[k]), pattern) is Some ==> #[trigger] matches_in(cmds, pattern, n).contains((skim_score(shown(cmds[k]), pattern)->0, k)),
        forall|x: (i64, int)| #[trigger] matches_in(cmds, pattern, n).contains(x) ==> 0 <= x.1 < n && skim_score(shown(cmds[x.1]), pattern) == Some(x.0),
    decreases n,
{
    if n > 0 {
        lemma_matches_in(cmds, pattern, n - 1);
        let earlier = matches_in(cmds, pattern, n - 1);
        match skim_score(shown(cmds[n - 1]), pattern) {
            Some(score) => {
                assert(matches_in(cmds, pattern, n) == earlier.push((score, n - 1)));
                assert forall|k: int| 0 <= k < n && skim_score(shown(cmds[k]), pattern) is Some implies #[trigger] matches_in(cmds, pattern, n).contains((skim_score(shown(cmds[k]), pattern)->0, k)) by {
                    if k < n - 1 {
                        assert(matches_in(cmds, pattern, n - 1).contains((skim_score(shown(cmds[k]), pattern)->0, k)));
                        let w = choose|w: int| 0 <= w < earlier.len() && earlier[w] == (skim_score(shown(cmds[k]), pattern)->0, k);
                        assert(earlier.push((score, n - 1))[w] == earlier[w]);
                    } else {
                        assert(earlier.push((score, n - 1))[earlier.len() as int] == (score, n - 1));
                    }
                }
                assert forall|x: (i64, int)| #[trigger] matches_in(cmds, pattern, n).contains(x) implies 0 <= x.1 < n && skim_score(shown(cmds[x.1]), pattern) == Some(x.0) by {
                    let w = choose|w: int| 0 <= w < matches_in(cmds, pattern, n).len() && matches_in(cmds, pattern, n)[w] == x;
                    if w < earlier.len() {
                        assert(earlier[w] == x);
                        assert(earlier.contains(x));
                    }
                }
            },
            None => {},
        }
    }
}

proof fn lemma_insert_ranked(s: Seq<(i64, int)>, x: (i64, int))
    requires
        is_ranked(s),
        forall|k: int| 0 <= k < s.len() ==> (#[trigger] s[k]).1 != x.1,
    ensures
        is_ranked(insert_ranked(s, x)),
        insert_ranked(s, x).len() == s.len() + 1,
        forall|y: (i64, int)| #[trigger] insert_ranked(s, x).contains(y) <==> (y == x || s.contains(y)),
    decreases s.len(),
{
    if s.len() == 0 {
        assert(insert_ranked(s, x) =~= seq![x]);
        assert forall|y: (i64, int)| #[trigger] insert_ranked(s, x).contains(y) <==> (y == x || s.contains(y)) by {
            if insert_ranked(s, x).contains(y) {
                assert(seq![x][0] == x);
            }
            if y == x {
                assert(seq![x][0] == x);
            }
        }
    } else if ranks_before(x, s[0]) {
        let r = seq![x] + s;
        assert(insert_ranked(s, x) == r);
        assert forall|i: int, j: int| 0 <= i < j < r.len() implies ranks_before(r[i], r[j]) by {
            if i == 0 {
                if j > 1 {
                    assert(ranks_before(s[0], s[j - 1]));
                }
            } else {
                assert(r[i] == s[i - 1] && r[j] == s[j - 1]);
            }
        }
        assert forall|y: (i64, int)| #[trigger] r.contains(y) <==> (y == x || s.contains(y)) by {
            if r.contains(y) {
                let w = choose|w: int| 0 <= w < r.len() && r[w] == y;
                if w > 0 {
                    assert(s[w - 1] == y);
                }
            }
            if s.contains(y) {
                let w = choose|w: int| 0 <= w < s.len() && s[w] == y;
                assert(r[w + 1] == y);
            }
            if y == x {
                assert(r[0] == x);
            }
        }
    } else {
        let rest = s.drop_first();
        assert forall|i: int, j: int| 0 <= i < j < rest.len() implies ranks_before(rest[i], rest[j]) by {
            assert(rest[i] == s[i + 1] && rest[j] == s[j + 1]);
        }
        assert forall|k: int| 0 <= k < rest.len() implies (#[trigger] rest[k]).1 != x.1 by {
            assert(rest[k] == s[k + 1]);
        }
        lemma_insert_ranked(rest, x);
        let tail = insert_ranked(rest, x);
        let r = seq![s[0]] + tail;
        assert(insert_ranked(s, x) == r);
        assert(s[0].1 != x.1);
        assert(ranks_before(s[0], x));
        assert forall|i: int, j: int| 0 <= i < j < r.len() implies ranks_before(r[i], r[j]) by {
            if i == 0 {
                assert(r[j] == tail[j - 1]);
                assert(tail.contains(tail[j - 1]));
                if tail[j - 1] != x {
                    assert(rest.contains(tail[j - 1]));
                    let w = choose|w: int| 0 <= w < rest.len() && rest[w] == tail[j - 1];
                    assert(rest[w] == s[w + 1]);
                    assert(ranks_before(s[0], s[w + 1]));
                }
            } else {
                assert(r[i] == tail[i - 1] && r[j] == tail[j - 1]);
            }
        }
        assert forall|y: (i64, int)| #[trigger] r.contains(y) <==> (y == x || s.contains(y)) by {
            if r.contains(y) {
                let w = choose|w: int| 0 <= w < r.len() && r[w] == y;
                if w == 0 {
                    assert(s[0] == y);
                } else {
                    assert(tail[w - 1] == y);
                    assert(tail.contains(y));
                    if y != x {
                        assert(rest.contains(y));
                        let v = choose|v: int| 0 <= v < rest.len() && rest[v] == y;
                        assert(s[v + 1] == y);
                    }
                }
            }
            if s.contains(y) {
                let w = choose|w: int| 0 <= w < s.len() && s[w] == y;
                if w == 0 {
                    assert(r[0] == y);
                } else {
                    assert(rest[w - 1] == y);
                    assert(rest.contains(y));
                    assert(tail.contains(y));
                    let v = choose|v: int| 0 <= v < tail.len() && tail[v] == y;
                    assert(r[v + 1] == y);
                }
            }
            if y == x {
                assert(tail.contains(x));
                let v = choose|v: int| 0 <= v < tail.len() && tail[v] == x;
                assert(r[v + 1] == x);
            }
        }
    }
}

proof fn lemma_ranked(m: Seq<(i64, int)>)
    requires
        distinct_indices(m),
    ensures
        is_ranked(ranked(m)),
        ranked(m).len() == m.len(),
        forall|y: (i64, int)| #[trigger] ranked(m).contains(y) <==> m.contains(y),
    decreases m.len(),
{
    if m.len() > 0 {
        let init = m.drop_last();
        assert forall|i: int, j: int| 0 <= i < j < init.len() implies init[i].1 != init[j].1 by {
            assert(init[i] == m[i] && init[j] == m[j]);
        }
        lemma_ranked(init);
        assert forall|k: int| 0 <= k < ranked(init).len() implies (#[trigger] ranked(init)[k]).1 != m.last().1 by {
            assert(ranked(init).contains(ranked(init)[k]));
            assert(init.contains(ranked(init)[k]));
            let w = choose|w: int| 0 <= w < init.len() && init[w] == ranked(init)[k];
            assert(m[w] == init[w]);
            assert(m[w].1 != m[m.len() - 1].1);
        }
        lemma_insert_ranked(ranked(init), m.last());
        assert forall|y: (i64, int)| #[trigger] ranked(m).contains(y) <==> m.contains(y) by {
            if m.contains(y) {
                let w = choose|w: int| 0 <= w < m.len() && m[w] == y;
                if w < m.len() - 1 {
                    assert(init[w] == y);
                    assert(init.contains(y));
                }
            }
            if init.contains(y) {
                let w = choose|w: int| 0 <= w < init.len() && init[w] == y;
                assert(m[w] == y);
            }
            if y == m.last() {
                assert(m[m.len() - 1] == y);
            }
        }
    }
}

/// With an empty search box, every command is listed, in the order the runners give them.
pub proof fn law_empty_search_lists_every_command(cmds: Seq<CommandWithPreviewView>, lines: Seq<Seq<char>>)
    requires
        is_empty_text(lines),
    ensures
        narrowed(cmds, lines) == cmds,
{
}

/// With text in the search box, the listed commands are exactly the commands that the fuzzy
/// matcher accepts, each once, best score first: each listed command is shown like its match
/// and is one of the commands.
pub proof fn law_narrowing_ranks_matches(cmds: Seq<CommandWithPreviewView>, lines: Seq<Seq<char>>)
    requires
        !is_empty_text(lines),
    ensures
        ({
            let q = search_query(lines);
            let m = matches_in(cmds, q, cmds.len() as int);
            let r = ranked(m);
            &&& narrowed(cmds, lines).len() == r.len()
            &&& r.len() == m.len()
            &&& forall|k: int| 0 <= k < cmds.len() && skim_score(shown(cmds[k]), q) is Some ==> #[trigger] r.contains((skim_score(shown(cmds[k]), q)->0, k))
            &&& forall|y: (i64, int)| #[trigger] r.contains(y) ==> 0 <= y.1 < cmds.len() && skim_score(shown(cmds[y.1]), q) == Some(y.0)
            &&& forall|i: int, j: int| 0 <= i < j < r.len() ==> r[i].0 >= r[j].0
            &&& forall|k: int| 0 <= k < r.len() ==> shown(#[trigger] narrowed(cmds, lines)[k]) == shown(cmds[r[k].1]) && cmds.contains(narrowed(cmds, lines)[k])
        }),
{
    let q = search_query(lines);
    let m = matches_in(cmds, q, cmds.len() as int);
    lemma_matches_in(cmds, q, cmds.len() as int);
    lemma_ranked(m);
    let r = ranked(m);
    assert forall|i: int, j: int| 0 <= i < j < r.len() implies r[i].0 >= r[j].0 by {
        assert(ranks_before(r[i], r[j]));
    }
    assert forall|k: int| 0 <= k < r.len() implies shown(#[trigger] narrowed(cmds, lines)[k]) == shown(cmds[r[k].1]) && cmds.contains(narrowed(cmds, lines)[k]) by {
        assert(r.contains(r[k]));
        lemma_last_shown_as(cmds, shown(cmds[r[k].1]), cmds.len() as int, r[k].1);
        match last_shown_as(cmds, shown(cmds[r[k].1]), cmds.len() as int) {
            Some(j) => {
                assert(cmds[j] == narrowed(cmds, lines)[k]);
            },
            None => {},
        }
    }
}

proof fn lemma_last_shown_as(cmds: Seq<CommandWithPreviewView>, line: Seq<char>, n: int, witness: int)
    requires
        0 <= witness < n <= cmds.len(),
        shown(cmds[witness]) == line,
    ensures
        last_shown_as(cmds, line, n) matches Some(j) && 0 <= j < n && shown(cmds[j]) == line,
    decreases n,
{
    if shown(cmds[n - 1]) != line {
        lemma_last_shown_as(cmds, line, n - 1, witness);
    }
}

/// Moving the selection keeps it within a list that is not empty: down always gives an index
/// of the list, and so does up from an index of the list; an empty list selects nothing.
pub proof fn law_selection_stays_in_the_list(selected: Option<usize>, n: usize)
    ensures
        n == 0 ==> next_index(selected, n as nat) is None && previous_index(selected, n as nat) is None,
        n > 0 ==> (next_index(selected, n as nat) matches Some(i) && i < n),
        n > 0 && (selected matches Some(i) ==> i < n) ==> (previous_index(selected, n as nat) matches Some(i) && i < n),
{
}

/// Moving down and then up comes back to the command that was selected.
pub proof fn law_down_then_up_returns(i: usize, n: usize)
    requires
        i < n,
    ensures
        previous_index(next_index(Some(i), n as nat), n as nat) == Some(i),
        next_index(previous_index(Some(i), n as nat), n as nat) == Some(i),
{
}

/// Moving to the next pane twice gives the focus back to the pane that had it.
pub proof fn law_next_pane_twice_returns(s: SelectCommandState)
    ensures
        next_select_state(next_select_state(s, MessageView::MoveToNextPane), MessageView::MoveToNextPane)
            == s,
{
}

/// Pressing Enter in the popup executes the selected command with the typed arguments
/// appended, so that they run and are stored together with it.
pub proof fn law_enter_in_popup_executes_with_arguments(s: SelectCommandState, key: KeyInput)
    requires
        s.additional_arguments_popup_state is Some,
        key.code == KeyCode::Enter,
    ensures
        key_message(s, key) == Some(
            MessageView::ExecuteCommand(
                with_arguments(
                    s.additional_arguments_popup_state->0.command@,
                    string_views(s.additional_arguments_popup_state->0.arguments_lines@),
                ),
            ),
        ),
{
}

/// An empty argument text leaves the command as it is.
pub proof fn law_no_arguments_no_change(command: HistoryCommandView, lines: Seq<Seq<char>>)
    requires
        typed_arguments(lines).len() == 0,
    ensures
        with_arguments(command, lines) == command,
{
}

/// With text in the search box, each command is matched as it is shown, `{runner} {args}`:
/// every listed command is one of the commands and the fuzzy matcher accepts its shown line,
/// every command whose shown line the matcher accepts is listed (by a command shown the same
/// way), and the listed commands come best score first. So typing a runner's name finds its
/// commands, and a make target and a pnpm script of the same name are both listed.
pub proof fn law_commands_are_matched_as_shown(cmds: Seq<CommandWithPreviewView>, lines: Seq<Seq<char>>)
    requires
        !is_empty_text(lines),
    ensures
        forall|k: int|
            0 <= k < narrowed(cmds, lines).len() ==> cmds.contains(#[trigger] narrowed(cmds, lines)[k])
                && skim_score(
                command_line(narrowed(cmds, lines)[k].runner_type, narrowed(cmds, lines)[k].args),
                search_query(lines),
            ) is Some,
        forall|j: int|
            0 <= j < cmds.len() && (#[trigger] skim_score(
                command_line(cmds[j].runner_type, cmds[j].args),
                search_query(lines),
            )) is Some ==> exists|k: int|
                0 <= k < narrowed(cmds, lines).len() && command_line(
                    (#[trigger] narrowed(cmds, lines)[k]).runner_type,
                    narrowed(cmds, lines)[k].args,
                ) == command_line(cmds[j].runner_type, cmds[j].args),
        forall|i: int, k: int|
            0 <= i < k < narrowed(cmds, lines).len() ==> (skim_score(
                command_line(narrowed(cmds, lines)[i].runner_type, narrowed(cmds, lines)[i].args),
                search_query(lines),
            )->0) >= (skim_score(
                command_line(narrowed(cmds, lines)[k].runner_type, narrowed(cmds, lines)[k].args),
                search_query(lines),
            )->0),
{
    let q = search_query(lines);
    let out = narrowed(cmds, lines);
    let m = matches_in(cmds, q, cmds.len() as int);
    let r = ranked(m);
    law_narrowing_ranks_matches(cmds, lines);
    assert forall|k: int| 0 <= k < out.len() implies cmds.contains(#[trigger] out[k]) && skim_score(
        command_line(out[k].runner_type, out[k].args),
        q,
    ) == Some(r[k].0) by {
        assert(r.contains(r[k]));
        assert(shown(out[k]) == shown(cmds[r[k].1]));
    }
    assert forall|j: int|
        0 <= j < cmds.len() && (#[trigger] skim_score(command_line(cmds[j].runner_type, cmds[j].args), q)) is Some
        implies exists|k: int|
        0 <= k < out.len() && command_line((#[trigger] out[k]).runner_type, out[k].args) == command_line(
            cmds[j].runner_type,
            cmds[j].args,
        ) by {
        let y = (skim_score(shown(cmds[j]), q)->0, j);
        assert(r.contains(y));
        let k = choose|k: int| 0 <= k < r.len() && r[k] == y;
        assert(shown(out[k]) == shown(cmds[r[k].1]));
    }
    assert forall|i: int, k: int| 0 <= i < k < out.len() implies (skim_score(
        command_line(out[i].runner_type, out[i].args),
        q,
    )->0) >= (skim_score(command_line(out[k].runner_type, out[k].args), q)->0) by {
        assert(r.contains(r[i]));
        assert(r.contains(r[k]));
        assert(shown(out[i]) == shown(cmds[r[i].1]));
        assert(shown(out[k]) == shown(cmds[r[k].1]));
    }
}

/// Without the popup, the arrow keys move the selection whatever the modifiers: in the main
/// pane Down asks for the next command and Up for the previous one, and the selection then moves
/// one place down or up the listed commands; in the history pane they move through the history.
pub proof fn law_arrow_keys_move_the_selection(s: SelectCommandState, key: KeyInput)
    requires
        s.additional_arguments_popup_state is None,
    ensures
        s.current_pane == CurrentPane::Main && key.code == KeyCode::Down ==> key_message(s, key) == Some(
            MessageView::NextCommand,
        ),
        s.current_pane == CurrentPane::Main && key.code == KeyCode::Up ==> key_message(s, key) == Some(
            MessageView::PreviousCommand,
        ),
        s.current_pane == CurrentPane::History && key.code == KeyCode::Down ==> key_message(s, key) == Some(
            MessageView::NextHistory,
        ),
        s.current_pane == CurrentPane::History && key.code == KeyCode::Up ==> key_message(s, key) == Some(
            MessageView::PreviousHistory,
        ),
        s.current_pane == CurrentPane::Main && key.code == KeyCode::Down && s.commands_list_state is Some
            && s.commands_list_state->0 + 1 < listed_commands(s).len() ==> next_select_state(
            s,
            key_message(s, key)->0,
        ).commands_list_state == Some((s.commands_list_state->0 + 1) as usize),
        s.current_pane == CurrentPane::Main && key.code == KeyCode::Up && s.commands_list_state is Some && 0
            < s.commands_list_state->0 < listed_commands(s).len() ==> next_select_state(
            s,
            key_message(s, key)->0,
        ).commands_list_state == Some((s.commands_list_state->0 - 1) as usize),
{
}

} // verus!
