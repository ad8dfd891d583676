//! The history of executed commands, per directory.
use super::command::CommandForExec;
use super::runner_type::RunnerType;
use vstd::prelude::*;

verus! {

/// The most commands that the history keeps for one directory.
pub const MAX_HISTORY_LENGTH: usize = 50;

/// Histories is the whole content of the history file: one [`History`] per directory.
#[derive(Clone, PartialEq, Debug)]
pub struct Histories {
    pub histories: Vec<History>,
}

/// The commands executed in one directory.
#[derive(Clone, PartialEq, Debug)]
pub struct History {
    pub path: String,
    /// The commands are sorted in descending order of execution time: the first element is the
    /// most recently executed command.
    pub commands: Vec<HistoryCommand>,
}

/// A command as the history stores it: the runner and the arguments only. Where a command is
/// defined (file and line) varies, so it is looked up again on every launch.
#[derive(PartialEq, Clone, Debug)]
pub struct HistoryCommand {
    pub runner_type: RunnerType,
    pub args: String,
}

/// The value of a [`HistoryCommand`] (and of a `CommandForExec`).
pub struct HistoryCommandView {
    pub runner_type: RunnerType,
    pub args: Seq<char>,
}

/// The value of a [`History`].
pub struct HistoryView {
    pub path: Seq<char>,
    pub commands: Seq<HistoryCommandView>,
}

impl View for HistoryCommand {
    type V = HistoryCommandView;

    open spec fn view(&self) -> HistoryCommandView {
        HistoryCommandView { runner_type: self.runner_type, args: self.args@ }
    }
}

/// The values of a sequence of history commands.
pub open spec fn history_command_views(s: Seq<HistoryCommand>) -> Seq<HistoryCommandView> {
    Seq::new(s.len(), |i: int| s[i]@)
}

impl View for History {
    type V = HistoryView;

    open spec fn view(&self) -> HistoryView {
        HistoryView { path: self.path@, commands: history_command_views(self.commands@) }
    }
}

/// The values of a sequence of histories.
pub open spec fn history_views(s: Seq<History>) -> Seq<HistoryView> {
    Seq::new(s.len(), |i: int| s[i]@)
}

impl View for Histories {
    type V = Seq<HistoryView>;

    open spec fn view(&self) -> Seq<HistoryView> {
        history_views(self.histories@)
    }
}

/// `s` without any element equal to `c`, the others in their order.
pub open spec fn remove_all(s: Seq<HistoryCommandView>, c: HistoryCommandView) -> Seq<
    HistoryCommandView,
>
    decreases s.len(),
{
    if s.len() == 0 {
        seq![]
    } else {
        let rest = remove_all(s.drop_last(), c);
        if s.last() == c {
            rest
        } else {
            rest.push(s.last())
        }
    }
}

/// The commands of a directory after `c` is executed there: `c` first, then the earlier commands
/// other than `c` in their order, at most [`MAX_HISTORY_LENGTH`] in all.
pub open spec fn commands_after_append(commands: Seq<HistoryCommandView>, c: HistoryCommandView) -> Seq<
    HistoryCommandView,
> {
    let all = seq![c] + remove_all(commands, c);
    if all.len() > MAX_HISTORY_LENGTH {
        all.take(MAX_HISTORY_LENGTH as int)
    } else {
        all
    }
}

/// The index of the first history of directory `dir`, if any.
pub open spec fn history_index_of(hs: Seq<HistoryView>, dir: Seq<char>) -> Option<int>
    decreases hs.len(),
{
    if hs.len() == 0 {
        None
    } else if hs[0].path == dir {
        Some(0)
    } else {
        match history_index_of(hs.drop_first(), dir) {
            Some(i) => Some(i + 1),
            None => None,
        }
    }
}

/// The histories after `c` is executed in `dir`: the first history of `dir` gets `c` appended
/// in place; without one, a new history holding only `c` is put first.
pub open spec fn histories_after_append(
    hs: Seq<HistoryView>,
    dir: Seq<char>,
    c: HistoryCommandView,
) -> Seq<HistoryView> {
    match history_index_of(hs, dir) {
        Some(i) => hs.update(
            i,
            HistoryView { path: dir, commands: commands_after_append(hs[i].commands, c) },
        ),
        None => seq![HistoryView { path: dir, commands: seq![c] }] + hs,
    }
}

pub proof fn lemma_history_index_of(hs: Seq<HistoryView>, dir: Seq<char>)
    ensures
        match history_index_of(hs, dir) {
            Some(i) => 0 <= i < hs.len() && hs[i].path == dir && forall|k: int|
                0 <= k < i ==> hs[k].path != dir,
            None => forall|k: int| 0 <= k < hs.len() ==> hs[k].path != dir,
        },
    decreases hs.len(),
{
    if hs.len() > 0 {
        lemma_history_index_of(hs.drop_first(), dir);
        if hs[0].path != dir {
            assert forall|k: int| 0 < k < hs.len() implies hs[k] == hs.drop_first()[k - 1] by {}
        }
    }
}

pub proof fn lemma_history_index_of_at(hs: Seq<HistoryView>, dir: Seq<char>, m: int)
    requires
        0 <= m <= hs.len(),
        forall|k: int| 0 <= k < m ==> hs[k].path != dir,
    ensures
        m == hs.len() ==> history_index_of(hs, dir) == None::<int>,
        m < hs.len() && hs[m].path == dir ==> history_index_of(hs, dir) == Some(m),
    decreases m,
{
    if m > 0 {
        lemma_history_index_of_at(hs.drop_first(), dir, m - 1);
    }
}

impl HistoryCommand {
    /// A copy with the same value.
    pub fn duplicate(&self) -> (r: Self)
        ensures
            r@ == self@,
    {
        HistoryCommand { runner_type: self.runner_type, args: self.args.clone() }
    }

    /// Whether two history commands are equal.
    pub fn same_as(&self, other: &Self) -> (r: bool)
        ensures
            r == (self@ == other@),
    {
        self.runner_type == other.runner_type && self.args == other.args
    }
}

impl vstd::std_specs::convert::FromSpecImpl<CommandForExec> for HistoryCommand {
    open spec fn obeys_from_spec() -> bool {
        true
    }

    open spec fn from_spec(command: CommandForExec) -> HistoryCommand {
        HistoryCommand { runner_type: command.runner_type, args: command.args }
    }
}

impl From<CommandForExec> for HistoryCommand {
    fn from(command: CommandForExec) -> (r: HistoryCommand) {
        HistoryCommand { runner_type: command.runner_type, args: command.args }
    }
}

impl History {
    /// A copy with the same value.
    pub fn duplicate(&self) -> (r: Self)
        ensures
            r@ == self@,
    {
        let mut commands: Vec<HistoryCommand> = Vec::new();
        let mut i: usize = 0;
        while i < self.commands.len()
            invariant
                i <= self.commands@.len(),
                history_command_views(commands@) == history_command_views(
                    self.commands@.take(i as int),
                ),
            decreases self.commands@.len() - i,
        {
            let ghost prev = commands@;
            commands.push(self.commands[i].duplicate());
            assert(history_command_views(commands@) =~= history_command_views(prev).push(
                self.commands@[i as int]@,
            ));
            assert(history_command_views(self.commands@.take(i + 1)) =~= history_command_views(
                self.commands@.take(i as int),
            ).push(self.commands@[i as int]@));
            i += 1;
        }
        assert(self.commands@.take(self.commands@.len() as int) =~= self.commands@);
        History { path: self.path.clone(), commands }
    }

    /// The history after `executed_command` is executed: it moves to the head, any earlier
    /// occurrence is removed, and only the latest [`MAX_HISTORY_LENGTH`] commands are kept.
    pub fn append(&self, executed_command: CommandForExec) -> (r: Self)
        ensures
            r@ == (HistoryView {
                path: self.path@,
                commands: commands_after_append(self@.commands, executed_command@),
            }),
    {
        let new_command = HistoryCommand::from(executed_command);
        let ghost c = new_command@;
        let ghost old_commands = self@.commands;
        let mut updated_commands: Vec<HistoryCommand> = Vec::new();
        updated_commands.push(new_command.duplicate());
        let mut i: usize = 0;
        while i < self.commands.len()
            invariant
                i <= self.commands@.len(),
                old_commands == history_command_views(self.commands@),
                new_command@ == c,
                history_command_views(updated_commands@) == seq![c] + remove_all(
                    old_commands.take(i as int),
                    c,
                ),
            decreases self.commands@.len() - i,
        {
            let ghost before = history_command_views(updated_commands@);
            assert(old_commands.take(i + 1).drop_last() =~= old_commands.take(i as int));
            assert(old_commands.take(i + 1).last() == self.commands@[i as int]@);
            let ghost x = old_commands[i as int];
            assert(x == self.commands@[i as int]@);
            assert(remove_all(old_commands.take(i + 1), c) == (if x == c {
                remove_all(old_commands.take(i as int), c)
            } else {
                remove_all(old_commands.take(i as int), c).push(x)
            }));
            if !self.commands[i].same_as(&new_command) {
                updated_commands.push(self.commands[i].duplicate());
                assert(history_command_views(updated_commands@) =~= before.push(x));
                assert(before.push(x) =~= seq![c] + remove_all(old_commands.take(i as int), c).push(
                    x,
                ));
            } else {
                assert(x == c);
            }
            i += 1;
        }
        assert(old_commands.take(self.commands@.len() as int) =~= old_commands);
        let ghost full = history_command_views(updated_commands@);
        if MAX_HISTORY_LENGTH < updated_commands.len() {
            updated_commands.truncate(MAX_HISTORY_LENGTH);
            assert(history_command_views(updated_commands@) =~= full.take(
                MAX_HISTORY_LENGTH as int,
            ));
        }
        History { path: self.path.clone(), commands: updated_commands }
    }
}

impl Histories {
    /// The histories after `command` is executed in `current_dir`. The history of `current_dir`
    /// is updated in place by [`History::append`]; if there is none, a new one is put first.
    pub fn append(&self, current_dir: String, command: CommandForExec) -> (r: Self)
        ensures
            r@ == histories_after_append(self@, current_dir@, command@),
    {
        let ghost hs = self@;
        let mut i: usize = 0;
        while i < self.histories.len() && !(self.histories[i].path == current_dir)
            invariant
                i <= self.histories@.len(),
                hs == self@,
                forall|k: int| 0 <= k < i ==> hs[k].path != current_dir@,
            decreases self.histories@.len() - i,
        {
            i += 1;
        }
        proof {
            lemma_history_index_of_at(hs, current_dir@, i as int);
        }
        let mut new_histories: Vec<History> = Vec::new();
        let mut k: usize = 0;
        if i < self.histories.len() {
            let new_history = self.histories[i].append(command);
            while k < self.histories.len()
                invariant
                    k <= self.histories@.len(),
                    i < self.histories@.len(),
                    hs == self@,
                    history_index_of(hs, current_dir@) == Some(i as int),
                    hs[i as int].path == current_dir@,
                    new_history@ == (HistoryView {
                        path: current_dir@,
                        commands: commands_after_append(hs[i as int].commands, command@),
                    }),
                    history_views(new_histories@) == histories_after_append(
                        hs,
                        current_dir@,
                        command@,
                    ).take(k as int),
                decreases self.histories@.len() - k,
            {
                let ghost h = histories_after_append(hs, current_dir@, command@);
                let ghost prev = history_views(new_histories@);
                if k == i {
                    new_histories.push(new_history.duplicate());
                } else {
                    new_histories.push(self.histories[k].duplicate());
                }
                assert(history_views(new_histories@) =~= prev.push(h[k as int]));
                assert(h.take(k + 1) =~= h.take(k as int).push(h[k as int]));
                k += 1;
            }
            assert(histories_after_append(hs, current_dir@, command@).take(
                self.histories@.len() as int,
            ) =~= histories_after_append(hs, current_dir@, command@));
        } else {
            let ghost h = histories_after_append(hs, current_dir@, command@);
            let mut commands: Vec<HistoryCommand> = Vec::new();
            commands.push(HistoryCommand::from(command));
            assert(history_command_views(commands@) =~= seq![command@]);
            new_histories.push(History { path: current_dir, commands });
            assert(history_views(new_histories@) =~= h.take(1));
            while k < self.histories.len()
                invariant
                    k <= self.histories@.len(),
                    hs == self@,
                    new_histories@.len() == k + 1,
                    history_views(new_histories@) == histories_after_append(
                        hs,
                        current_dir@,
                        command@,
                    ).take(k + 1),
                    history_index_of(hs, current_dir@) == None::<int>,
                decreases self.histories@.len() - k,
            {
                let ghost h = histories_after_append(hs, current_dir@, command@);
                let ghost prev = history_views(new_histories@);
                new_histories.push(self.histories[k].duplicate());
                assert(history_views(new_histories@) =~= prev.push(h[k + 1]));
                assert(h.take(k + 2) =~= h.take(k + 1).push(h[k + 1]));
                k += 1;
            }
            assert(histories_after_append(hs, current_dir@, command@).take(
                self.histories@.len() + 1 as int,
            ) =~= histories_after_append(hs, current_dir@, command@));
        }
        Histories { histories: new_histories }
    }
}

// ---------------------------------------------------------------------------------------------
// Laws of the history
// ---------------------------------------------------------------------------------------------
/// No command occurs twice.
pub open spec fn no_duplicates(s: Seq<HistoryCommandView>) -> bool {
    forall|i: int, j: int| 0 <= i < s.len() && 0 <= j < s.len() && i != j ==> s[i] != s[j]
}

/// The history of directory `dir`, if there is one.
pub open spec fn history_of(hs: Seq<HistoryView>, dir: Seq<char>) -> Option<HistoryView> {
    match history_index_of(hs, dir) {
        Some(i) => Some(hs[i]),
        None => None,
    }
}

proof fn lemma_remove_all(s: Seq<HistoryCommandView>, c: HistoryCommandView)
    ensures
        !remove_all(s, c).contains(c),
        remove_all(s, c).len() <= s.len(),
        forall|x: HistoryCommandView| remove_all(s, c).contains(x) ==> s.contains(x),
        !s.contains(c) ==> remove_all(s, c) == s,
        no_duplicates(s) ==> no_duplicates(remove_all(s, c)),
    decreases s.len(),
{
    if s.len() > 0 {
        let t = s.drop_last();
        lemma_remove_all(t, c);
        let r = remove_all(t, c);
        assert forall|x: HistoryCommandView| t.contains(x) implies s.contains(x) by {
            let k = choose|k: int| 0 <= k < t.len() && t[k] == x;
            assert(s[k] == x);
        }
        if s.last() != c {
            assert forall|x: HistoryCommandView| r.push(s.last()).contains(x) implies s.contains(
                x,
            ) by {
                let k = choose|k: int| 0 <= k < r.len() + 1 && r.push(s.last())[k] == x;
                if k == r.len() {
                    assert(s[s.len() - 1] == x);
                } else {
                    assert(r.contains(x));
                }
            }
            assert(!r.push(s.last()).contains(c)) by {
                if r.push(s.last()).contains(c) {
                    let k = choose|k: int| 0 <= k < r.len() + 1 && r.push(s.last())[k] == c;
                    if k < r.len() {
                        assert(r.contains(c));
                    }
                }
            }
            if !s.contains(c) {
                assert(!t.contains(c)) by {
                    if t.contains(c) {
                        let k = choose|k: int| 0 <= k < t.len() && t[k] == c;
                        assert(s[k] == c);
                    }
                }
                assert(s =~= t.push(s.last()));
            }
            if no_duplicates(s) {
                assert(no_duplicates(t)) by {
                    assert forall|i: int, j: int|
                        0 <= i < t.len() && 0 <= j < t.len() && i != j implies t[i] != t[j] by {
                        assert(s[i] == t[i] && s[j] == t[j]);
                    }
                }
                assert(!r.contains(s.last())) by {
                    if r.contains(s.last()) {
                        assert(t.contains(s.last()));
                        let k = choose|k: int| 0 <= k < t.len() && t[k] == s.last();
                        assert(s[k] == s[s.len() - 1]);
                    }
                }
                let rp = r.push(s.last());
                assert forall|i: int, j: int|
                    0 <= i < rp.len() && 0 <= j < rp.len() && i != j implies rp[i] != rp[j] by {
                    if i == r.len() {
                        assert(r.contains(rp[j]));
                    } else if j == r.len() {
                        assert(r.contains(rp[i]));
                    }
                }
            }
        } else {
            assert(s.contains(c)) by {
                assert(s[s.len() - 1] == c);
            }
            if no_duplicates(s) {
                assert(no_duplicates(t)) by {
                    assert forall|i: int, j: int|
                        0 <= i < t.len() && 0 <= j < t.len() && i != j implies t[i] != t[j] by {
                        assert(s[i] == t[i] && s[j] == t[j]);
                    }
                }
            }
        }
    }
}

proof fn lemma_remove_all_after_prepend(t: Seq<HistoryCommandView>, c: HistoryCommandView)
    ensures
        remove_all(seq![c] + t, c) == remove_all(t, c),
    decreases t.len(),
{
    if t.len() == 0 {
        assert((seq![c] + t).drop_last() =~= Seq::<HistoryCommandView>::empty());
        assert(remove_all((seq![c] + t).drop_last(), c) =~= Seq::<HistoryCommandView>::empty());
        assert((seq![c] + t).last() == c);
        assert(remove_all(seq![c] + t, c) =~= Seq::<HistoryCommandView>::empty());
    } else {
        lemma_remove_all_after_prepend(t.drop_last(), c);
        assert((seq![c] + t).drop_last() =~= seq![c] + t.drop_last());
        assert((seq![c] + t).last() == t.last());
    }
}

proof fn lemma_commands_after_append(s: Seq<HistoryCommandView>, c: HistoryCommandView)
    ensures
        commands_after_append(s, c).len() >= 1,
        commands_after_append(s, c)[0] == c,
        commands_after_append(s, c).len() <= MAX_HISTORY_LENGTH,
        forall|k: int|
            0 < k < commands_after_append(s, c).len() ==> commands_after_append(s, c)[k] != c,
        no_duplicates(s) ==> no_duplicates(commands_after_append(s, c)),
        commands_after_append(s, c) =~= seq![c] + commands_after_append(s, c).skip(1),
        !commands_after_append(s, c).skip(1).contains(c),
{
    lemma_remove_all(s, c);
    let r = remove_all(s, c);
    let all = seq![c] + r;
    let res = commands_after_append(s, c);
    assert(res.skip(1) =~= r.take(res.len() - 1));
    assert forall|k: int| 0 < k < res.len() implies res[k] != c by {
        assert(res[k] == r[k - 1]);
    }
    assert(!res.skip(1).contains(c)) by {
        if res.skip(1).contains(c) {
            let k = choose|k: int| 0 <= k < res.skip(1).len() && res.skip(1)[k] == c;
            assert(res[k + 1] == c);
        }
    }
    if no_duplicates(s) {
        assert forall|i: int, j: int|
            0 <= i < res.len() && 0 <= j < res.len() && i != j implies res[i] != res[j] by {
            if i > 0 && j > 0 {
                assert(res[i] == r[i - 1] && res[j] == r[j - 1]);
            }
        }
    }
}

/// Executing a command puts it at the head of its directory's history.
pub proof fn law_executed_command_comes_first(
    commands: Seq<HistoryCommandView>,
    c: HistoryCommandView,
)
    ensures
        commands_after_append(commands, c)[0] == c,
        commands_after_append(commands, c).len() >= 1,
{
    lemma_commands_after_append(commands, c);
}

/// The executed command occurs only once in the history afterwards, and a history without
/// duplicates stays without duplicates.
pub proof fn law_no_duplicates(commands: Seq<HistoryCommandView>, c: HistoryCommandView)
    ensures
        forall|k: int|
            0 < k < commands_after_append(commands, c).len() ==> commands_after_append(
                commands,
                c,
            )[k] != c,
        no_duplicates(commands) ==> no_duplicates(commands_after_append(commands, c)),
{
    lemma_commands_after_append(commands, c);
}

/// A directory's history never holds more than [`MAX_HISTORY_LENGTH`] commands.
pub proof fn law_history_is_bounded(commands: Seq<HistoryCommandView>, c: HistoryCommandView)
    ensures
        commands_after_append(commands, c).len() <= MAX_HISTORY_LENGTH,
{
    lemma_commands_after_append(commands, c);
}

/// Executing the same command twice in a row leaves the history as executing it once.
pub proof fn law_append_is_idempotent(commands: Seq<HistoryCommandView>, c: HistoryCommandView)
    ensures
        commands_after_append(commands_after_append(commands, c), c) == commands_after_append(
            commands,
            c,
        ),
{
    lemma_commands_after_append(commands, c);
    let once = commands_after_append(commands, c);
    let rest = once.skip(1);
    lemma_remove_all_after_prepend(rest, c);
    lemma_remove_all(rest, c);
    assert(once =~= seq![c] + rest);
    assert(remove_all(once, c) == rest);
    assert(seq![c] + rest =~= once);
}

/// The commands that were executed earlier keep their relative order: the history after the
/// append is the executed command followed by the earlier commands other than it, cut to
/// [`MAX_HISTORY_LENGTH`].
pub proof fn law_earlier_commands_keep_their_order(
    commands: Seq<HistoryCommandView>,
    c: HistoryCommandView,
)
    ensures
        commands_after_append(commands, c).skip(1) == remove_all(commands, c).take(
            commands_after_append(commands, c).len() - 1,
        ),
{
    let res = commands_after_append(commands, c);
    assert(res.skip(1) =~= remove_all(commands, c).take(res.len() - 1));
}

/// After a command is executed in `dir`, the history of `dir` starts with it.
pub proof fn law_latest_command_of_directory(
    hs: Seq<HistoryView>,
    dir: Seq<char>,
    c: HistoryCommandView,
)
    ensures
        history_of(histories_after_append(hs, dir, c), dir) matches Some(h) && h.path == dir
            && h.commands.len() >= 1 && h.commands[0] == c,
{
    lemma_history_index_of(hs, dir);
    let r = histories_after_append(hs, dir, c);
    match history_index_of(hs, dir) {
        Some(i) => {
            lemma_commands_after_append(hs[i].commands, c);
            assert forall|k: int| 0 <= k < i implies r[k].path != dir by {
                assert(r[k] == hs[k]);
            }
            lemma_history_index_of_at(r, dir, i);
        },
        None => {
            lemma_history_index_of_at(r, dir, 0);
        },
    }
}

/// Executing a command in one directory leaves the history of every other directory as it was.
pub proof fn law_other_directories_unchanged(
    hs: Seq<HistoryView>,
    dir: Seq<char>,
    other: Seq<char>,
    c: HistoryCommandView,
)
    requires
        other != dir,
    ensures
        history_of(histories_after_append(hs, dir, c), other) == history_of(hs, other),
{
    lemma_history_index_of(hs, dir);
    lemma_history_index_of(hs, other);
    let r = histories_after_append(hs, dir, c);
    match history_index_of(hs, dir) {
        Some(i) => {
            assert(r.len() == hs.len());
            assert forall|k: int| 0 <= k < hs.len() implies r[k].path == hs[k].path by {}
            assert forall|k: int| 0 <= k < hs.len() && k != i implies r[k] == hs[k] by {}
            match history_index_of(hs, other) {
                Some(j) => {
                    assert(j != i);
                    lemma_history_index_of_at(r, other, j);
                },
                None => {
                    lemma_history_index_of_at(r, other, hs.len() as int);
                },
            }
        },
        None => {
            assert forall|k: int| 0 <= k < hs.len() implies r[k + 1] == hs[k] by {}
            match history_index_of(hs, other) {
                Some(j) => {
                    lemma_history_index_of_at(r, other, j + 1);
                },
                None => {
                    lemma_history_index_of_at(r, other, r.len() as int);
                },
            }
        },
    }
}

} // verus!
