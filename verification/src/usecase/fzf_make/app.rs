//! The make-only interface: the targets of a makefile, narrowed by the text typed in
//! a search box, and a selection that moves over them.
//!
//! The interface runs as a loop outside this module: it reads a key, asks [`handle_event`]
//! for the message and hands it to [`update`]. A key typed into the search box is applied to
//! the text box outside the model, whose first line is then recorded with
//! [`Model::set_key_input`].
use crate::model::make::string_views;
use crate::models::makefile::{makefile_targets, Makefile};
use crate::text::{string_of, to_chars};
use crate::usecase::tui::app::{
    fuzzy_score, pair_views, rank_matches, ranked, remove_whitespace, skim_score, without_ws,
    KeyCode, KeyInput,
};
use vstd::prelude::*;

verus! {

/// The pane that has the focus.
#[derive(Clone, Copy, PartialEq, Eq, Structural, Debug)]
pub enum CurrentPane {
    Main,
    History,
}

impl CurrentPane {
    pub fn is_main(&self) -> (r: bool)
        ensures
            r == (*self == CurrentPane::Main),
    {
        match self {
            CurrentPane::Main => true,
            CurrentPane::History => false,
        }
    }

    pub fn is_history(&self) -> (r: bool)
        ensures
            r == (*self == CurrentPane::History),
    {
        match self {
            CurrentPane::Main => false,
            CurrentPane::History => true,
        }
    }
}

/// The score and the index of each of the first `n` targets that match `pattern`, in order.
pub open spec fn target_matches(targets: Seq<Seq<char>>, pattern: Seq<char>, n: int) -> Seq<(i64, int)>
    decreases n,
{
    if n <= 0 {
        seq![]
    } else {
        let earlier = target_matches(targets, pattern, n - 1);
        match skim_score(targets[n - 1], pattern) {
            Some(score) => earlier.push((score, n - 1)),
            None => earlier,
        }
    }
}

/// The targets that remain for the typed text: all of them when nothing is typed; otherwise
/// those that the fuzzy matcher accepts for the text without its whitespace, higher scores
/// first and later targets first among equal scores.
pub open spec fn narrowed_targets(targets: Seq<Seq<char>>, key_input: Seq<char>) -> Seq<Seq<char>> {
    if key_input.len() == 0 {
        targets
    } else {
        let r = ranked(target_matches(targets, without_ws(key_input), targets.len() as int));
        Seq::new(r.len(), |k: int| targets[r[k].1])
    }
}

/// The row below the selected one, back to the first after the last; the first row when none
/// is selected. `n` is the number of rows.
pub open spec fn next_row(selected: Option<usize>, n: nat) -> Option<usize> {
    match selected {
        Some(i) => if n - 1 <= i {
            Some(0usize)
        } else {
            Some((i + 1) as usize)
        },
        None => Some(0usize),
    }
}

/// The row above the selected one, back to the last before the first; the first row when
/// none is selected.
pub open spec fn previous_row(selected: Option<usize>, n: nat) -> Option<usize> {
    match selected {
        Some(i) => if i == 0 {
            Some((n - 1) as usize)
        } else {
            Some((i - 1) as usize)
        },
        None => Some(0usize),
    }
}

/// Whether the selection can move over `n` rows: a selected row needs at least one row.
pub open spec fn can_move(selected: Option<usize>, n: nat) -> bool {
    selected is Some ==> n > 0
}

pub(crate) fn next_row_of(selected: Option<usize>, n: usize) -> (r: Option<usize>)
    requires
        can_move(selected, n as nat),
    ensures
        r == next_row(selected, n as nat),
{
    match selected {
        Some(i) => if n - 1 <= i {
            Some(0)
        } else {
            Some(i + 1)
        },
        None => Some(0),
    }
}

pub(crate) fn previous_row_of(selected: Option<usize>, n: usize) -> (r: Option<usize>)
    requires
        can_move(selected, n as nat),
    ensures
        r == previous_row(selected, n as nat),
{
    match selected {
        Some(i) => if i == 0 {
            Some(n - 1)
        } else {
            Some(i - 1)
        },
        None => Some(0),
    }
}

/// The state of the interface: the focused pane, the typed text, the makefile, whether to
/// quit, the selected row and the target chosen to run.
pub struct Model {
    pub current_pane: CurrentPane,
    pub key_input: String,
    pub makefile: Makefile,
    pub should_quit: bool,
    pub targets_list_state: Option<usize>,
    pub selected_target: Option<String>,
}

/// The targets listed for a model.
pub open spec fn listed_targets(m: Model) -> Seq<Seq<char>> {
    narrowed_targets(makefile_targets(m.makefile), m.key_input@)
}

impl Model {
    /// The interface for a makefile: the main pane, nothing typed, the first row selected.
    pub fn new(makefile: Makefile) -> (r: Model)
        ensures
            r.current_pane == CurrentPane::Main,
            r.key_input@.len() == 0,
            r.makefile == makefile,
            !r.should_quit,
            r.targets_list_state == Some(0usize),
            r.selected_target is None,
    {
        Model {
            current_pane: CurrentPane::Main,
            key_input: String::new(),
            makefile,
            should_quit: false,
            targets_list_state: Some(0),
            selected_target: None,
        }
    }

    /// The typed text followed by `key_input`.
    pub fn update_key_input(&self, key_input: String) -> (r: String)
        ensures
            r@ == self.key_input@ + key_input@,
    {
        let mut chars = to_chars(self.key_input.as_str());
        let more = to_chars(key_input.as_str());
        let mut i: usize = 0;
        let ghost start = chars@;
        while i < more.len()
            invariant
                i <= more@.len(),
                chars@ == start + more@.take(i as int),
            decreases more@.len() - i,
        {
            chars.push(more[i]);
            assert(more@.take(i + 1) =~= more@.take(i as int).push(more@[i as int]));
            i += 1;
        }
        assert(more@.take(more@.len() as int) =~= more@);
        string_of(chars.as_slice())
    }

    /// The targets that remain for the typed text.
    pub fn narrow_down_targets(&self) -> (r: Vec<String>)
        ensures
            string_views(r@) == listed_targets(*self),
    {
        let targets = self.makefile.to_targets_string();
        let ghost tv = string_views(targets@);
        let typed = to_chars(self.key_input.as_str());
        if typed.len() == 0 {
            return targets;
        }
        let query = string_of(remove_whitespace(&typed).as_slice());
        let ghost q = without_ws(self.key_input@);
        let mut matched: Vec<(i64, usize)> = Vec::new();
        let mut i: usize = 0;
        while i < targets.len()
            invariant
                tv == string_views(targets@),
                query@ == q,
                i <= tv.len(),
                pair_views(matched@) == target_matches(tv, q, i as int),
                forall|k: int| 0 <= k < matched@.len() ==> (#[trigger] matched@[k]).1 < i,
            decreases tv.len() - i,
        {
            match fuzzy_score(targets[i].as_str(), query.as_str()) {
                Some(score) => {
                    let ghost prev = pair_views(matched@);
                    matched.push((score, i));
                    assert(pair_views(matched@) =~= prev.push((score, i as int)));
                },
                None => {},
            }
            i += 1;
        }
        let order = rank_matches(&matched, targets.len());
        let ghost ord = pair_views(order@);
        let mut result: Vec<String> = Vec::new();
        let mut k: usize = 0;
        while k < order.len()
            invariant
                tv == string_views(targets@),
                ord == pair_views(order@),
                ord == ranked(target_matches(tv, q, tv.len() as int)),
                k <= ord.len(),
                forall|t: int| 0 <= t < order@.len() ==> (#[trigger] order@[t]).1 < tv.len(),
                string_views(result@) == Seq::new(k as nat, |t: int| tv[ord[t].1]),
            decreases ord.len() - k,
        {
            let idx = order[k].1;
            assert(ord[k as int] == (order@[k as int].0, order@[k as int].1 as int));
            let ghost prev = string_views(result@);
            let chosen = targets[idx].clone();
            assert(chosen@ == tv[ord[k as int].1]);
            result.push(chosen);
            assert(string_views(result@) =~= prev.push(chosen@));
            assert(string_views(result@) =~= Seq::new((k + 1) as nat, |t: int| tv[ord[t].1]));
            k += 1;
        }
        result
    }

    /// Moves the selection down, wrapping around.
    pub fn next(&mut self)
        requires
            can_move(old(self).targets_list_state, listed_targets(*old(self)).len()),
        ensures
            final(self).targets_list_state == next_row(
                old(self).targets_list_state,
                listed_targets(*old(self)).len(),
            ),
            final(self).current_pane == old(self).current_pane,
            final(self).key_input == old(self).key_input,
            final(self).makefile == old(self).makefile,
            final(self).should_quit == old(self).should_quit,
            final(self).selected_target == old(self).selected_target,
    {
        let n = self.narrow_down_targets().len();
        self.targets_list_state = next_row_of(self.targets_list_state, n);
    }

    /// Moves the selection up, wrapping around.
    pub fn previous(&mut self)
        requires
            can_move(old(self).targets_list_state, listed_targets(*old(self)).len()),
        ensures
            final(self).targets_list_state == previous_row(
                old(self).targets_list_state,
                listed_targets(*old(self)).len(),
            ),
            final(self).current_pane == old(self).current_pane,
            final(self).key_input == old(self).key_input,
            final(self).makefile == old(self).makefile,
            final(self).should_quit == old(self).should_quit,
            final(self).selected_target == old(self).selected_target,
    {
        let n = self.narrow_down_targets().len();
        self.targets_list_state = previous_row_of(self.targets_list_state, n);
    }

    /// Selects the first row again.
    pub fn reset_select(&mut self)
        ensures
            final(self).targets_list_state == Some(0usize),
            final(self).current_pane == old(self).current_pane,
            final(self).key_input == old(self).key_input,
            final(self).makefile == old(self).makefile,
            final(self).should_quit == old(self).should_quit,
            final(self).selected_target == old(self).selected_target,
    {
        self.targets_list_state = Some(0);
    }

    /// Records the text of the search box: the first line of the text box.
    pub fn set_key_input(&mut self, first_line: String)
        ensures
            final(self).key_input@ == first_line@,
            final(self).targets_list_state == old(self).targets_list_state,
            final(self).current_pane == old(self).current_pane,
            final(self).makefile == old(self).makefile,
            final(self).should_quit == old(self).should_quit,
            final(self).selected_target == old(self).selected_target,
    {
        self.key_input = first_line;
    }
}

/// What a key press asks for.
#[derive(Debug, PartialEq)]
pub enum Message {
    MoveToNextPane,
    Quit,
    SearchTextAreaKeyInput(KeyInput),
    Next,
    Previous,
    ExecuteTarget,
}

/// The message for a key: Tab moves to the other pane and Esc quits anywhere; in the main
/// pane Down and Up move the selection, Enter runs the selected target and every other key
/// goes to the search box; in the history pane `q` quits.
pub open spec fn message_for(pane: CurrentPane, key: KeyInput) -> Option<Message> {
    match key.code {
        KeyCode::Tab => Some(Message::MoveToNextPane),
        KeyCode::Esc => Some(Message::Quit),
        _ => match pane {
            CurrentPane::Main => match key.code {
                KeyCode::Down => Some(Message::Next),
                KeyCode::Up => Some(Message::Previous),
                KeyCode::Enter => Some(Message::ExecuteTarget),
                _ => Some(Message::SearchTextAreaKeyInput(key)),
            },
            CurrentPane::History => match key.code {
                KeyCode::Char(c) => if c == 'q' {
                    Some(Message::Quit)
                } else {
                    None
                },
                _ => None,
            },
        },
    }
}

/// The message that a key press gives in the model's state.
pub fn handle_event(model: &Model, key: KeyInput) -> (r: Option<Message>)
    ensures
        r == message_for(model.current_pane, key),
{
    match key.code {
        KeyCode::Tab => Some(Message::MoveToNextPane),
        KeyCode::Esc => Some(Message::Quit),
        _ => match model.current_pane {
            CurrentPane::Main => match key.code {
                KeyCode::Down => Some(Message::Next),
                KeyCode::Up => Some(Message::Previous),
                KeyCode::Enter => Some(Message::ExecuteTarget),
                _ => Some(Message::SearchTextAreaKeyInput(key)),
            },
            CurrentPane::History => match key.code {
                KeyCode::Char(c) => if c == 'q' {
                    Some(Message::Quit)
                } else {
                    None
                },
                _ => None,
            },
        },
    }
}

/// What is left to do outside the model after an update.
#[derive(Debug, PartialEq, Eq, Structural)]
pub enum Action {
    Nothing,
    /// Apply the key to the search box, then record its first line with
    /// [`Model::set_key_input`].
    EditSearchText,
}

/// Whether a message can be applied without leaving the list: moving the selection needs a
/// row, and running the selected target needs the selected row to be listed.
pub open spec fn message_fits(m: Model, message: Option<Message>) -> bool {
    match message {
        Some(Message::Next) => can_move(m.targets_list_state, listed_targets(m).len()),
        Some(Message::Previous) => can_move(m.targets_list_state, listed_targets(m).len()),
        Some(Message::ExecuteTarget) => match m.targets_list_state {
            Some(i) => i < listed_targets(m).len(),
            None => true,
        },
        _ => true,
    }
}

/// How a message changes the model, and what is left to do outside it.
pub open spec fn update_effect(before: Model, message: Option<Message>, after: Model, action: Action) -> bool {
    match message {
        None => after == before && action == Action::Nothing,
        Some(Message::MoveToNextPane) => after.current_pane == (match before.current_pane {
            CurrentPane::Main => CurrentPane::History,
            CurrentPane::History => CurrentPane::Main,
        }) && after.key_input == before.key_input
            && after.makefile == before.makefile
            && after.should_quit == before.should_quit
            && after.targets_list_state == before.targets_list_state
            && after.selected_target == before.selected_target
            && action == Action::Nothing,
        Some(Message::Quit) => after.should_quit && after.current_pane == before.current_pane && after.key_input == before.key_input
            && after.makefile == before.makefile
            && after.targets_list_state == before.targets_list_state
            && after.selected_target == before.selected_target
            && action == Action::Nothing,
        Some(Message::Next) => after.targets_list_state == next_row(
            before.targets_list_state,
            listed_targets(before).len(),
        ) && after.current_pane == before.current_pane
            && after.key_input == before.key_input
            && after.makefile == before.makefile
            && after.should_quit == before.should_quit
            && after.selected_target == before.selected_target
            && action == Action::Nothing,
        Some(Message::Previous) => after.targets_list_state == previous_row(
            before.targets_list_state,
            listed_targets(before).len(),
        ) && after.current_pane == before.current_pane
            && after.key_input == before.key_input
            && after.makefile == before.makefile
            && after.should_quit == before.should_quit
            && after.selected_target == before.selected_target
            && action == Action::Nothing,
        Some(Message::ExecuteTarget) => (match before.targets_list_state {
            Some(i) => after.selected_target matches Some(t) && t@ == listed_targets(
                before,
            )[i as int],
            None => after.selected_target is None,
        }) && after.current_pane == before.current_pane
            && after.key_input == before.key_input
            && after.makefile == before.makefile
            && after.should_quit == before.should_quit
            && after.targets_list_state == before.targets_list_state
            && action == Action::Nothing,
        Some(Message::SearchTextAreaKeyInput(key)) => (match key.code {
            KeyCode::Char(c) => after.key_input@ == before.key_input@.push(c)
                && after.targets_list_state == Some(0usize),
            _ => after.key_input == before.key_input
                && after.targets_list_state == before.targets_list_state,
        }) && after.current_pane == before.current_pane
            && after.makefile == before.makefile
            && after.should_quit == before.should_quit
            && after.selected_target == before.selected_target
            && action == Action::EditSearchText,
    }
}

/// Applies a message to the model and tells what is left to do outside it.
pub fn update(model: &mut Model, message: Option<Message>) -> (action: Action)
    requires
        message_fits(*old(model), message),
    ensures
        update_effect(*old(model), message, *final(model), action),
{
    match message {
        None => Action::Nothing,
        Some(Message::MoveToNextPane) => {
            model.current_pane = match model.current_pane {
                CurrentPane::Main => CurrentPane::History,
                CurrentPane::History => CurrentPane::Main,
            };
            Action::Nothing
        },
        Some(Message::Quit) => {
            model.should_quit = true;
            Action::Nothing
        },
        Some(Message::Next) => {
            model.next();
            Action::Nothing
        },
        Some(Message::Previous) => {
            model.previous();
            Action::Nothing
        },
        Some(Message::ExecuteTarget) => {
            model.selected_target = match model.targets_list_state {
                Some(i) => {
                    let targets = model.narrow_down_targets();
                    Some(targets[i].clone())
                },
                None => None,
            };
            Action::Nothing
        },
        Some(Message::SearchTextAreaKeyInput(key)) => {
            if let KeyCode::Char(c) = key.code {
                let typed = vec![c];
                let ghost before = model.key_input@;
                model.key_input = model.update_key_input(string_of(typed.as_slice()));
                assert(model.key_input@ =~= before.push(c));
                model.reset_select();
            }
            Action::EditSearchText
        },
    }
}

/// Applies the message as [`update`] does where it fits the model; otherwise, where the
/// selection would leave the list, leaves the model unchanged and returns `None`.
pub fn update_if_in_bounds(model: &mut Model, message: Option<Message>) -> (action: Option<Action>)
    ensures
        match action {
            Some(a) => message_fits(*old(model), message) && update_effect(*old(model), message, *final(model), a),
            None => !message_fits(*old(model), message) && *final(model) == *old(model),
        },
{
    let fits = match &message {
        Some(Message::Next) | Some(Message::Previous) => match model.targets_list_state {
            Some(_) => model.narrow_down_targets().len() > 0,
            None => true,
        },
        Some(Message::ExecuteTarget) => match model.targets_list_state {
            Some(i) => i < model.narrow_down_targets().len(),
            None => true,
        },
        _ => true,
    };
    if fits {
        Some(update(model, message))
    } else {
        None
    }
}

/// Moving the selection down and then up returns to the row that was selected and leaves
/// everything else as it was.
pub proof fn law_make_only_down_then_up_returns(m0: Model, m1: Model, m2: Model, a1: Action, a2: Action)
    requires
        m0.targets_list_state matches Some(i) && i < listed_targets(m0).len(),
        listed_targets(m0).len() <= usize::MAX,
        update_effect(m0, Some(Message::Next), m1, a1),
        update_effect(m1, Some(Message::Previous), m2, a2),
    ensures
        m2 == m0,
{
    assert(listed_targets(m1) == listed_targets(m0));
}

/// A selection among the listed targets stays among them when it moves.
pub proof fn law_make_only_selection_stays_in_the_list(m0: Model, m1: Model, message: Message, a: Action)
    requires
        m0.targets_list_state matches Some(i) && i < listed_targets(m0).len(),
        message == Message::Next || message == Message::Previous,
        update_effect(m0, Some(message), m1, a),
    ensures
        m1.targets_list_state matches Some(j) && j < listed_targets(m1).len(),
{
    assert(listed_targets(m1) == listed_targets(m0));
}

} // verus!
