//! The plain ratatui interface: the targets of a makefile, the text typed so far, and a
//! selection that moves over the targets.
//!
//! The interface runs as a loop outside this module: it reads a key, asks [`handle_event`]
//! for the message and hands it to [`update`].
use crate::models::makefile::{makefile_targets, Makefile};
use crate::text::{string_of, to_chars};
use crate::usecase::fzf_make::app::{can_move, next_row, next_row_of, previous_row, previous_row_of};
use crate::usecase::tui::app::{KeyCode, KeyInput};
use vstd::prelude::*;

verus! {

/// The pane that has the focus.
#[derive(Clone, Copy, PartialEq, Eq, Structural, Debug)]
pub enum CurrentPain {
    Main,
    History,
}

impl CurrentPain {
    pub fn is_main(&self) -> (r: bool)
        ensures
            r == (*self == CurrentPain::Main),
    {
        match self {
            CurrentPain::Main => true,
            CurrentPain::History => false,
        }
    }

    pub fn is_history(&self) -> (r: bool)
        ensures
            r == (*self == CurrentPain::History),
    {
        match self {
            CurrentPain::Main => false,
            CurrentPain::History => true,
        }
    }
}

/// The state of the interface: the focused pane, the typed text, the makefile, whether to
/// quit and the selected row.
pub struct Model {
    pub current_pain: CurrentPain,
    pub key_input: String,
    pub makefile: Makefile,
    pub should_quit: bool,
    pub state: Option<usize>,
}

/// The number of rows: every target of the makefile and of those it includes.
pub open spec fn row_count(m: Model) -> nat {
    makefile_targets(m.makefile).len()
}

impl Model {
    /// The interface for a makefile: the main pane, nothing typed, the first row selected.
    pub fn new(makefile: Makefile) -> (r: Model)
        ensures
            r.current_pain == CurrentPain::Main,
            r.key_input@.len() == 0,
            r.makefile == makefile,
            !r.should_quit,
            r.state == Some(0usize),
    {
        Model {
            key_input: String::new(),
            current_pain: CurrentPain::Main,
            should_quit: false,
            makefile,
            state: Some(0),
        }
    }

    /// The typed text followed by `key_input`.
    pub fn update_key_input(&self, key_input: String) -> (r: String)
        ensures
            r@ == self.key_input@ + key_input@,
    {
        let mut chars = to_chars(self.key_input.as_str());
        let more = to_chars(key_input.as_str());
        let ghost start = chars@;
        let mut i: usize = 0;
        while i < more.len()
            invariant
                i <= more@.len(),
                chars@ == start + more@.take(i as int),
            decreases more@.len() - i,
        {
            chars.push(more[i]);
            assert(more@.take(i + 1) =~= more@.take(i as int).push(more@[i as int]));
            i += 1;
        }
        assert(more@.take(more@.len() as int) =~= more@);
        string_of(chars.as_slice())
    }

    /// The typed text without its last character (empty stays empty).
    pub fn pop(&self) -> (r: String)
        ensures
            r@ == (if self.key_input@.len() == 0 {
                self.key_input@
            } else {
                self.key_input@.drop_last()
            }),
    {
        let mut chars = to_chars(self.key_input.as_str());
        if chars.len() > 0 {
            chars.pop();
        }
        string_of(chars.as_slice())
    }

    /// Moves the selection down, wrapping around.
    pub fn next(&mut self)
        requires
            can_move(old(self).state, row_count(*old(self))),
        ensures
            final(self).state == next_row(old(self).state, row_count(*old(self))),
            final(self).current_pain == old(self).current_pain,
            final(self).key_input == old(self).key_input,
            final(self).makefile == old(self).makefile,
            final(self).should_quit == old(self).should_quit,
    {
        let n = self.makefile.to_targets_string().len();
        self.state = next_row_of(self.state, n);
    }

    /// Moves the selection up, wrapping around.
    pub fn previous(&mut self)
        requires
            can_move(old(self).state, row_count(*old(self))),
        ensures
            final(self).state == previous_row(old(self).state, row_count(*old(self))),
            final(self).current_pain == old(self).current_pain,
            final(self).key_input == old(self).key_input,
            final(self).makefile == old(self).makefile,
            final(self).should_quit == old(self).should_quit,
    {
        let n = self.makefile.to_targets_string().len();
        self.state = previous_row_of(self.state, n);
    }

    /// Selects the first row again.
    pub fn reset(&mut self)
        ensures
            final(self).state == Some(0usize),
            final(self).current_pain == old(self).current_pain,
            final(self).key_input == old(self).key_input,
            final(self).makefile == old(self).makefile,
            final(self).should_quit == old(self).should_quit,
    {
        self.state = Some(0);
    }
}

/// What a key press asks for.
#[derive(Debug, PartialEq)]
pub enum Message {
    MoveToNextPain,
    Quit,
    KeyInput(String),
    Backspace,
    Next,
    Previous,
}

/// The message that a key press gives in the model's state: Tab moves to the other pane and
/// Esc quits anywhere; in the main pane Backspace deletes, Down and Up move the selection and
/// a character is typed; in the history pane `q` quits.
pub fn handle_event(model: &Model, key: KeyInput) -> (r: Option<Message>)
    ensures
        match key.code {
            KeyCode::Tab => r == Some(Message::MoveToNextPain),
            KeyCode::Esc => r == Some(Message::Quit),
            KeyCode::Backspace => r == if model.current_pain == CurrentPain::Main {
                Some(Message::Backspace)
            } else {
                None
            },
            KeyCode::Down => r == if model.current_pain == CurrentPain::Main {
                Some(Message::Next)
            } else {
                None
            },
            KeyCode::Up => r == if model.current_pain == CurrentPain::Main {
                Some(Message::Previous)
            } else {
                None
            },
            KeyCode::Char(c) => if model.current_pain == CurrentPain::Main {
                r matches Some(Message::KeyInput(t)) && t@ == seq![c]
            } else {
                r == if c == 'q' {
                    Some(Message::Quit)
                } else {
                    None
                }
            },
            _ => r is None,
        },
{
    match key.code {
        KeyCode::Tab => Some(Message::MoveToNextPain),
        KeyCode::Esc => Some(Message::Quit),
        _ => match model.current_pain {
            CurrentPain::Main => match key.code {
                KeyCode::Backspace => Some(Message::Backspace),
                KeyCode::Down => Some(Message::Next),
                KeyCode::Up => Some(Message::Previous),
                KeyCode::Char(c) => {
                    let typed = vec![c];
                    let t = string_of(typed.as_slice());
                    assert(t@ =~= seq![c]);
                    Some(Message::KeyInput(t))
                },
                _ => None,
            },
            CurrentPain::History => match key.code {
                KeyCode::Char(c) => if c == 'q' {
                    Some(Message::Quit)
                } else {
                    None
                },
                _ => None,
            },
        },
    }
}

/// How a message changes the model.
pub open spec fn update_effect(before: Model, message: Option<Message>, after: Model) -> bool {
    match message {
        None => after == before,
        Some(Message::MoveToNextPain) => after == Model {
            current_pain: match before.current_pain {
                CurrentPain::Main => CurrentPain::History,
                CurrentPain::History => CurrentPain::Main,
            },
            ..before
        },
        Some(Message::Quit) => after == Model { should_quit: true, ..before },
        Some(Message::KeyInput(typed)) => after.key_input@ == before.key_input@ + typed@
            && after.state == Some(0usize) && after.current_pain == before.current_pain
            && after.makefile == before.makefile && after.should_quit == before.should_quit,
        Some(Message::Backspace) => (after.key_input@ == if before.key_input@.len() == 0 {
            before.key_input@
        } else {
            before.key_input@.drop_last()
        }) && after.state == before.state && after.current_pain == before.current_pain
            && after.makefile == before.makefile && after.should_quit == before.should_quit,
        Some(Message::Next) => after == Model {
            state: next_row(before.state, row_count(before)),
            ..before
        },
        Some(Message::Previous) => after == Model {
            state: previous_row(before.state, row_count(before)),
            ..before
        },
    }
}

/// Whether a message can be applied: moving the selection needs a row.
pub open spec fn message_fits(m: Model, message: Option<Message>) -> bool {
    match message {
        Some(Message::Next) => can_move(m.state, row_count(m)),
        Some(Message::Previous) => can_move(m.state, row_count(m)),
        _ => true,
    }
}

/// Applies a message to the model.
pub fn update(model: &mut Model, message: Option<Message>)
    requires
        message_fits(*old(model), message),
    ensures
        update_effect(*old(model), message, *final(model)),
{
    match message {
        Some(Message::MoveToNextPain) => {
            model.current_pain = match model.current_pain {
                CurrentPain::Main => CurrentPain::History,
                CurrentPain::History => CurrentPain::Main,
            };
        },
        Some(Message::Quit) => model.should_quit = true,
        Some(Message::KeyInput(key_input)) => {
            model.key_input = model.update_key_input(key_input);
            model.reset();
        },
        Some(Message::Backspace) => model.key_input = model.pop(),
        Some(Message::Next) => model.next(),
        Some(Message::Previous) => model.previous(),
        None => {},
    }
}

/// Applies the message as [`update`] does where it fits the model; otherwise, where a
/// selection would move over no row, leaves the model unchanged and returns `false`.
pub fn update_if_in_bounds(model: &mut Model, message: Option<Message>) -> (applied: bool)
    ensures
        applied == message_fits(*old(model), message),
        applied ==> update_effect(*old(model), message, *final(model)),
        !applied ==> *final(model) == *old(model),
{
    let fits = match &message {
        Some(Message::Next) | Some(Message::Previous) => match model.state {
            Some(_) => model.makefile.to_targets_string().len() > 0,
            None => true,
        },
        _ => true,
    };
    if fits {
        update(model, message);
    }
    fits
}

/// Moving the selection down and then up returns to the row that was selected and leaves
/// everything else as it was.
pub proof fn law_plain_down_then_up_returns(m0: Model, m1: Model, m2: Model)
    requires
        m0.state matches Some(i) && i < row_count(m0),
        row_count(m0) <= usize::MAX,
        update_effect(m0, Some(Message::Next), m1),
        update_effect(m1, Some(Message::Previous), m2),
    ensures
        m2 == m0,
{
}

/// Typing a character and then deleting it gives back the typed text.
pub proof fn law_backspace_undoes_typing(m0: Model, m1: Model, m2: Model, typed: String)
    requires
        typed@.len() == 1,
        update_effect(m0, Some(Message::KeyInput(typed)), m1),
        update_effect(m1, Some(Message::Backspace), m2),
    ensures
        m2.key_input@ == m0.key_input@,
        m2.makefile == m0.makefile,
        m2.current_pain == m0.current_pain,
{
    assert((m0.key_input@ + typed@).drop_last() =~= m0.key_input@);
}

} // verus!
