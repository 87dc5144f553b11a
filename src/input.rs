use vstd::prelude::*;
use crate::forward::{get_config_from_str, parse_text, ParseError, TunnelSpec, TunnelSpecView};
use crate::text::{pop_char, push_char};

verus! {

/// A key press, as the session sees it.
#[derive(Clone, Copy, Debug, PartialEq, Eq, Structural)]
pub enum Key {
    Char(char),
    Backspace,
    Enter,
    Esc,
    Other,
}

/// The modal editor for a new forward: either no draft is open, or a draft
/// text is being typed.
pub enum InputBuffer {
    Idle,
    Editing(String),
}

/// What the session has to do after a key.
pub enum Action {
    /// Nothing beyond redrawing.
    Stay,
    /// Start a tunnel for this spec.
    Spawn(TunnelSpec),
    /// Show why the draft was refused; the draft stays open.
    Invalid(ParseError),
    /// Leave the session.
    Quit,
}

/// The mathematical value of an [`Action`].
pub enum ActionView {
    Stay,
    Spawn(TunnelSpecView),
    Invalid(ParseError),
    Quit,
}

impl View for InputBuffer {
    /// `None` while idle, the draft text while editing.
    type V = Option<Seq<char>>;

    open spec fn view(&self) -> Option<Seq<char>> {
        match self {
            InputBuffer::Idle => None,
            InputBuffer::Editing(t) => Some(t@),
        }
    }
}

impl View for Action {
    type V = ActionView;

    open spec fn view(&self) -> ActionView {
        match self {
            Action::Stay => ActionView::Stay,
            Action::Spawn(s) => ActionView::Spawn(s@),
            Action::Invalid(e) => ActionView::Invalid(*e),
            Action::Quit => ActionView::Quit,
        }
    }
}

/// The key that opens a new draft.
pub open spec fn is_new_key(key: Key) -> bool {
    key == Key::Char('n')
}

/// The transition of the editor on one key: the next state and what the
/// session has to do.
pub open spec fn step(state: Option<Seq<char>>, key: Key) -> (Option<Seq<char>>, ActionView) {
    match state {
        None => match key {
            Key::Char(c) => if c == 'n' {
                (Some(Seq::empty()), ActionView::Stay)
            } else {
                (None, ActionView::Stay)
            },
            Key::Esc => (None, ActionView::Quit),
            _ => (None, ActionView::Stay),
        },
        Some(t) => match key {
            Key::Char(c) => (Some(t.push(c)), ActionView::Stay),
            Key::Backspace => if t.len() > 0 {
                (Some(t.drop_last()), ActionView::Stay)
            } else {
                (Some(t), ActionView::Stay)
            },
            Key::Esc => (None, ActionView::Stay),
            Key::Enter => match parse_text(t) {
                Ok(spec) => (None, ActionView::Spawn(spec)),
                Err(e) => (Some(t), ActionView::Invalid(e)),
            },
            Key::Other => (Some(t), ActionView::Stay),
        },
    }
}

impl InputBuffer {
    /// No draft open.
    pub fn new() -> (r: InputBuffer)
        ensures
            r@ is None,
    {
        InputBuffer::Idle
    }

    /// Whether a draft is open.
    pub fn is_editing(&self) -> (r: bool)
        ensures
            r == self@ is Some,
    {
        match self {
            InputBuffer::Idle => false,
            InputBuffer::Editing(_) => true,
        }
    }

    /// The draft text, while one is open.
    pub fn draft(&self) -> (r: Option<&String>)
        ensures
            match r {
                Some(t) => self@ == Some(t@),
                None => self@ is None,
            },
    {
        match self {
            InputBuffer::Idle => None,
            InputBuffer::Editing(t) => Some(t),
        }
    }

    /// Feeds one key to the editor.
    pub fn on_key(&mut self, key: Key) -> (a: Action)
        ensures
            (final(self)@, a@) == step(old(self)@, key),
    {
        match self {
            InputBuffer::Idle => match key {
                Key::Char(c) => {
                    if c == 'n' {
                        *self = InputBuffer::Editing(String::new());
                    }
                    Action::Stay
                },
                Key::Esc => Action::Quit,
                _ => Action::Stay,
            },
            InputBuffer::Editing(t) => match key {
                Key::Char(c) => {
                    push_char(t, c);
                    Action::Stay
                },
                Key::Backspace => {
                    let _ = pop_char(t);
                    Action::Stay
                },
                Key::Esc => {
                    *self = InputBuffer::Idle;
                    Action::Stay
                },
                Key::Enter => match get_config_from_str(t.as_str()) {
                    Ok(spec) => {
                        *self = InputBuffer::Idle;
                        Action::Spawn(spec)
                    },
                    Err(e) => Action::Invalid(e),
                },
                Key::Other => Action::Stay,
            },
        }
    }
}

} // verus!
