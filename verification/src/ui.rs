//! The interface: what the terminal side keeps and decides.
//!
//! The interface holds a copy of the log to draw and the line being typed.
//! Reading keys and drawing are the caller's; this module decides what each
//! key and each event from the coordinator comes to.

use vstd::prelude::*;
use vstd::string::StringExecFns;
use crate::app::{log_view, Message, MessageView};

verus! {

/// `String::push`: the character is appended at the end.
pub assume_specification[ String::push ](s: &mut String, ch: char)
    ensures
        final(s)@ == old(s)@.push(ch),
;

/// `String::pop`: the last character is removed and returned; an empty
/// string gives `None` and stays empty.
pub assume_specification[ String::pop ](s: &mut String) -> (ch: Option<char>)
    ensures
        old(s)@.len() == 0 ==> ch is None && final(s)@ == old(s)@,
        old(s)@.len() > 0 ==> ch == Some(old(s)@.last()) && final(s)@ == old(s)@.drop_last(),
;

/// `String::clear`: nothing is left in the string.
pub assume_specification[ String::clear ](s: &mut String)
    ensures
        final(s)@ == Seq::<char>::empty(),
;

/// How long one look for a key press may wait, in milliseconds.
pub const INPUT_POLL_TIMEOUT: u64 = 1;

/// An event from the coordinator to the interface.
#[derive(Debug, PartialEq, Eq)]
pub enum UiEventIn {
    /// The whole log, to replace what is shown.
    Messages { messages: Vec<Message> },
    /// The session is over.
    ShutDown {},
}

/// An event from the interface to the coordinator.
#[derive(Debug, PartialEq, Eq)]
pub enum UiEventOut {
    /// The user finished a line.
    Message { body: String },
    /// The user asked to quit.
    ShutDown {},
}

/// What a [`UiEventIn`] stands for in contracts.
pub enum UiEventInView {
    Messages { messages: Seq<MessageView> },
    ShutDown,
}

/// What a [`UiEventOut`] stands for in contracts.
pub enum UiEventOutView {
    Message { body: Seq<char> },
    ShutDown,
}

impl View for UiEventIn {
    type V = UiEventInView;

    open spec fn view(&self) -> UiEventInView {
        match self {
            UiEventIn::Messages { messages } => UiEventInView::Messages {
                messages: log_view(messages@),
            },
            UiEventIn::ShutDown {  } => UiEventInView::ShutDown,
        }
    }
}

impl View for UiEventOut {
    type V = UiEventOutView;

    open spec fn view(&self) -> UiEventOutView {
        match self {
            UiEventOut::Message { body } => UiEventOutView::Message { body: body@ },
            UiEventOut::ShutDown {  } => UiEventOutView::ShutDown,
        }
    }
}

/// The interface's state as contracts see it.
pub struct UiStateView {
    pub messages: Seq<MessageView>,
    pub active: bool,
    pub input: Seq<char>,
}

/// What the interface keeps: the log to show, whether it is still running,
/// and the line being typed.
pub struct UiState {
    messages: Vec<Message>,
    should_run: bool,
    input: String,
}

impl View for UiState {
    type V = UiStateView;

    closed spec fn view(&self) -> UiStateView {
        UiStateView {
            messages: log_view(self.messages@),
            active: self.should_run,
            input: self.input@,
        }
    }
}

impl UiState {
    /// A running interface with nothing to show and nothing typed.
    pub fn default() -> (state: UiState)
        ensures
            state@ == (UiStateView {
                messages: Seq::empty(),
                active: true,
                input: Seq::empty(),
            }),
    {
        let state = UiState { messages: Vec::new(), should_run: true, input: String::new() };
        assert(state@.messages =~= Seq::empty());
        state
    }

    /// Replaces the log shown by `messages`.
    pub fn set_messages(&mut self, messages: Vec<Message>)
        ensures
            final(self)@ == (UiStateView { messages: log_view(messages@), ..old(self)@ }),
    {
        self.messages = messages;
    }

    /// Stops the interface.
    pub fn shutdown(&mut self)
        ensures
            final(self)@ == (UiStateView { active: false, ..old(self)@ }),
    {
        self.should_run = false;
    }

    /// Types one character at the end of the line.
    pub fn append_input(&mut self, c: char)
        ensures
            final(self)@ == (UiStateView { input: old(self)@.input.push(c), ..old(self)@ }),
    {
        self.input.push(c);
    }

    /// Rubs out the last character of the line, if there is one.
    pub fn chop_input(&mut self)
        ensures
            final(self)@ == (UiStateView { input: chopped(old(self)@.input), ..old(self)@ }),
    {
        let _ = self.input.pop();
    }

    /// Empties the line.
    pub fn truncate_input(&mut self)
        ensures
            final(self)@ == (UiStateView { input: Seq::empty(), ..old(self)@ }),
    {
        self.input.clear();
    }

    /// Whether the interface is still running.
    pub fn should_run(&self) -> (running: bool)
        ensures
            running == self@.active,
    {
        self.should_run
    }

    /// The log to show.
    pub fn messages(&self) -> (messages: &Vec<Message>)
        ensures
            log_view(messages@) == self@.messages,
    {
        &self.messages
    }

    /// The line being typed.
    pub fn input(&self) -> (input: &String)
        ensures
            input@ == self@.input,
    {
        &self.input
    }
}

/// A line without its last character; the empty line stays empty.
pub open spec fn chopped(line: Seq<char>) -> Seq<char> {
    if line.len() > 0 {
        line.drop_last()
    } else {
        line
    }
}

/// The keys the interface tells apart.
#[derive(Debug, PartialEq, Eq)]
pub enum Key {
    /// A key that types this character.
    Char(char),
    Backspace,
    Enter,
    /// Any other key.
    Other,
}

/// One key press: the key, and whether Control was held with it.
#[derive(Debug, PartialEq, Eq)]
pub struct KeyPress {
    pub key: Key,
    pub control: bool,
}

/// Whether the press is the gesture that quits: Control with `c`.
pub open spec fn is_quit(press: KeyPress) -> bool {
    press.control && press.key == Key::Char('c')
}

/// The interface after one key press. The quit gesture stops it; any other
/// character is typed; Backspace rubs out; Enter empties the line, whose
/// text is submitted; other keys do nothing. A stopped interface takes no
/// more keys.
pub open spec fn key_state(state: UiStateView, press: KeyPress) -> UiStateView {
    if !state.active {
        state
    } else if is_quit(press) {
        UiStateView { active: false, ..state }
    } else {
        match press.key {
            Key::Char(c) => UiStateView { input: state.input.push(c), ..state },
            Key::Backspace => UiStateView { input: chopped(state.input), ..state },
            Key::Enter => UiStateView { input: Seq::empty(), ..state },
            Key::Other => state,
        }
    }
}

/// What the interface owes the coordinator for one key press: the request
/// to quit for the quit gesture, the line typed so far for Enter, and
/// nothing otherwise. A stopped interface owes nothing.
pub open spec fn key_output(state: UiStateView, press: KeyPress) -> Option<UiEventOutView> {
    if !state.active {
        None
    } else if is_quit(press) {
        Some(UiEventOutView::ShutDown)
    } else {
        match press.key {
            Key::Enter => Some(UiEventOutView::Message { body: state.input }),
            _ => None,
        }
    }
}

/// The interface after one poll of the coordinator's queue: a new log
/// replaces the one shown, the end of the session stops the interface, and
/// an empty queue changes nothing.
pub open spec fn event_state(state: UiStateView, polled: Option<UiEventInView>) -> UiStateView {
    match polled {
        Some(UiEventInView::Messages { messages }) => UiStateView { messages, ..state },
        Some(UiEventInView::ShutDown) => UiStateView { active: false, ..state },
        None => state,
    }
}

/// A message as one line of the display: the sender, a colon and a space,
/// then the body.
pub open spec fn line_of(message: MessageView) -> Seq<char> {
    message.from + ": "@ + message.body
}

/// The lines of a log, in the same order.
pub open spec fn lines_of(messages: Seq<MessageView>) -> Seq<Seq<char>> {
    Seq::new(messages.len(), |i: int| line_of(messages[i]))
}

/// The views of a run of strings, in the same order.
pub open spec fn strings_view(strings: Seq<String>) -> Seq<Seq<char>> {
    Seq::new(strings.len(), |i: int| strings[i]@)
}

/// One message as a line of text for the display.
pub fn render_line(message: &Message) -> (line: String)
    ensures
        line@ == line_of(message@),
{
    let mut line = message.from.clone();
    line.append(": ");
    line.append(message.body.as_str());
    line
}

/// The interface: its state and the rules by which keys and events change
/// it.
pub struct UiManager {
    state: UiState,
}

impl View for UiManager {
    type V = UiStateView;

    closed spec fn view(&self) -> UiStateView {
        self.state@
    }
}

impl UiManager {
    /// An interface at the start of a session.
    pub fn new() -> (ui: UiManager)
        ensures
            ui@ == (UiStateView { messages: Seq::empty(), active: true, input: Seq::empty() }),
    {
        UiManager { state: UiState::default() }
    }

    /// What the interface keeps.
    pub fn state(&self) -> (state: &UiState)
        ensures
            state@ == self@,
    {
        &self.state
    }

    /// Takes what one poll of the coordinator's queue gave.
    pub fn handle_events(&mut self, polled: Option<UiEventIn>)
        ensures
            final(self)@ == event_state(
                old(self)@,
                match polled {
                    Some(event) => Some(event@),
                    None => None,
                },
            ),
    {
        match polled {
            Some(UiEventIn::Messages { messages }) => self.handle_messages(messages),
            Some(UiEventIn::ShutDown {  }) => self.handle_shutdown(),
            None => (),
        }
    }

    /// Shows a new log in place of the old one.
    fn handle_messages(&mut self, messages: Vec<Message>)
        ensures
            final(self)@ == (UiStateView { messages: log_view(messages@), ..old(self)@ }),
    {
        self.state.set_messages(messages);
    }

    /// Takes one key press and returns the event owed to the coordinator,
    /// if one is.
    pub fn handle_key_input(&mut self, press: KeyPress) -> (event: Option<UiEventOut>)
        ensures
            final(self)@ == key_state(old(self)@, press),
            match event {
                Some(e) => key_output(old(self)@, press) == Some(e@),
                None => key_output(old(self)@, press) is None,
            },
    {
        if !self.state.should_run() {
            return None;
        }
        match press.key {
            Key::Char(c) => {
                if c == 'c' && press.control {
                    Some(self.shutdown())
                } else {
                    self.state.append_input(c);
                    None
                }
            },
            Key::Backspace => {
                self.state.chop_input();
                None
            },
            Key::Enter => Some(self.send_message()),
            Key::Other => None,
        }
    }

    /// Stops the interface on the user's request and returns the request to
    /// quit for the coordinator.
    fn shutdown(&mut self) -> (event: UiEventOut)
        ensures
            final(self)@ == (UiStateView { active: false, ..old(self)@ }),
            event@ == UiEventOutView::ShutDown,
    {
        self.handle_shutdown();
        UiEventOut::ShutDown {  }
    }

    /// Stops the interface.
    fn handle_shutdown(&mut self)
        ensures
            final(self)@ == (UiStateView { active: false, ..old(self)@ }),
    {
        self.state.shutdown();
    }

    /// Submits the line typed so far: the line is taken out of the input,
    /// which is left empty, and returned as the event for the coordinator.
    fn send_message(&mut self) -> (event: UiEventOut)
        ensures
            final(self)@ == (UiStateView { input: Seq::empty(), ..old(self)@ }),
            event@ == (UiEventOutView::Message { body: old(self)@.input }),
    {
        let body = self.state.input().clone();
        self.state.truncate_input();
        UiEventOut::Message { body }
    }

    /// The log as lines of text for the display, oldest first.
    pub fn message_lines(&self) -> (lines: Vec<String>)
        ensures
            strings_view(lines@) == lines_of(self@.messages),
    {
        let messages = self.state.messages();
        let mut lines: Vec<String> = Vec::new();
        let mut i: usize = 0;
        while i < messages.len()
            invariant
                i <= messages.len(),
                lines.len() == i,
                forall|j: int| 0 <= j < i ==> (#[trigger] lines[j])@ == line_of(messages[j]@),
            decreases messages.len() - i,
        {
            lines.push(render_line(&messages[i]));
            i += 1;
        }
        assert(strings_view(lines@) =~= lines_of(log_view(messages@)));
        lines
    }
}

/// A line is submitted once: what Enter sends is the line as it was typed,
/// and the line is empty afterwards, so that a second Enter cannot send it
/// again.
pub proof fn law_submitted_line_is_cleared(state: UiStateView, press: KeyPress)
    ensures
        key_output(state, press) matches Some(UiEventOutView::Message { body }) ==> {
            &&& body == state.input
            &&& key_state(state, press).input == Seq::<char>::empty()
            &&& key_state(state, press).active
        },
{
}

/// The request to quit is sent at most once: the key that sends it stops
/// the interface, and after it no key sends anything or changes anything.
pub proof fn law_quit_is_sent_once(state: UiStateView, press: KeyPress, later: KeyPress)
    requires
        key_output(state, press) == Some(UiEventOutView::ShutDown),
    ensures
        !key_state(state, press).active,
        key_output(key_state(state, press), later) is None,
        key_state(key_state(state, press), later) == key_state(state, press),
{
}

} // verus!
