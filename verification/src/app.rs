//! The coordinator: sole owner of the conversation log.

use vstd::prelude::*;
use crate::net::{comes_back, may_arrive, own_echo, sends_away, step_spec, NetActionView};
use crate::net::NetConfigView;
use crate::net::{NetEventIn, NetEventInView, NetEventOut, NetEventOutView, NetInputView};
use crate::net::UDP_BUFFER_SIZE;
use crate::wire::{encoding, law_decode_undoes_encode, NetPacketView};
use crate::ui::{UiEventIn, UiEventInView, UiEventOut, UiEventOutView};

verus! {

/// The name under which the local user's lines are logged and sent.
pub const USER_NAME: &'static str = "Robyn";

/// One line of the conversation: who said it, and what was said.
#[derive(Debug, PartialEq, Eq)]
pub struct Message {
    pub from: String,
    pub body: String,
}

/// What a [`Message`] stands for in contracts.
pub struct MessageView {
    pub from: Seq<char>,
    pub body: Seq<char>,
}

impl View for Message {
    type V = MessageView;

    open spec fn view(&self) -> MessageView {
        MessageView { from: self.from@, body: self.body@ }
    }
}

impl Clone for Message {
    fn clone(&self) -> (res: Self)
        ensures
            res == *self,
    {
        Message { from: self.from.clone(), body: self.body.clone() }
    }
}

/// The views of a run of messages, in the same order.
pub open spec fn log_view(log: Seq<Message>) -> Seq<MessageView> {
    Seq::new(log.len(), |i: int| log[i]@)
}

/// The conversation as contracts see it.
pub struct StateView {
    pub messages: Seq<MessageView>,
    pub active: bool,
}

/// The conversation: the log so far, and whether the session is still on.
pub struct State {
    should_run: bool,
    messages: Vec<Message>,
}

impl View for State {
    type V = StateView;

    closed spec fn view(&self) -> StateView {
        StateView { messages: log_view(self.messages@), active: self.should_run }
    }
}

impl State {
    /// A running session with an empty log.
    pub fn default() -> (state: State)
        ensures
            state@ == (StateView { messages: Seq::empty(), active: true }),
    {
        let state = State { should_run: true, messages: Vec::new() };
        assert(state@.messages =~= Seq::empty());
        state
    }

    /// Ends the session; the log is kept.
    pub fn shutdown(&mut self)
        ensures
            final(self)@ == (StateView { active: false, ..old(self)@ }),
    {
        self.should_run = false;
    }

    /// Appends one message to the end of the log.
    pub fn add_message(&mut self, from: &String, body: &String)
        ensures
            final(self)@ == (StateView {
                messages: old(self)@.messages.push(MessageView { from: from@, body: body@ }),
                ..old(self)@
            }),
    {
        let message = Message { from: from.clone(), body: body.clone() };
        self.messages.push(message);
        assert(self@.messages =~= old(self)@.messages.push(message@));
    }

    /// Whether the session is still on.
    pub fn should_run(&self) -> (running: bool)
        ensures
            running == self@.active,
    {
        self.should_run
    }

    /// The log so far, oldest line first.
    pub fn messages(&self) -> (messages: &Vec<Message>)
        ensures
            log_view(messages@) == self@.messages,
    {
        &self.messages
    }

    /// A copy of the log, to hand to the interface.
    pub fn snapshot(&self) -> (messages: Vec<Message>)
        ensures
            log_view(messages@) == self@.messages,
    {
        let messages = self.messages.clone();
        assert(messages@ =~= self.messages@);
        messages
    }
}

/// What reaches the coordinator: an event of the interface or an event of
/// the transport, in the order in which they were taken off the two queues.
#[derive(Debug, PartialEq, Eq)]
pub enum AppEvent {
    Ui(UiEventOut),
    Net(NetEventOut),
}

/// What an [`AppEvent`] stands for in contracts.
pub enum AppEventView {
    Ui(UiEventOutView),
    Net(NetEventOutView),
}

impl View for AppEvent {
    type V = AppEventView;

    open spec fn view(&self) -> AppEventView {
        match self {
            AppEvent::Ui(event) => AppEventView::Ui(event@),
            AppEvent::Net(event) => AppEventView::Net(event@),
        }
    }
}

/// What the coordinator owes after one event: at most one event for the
/// interface and at most one command for the transport. Where both are
/// owed, the interface is served first.
#[derive(Debug, PartialEq, Eq)]
pub struct AppOutput {
    pub to_ui: Option<UiEventIn>,
    pub to_net: Option<NetEventIn>,
}

/// What an [`AppOutput`] stands for in contracts.
pub struct AppOutputView {
    pub to_ui: Option<UiEventInView>,
    pub to_net: Option<NetEventInView>,
}

impl View for AppOutput {
    type V = AppOutputView;

    open spec fn view(&self) -> AppOutputView {
        AppOutputView {
            to_ui: match self.to_ui {
                Some(event) => Some(event@),
                None => None,
            },
            to_net: match self.to_net {
                Some(event) => Some(event@),
                None => None,
            },
        }
    }
}

/// The line that an event brings for the log: under the local name if the
/// user submitted it, under the claimed name if it was received. A request
/// to quit brings none.
pub open spec fn message_of(event: AppEventView) -> Option<MessageView> {
    match event {
        AppEventView::Ui(UiEventOutView::Message { body }) => Some(
            MessageView { from: USER_NAME@, body },
        ),
        AppEventView::Net(NetEventOutView::Message { from, body }) => Some(
            MessageView { from, body },
        ),
        AppEventView::Ui(UiEventOutView::ShutDown) => None,
    }
}

/// Whether every event of the run brings a line: the run is made of
/// submitted and received lines only.
pub open spec fn all_messages(events: Seq<AppEventView>) -> bool {
    forall|i: int| 0 <= i < events.len() ==> message_of(#[trigger] events[i]) is Some
}

/// The lines that a run of events brings, in arrival order.
pub open spec fn messages_of(events: Seq<AppEventView>) -> Seq<MessageView>
    decreases events.len(),
{
    if events.len() == 0 {
        Seq::empty()
    } else {
        match message_of(events.last()) {
            Some(line) => messages_of(events.drop_last()).push(line),
            None => messages_of(events.drop_last()),
        }
    }
}

/// The conversation after one event. A line is appended; a request to quit
/// ends the session; once the session has ended nothing changes any more.
pub open spec fn next_state(state: StateView, event: AppEventView) -> StateView {
    if !state.active {
        state
    } else {
        match message_of(event) {
            Some(line) => StateView { messages: state.messages.push(line), ..state },
            None => StateView { active: false, ..state },
        }
    }
}

/// What the coordinator owes for one event. A submitted line goes to the
/// interface, as part of the new log, and to the transport; a received line
/// goes to the interface only; a request to quit closes the transport; once
/// the session has ended nothing is owed.
pub open spec fn output_of(state: StateView, event: AppEventView) -> AppOutputView {
    if !state.active {
        AppOutputView { to_ui: None, to_net: None }
    } else {
        match event {
            AppEventView::Ui(UiEventOutView::Message { body }) => AppOutputView {
                to_ui: Some(UiEventInView::Messages { messages: next_state(state, event).messages }),
                to_net: Some(NetEventInView::Message { from: USER_NAME@, body }),
            },
            AppEventView::Net(NetEventOutView::Message { from, body }) => AppOutputView {
                to_ui: Some(UiEventInView::Messages { messages: next_state(state, event).messages }),
                to_net: None,
            },
            AppEventView::Ui(UiEventOutView::ShutDown) => AppOutputView {
                to_ui: None,
                to_net: Some(NetEventInView::ShutDown),
            },
        }
    }
}

/// The views of a run of events, in the same order.
pub open spec fn events_view(events: Seq<AppEvent>) -> Seq<AppEventView> {
    Seq::new(events.len(), |i: int| events[i]@)
}

/// The views of a run of outputs, in the same order.
pub open spec fn outputs_view(outputs: Seq<AppOutput>) -> Seq<AppOutputView> {
    Seq::new(outputs.len(), |i: int| outputs[i]@)
}

/// The conversation after a run of events, taken in arrival order.
pub open spec fn run_state(state: StateView, events: Seq<AppEventView>) -> StateView
    decreases events.len(),
{
    if events.len() == 0 {
        state
    } else {
        next_state(run_state(state, events.drop_last()), events.last())
    }
}

/// What the coordinator owes over a run of events: one output for each
/// event that it processed, in arrival order. Events that arrive after the
/// session has ended are not processed and get no output.
pub open spec fn run_outputs(state: StateView, events: Seq<AppEventView>) -> Seq<AppOutputView>
    decreases events.len(),
{
    if events.len() == 0 {
        Seq::empty()
    } else {
        let before = run_state(state, events.drop_last());
        let earlier = run_outputs(state, events.drop_last());
        if before.active {
            earlier.push(output_of(before, events.last()))
        } else {
            earlier
        }
    }
}

/// The events of a run that the coordinator took: those that arrived while
/// the session was on.
pub open spec fn processed(state: StateView, events: Seq<AppEventView>) -> Seq<AppEventView>
    decreases events.len(),
{
    if events.len() == 0 {
        Seq::empty()
    } else {
        let before = run_state(state, events.drop_last());
        let earlier = processed(state, events.drop_last());
        if before.active {
            earlier.push(events.last())
        } else {
            earlier
        }
    }
}

/// The coordinator: the conversation and the rules by which it grows.
pub struct App {
    state: State,
}

impl View for App {
    type V = StateView;

    closed spec fn view(&self) -> StateView {
        self.state@
    }
}

impl App {
    /// A coordinator at the start of a session.
    pub fn new() -> (app: App)
        ensures
            app@ == (StateView { messages: Seq::empty(), active: true }),
    {
        App { state: State::default() }
    }

    /// The conversation as it stands.
    pub fn state(&self) -> (state: &State)
        ensures
            state@ == self@,
    {
        &self.state
    }

    /// Logs a line and returns the event that shows the new log to the
    /// interface.
    fn handle_message(&mut self, from: &String, body: &String) -> (event: UiEventIn)
        ensures
            final(self)@ == (StateView {
                messages: old(self)@.messages.push(MessageView { from: from@, body: body@ }),
                ..old(self)@
            }),
            event@ == (UiEventInView::Messages { messages: final(self)@.messages }),
    {
        self.state.add_message(from, body);
        UiEventIn::Messages { messages: self.state.snapshot() }
    }

    /// A line that the local user submitted: logged under the local name,
    /// shown, and sent. After the session has ended the line is left
    /// unprocessed.
    pub fn handle_ui_message(&mut self, body: String) -> (output: AppOutput)
        ensures
            final(self)@ == next_state(
                old(self)@,
                AppEventView::Ui(UiEventOutView::Message { body: body@ }),
            ),
            output@ == output_of(
                old(self)@,
                AppEventView::Ui(UiEventOutView::Message { body: body@ }),
            ),
            old(self)@.active ==> {
                &&& final(self)@.messages == old(self)@.messages.push(
                    MessageView { from: USER_NAME@, body: body@ },
                )
                &&& output@.to_ui == Some(
                    UiEventInView::Messages { messages: final(self)@.messages },
                )
                &&& output@.to_net == Some(
                    NetEventInView::Message { from: USER_NAME@, body: body@ },
                )
            },
    {
        if !self.state.should_run() {
            return AppOutput { to_ui: None, to_net: None };
        }
        let from = USER_NAME.to_owned();
        let shown = self.handle_message(&from, &body);
        AppOutput { to_ui: Some(shown), to_net: Some(NetEventIn::Message { from, body }) }
    }

    /// A line that the transport received: logged under the name it claims
    /// and shown, never sent back. After the session has ended the line is
    /// left unprocessed.
    pub fn handle_net_message(&mut self, from: String, body: String) -> (output: AppOutput)
        ensures
            final(self)@ == next_state(
                old(self)@,
                AppEventView::Net(NetEventOutView::Message { from: from@, body: body@ }),
            ),
            output@ == output_of(
                old(self)@,
                AppEventView::Net(NetEventOutView::Message { from: from@, body: body@ }),
            ),
            output@.to_net is None,
            old(self)@.active ==> {
                &&& final(self)@.messages == old(self)@.messages.push(
                    MessageView { from: from@, body: body@ },
                )
                &&& output@.to_ui == Some(
                    UiEventInView::Messages { messages: final(self)@.messages },
                )
            },
    {
        if !self.state.should_run() {
            return AppOutput { to_ui: None, to_net: None };
        }
        let shown = self.handle_message(&from, &body);
        AppOutput { to_ui: Some(shown), to_net: None }
    }

    /// The user asked to quit: the transport is told to close and the
    /// session ends. A session that has ended is not ended again.
    pub fn handle_shutdown(&mut self) -> (output: AppOutput)
        ensures
            final(self)@ == next_state(old(self)@, AppEventView::Ui(UiEventOutView::ShutDown)),
            output@ == output_of(old(self)@, AppEventView::Ui(UiEventOutView::ShutDown)),
            !final(self)@.active,
            final(self)@.messages == old(self)@.messages,
            output@.to_ui is None,
            output@.to_net is Some <==> old(self)@.active,
    {
        if !self.state.should_run() {
            return AppOutput { to_ui: None, to_net: None };
        }
        self.state.shutdown();
        AppOutput { to_ui: None, to_net: Some(NetEventIn::ShutDown {  }) }
    }

    /// One turn of the coordinator: takes the next event off the queues and
    /// answers with what is owed. After the session has ended every event is
    /// left unprocessed.
    pub fn handle_event(&mut self, event: AppEvent) -> (output: AppOutput)
        ensures
            final(self)@ == next_state(old(self)@, event@),
            output@ == output_of(old(self)@, event@),
    {
        match event {
            AppEvent::Ui(UiEventOut::Message { body }) => self.handle_ui_message(body),
            AppEvent::Ui(UiEventOut::ShutDown {  }) => self.handle_shutdown(),
            AppEvent::Net(NetEventOut::Message { from, body }) => self.handle_net_message(
                from,
                body,
            ),
        }
    }

    /// The coordinator's loop over events that have already arrived: each
    /// is processed in arrival order until the session ends, and the
    /// outputs are returned in the order in which they fell due.
    pub fn run(&mut self, events: Vec<AppEvent>) -> (outputs: Vec<AppOutput>)
        ensures
            final(self)@ == run_state(old(self)@, events_view(events@)),
            outputs_view(outputs@) == run_outputs(old(self)@, events_view(events@)),
    {
        let ghost start = self@;
        let ghost arrived = events_view(events@);
        let mut outputs: Vec<AppOutput> = Vec::new();
        assert(outputs_view(outputs@) =~= run_outputs(start, arrived.take(0)));
        for event in iter: events
            invariant
                arrived == events_view(events@),
                self@ == run_state(start, arrived.take(iter.index() as int)),
                outputs_view(outputs@) == run_outputs(start, arrived.take(iter.index() as int)),
        {
            let ghost done = iter.index() as int;
            assert(arrived.take(done + 1).drop_last() =~= arrived.take(done));
            assert(arrived.take(done + 1).last() == event@);
            if self.state.should_run() {
                let output = self.handle_event(event);
                outputs.push(output);
                assert(outputs_view(outputs@) =~= run_outputs(start, arrived.take(done)).push(
                    output@,
                ));
            }
        }
        assert(arrived.take(arrived.len() as int) =~= arrived);
        outputs
    }
}

/// A run of one event is one turn of the coordinator.
pub proof fn lemma_run_single(state: StateView, event: AppEventView)
    ensures
        run_state(state, seq![event]) == next_state(state, event),
        state.active ==> run_outputs(state, seq![event]) == seq![output_of(state, event)],
{
    let events = seq![event];
    assert(events.drop_last() =~= Seq::<AppEventView>::empty());
    assert(run_state(state, events.drop_last()) == state);
    assert(run_outputs(state, events.drop_last()) =~= Seq::<AppOutputView>::empty());
    if state.active {
        assert(run_outputs(state, events) =~= seq![output_of(state, event)]);
    }
}

/// Running over two runs of events in a row is running over the first and
/// then, from where that ended, over the second.
pub proof fn lemma_run_concat(
    state: StateView,
    first: Seq<AppEventView>,
    second: Seq<AppEventView>,
)
    ensures
        run_state(state, first + second) == run_state(run_state(state, first), second),
        run_outputs(state, first + second) == run_outputs(state, first) + run_outputs(
            run_state(state, first),
            second,
        ),
    decreases second.len(),
{
    if second.len() == 0 {
        assert(first + second =~= first);
        assert(run_outputs(state, first) + Seq::<AppOutputView>::empty() =~= run_outputs(
            state,
            first,
        ));
    } else {
        lemma_run_concat(state, first, second.drop_last());
        assert((first + second).drop_last() =~= first + second.drop_last());
        assert((first + second).last() == second.last());
        let middle = run_state(state, first);
        let before = run_state(middle, second.drop_last());
        if before.active {
            assert(run_outputs(state, first + second) =~= run_outputs(state, first) + run_outputs(
                middle,
                second,
            ));
        }
    }
}

/// A run of lines brings one line for each event, the line of that event.
pub proof fn lemma_messages_of_lines(events: Seq<AppEventView>)
    requires
        all_messages(events),
    ensures
        messages_of(events).len() == events.len(),
        forall|i: int|
            0 <= i < events.len() ==> message_of(#[trigger] events[i]) == Some(
                messages_of(events)[i],
            ),
    decreases events.len(),
{
    if events.len() > 0 {
        let earlier = events.drop_last();
        lemma_messages_of_lines(earlier);
        assert(message_of(events[events.len() - 1]) is Some);
        assert forall|i: int| 0 <= i < events.len() implies message_of(#[trigger] events[i])
            == Some(messages_of(events)[i]) by {
            if i < earlier.len() {
                assert(events[i] == earlier[i]);
            }
        }
    }
}

/// While the session is on and no request to quit arrives, the log grows by
/// exactly one line for each event, and the lines stand in the order in
/// which the events arrived. Every event is answered.
pub proof fn law_log_follows_arrivals(state: StateView, events: Seq<AppEventView>)
    requires
        state.active,
        all_messages(events),
    ensures
        run_state(state, events).active,
        run_state(state, events).messages == state.messages + messages_of(events),
        run_state(state, events).messages.len() == state.messages.len() + events.len(),
        forall|i: int|
            0 <= i < events.len() ==> message_of(#[trigger] events[i]) == Some(
                run_state(state, events).messages[state.messages.len() + i],
            ),
        run_outputs(state, events).len() == events.len(),
    decreases events.len(),
{
    lemma_messages_of_lines(events);
    if events.len() == 0 {
        assert(state.messages + messages_of(events) =~= state.messages);
    } else {
        let earlier = events.drop_last();
        law_log_follows_arrivals(state, earlier);
        assert(message_of(events[events.len() - 1]) is Some);
        assert(state.messages + messages_of(events) =~= (state.messages + messages_of(
            earlier,
        )).push(message_of(events.last())->0));
    }
}

/// The log is what was processed. The coordinator takes events in arrival
/// order, skipping none, until the session ends; the log grows by the lines
/// of the events taken, in that order, and by nothing else; and each event
/// taken is answered once.
pub proof fn law_log_is_what_was_processed(state: StateView, events: Seq<AppEventView>)
    ensures
        processed(state, events).is_prefix_of(events),
        run_state(state, events).active ==> state.active && processed(state, events) == events
            && all_messages(events),
        run_state(state, events).messages == state.messages + messages_of(
            processed(state, events),
        ),
        run_outputs(state, events).len() == processed(state, events).len(),
    decreases events.len(),
{
    if events.len() == 0 {
        assert(state.messages + messages_of(processed(state, events)) =~= state.messages);
    } else {
        let earlier = events.drop_last();
        let before = run_state(state, earlier);
        law_log_is_what_was_processed(state, earlier);
        if before.active {
            assert(processed(state, events) =~= events);
            assert forall|i: int| 0 <= i < earlier.len() implies message_of(
                #[trigger] events[i],
            ) is Some by {
                assert(events[i] == earlier[i]);
            }
            match message_of(events.last()) {
                Some(line) => {
                    assert(state.messages + messages_of(events) =~= (state.messages
                        + messages_of(earlier)).push(line));
                },
                None => {},
            }
        }
    }
}

/// While the session stays on, the output at each place in a run is the
/// output owed for the event at that place, in the state that the events
/// ahead of it left.
pub proof fn lemma_run_outputs_index(state: StateView, events: Seq<AppEventView>, i: int)
    requires
        state.active,
        all_messages(events),
        0 <= i < events.len(),
    ensures
        run_outputs(state, events).len() == events.len(),
        run_outputs(state, events)[i] == output_of(run_state(state, events.take(i)), events[i]),
    decreases events.len(),
{
    let earlier = events.drop_last();
    law_log_follows_arrivals(state, events);
    law_log_follows_arrivals(state, earlier);
    if i == events.len() - 1 {
        assert(events.take(i) =~= earlier);
    } else {
        lemma_run_outputs_index(state, earlier, i);
        assert(earlier.take(i) =~= events.take(i));
    }
}

/// Once the session has ended, no event changes the conversation and none
/// is answered: nothing more goes to the transport or to the interface.
pub proof fn law_nothing_after_shutdown(state: StateView, events: Seq<AppEventView>)
    requires
        !state.active,
    ensures
        run_state(state, events) == state,
        run_outputs(state, events) == Seq::<AppOutputView>::empty(),
    decreases events.len(),
{
    if events.len() > 0 {
        law_nothing_after_shutdown(state, events.drop_last());
    }
}

/// A request to quit takes effect when its turn comes, not before and not
/// after: every line that arrived ahead of it is logged and answered, in
/// order; the transport is then told to close; and whatever arrives behind
/// it is never processed.
pub proof fn law_shutdown_in_turn(
    state: StateView,
    ahead: Seq<AppEventView>,
    behind: Seq<AppEventView>,
)
    requires
        state.active,
        all_messages(ahead),
    ensures
        ({
            let events = ahead + seq![AppEventView::Ui(UiEventOutView::ShutDown)] + behind;
            let end = run_state(state, events);
            let outputs = run_outputs(state, events);
            &&& !end.active
            &&& end.messages == state.messages + messages_of(ahead)
            &&& end.messages.len() == state.messages.len() + ahead.len()
            &&& outputs.len() == ahead.len() + 1
            &&& outputs.last() == (AppOutputView {
                to_ui: None,
                to_net: Some(NetEventInView::ShutDown),
            })
            &&& forall|i: int|
                0 <= i < ahead.len() ==> #[trigger] outputs[i] == output_of(
                    run_state(state, ahead.take(i)),
                    ahead[i],
                )
        }),
{
    let quit = seq![AppEventView::Ui(UiEventOutView::ShutDown)];
    let events = ahead + quit + behind;
    let middle = run_state(state, ahead);
    law_log_follows_arrivals(state, ahead);
    lemma_run_concat(state, ahead + quit, behind);
    lemma_run_concat(state, ahead, quit);
    lemma_run_single(middle, quit[0]);
    law_nothing_after_shutdown(run_state(state, ahead + quit), behind);
    let outputs = run_outputs(state, events);
    assert(outputs =~= run_outputs(state, ahead).push(output_of(middle, quit[0])));
    assert forall|i: int| 0 <= i < ahead.len() implies #[trigger] outputs[i] == output_of(
        run_state(state, ahead.take(i)),
        ahead[i],
    ) by {
        lemma_run_outputs_index(state, ahead, i);
    }
}

/// The log only grows, and a session that has ended stays ended: whatever
/// arrives, the lines that were logged stay where they are, unchanged.
pub proof fn law_log_is_append_only(state: StateView, events: Seq<AppEventView>)
    ensures
        state.messages.is_prefix_of(run_state(state, events).messages),
        !state.active ==> !run_state(state, events).active,
    decreases events.len(),
{
    if events.len() > 0 {
        law_log_is_append_only(state, events.drop_last());
    }
}

/// Whatever log the interface is shown has been committed: it is the log of
/// the conversation as the same turn left it. The coordinator sends the
/// interface nothing else.
pub proof fn law_shown_log_is_committed(state: StateView, event: AppEventView)
    ensures
        output_of(state, event).to_ui matches Some(UiEventInView::Messages { messages })
            ==> messages == next_state(state, event).messages,
        output_of(state, event).to_ui != Some(UiEventInView::ShutDown),
{
}

/// A submitted line is not echoed. It enters the log once and is shown once;
/// the one command that it sends to the transport carries the line under the
/// local name; the transport answers that command with no event for the
/// coordinator; and what the transport sends for it cannot arrive at the
/// transport's own socket, so that the line does not return as a received
/// one either.
pub proof fn law_submit_is_not_echoed(state: StateView, config: NetConfigView, body: Seq<char>)
    requires
        sends_away(config),
    ensures
        ({
            let event = AppEventView::Ui(UiEventOutView::Message { body });
            let line = MessageView { from: USER_NAME@, body };
            let output = output_of(state, event);
            &&& state.active ==> {
                &&& next_state(state, event).messages == state.messages.push(line)
                &&& next_state(state, event).messages.len() == state.messages.len() + 1
                &&& output.to_ui == Some(
                    UiEventInView::Messages { messages: state.messages.push(line) },
                )
                &&& output.to_net == Some(NetEventInView::Message { from: USER_NAME@, body })
            }
            &&& !state.active ==> {
                &&& next_state(state, event) == state
                &&& output == (AppOutputView { to_ui: None, to_net: None })
            }
            &&& output.to_net matches Some(command) ==> {
                let sent = step_spec(config, NetInputView::Command(command));
                &&& !(sent is Deliver)
                &&& !comes_back(config, sent)
                &&& step_spec(config, own_echo(config, sent)) == NetActionView::Idle
            }
        }),
{
}

/// A submitted line that fits in one datagram reaches the peer's log as it
/// was submitted: the command it gives rise to is transmitted to the
/// configured destination, the transport that listens there passes the
/// datagram on, and its coordinator logs the line under the name of the
/// user who submitted it. The sender's own log holds the line once.
pub proof fn law_submitted_line_reaches_the_peer(
    local: StateView,
    peer: StateView,
    local_config: NetConfigView,
    peer_config: NetConfigView,
    body: Seq<char>,
)
    requires
        local.active,
        peer.active,
        sends_away(local_config),
        may_arrive(local_config.destination, peer_config.bind),
        encoding(NetPacketView::Message { from: USER_NAME@, body }).len() <= UDP_BUFFER_SIZE,
    ensures
        ({
            let submitted = AppEventView::Ui(UiEventOutView::Message { body });
            let line = MessageView { from: USER_NAME@, body };
            &&& output_of(local, submitted).to_net matches Some(command)
            &&& step_spec(local_config, NetInputView::Command(command))
                matches NetActionView::Transmit { payload, destination }
            &&& destination == local_config.destination
            &&& may_arrive(destination, peer_config.bind)
            &&& !may_arrive(destination, local_config.bind)
            &&& step_spec(peer_config, NetInputView::Datagram(payload))
                matches NetActionView::Deliver { event }
            &&& next_state(peer, AppEventView::Net(event)).messages == peer.messages.push(line)
            &&& next_state(local, submitted).messages == local.messages.push(line)
        }),
{
    law_decode_undoes_encode(NetPacketView::Message { from: USER_NAME@, body }, Seq::empty());
}

/// A received line is logged exactly as it came and shown; nothing is sent
/// in response.
pub proof fn law_received_is_logged_not_sent(state: StateView, from: Seq<char>, body: Seq<char>)
    requires
        state.active,
    ensures
        ({
            let event = AppEventView::Net(NetEventOutView::Message { from, body });
            let log = state.messages.push(MessageView { from, body });
            &&& next_state(state, event) == (StateView { messages: log, ..state })
            &&& output_of(state, event) == (AppOutputView {
                to_ui: Some(UiEventInView::Messages { messages: log }),
                to_net: None,
            })
        }),
{
}

} // verus!
