//! The transport: between the coordinator's commands and the datagram
//! socket.
//!
//! The transport keeps nothing of the conversation. Its loop waits by turns
//! on the command queue and on the socket, each time for a bounded while, so
//! that neither side can keep the other waiting. [`NetManager`] says which
//! side is next; the loop hands it what the wait gave and performs the one
//! action that comes back.
//!
//! Where the socket listens and where it sends is configuration
//! ([`NetConfig`]), given from outside and fixed for the session. A
//! configuration is accepted only if what is sent cannot arrive at the
//! socket that sent it, so that no line returns to its own sender.

use vstd::prelude::*;
use crate::wire::{decoding, encoding, law_decode_undoes_encode, NetPacket, NetPacketView};

verus! {

/// How long one read on the socket may wait, in milliseconds.
pub const READ_TIMEOUT_MS: u64 = 100;

/// How long one wait on the command queue may last, in milliseconds.
pub const RECV_TIMEOUT_MS: u64 = 100;

/// The largest payload one datagram carries.
pub const UDP_BUFFER_SIZE: usize = 65507;

/// One end of a datagram exchange: a host, by name or by number, and a
/// port.
#[derive(Debug, PartialEq, Eq)]
pub struct Endpoint {
    pub host: String,
    pub port: u16,
}

/// What an [`Endpoint`] stands for in contracts.
pub struct EndpointView {
    pub host: Seq<char>,
    pub port: u16,
}

impl View for Endpoint {
    type V = EndpointView;

    open spec fn view(&self) -> EndpointView {
        EndpointView { host: self.host@, port: self.port }
    }
}

impl Clone for Endpoint {
    fn clone(&self) -> (res: Self)
        ensures
            res == *self,
    {
        Endpoint { host: self.host.clone(), port: self.port }
    }
}

/// Whether a datagram addressed to `to` can arrive at a socket bound to
/// `socket`. A socket takes only what is addressed to its own port. What a
/// host name stands for is for the network to say, so nothing is concluded
/// from the hosts: with the ports equal, arrival is taken to be possible. A
/// socket bound to port 0 listens wherever the system puts it, which may be
/// any port.
pub open spec fn may_arrive(to: EndpointView, socket: EndpointView) -> bool {
    to.port == socket.port || socket.port == 0
}

/// What a [`NetConfig`] stands for in contracts.
pub struct NetConfigView {
    pub bind: EndpointView,
    pub destination: EndpointView,
}

/// Whether the configuration sends away from itself: what goes to the
/// destination cannot arrive at the socket bound to the local address.
pub open spec fn sends_away(config: NetConfigView) -> bool {
    !may_arrive(config.destination, config.bind)
}

/// The transport's two addresses: the local one its socket is bound to and
/// the remote one every datagram is sent to. Every value of this type sends
/// away from itself.
#[derive(Debug, PartialEq, Eq)]
pub struct NetConfig {
    bind: Endpoint,
    destination: Endpoint,
}

impl View for NetConfig {
    type V = NetConfigView;

    closed spec fn view(&self) -> NetConfigView {
        NetConfigView { bind: self.bind@, destination: self.destination@ }
    }
}

impl NetConfig {
    #[verifier::type_invariant]
    spec fn remote_destination(self) -> bool {
        sends_away(self@)
    }

    /// Accepts a local and a remote address, unless a datagram sent to the
    /// remote one could arrive at the socket bound to the local one.
    pub fn new(bind: Endpoint, destination: Endpoint) -> (config: Option<NetConfig>)
        ensures
            match config {
                Some(accepted) => accepted@ == (NetConfigView {
                    bind: bind@,
                    destination: destination@,
                }) && sends_away(accepted@),
                None => may_arrive(destination@, bind@),
            },
    {
        if bind.port == 0 || destination.port == bind.port {
            None
        } else {
            Some(NetConfig { bind, destination })
        }
    }

    /// The local address, to bind the socket to.
    pub fn bind(&self) -> (bind: &Endpoint)
        ensures
            bind@ == self@.bind,
            sends_away(self@),
    {
        proof {
            use_type_invariant(self);
        }
        &self.bind
    }

    /// The remote address, to send every datagram to.
    pub fn destination(&self) -> (destination: &Endpoint)
        ensures
            destination@ == self@.destination,
            sends_away(self@),
    {
        proof {
            use_type_invariant(self);
        }
        &self.destination
    }
}

/// A command from the coordinator to the transport.
#[derive(Debug, PartialEq, Eq)]
pub enum NetEventIn {
    Message { from: String, body: String },
    ShutDown {},
}

/// An event from the transport to the coordinator.
#[derive(Debug, PartialEq, Eq)]
pub enum NetEventOut {
    Message { from: String, body: String },
}

/// What a [`NetEventIn`] stands for in contracts.
pub enum NetEventInView {
    Message { from: Seq<char>, body: Seq<char> },
    ShutDown,
}

/// What a [`NetEventOut`] stands for in contracts.
pub enum NetEventOutView {
    Message { from: Seq<char>, body: Seq<char> },
}

impl View for NetEventIn {
    type V = NetEventInView;

    open spec fn view(&self) -> NetEventInView {
        match self {
            NetEventIn::Message { from, body } => NetEventInView::Message {
                from: from@,
                body: body@,
            },
            NetEventIn::ShutDown {  } => NetEventInView::ShutDown,
        }
    }
}

impl View for NetEventOut {
    type V = NetEventOutView;

    open spec fn view(&self) -> NetEventOutView {
        match self {
            NetEventOut::Message { from, body } => NetEventOutView::Message {
                from: from@,
                body: body@,
            },
        }
    }
}

/// What one turn of the transport's loop found.
#[derive(Debug, PartialEq, Eq)]
pub enum NetInput {
    /// The coordinator sent a command.
    Command(NetEventIn),
    /// A datagram arrived, from whatever source; these are its bytes.
    Datagram(Vec<u8>),
    /// The wait ran out, or failed, with nothing to show.
    Quiet,
}

/// What a [`NetInput`] stands for in contracts.
pub enum NetInputView {
    Command(NetEventInView),
    Datagram(Seq<u8>),
    Quiet,
}

impl View for NetInput {
    type V = NetInputView;

    open spec fn view(&self) -> NetInputView {
        match self {
            NetInput::Command(event) => NetInputView::Command(event@),
            NetInput::Datagram(bytes) => NetInputView::Datagram(bytes@),
            NetInput::Quiet => NetInputView::Quiet,
        }
    }
}

/// What the transport's loop is to do with what it found.
#[derive(Debug, PartialEq, Eq)]
pub enum NetAction {
    /// Send these bytes as one datagram to this address.
    Transmit { payload: Vec<u8>, destination: Endpoint },
    /// Pass this event to the coordinator.
    Deliver { event: NetEventOut },
    /// Leave the loop and let go of the socket.
    Close,
    /// Nothing to do.
    Idle,
}

/// What a [`NetAction`] stands for in contracts.
pub enum NetActionView {
    Transmit { payload: Seq<u8>, destination: EndpointView },
    Deliver { event: NetEventOutView },
    Close,
    Idle,
}

impl View for NetAction {
    type V = NetActionView;

    open spec fn view(&self) -> NetActionView {
        match self {
            NetAction::Transmit { payload, destination } => NetActionView::Transmit {
                payload: payload@,
                destination: destination@,
            },
            NetAction::Deliver { event } => NetActionView::Deliver { event: event@ },
            NetAction::Close => NetActionView::Close,
            NetAction::Idle => NetActionView::Idle,
        }
    }
}

/// What sending a line comes to: its packet goes out to the configured
/// destination if it fits in one datagram, and is dropped if it does not.
pub open spec fn send_action(
    config: NetConfigView,
    from: Seq<char>,
    body: Seq<char>,
) -> NetActionView {
    let payload = encoding(NetPacketView::Message { from, body });
    if payload.len() <= UDP_BUFFER_SIZE {
        NetActionView::Transmit { payload, destination: config.destination }
    } else {
        NetActionView::Idle
    }
}

/// What a received line comes to: it is passed on as it was claimed.
pub open spec fn recv_action(from: Seq<char>, body: Seq<char>) -> NetActionView {
    NetActionView::Deliver { event: NetEventOutView::Message { from, body } }
}

/// What a datagram comes to: the line it carries is passed on; bytes that
/// carry no packet are dropped.
pub open spec fn datagram_action(bytes: Seq<u8>) -> NetActionView {
    match decoding(bytes) {
        Some(NetPacketView::Message { from, body }) => recv_action(from, body),
        None => NetActionView::Idle,
    }
}

/// The transport's answer to each input, under its configuration.
pub open spec fn step_spec(config: NetConfigView, input: NetInputView) -> NetActionView {
    match input {
        NetInputView::Command(NetEventInView::Message { from, body }) => send_action(
            config,
            from,
            body,
        ),
        NetInputView::Command(NetEventInView::ShutDown) => NetActionView::Close,
        NetInputView::Datagram(bytes) => datagram_action(bytes),
        NetInputView::Quiet => NetActionView::Idle,
    }
}

/// Whether an action hands the network a datagram that can arrive at the
/// transport's own socket, and so come back to it as a received line.
pub open spec fn comes_back(config: NetConfigView, action: NetActionView) -> bool {
    action matches NetActionView::Transmit { destination, .. } && may_arrive(
        destination,
        config.bind,
    )
}

/// What the transport's own socket receives of an action of its own: the
/// datagram, if it can arrive there, and nothing otherwise.
pub open spec fn own_echo(config: NetConfigView, action: NetActionView) -> NetInputView {
    if comes_back(config, action) {
        NetInputView::Datagram(action->payload)
    } else {
        NetInputView::Quiet
    }
}

/// Turns a line to send into the datagram that carries it to the configured
/// destination. A line too long for one datagram is dropped.
pub fn handle_send_message(config: &NetConfig, from: String, body: String) -> (action: NetAction)
    ensures
        action@ == send_action(config@, from@, body@),
        !comes_back(config@, action@),
{
    let message = NetPacket::Message { from, body };
    let payload = message.encode();
    if payload.len() <= UDP_BUFFER_SIZE {
        NetAction::Transmit { payload, destination: config.destination().clone() }
    } else {
        NetAction::Idle
    }
}

/// Turns a line read off the socket into the event for the coordinator.
pub fn handle_recv_message(from: String, body: String) -> (action: NetAction)
    ensures
        action@ == recv_action(from@, body@),
{
    NetAction::Deliver { event: NetEventOut::Message { from, body } }
}

/// Decides what a datagram's bytes come to.
pub fn handle_datagram(bytes: &[u8]) -> (action: NetAction)
    ensures
        action@ == datagram_action(bytes@),
{
    match NetPacket::decode(bytes) {
        Some(NetPacket::Message { from, body }) => handle_recv_message(from, body),
        None => NetAction::Idle,
    }
}

/// The transport's answer to one input, whichever side it came from.
pub fn step(config: &NetConfig, input: NetInput) -> (action: NetAction)
    ensures
        action@ == step_spec(config@, input@),
        !comes_back(config@, action@),
{
    match input {
        NetInput::Command(NetEventIn::Message { from, body }) => handle_send_message(
            config,
            from,
            body,
        ),
        NetInput::Command(NetEventIn::ShutDown {  }) => NetAction::Close,
        NetInput::Datagram(bytes) => handle_datagram(bytes.as_slice()),
        NetInput::Quiet => NetAction::Idle,
    }
}

/// What the transport's loop is to wait on next.
#[derive(Clone, Copy, Debug, PartialEq, Eq)]
pub enum NetWait {
    /// The command queue, for at most [`RECV_TIMEOUT_MS`].
    Command,
    /// The socket, for at most [`READ_TIMEOUT_MS`].
    Datagram,
    /// Nothing: the loop is over.
    Stop,
}

/// The side to wait on after a wait on `wait`.
pub open spec fn other_side(wait: NetWait) -> NetWait {
    match wait {
        NetWait::Command => NetWait::Datagram,
        NetWait::Datagram => NetWait::Command,
        NetWait::Stop => NetWait::Stop,
    }
}

/// The wait that follows one turn. The command to shut down ends the loop;
/// anything else passes the turn to the other side; a loop that is over
/// stays over.
pub open spec fn next_wait(wait: NetWait, input: NetInputView) -> NetWait {
    if wait == NetWait::Stop || input == NetInputView::Command(NetEventInView::ShutDown) {
        NetWait::Stop
    } else {
        other_side(wait)
    }
}

/// The action of one turn: the transport's answer to the input, and nothing
/// at all once the loop is over.
pub open spec fn turn_action(
    wait: NetWait,
    config: NetConfigView,
    input: NetInputView,
) -> NetActionView {
    if wait == NetWait::Stop {
        NetActionView::Idle
    } else {
        step_spec(config, input)
    }
}

/// The transport as contracts see it: whose turn it is in the loop, and the
/// configuration it was made with.
pub struct NetManagerView {
    pub wait: NetWait,
    pub config: NetConfigView,
}

/// The transport: its configuration and whose turn it is in the loop.
pub struct NetManager {
    wait: NetWait,
    config: NetConfig,
}

impl View for NetManager {
    type V = NetManagerView;

    closed spec fn view(&self) -> NetManagerView {
        NetManagerView { wait: self.wait, config: self.config@ }
    }
}

impl NetManager {
    /// A transport at the start of its loop: the command queue is first.
    pub fn new(config: NetConfig) -> (net: NetManager)
        ensures
            net@ == (NetManagerView { wait: NetWait::Command, config: config@ }),
            sends_away(net@.config),
    {
        proof {
            use_type_invariant(&config);
        }
        NetManager { wait: NetWait::Command, config }
    }

    /// The configuration the transport was made with.
    pub fn config(&self) -> (config: &NetConfig)
        ensures
            config@ == self@.config,
            sends_away(self@.config),
    {
        proof {
            use_type_invariant(&self.config);
        }
        &self.config
    }

    /// What the loop is to wait on now.
    pub fn wait(&self) -> (wait: NetWait)
        ensures
            wait == self@.wait,
    {
        self.wait
    }

    /// One turn of the loop: takes what the wait gave, passes the turn on,
    /// and returns what is to be done. Whatever is to be sent goes to the
    /// configured destination, and never to the transport's own socket.
    pub fn turn(&mut self, input: NetInput) -> (action: NetAction)
        ensures
            final(self)@ == (NetManagerView {
                wait: next_wait(old(self)@.wait, input@),
                ..old(self)@
            }),
            action@ == turn_action(old(self)@.wait, old(self)@.config, input@),
            sends_away(final(self)@.config),
            !comes_back(final(self)@.config, action@),
    {
        proof {
            use_type_invariant(&self.config);
        }
        let other = match self.wait {
            NetWait::Command => NetWait::Datagram,
            NetWait::Datagram => NetWait::Command,
            NetWait::Stop => {
                return NetAction::Idle;
            },
        };
        let action = step(&self.config, input);
        self.wait = match &action {
            NetAction::Close => NetWait::Stop,
            _ => other,
        };
        action
    }
}

/// Nothing that the transport sends can arrive at its own socket: under a
/// configuration that sends away from itself, whatever the input, a
/// datagram goes to the configured destination and to nowhere else, and the
/// socket bound to the local address is not where it arrives.
pub proof fn law_nothing_comes_back(wait: NetWait, config: NetConfigView, input: NetInputView)
    requires
        sends_away(config),
    ensures
        !comes_back(config, step_spec(config, input)),
        !comes_back(config, turn_action(wait, config, input)),
        step_spec(config, input) matches NetActionView::Transmit { destination, .. } ==> {
            &&& destination == config.destination
            &&& !may_arrive(destination, config.bind)
        },
        own_echo(config, step_spec(config, input)) == NetInputView::Quiet,
        step_spec(config, own_echo(config, step_spec(config, input))) == NetActionView::Idle,
{
}

/// Bytes that carry no packet are dropped and nothing else happens: no
/// event goes to the coordinator, nothing is sent, and the transport does
/// not leave its loop.
pub proof fn law_malformed_datagram_is_dropped(
    wait: NetWait,
    config: NetConfigView,
    bytes: Seq<u8>,
)
    requires
        decoding(bytes) is None,
    ensures
        step_spec(config, NetInputView::Datagram(bytes)) == NetActionView::Idle,
        turn_action(wait, config, NetInputView::Datagram(bytes)) == NetActionView::Idle,
        wait != NetWait::Stop ==> next_wait(wait, NetInputView::Datagram(bytes)) != NetWait::Stop,
{
}

/// Whatever a datagram holds, the transport answers it by passing a line on
/// or by dropping it, and goes on to its next wait: no datagram can close
/// the transport or make it send.
pub proof fn law_datagram_is_passed_on_or_dropped(
    wait: NetWait,
    config: NetConfigView,
    bytes: Seq<u8>,
)
    ensures
        step_spec(config, NetInputView::Datagram(bytes)) is Deliver <==> decoding(bytes) is Some,
        step_spec(config, NetInputView::Datagram(bytes)) is Idle <==> decoding(bytes) is None,
        next_wait(wait, NetInputView::Datagram(bytes)) == other_side(wait),
{
}

/// The loop waits on its two sides by turns: as long as no command to shut
/// down arrives, each turn passes to the other side, so two turns in a row
/// come back to the side they started from.
pub proof fn law_sides_take_turns(wait: NetWait, first: NetInputView, second: NetInputView)
    requires
        wait != NetWait::Stop,
        first != NetInputView::Command(NetEventInView::ShutDown),
        second != NetInputView::Command(NetEventInView::ShutDown),
    ensures
        next_wait(wait, first) == other_side(wait),
        next_wait(wait, first) != wait,
        next_wait(next_wait(wait, first), second) == wait,
{
}

/// The command to shut down ends the loop in the turn in which it is taken,
/// and a loop that has ended stays ended: whatever is handed to it, it does
/// nothing and waits on nothing.
pub proof fn law_close_ends_the_loop(wait: NetWait, config: NetConfigView, input: NetInputView)
    ensures
        next_wait(wait, NetInputView::Command(NetEventInView::ShutDown)) == NetWait::Stop,
        next_wait(NetWait::Stop, input) == NetWait::Stop,
        turn_action(NetWait::Stop, config, input) is Idle,
{
}

/// A datagram that carries a line is passed on with the sender and the body
/// exactly as they were written, whatever follows them in the datagram.
pub proof fn law_valid_datagram_is_delivered(
    config: NetConfigView,
    from: Seq<char>,
    body: Seq<char>,
    trailing: Seq<u8>,
)
    requires
        encoding(NetPacketView::Message { from, body }).len() <= UDP_BUFFER_SIZE,
    ensures
        step_spec(
            config,
            NetInputView::Datagram(encoding(NetPacketView::Message { from, body }) + trailing),
        ) == recv_action(from, body),
{
    law_decode_undoes_encode(NetPacketView::Message { from, body }, trailing);
}

/// A command is not echoed. The transport answers it by sending, by
/// dropping or by closing, never by passing an event on; and what it sends
/// is addressed to the configured destination, where the transport's own
/// socket does not listen, so that the line cannot return to it as a
/// datagram either.
pub proof fn law_command_is_not_echoed(config: NetConfigView, command: NetEventInView)
    requires
        sends_away(config),
    ensures
        !(step_spec(config, NetInputView::Command(command)) is Deliver),
        !comes_back(config, step_spec(config, NetInputView::Command(command))),
        step_spec(
            config,
            own_echo(config, step_spec(config, NetInputView::Command(command))),
        ) == NetActionView::Idle,
{
}

/// What is sent for a line and then received by a peer is that line: the
/// peer's transport passes on the sender and the body that were given.
pub proof fn law_send_then_receive(config: NetConfigView, from: Seq<char>, body: Seq<char>)
    ensures
        send_action(config, from, body) matches NetActionView::Transmit { payload, .. }
            ==> datagram_action(payload) == recv_action(from, body),
{
    if encoding(NetPacketView::Message { from, body }).len() <= UDP_BUFFER_SIZE {
        law_decode_undoes_encode(NetPacketView::Message { from, body }, Seq::empty());
    }
}

} // verus!
