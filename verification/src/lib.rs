//! A three-actor chat client as a verified library.
//!
//! The conversation is owned by a single coordinator ([`app`]), which takes
//! events from the terminal interface ([`ui`]) and from the datagram
//! transport ([`net`]) and answers each with the events to hand back. The
//! packet that travels between two transports is described in [`wire`].
//!
//! Every component is written as a transition function from its state and one
//! input to its next state and the outputs owed; the caller owns the queues,
//! the socket and the terminal, and moves the values between them. The
//! transport is given the address it listens on and the address it sends to;
//! it accepts the two only if what it sends cannot arrive at its own socket.

pub mod app;
pub mod net;
pub mod ui;
pub mod wire;
