use chatapp::app::{App, AppEvent, Message};
use chatapp::net::{Endpoint, NetAction, NetConfig, NetEventIn, NetInput, NetManager, NetWait};
use chatapp::ui::{Key, KeyPress, UiEventIn, UiEventOut, UiManager};
use chatapp::wire::NetPacket;

fn press(key: Key) -> KeyPress {
    KeyPress { key, control: false }
}

/// A transport that listens on `bind_port` and sends to `destination_port`.
fn transport(bind_port: u16, destination_port: u16) -> NetManager {
    let config = NetConfig::new(
        Endpoint { host: "0.0.0.0".to_string(), port: bind_port },
        Endpoint { host: "127.0.0.1".to_string(), port: destination_port },
    )
    .expect("the two ports differ");
    NetManager::new(config)
}

/// The network between transports: a datagram is handed to those that
/// listen on the port it is addressed to, and to no other.
fn carry(action: NetAction, listeners: &mut [&mut NetManager]) -> Vec<NetAction> {
    let mut answers = Vec::new();
    if let NetAction::Transmit { payload, destination } = action {
        for listener in listeners.iter_mut() {
            if listener.config().bind().port == destination.port {
                while listener.wait() != NetWait::Datagram {
                    listener.turn(NetInput::Quiet);
                }
                answers.push(listener.turn(NetInput::Datagram(payload.clone())));
            }
        }
    }
    answers
}

fn line(from: &str, body: &str) -> Message {
    Message { from: from.to_string(), body: body.to_string() }
}

#[test]
fn decoded_packet_enters_the_log_and_nothing_is_sent_back() {
    let datagram = NetPacket::Message { from: "Alex".to_string(), body: "yo".to_string() }.encode();
    let mut net = transport(2510, 2511);
    net.turn(NetInput::Quiet);
    let event = match net.turn(NetInput::Datagram(datagram)) {
        NetAction::Deliver { event } => event,
        other => panic!("expected an event, got {:?}", other),
    };
    let mut app = App::new();
    let output = app.handle_event(AppEvent::Net(event));
    assert_eq!(app.state().messages(), &vec![line("Alex", "yo")]);
    assert_eq!(output.to_net, None);
    assert_eq!(output.to_ui, Some(UiEventIn::Messages { messages: vec![line("Alex", "yo")] }));
}

#[test]
fn submitted_line_is_not_echoed_back_to_its_coordinator() {
    let mut app = App::new();
    let output = app.handle_event(AppEvent::Ui(UiEventOut::Message { body: "hi".to_string() }));
    let command = output.to_net.expect("a submitted line is sent");
    let mut net = transport(2510, 2511);
    let action = net.turn(NetInput::Command(command));
    assert!(matches!(action, NetAction::Transmit { .. }));
    assert_eq!(app.state().messages(), &vec![line("Robyn", "hi")]);
}

#[test]
fn typed_line_travels_from_one_terminal_to_the_other() {
    // the sending side
    let mut ui = UiManager::new();
    for c in "héllo".chars() {
        assert_eq!(ui.handle_key_input(press(Key::Char(c))), None);
    }
    let submitted = ui.handle_key_input(press(Key::Enter)).expect("Enter submits");
    let mut app = App::new();
    let output = app.handle_event(AppEvent::Ui(submitted));
    ui.handle_events(output.to_ui);
    assert_eq!(ui.message_lines(), vec!["Robyn: héllo".to_string()]);
    let mut net = transport(2510, 2511);
    let payload = match net.turn(NetInput::Command(output.to_net.expect("sent"))) {
        NetAction::Transmit { payload, destination } => {
            assert_eq!(destination, Endpoint { host: "127.0.0.1".to_string(), port: 2511 });
            payload
        }
        other => panic!("expected a datagram, got {:?}", other),
    };

    // the receiving side
    let mut peer_net = transport(2511, 2510);
    peer_net.turn(NetInput::Quiet);
    let event = match peer_net.turn(NetInput::Datagram(payload)) {
        NetAction::Deliver { event } => event,
        other => panic!("expected an event, got {:?}", other),
    };
    let mut peer_app = App::new();
    let peer_output = peer_app.handle_event(AppEvent::Net(event));
    assert_eq!(peer_output.to_net, None);
    let mut peer_ui = UiManager::new();
    peer_ui.handle_events(peer_output.to_ui);
    assert_eq!(peer_ui.message_lines(), vec!["Robyn: héllo".to_string()]);
    assert_eq!(peer_app.state().messages(), app.state().messages());
}

#[test]
fn quit_gesture_shuts_down_all_three() {
    let mut ui = UiManager::new();
    let mut app = App::new();
    let mut net = transport(2510, 2511);
    let quit = ui
        .handle_key_input(KeyPress { key: Key::Char('c'), control: true })
        .expect("the gesture is reported");
    assert_eq!(quit, UiEventOut::ShutDown {});
    assert!(!ui.state().should_run());
    let output = app.handle_event(AppEvent::Ui(quit));
    assert!(!app.state().should_run());
    assert_eq!(output.to_ui, None);
    let command = output.to_net.expect("the transport is told");
    assert_eq!(command, NetEventIn::ShutDown {});
    assert_eq!(net.turn(NetInput::Command(command)), NetAction::Close);
    assert_eq!(net.wait(), NetWait::Stop);
}

#[test]
fn submitted_line_does_not_come_back_over_the_network() {
    let mut app = App::new();
    let mut net = transport(2510, 2511);
    let mut peer_app = App::new();
    let mut peer_net = transport(2511, 2510);

    let output = app.handle_event(AppEvent::Ui(UiEventOut::Message { body: "hi".to_string() }));
    let sent = net.turn(NetInput::Command(output.to_net.expect("a submitted line is sent")));
    let answers = carry(sent, &mut [&mut net, &mut peer_net]);

    // one transport took the datagram, and it was the peer's
    assert_eq!(answers.len(), 1);
    assert_eq!(net.wait(), NetWait::Datagram);
    for answer in answers {
        match answer {
            NetAction::Deliver { event } => {
                let reply = peer_app.handle_event(AppEvent::Net(event));
                assert_eq!(reply.to_net, None);
            }
            other => panic!("expected an event, got {:?}", other),
        }
    }
    assert_eq!(app.state().messages(), &vec![line("Robyn", "hi")]);
    assert_eq!(peer_app.state().messages(), &vec![line("Robyn", "hi")]);
}

#[test]
fn two_sides_talk_without_hearing_themselves() {
    let mut left = (App::new(), transport(2510, 2511));
    let mut right = (App::new(), transport(2511, 2510));
    for (from_left, body) in [(true, "hello"), (false, "hi there"), (true, "how are you?")] {
        let (sender, receiver) =
            if from_left { (&mut left, &mut right) } else { (&mut right, &mut left) };
        let output =
            sender.0.handle_event(AppEvent::Ui(UiEventOut::Message { body: body.to_string() }));
        while sender.1.wait() != NetWait::Command {
            sender.1.turn(NetInput::Quiet);
        }
        let sent = sender.1.turn(NetInput::Command(output.to_net.expect("sent")));
        for answer in carry(sent, &mut [&mut sender.1, &mut receiver.1]) {
            match answer {
                NetAction::Deliver { event } => {
                    receiver.0.handle_event(AppEvent::Net(event));
                }
                other => panic!("expected an event, got {:?}", other),
            }
        }
    }
    let expected =
        vec![line("Robyn", "hello"), line("Robyn", "hi there"), line("Robyn", "how are you?")];
    assert_eq!(left.0.state().messages(), &expected);
    assert_eq!(right.0.state().messages(), &expected);
}
