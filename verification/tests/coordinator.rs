use chatapp::app::{App, AppEvent, AppOutput, Message, State, USER_NAME};
use chatapp::net::{NetEventIn, NetEventOut};
use chatapp::ui::{UiEventIn, UiEventOut};

fn line(from: &str, body: &str) -> Message {
    Message { from: from.to_string(), body: body.to_string() }
}

fn submit(body: &str) -> AppEvent {
    AppEvent::Ui(UiEventOut::Message { body: body.to_string() })
}

fn received(from: &str, body: &str) -> AppEvent {
    AppEvent::Net(NetEventOut::Message { from: from.to_string(), body: body.to_string() })
}

fn quit() -> AppEvent {
    AppEvent::Ui(UiEventOut::ShutDown {})
}

#[test]
fn local_user_is_robyn() {
    assert_eq!(USER_NAME, "Robyn");
}

#[test]
fn state_starts_running_and_empty() {
    let state = State::default();
    assert!(state.should_run());
    assert!(state.messages().is_empty());
}

#[test]
fn state_add_message_appends_in_order() {
    let mut state = State::default();
    state.add_message(&"Alex".to_string(), &"one".to_string());
    state.add_message(&"Robyn".to_string(), &"two".to_string());
    assert_eq!(state.messages(), &vec![line("Alex", "one"), line("Robyn", "two")]);
    assert!(state.should_run());
}

#[test]
fn state_shutdown_keeps_the_log() {
    let mut state = State::default();
    state.add_message(&"Alex".to_string(), &"one".to_string());
    state.shutdown();
    assert!(!state.should_run());
    assert_eq!(state.messages(), &vec![line("Alex", "one")]);
    state.shutdown();
    assert!(!state.should_run());
}

#[test]
fn state_snapshot_is_a_copy() {
    let mut state = State::default();
    state.add_message(&"Alex".to_string(), &"one".to_string());
    let mut copy = state.snapshot();
    assert_eq!(copy, vec![line("Alex", "one")]);
    copy.push(line("Eve", "forged"));
    copy[0].body.push('!');
    assert_eq!(state.messages(), &vec![line("Alex", "one")]);
}

#[test]
fn message_clone_is_equal() {
    let m = line("Alex", "yo");
    assert_eq!(m.clone(), m);
}

#[test]
fn submit_is_logged_shown_and_sent() {
    let mut app = App::new();
    let output = app.handle_event(submit("hi"));
    assert_eq!(app.state().messages(), &vec![line("Robyn", "hi")]);
    assert!(app.state().should_run());
    assert_eq!(
        output,
        AppOutput {
            to_ui: Some(UiEventIn::Messages { messages: vec![line("Robyn", "hi")] }),
            to_net: Some(NetEventIn::Message { from: "Robyn".to_string(), body: "hi".to_string() }),
        }
    );
}

#[test]
fn received_is_logged_shown_and_not_sent() {
    let mut app = App::new();
    let output = app.handle_event(received("Alex", "yo"));
    assert_eq!(app.state().messages(), &vec![line("Alex", "yo")]);
    assert_eq!(
        output,
        AppOutput {
            to_ui: Some(UiEventIn::Messages { messages: vec![line("Alex", "yo")] }),
            to_net: None,
        }
    );
}

#[test]
fn received_under_the_local_name_is_taken_as_claimed() {
    let mut app = App::new();
    let output = app.handle_event(received("Robyn", "not me"));
    assert_eq!(app.state().messages(), &vec![line("Robyn", "not me")]);
    assert_eq!(output.to_net, None);
}

#[test]
fn shutdown_closes_the_transport_and_ends_the_session() {
    let mut app = App::new();
    app.handle_event(submit("hi"));
    let output = app.handle_event(quit());
    assert_eq!(output, AppOutput { to_ui: None, to_net: Some(NetEventIn::ShutDown {}) });
    assert!(!app.state().should_run());
    assert_eq!(app.state().messages(), &vec![line("Robyn", "hi")]);
}

#[test]
fn nothing_is_processed_after_shutdown() {
    let mut app = App::new();
    app.handle_event(received("Alex", "yo"));
    app.handle_event(quit());
    for event in [submit("late"), received("Alex", "later"), quit()] {
        let output = app.handle_event(event);
        assert_eq!(output, AppOutput { to_ui: None, to_net: None });
    }
    assert!(!app.state().should_run());
    assert_eq!(app.state().messages(), &vec![line("Alex", "yo")]);
}

#[test]
fn log_follows_arrival_order() {
    let mut app = App::new();
    let outputs = app.run(vec![
        submit("one"),
        received("Alex", "two"),
        received("Eve", "three"),
        submit("four"),
        submit(""),
    ]);
    let expected = vec![
        line("Robyn", "one"),
        line("Alex", "two"),
        line("Eve", "three"),
        line("Robyn", "four"),
        line("Robyn", ""),
    ];
    assert_eq!(app.state().messages(), &expected);
    assert_eq!(app.state().messages().len(), 5);
    assert_eq!(outputs.len(), 5);
    for (i, output) in outputs.iter().enumerate() {
        assert_eq!(
            output.to_ui,
            Some(UiEventIn::Messages { messages: expected[..i + 1].to_vec() })
        );
    }
    let sent: Vec<bool> = outputs.iter().map(|o| o.to_net.is_some()).collect();
    assert_eq!(sent, vec![true, false, false, true, true]);
    assert!(app.state().should_run());
}

#[test]
fn run_of_no_events_changes_nothing() {
    let mut app = App::new();
    let outputs = app.run(vec![]);
    assert!(outputs.is_empty());
    assert!(app.state().should_run());
    assert!(app.state().messages().is_empty());
}

#[test]
fn submits_queued_ahead_of_shutdown_are_processed_first() {
    let mut app = App::new();
    let outputs = app.run(vec![submit("first"), submit("second"), quit()]);
    assert_eq!(app.state().messages(), &vec![line("Robyn", "first"), line("Robyn", "second")]);
    assert!(!app.state().should_run());
    assert_eq!(outputs.len(), 3);
    assert_eq!(
        outputs[0].to_net,
        Some(NetEventIn::Message { from: "Robyn".to_string(), body: "first".to_string() })
    );
    assert_eq!(
        outputs[1].to_net,
        Some(NetEventIn::Message { from: "Robyn".to_string(), body: "second".to_string() })
    );
    assert_eq!(outputs[2], AppOutput { to_ui: None, to_net: Some(NetEventIn::ShutDown {}) });
}

#[test]
fn events_queued_behind_shutdown_are_never_taken() {
    let mut app = App::new();
    let outputs = app.run(vec![received("Alex", "yo"), quit(), submit("late"), submit("later")]);
    assert_eq!(app.state().messages(), &vec![line("Alex", "yo")]);
    assert!(!app.state().should_run());
    assert_eq!(outputs.len(), 2);
    assert_eq!(outputs[1], AppOutput { to_ui: None, to_net: Some(NetEventIn::ShutDown {}) });
    let sends = outputs
        .iter()
        .filter(|o| matches!(o.to_net, Some(NetEventIn::Message { .. })))
        .count();
    assert_eq!(sends, 0);
}

#[test]
fn run_agrees_with_turn_by_turn() {
    let events = || vec![submit("a"), received("Alex", "b"), quit(), submit("c")];
    let mut batch = App::new();
    let outputs = batch.run(events());
    let mut single = App::new();
    let mut expected = Vec::new();
    for event in events() {
        if single.state().should_run() {
            expected.push(single.handle_event(event));
        }
    }
    assert_eq!(outputs, expected);
    assert_eq!(batch.state().messages(), single.state().messages());
    assert_eq!(batch.state().should_run(), single.state().should_run());
}

#[test]
fn run_continues_from_the_state_it_finds() {
    let mut app = App::new();
    app.run(vec![submit("a")]);
    let outputs = app.run(vec![received("Alex", "b")]);
    assert_eq!(app.state().messages(), &vec![line("Robyn", "a"), line("Alex", "b")]);
    assert_eq!(outputs.len(), 1);
    app.run(vec![quit()]);
    let outputs = app.run(vec![submit("c"), quit()]);
    assert!(outputs.is_empty());
    assert_eq!(app.state().messages().len(), 2);
}

#[test]
fn submitted_line_is_logged_once_by_its_own_step() {
    let mut app = App::new();
    app.handle_net_message("Alex".to_string(), "a".to_string());
    let before = app.state().messages().len();
    let output = app.handle_ui_message("b".to_string());
    assert_eq!(app.state().messages().len(), before + 1);
    assert_eq!(app.state().messages(), &vec![line("Alex", "a"), line("Robyn", "b")]);
    assert_eq!(
        output,
        AppOutput {
            to_ui: Some(UiEventIn::Messages {
                messages: vec![line("Alex", "a"), line("Robyn", "b")]
            }),
            to_net: Some(NetEventIn::Message { from: "Robyn".to_string(), body: "b".to_string() }),
        }
    );
}

#[test]
fn received_line_is_logged_once_by_its_own_step() {
    let mut app = App::new();
    let output = app.handle_net_message("Eve".to_string(), "c".to_string());
    assert_eq!(app.state().messages(), &vec![line("Eve", "c")]);
    assert_eq!(
        output,
        AppOutput { to_ui: Some(UiEventIn::Messages { messages: vec![line("Eve", "c")] }), to_net: None }
    );
}

#[test]
fn shutdown_step_closes_the_transport_once() {
    let mut app = App::new();
    app.handle_ui_message("a".to_string());
    let output = app.handle_shutdown();
    assert_eq!(output, AppOutput { to_ui: None, to_net: Some(NetEventIn::ShutDown {}) });
    assert!(!app.state().should_run());
    let again = app.handle_shutdown();
    assert_eq!(again, AppOutput { to_ui: None, to_net: None });
    assert_eq!(app.state().messages(), &vec![line("Robyn", "a")]);
}

#[test]
fn steps_called_after_shutdown_do_nothing() {
    let mut app = App::new();
    app.handle_shutdown();
    assert_eq!(app.handle_ui_message("late".to_string()), AppOutput { to_ui: None, to_net: None });
    assert_eq!(
        app.handle_net_message("Alex".to_string(), "later".to_string()),
        AppOutput { to_ui: None, to_net: None }
    );
    assert!(app.state().messages().is_empty());
    assert!(!app.state().should_run());
}
