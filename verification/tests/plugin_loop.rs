use unirun::package::{Command, Hit, Package, Payload, Uuid};
use unirun::plugin::{wants_all, CommandLoop, LoopAction, LoopState, NO_SUCH_HIT};

fn hit(id: &str, title: &str) -> Hit {
    Hit {
        id: Uuid::from(id),
        title: title.to_string(),
        description: None,
        icon: None,
        use_pango: false,
    }
}

fn three_hits() -> Vec<Hit> {
    vec![hit("h1", "Firefox"), hit("h2", "Files"), hit("h3", "Fonts")]
}

fn command(id: &str, command: Command) -> Package {
    Package::with_id(Uuid::from(id), Payload::Command(command))
}

fn get_data(id: &str, text: &str) -> Package {
    command(id, Command::GetData(text.to_string()))
}

fn ok(id: &str) -> Package {
    Package::new(Payload::Result((Uuid::from(id), Ok(()))))
}

fn failed(id: &str) -> Package {
    Package::new(Payload::Result((Uuid::from(id), Err("busy".to_string()))))
}

fn sent_hit(action: LoopAction) -> (Uuid, Hit) {
    match action {
        LoopAction::Send(package) => match package.payload.clone() {
            Payload::Hit(hit) => (package.get_id(), hit),
            other => panic!("unexpected payload {:?}", other),
        },
        other => panic!("unexpected action {:?}", other),
    }
}

/// A loop that has sent the first of three hits under the identifier `e1`.
fn streaming() -> CommandLoop {
    let mut plugin = CommandLoop::new();
    assert!(matches!(plugin.receive(&get_data("g1", "f")), LoopAction::Search(_)));
    plugin.results_with(three_hits(), Uuid::from("k1"), Uuid::from("e1"));
    assert_eq!(plugin.state(), LoopState::StreamResults);
    plugin
}

#[test]
fn a_new_loop_waits_for_a_command() {
    let plugin = CommandLoop::new();
    assert_eq!(plugin.state(), LoopState::WaitCommand);
    assert!(plugin.hits().is_empty());
}

#[test]
fn get_data_asks_for_a_search() {
    let mut plugin = CommandLoop::new();
    match plugin.receive(&get_data("g1", "fire")) {
        LoopAction::Search(text) => assert_eq!(text, "fire"),
        other => panic!("unexpected {:?}", other),
    }
    assert_eq!(plugin.state(), LoopState::Searching);
}

#[test]
fn results_acknowledge_the_search_and_send_the_first_hit() {
    let mut plugin = CommandLoop::new();
    plugin.receive(&get_data("g1", "f"));
    let sent = plugin.results_with(three_hits(), Uuid::from("k1"), Uuid::from("e1"));
    assert_eq!(
        sent,
        vec![
            Package::with_id(Uuid::from("k1"), Payload::Result((Uuid::from("g1"), Ok(())))),
            Package::with_id(Uuid::from("e1"), Payload::Hit(hit("h1", "Firefox"))),
        ]
    );
    assert_eq!(plugin.state(), LoopState::StreamResults);
    assert_eq!(plugin.hits(), &three_hits());
}

#[test]
fn results_under_fresh_identifiers_answer_the_search() {
    let mut plugin = CommandLoop::new();
    plugin.receive(&get_data("g1", "f"));
    let sent = plugin.results(three_hits());
    assert_eq!(sent.len(), 2);
    assert_eq!(sent[0].payload, Payload::Result((Uuid::from("g1"), Ok(()))));
    assert_eq!(sent[1].payload, Payload::Hit(hit("h1", "Firefox")));
    assert_ne!(sent[0].get_id(), sent[1].get_id());
    // The acknowledgement of the hit's own identifier moves the stream on.
    let ack = Package::new(Payload::Result((sent[1].get_id(), Ok(()))));
    let (_, second) = sent_hit(plugin.receive(&ack));
    assert_eq!(second, hit("h2", "Files"));
}

#[test]
fn no_results_end_the_stream_at_once() {
    let mut plugin = CommandLoop::new();
    plugin.receive(&get_data("g1", "zzz"));
    let sent = plugin.results_with(Vec::new(), Uuid::from("k1"), Uuid::from("e1"));
    assert_eq!(
        sent,
        vec![
            Package::with_id(Uuid::from("k1"), Payload::Result((Uuid::from("g1"), Ok(())))),
            Package::with_id(Uuid::from("e1"), Payload::Command(Command::Abort)),
        ]
    );
    assert_eq!(plugin.state(), LoopState::WaitCommand);
}

#[test]
fn results_that_nobody_asked_for_are_dropped() {
    let mut plugin = CommandLoop::new();
    assert!(plugin.results(three_hits()).is_empty());
    assert_eq!(plugin.state(), LoopState::WaitCommand);
    assert!(plugin.hits().is_empty());
}

#[test]
fn each_acknowledgement_hands_out_the_next_hit() {
    let mut plugin = streaming();
    let action = plugin.receive_with(&ok("e1"), Uuid::from("e2"));
    assert_eq!(sent_hit(action), (Uuid::from("e2"), hit("h2", "Files")));
    let action = plugin.receive_with(&ok("e2"), Uuid::from("e3"));
    assert_eq!(sent_hit(action), (Uuid::from("e3"), hit("h3", "Fonts")));
    match plugin.receive_with(&ok("e3"), Uuid::from("e4")) {
        LoopAction::Send(package) => assert_eq!(
            package,
            Package::with_id(Uuid::from("e4"), Payload::Command(Command::Abort))
        ),
        other => panic!("unexpected {:?}", other),
    }
    assert_eq!(plugin.state(), LoopState::WaitCommand);
}

#[test]
fn a_withheld_acknowledgement_blocks_the_stream() {
    let mut plugin = streaming();
    for stray in [ok("e0"), ok("g1"), ok("k1"), failed("e9"), ok("")] {
        assert!(matches!(plugin.receive(&stray), LoopAction::Wait));
        assert_eq!(plugin.state(), LoopState::StreamResults);
    }
    // The stream stands where it stood: the second hit is next, not lost
    // and not sent twice.
    let action = plugin.receive_with(&ok("e1"), Uuid::from("e2"));
    assert_eq!(sent_hit(action), (Uuid::from("e2"), hit("h2", "Files")));
}

#[test]
fn an_old_acknowledgement_does_not_move_the_stream() {
    let mut plugin = streaming();
    plugin.receive_with(&ok("e1"), Uuid::from("e2"));
    assert!(matches!(plugin.receive(&ok("e1")), LoopAction::Wait));
    let action = plugin.receive_with(&ok("e2"), Uuid::from("e3"));
    assert_eq!(sent_hit(action), (Uuid::from("e3"), hit("h3", "Fonts")));
}

#[test]
fn a_refused_hit_is_not_sent_again() {
    let mut plugin = streaming();
    let action = plugin.receive_with(&failed("e1"), Uuid::from("e1b"));
    assert!(matches!(action, LoopAction::Wait));
    assert_eq!(plugin.state(), LoopState::StreamResults);
    assert!(matches!(plugin.receive(&ok("e1b")), LoopAction::Wait));
    let action = plugin.receive_with(&ok("e1"), Uuid::from("e2"));
    assert_eq!(sent_hit(action), (Uuid::from("e2"), hit("h2", "Files")));
}

#[test]
fn a_coordinator_that_keeps_refusing_gets_no_hit() {
    let mut plugin = streaming();
    for _ in 0..50 {
        assert!(matches!(plugin.receive(&failed("e1")), LoopAction::Wait));
    }
    assert_eq!(plugin.state(), LoopState::StreamResults);
    let action = plugin.receive_with(&ok("e1"), Uuid::from("e2"));
    assert_eq!(sent_hit(action), (Uuid::from("e2"), hit("h2", "Files")));
}

#[test]
fn refusals_and_acknowledgements_in_any_mix_lose_and_repeat_no_hit() {
    let mut plugin = streaming();
    let mut sent = vec![hit("h1", "Firefox")];
    let mut pending = "e1".to_string();
    let answers = [false, true, false, false, true, false];
    for (i, acknowledged) in answers.iter().enumerate() {
        let fresh = format!("f{}", i);
        let message = if *acknowledged { ok(&pending) } else { failed(&pending) };
        match plugin.receive_with(&message, Uuid::from(fresh.as_str())) {
            LoopAction::Send(package) => match package.payload {
                Payload::Hit(hit) => {
                    assert!(*acknowledged);
                    sent.push(hit);
                    pending = fresh;
                },
                other => panic!("unexpected payload {:?}", other),
            },
            LoopAction::Wait => assert!(!*acknowledged),
            other => panic!("unexpected action {:?}", other),
        }
    }
    assert_eq!(sent, vec![hit("h1", "Firefox"), hit("h2", "Files"), hit("h3", "Fonts")]);
    let action = plugin.receive(&ok(&pending));
    assert!(matches!(action, LoopAction::Send(p) if p.payload == Payload::Command(Command::Abort)));
    assert_eq!(plugin.state(), LoopState::WaitCommand);
}

#[test]
fn abort_stops_the_stream_at_once() {
    let mut plugin = streaming();
    assert!(matches!(plugin.receive(&command("a1", Command::Abort)), LoopAction::Wait));
    assert_eq!(plugin.state(), LoopState::WaitCommand);
    assert!(matches!(plugin.receive(&ok("e1")), LoopAction::Violation));
    assert_eq!(plugin.state(), LoopState::Terminated);
}

#[test]
fn abort_without_a_stream_does_nothing() {
    let mut plugin = CommandLoop::new();
    assert!(matches!(plugin.receive(&command("a1", Command::Abort)), LoopAction::Wait));
    assert_eq!(plugin.state(), LoopState::WaitCommand);
}

#[test]
fn a_command_in_the_stream_is_a_violation() {
    let mut plugin = streaming();
    assert!(matches!(plugin.receive(&get_data("g2", "x")), LoopAction::Violation));
    assert_eq!(plugin.state(), LoopState::Terminated);
    assert!(matches!(plugin.receive(&ok("e1")), LoopAction::Wait));
}

#[test]
fn quit_ends_the_loop() {
    let mut plugin = CommandLoop::new();
    assert!(matches!(plugin.receive(&command("q1", Command::Quit)), LoopAction::Terminate));
    assert_eq!(plugin.state(), LoopState::Terminated);
    assert!(matches!(plugin.receive(&get_data("g1", "f")), LoopAction::Wait));
    assert_eq!(plugin.state(), LoopState::Terminated);
}

#[test]
fn what_is_no_command_is_a_violation_while_waiting() {
    let mut plugin = CommandLoop::new();
    assert!(matches!(plugin.receive(&ok("x")), LoopAction::Violation));
    assert_eq!(plugin.state(), LoopState::Terminated);
    let mut plugin = CommandLoop::new();
    let stray = Package::new(Payload::Hit(hit("h", "Stray")));
    assert!(matches!(plugin.receive(&stray), LoopAction::Violation));
}

/// A loop that has streamed three hits to the end.
fn served() -> CommandLoop {
    let mut plugin = streaming();
    plugin.receive_with(&ok("e1"), Uuid::from("e2"));
    plugin.receive_with(&ok("e2"), Uuid::from("e3"));
    plugin.receive_with(&ok("e3"), Uuid::from("e4"));
    assert_eq!(plugin.state(), LoopState::WaitCommand);
    plugin
}

#[test]
fn activate_launches_the_hit_with_that_identifier() {
    let mut plugin = served();
    let action = plugin.receive(&command("c1", Command::Activate(Uuid::from("h2"))));
    assert!(matches!(action, LoopAction::Launch(1)));
    assert_eq!(plugin.state(), LoopState::RunActivation);
    let reply = plugin.activated_with(Ok(()), Uuid::from("r1")).unwrap();
    assert_eq!(
        reply,
        Package::with_id(Uuid::from("r1"), Payload::Result((Uuid::from("c1"), Ok(()))))
    );
    assert_eq!(plugin.state(), LoopState::WaitCommand);
}

#[test]
fn a_failed_activation_is_answered_with_its_detail() {
    let mut plugin = served();
    plugin.receive(&command("c1", Command::Activate(Uuid::from("h3"))));
    let reply = plugin.activated(Err("cannot launch".to_string())).unwrap();
    assert_eq!(
        reply.payload,
        Payload::Result((Uuid::from("c1"), Err("cannot launch".to_string())))
    );
    assert_eq!(plugin.state(), LoopState::WaitCommand);
}

#[test]
fn activate_for_an_unknown_hit_is_refused() {
    let mut plugin = served();
    let action =
        plugin.receive_with(&command("c1", Command::Activate(Uuid::from("h9"))), Uuid::from("r1"));
    match action {
        LoopAction::Send(package) => {
            assert_eq!(package.get_id(), Uuid::from("r1"));
            assert_eq!(
                package.payload,
                Payload::Result((Uuid::from("c1"), Err("no hit has this identifier".to_string())))
            );
            assert_eq!(NO_SUCH_HIT, "no hit has this identifier");
        },
        other => panic!("unexpected action {:?}", other),
    }
    assert_eq!(plugin.state(), LoopState::WaitCommand);
    assert!(plugin.activated(Ok(())).is_none());
}

#[test]
fn activate_without_any_search_is_refused() {
    let mut plugin = CommandLoop::new();
    let action = plugin.receive(&command("c1", Command::Activate(Uuid::from("h1"))));
    match action {
        LoopAction::Send(package) => assert_eq!(
            package.payload,
            Payload::Result((Uuid::from("c1"), Err(NO_SUCH_HIT.to_string())))
        ),
        other => panic!("unexpected action {:?}", other),
    }
    assert_eq!(plugin.state(), LoopState::WaitCommand);
    assert!(plugin.hits().is_empty());
}

#[test]
fn only_the_empty_text_asks_for_everything() {
    assert!(wants_all(""));
    assert!(!wants_all(" "));
    assert!(!wants_all("fire"));
    assert!(!wants_all("\u{0}"));
}

#[test]
fn a_new_search_replaces_the_hits() {
    let mut plugin = served();
    plugin.receive(&get_data("g2", "x"));
    plugin.results_with(vec![hit("h7", "Xterm")], Uuid::from("k2"), Uuid::from("e7"));
    assert_eq!(plugin.hits(), &vec![hit("h7", "Xterm")]);
    let action = plugin.receive_with(&ok("e7"), Uuid::from("e8"));
    assert!(matches!(action, LoopAction::Send(_)));
    let action = plugin.receive(&command("c1", Command::Activate(Uuid::from("h1"))));
    assert!(matches!(
        action,
        LoopAction::Send(p) if p.payload == Payload::Result((Uuid::from("c1"), Err(NO_SUCH_HIT.to_string())))
    ));
    let action = plugin.receive(&command("c2", Command::Activate(Uuid::from("h7"))));
    assert!(matches!(action, LoopAction::Launch(0)));
}

#[test]
fn nothing_is_read_while_the_plugin_searches() {
    let mut plugin = CommandLoop::new();
    plugin.receive(&get_data("g1", "f"));
    assert!(matches!(plugin.receive(&command("a1", Command::Abort)), LoopAction::Wait));
    assert!(matches!(plugin.receive(&command("q1", Command::Quit)), LoopAction::Wait));
    assert_eq!(plugin.state(), LoopState::Searching);
}
