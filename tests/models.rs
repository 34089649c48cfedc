use lighting_midi::executor::{
    catalog_report, plan_preset, plan_single, ActionCommand, ActionExecutor, ConnectionState,
    Directive, ExecutionRun, Step,
};
use lighting_midi::matcher::PresetMatcher;
use lighting_midi::models::{
    check_conflicts, note_name, Button, ButtonAction, ButtonActionType, MidiLearnState,
    MidiMessage, MidiNote, MidiTrigger, Preset,
};
use lighting_midi::session::{on_read, Command, ReadAction, ReadEvent, SessionError};
use lighting_midi::text::{parse_i32, parse_u32, push_decimal};

fn note_on(channel: u8, note: u8, velocity: u8) -> MidiMessage {
    MidiMessage::NoteOn(MidiNote { channel, note, velocity })
}

fn preset_with(name: &str, triggers: Vec<MidiTrigger>) -> Preset {
    let mut p = Preset::new(name.to_string(), String::new());
    p.triggers = triggers;
    p
}

fn action(name: &str, kind: ButtonActionType, delay_ms: u64) -> ButtonAction {
    ButtonAction { button_id: 0, button_name: name.to_string(), action: kind, delay_ms }
}

#[test]
fn raw_messages_decode() {
    assert_eq!(MidiMessage::from_raw(&[0x91, 60, 100]), Some(note_on(1, 60, 100)));
    assert_eq!(
        MidiMessage::from_raw(&[0x90, 60, 0]),
        Some(MidiMessage::NoteOff(MidiNote { channel: 0, note: 60, velocity: 0 }))
    );
    assert_eq!(
        MidiMessage::from_raw(&[0x8F, 61, 5]),
        Some(MidiMessage::NoteOff(MidiNote { channel: 15, note: 61, velocity: 5 }))
    );
    assert_eq!(
        MidiMessage::from_raw(&[0xB2, 7, 64]),
        Some(MidiMessage::ControlChange { channel: 2, cc: 7, value: 64 })
    );
    assert_eq!(MidiMessage::from_raw(&[0xC0, 1, 1]), None);
    assert_eq!(MidiMessage::from_raw(&[0x90, 60]), None);
    assert_eq!(MidiMessage::from_raw(&[]), None);
}

#[test]
fn note_triggers_ignore_velocity() {
    let t = MidiTrigger::NoteOn { channel: 1, note: 60 };
    assert!(t.matches(&note_on(1, 60, 1)));
    assert!(t.matches(&note_on(1, 60, 127)));
    assert!(!t.matches(&note_on(2, 60, 1)));
    assert!(!t.matches(&MidiMessage::NoteOff(MidiNote { channel: 1, note: 60, velocity: 0 })));
}

#[test]
fn wildcard_trigger_matches_any_value() {
    let any = MidiTrigger::ControlChange { channel: 0, cc: 7, value: None };
    let exact = MidiTrigger::ControlChange { channel: 0, cc: 7, value: Some(64) };
    for v in [0u8, 1, 64, 127] {
        let m = MidiMessage::ControlChange { channel: 0, cc: 7, value: v };
        assert!(any.matches(&m));
        assert_eq!(exact.matches(&m), v == 64);
    }
    assert!(!any.matches(&MidiMessage::ControlChange { channel: 1, cc: 7, value: 0 }));
    assert!(!any.matches(&MidiMessage::ControlChange { channel: 0, cc: 8, value: 0 }));
}

#[test]
fn learning_records_a_trigger() {
    let mut learn = MidiLearnState::new();
    learn.capture(&note_on(0, 1, 1));
    assert_eq!(learn.captured, None);
    learn.active = true;
    learn.capture(&MidiMessage::ControlChange { channel: 3, cc: 9, value: 55 });
    assert!(!learn.active);
    assert_eq!(learn.captured, Some(MidiTrigger::ControlChange { channel: 3, cc: 9, value: None }));
    assert_eq!(
        MidiTrigger::from_message(&note_on(4, 5, 6)),
        Some(MidiTrigger::NoteOn { channel: 4, note: 5 })
    );
}

#[test]
fn display_names() {
    assert_eq!(MidiTrigger::NoteOn { channel: 0, note: 60 }.display_name(), "Note On Ch0 N60 (C)");
    assert_eq!(MidiTrigger::NoteOff { channel: 15, note: 61 }.display_name(), "Note Off Ch15 N61 (C#)");
    assert_eq!(MidiTrigger::ControlChange { channel: 1, cc: 7, value: Some(127) }.display_name(), "CC7 Ch1 = 127");
    assert_eq!(MidiTrigger::ControlChange { channel: 1, cc: 7, value: None }.display_name(), "CC7 Ch1 (any)");
    assert_eq!(note_on(2, 71, 100).display_name(), "Note On Ch2 N71 V100");
    assert_eq!(MidiMessage::NoteOff(MidiNote { channel: 0, note: 0, velocity: 0 }).display_name(), "Note Off Ch0 N0 V0");
    assert_eq!(MidiMessage::ControlChange { channel: 9, cc: 10, value: 0 }.display_name(), "CC10 Ch9 = 0");
    assert_eq!(note_name(69), "A");
    assert_eq!(note_name(127), "G");
    let mut s = String::from("x");
    push_decimal(&mut s, 4294967295);
    assert_eq!(s, "x4294967295");
}

#[test]
fn conflicts_are_found() {
    let t = MidiTrigger::NoteOn { channel: 0, note: 1 };
    let presets = vec![
        preset_with("a", vec![MidiTrigger::NoteOff { channel: 0, note: 1 }]),
        preset_with("b", vec![MidiTrigger::NoteOn { channel: 1, note: 1 }, t]),
    ];
    assert!(check_conflicts(&presets, &t));
    assert!(!check_conflicts(&presets, &MidiTrigger::NoteOn { channel: 0, note: 2 }));
    assert!(!check_conflicts(&[], &t));
}

#[test]
fn new_preset_is_empty() {
    let a = Preset::new("Intro".to_string(), "first".to_string());
    let b = Preset::new("Intro".to_string(), "first".to_string());
    assert_eq!(a.name, "Intro");
    assert_eq!(a.description, "first");
    assert!(a.triggers.is_empty() && a.actions.is_empty());
    assert_eq!(a.delay_ms, 0);
    assert_ne!(a.id, b.id);
}

#[test]
fn every_matching_preset_is_queued() {
    let ev = note_on(0, 60, 90);
    let presets = vec![
        preset_with("first", vec![MidiTrigger::NoteOn { channel: 0, note: 60 }]),
        preset_with("other", vec![MidiTrigger::NoteOn { channel: 0, note: 61 }]),
        preset_with("second", vec![
            MidiTrigger::NoteOff { channel: 0, note: 60 },
            MidiTrigger::NoteOn { channel: 0, note: 60 },
            MidiTrigger::NoteOn { channel: 0, note: 60 },
        ]),
    ];
    let mut m = PresetMatcher::new(presets);
    assert_eq!(m.handle_midi(&ev), vec![0, 2]);
    assert_eq!(m.handle_midi(&note_on(5, 5, 5)), Vec::<usize>::new());
    m.update_presets(Vec::new());
    assert_eq!(m.handle_midi(&ev), Vec::<usize>::new());
}

fn describe(steps: &[Step]) -> Vec<String> {
    steps.iter().map(|s| format!("{:?}", s)).collect()
}

#[test]
fn preset_plan_orders_waits_and_dispatches() {
    let mut p = Preset::new("p".to_string(), String::new());
    p.actions = vec![action("A", ButtonActionType::Press, 100), action("B", ButtonActionType::Toggle, 0)];
    let plan = plan_preset(&p);
    assert_eq!(
        describe(&plan),
        describe(&[
            Step::Wait(100),
            Step::Dispatch(Command::ButtonPress("A".to_string())),
            Step::Dispatch(Command::Cue("B".to_string())),
        ])
    );
    p.delay_ms = 250;
    let plan = plan_preset(&p);
    assert_eq!(plan.len(), 4);
    assert!(matches!(plan[0], Step::Wait(250)));
    let single = plan_single(&action("C", ButtonActionType::Release, 500));
    assert_eq!(describe(&single), describe(&[Step::Dispatch(Command::ButtonRelease("C".to_string()))]));
}

#[test]
fn failed_dispatch_stops_the_run() {
    let mut p = Preset::new("p".to_string(), String::new());
    p.actions = vec![action("A", ButtonActionType::Press, 100), action("B", ButtonActionType::Press, 0)];
    let mut run = ExecutionRun::new(plan_preset(&p));
    assert!(matches!(run.next_step(), Some(Step::Wait(100))));
    assert!(matches!(run.next_step(), Some(Step::Dispatch(Command::ButtonPress(n))) if n == "A"));
    run.fail();
    assert!(run.next_step().is_none());
    assert!(run.next_step().is_none());

    let mut ok_run = ExecutionRun::new(plan_preset(&p));
    ok_run.next_step();
    ok_run.next_step();
    assert!(matches!(ok_run.next_step(), Some(Step::Dispatch(Command::ButtonPress(n))) if n == "B"));
    assert!(ok_run.next_step().is_none());
}

#[test]
fn executor_connection_lifecycle() {
    let mut ex = ActionExecutor::new();
    assert_eq!(ex.state(), ConnectionState::Disconnected);
    assert!(matches!(ex.dispatch_allowed(), Err(SessionError::NotConnected)));
    match ex.handle_command(ActionCommand::Connect("127.0.0.1:7348".to_string(), "pw".to_string())) {
        Directive::Open { address, credential } => {
            assert_eq!(address, "127.0.0.1:7348");
            assert_eq!(credential, "pw");
        }
        _ => panic!("expected open"),
    }
    assert_eq!(ex.state(), ConnectionState::Connecting);
    ex.connection_opened(true);
    assert_eq!(ex.state(), ConnectionState::Connected);
    assert!(ex.dispatch_allowed().is_ok());
    assert!(matches!(ex.handle_command(ActionCommand::ConnectionError("x".to_string())), Directive::Report));
    assert_eq!(ex.state(), ConnectionState::Connected);
    assert!(matches!(ex.handle_command(ActionCommand::Disconnect), Directive::Close));
    assert_eq!(ex.state(), ConnectionState::Disconnected);
    ex.handle_command(ActionCommand::Connect("a".to_string(), String::new()));
    ex.connection_opened(false);
    assert_eq!(ex.state(), ConnectionState::Disconnected);
    match ex.handle_command(ActionCommand::ExecuteSingle(action("Go", ButtonActionType::Toggle, 9))) {
        Directive::Run(steps) => assert_eq!(steps.len(), 1),
        _ => panic!("expected run"),
    }
}

#[test]
fn catalog_outcomes_are_reported() {
    let ok = catalog_report(Ok(vec![Button { id: 3, name: "Go".to_string() }]));
    assert!(matches!(ok, ActionCommand::ConnectionSuccess(b) if b.len() == 1 && b[0].id == 3));
    let err = catalog_report(Err("Error: busy".to_string()));
    assert!(matches!(err, ActionCommand::ConnectionError(e) if e == "Error: busy"));
}

#[test]
fn read_outcomes() {
    assert!(matches!(on_read(true, ReadEvent::Received(0)), ReadAction::Fail(SessionError::Closed)));
    assert!(matches!(on_read(false, ReadEvent::Received(0)), ReadAction::Fail(SessionError::Closed)));
    assert!(matches!(on_read(false, ReadEvent::Received(12)), ReadAction::Feed));
    assert!(matches!(on_read(true, ReadEvent::TimedOut), ReadAction::Fail(SessionError::HandshakeTimeout)));
    assert!(matches!(on_read(false, ReadEvent::TimedOut), ReadAction::Retry));
}

#[test]
fn integers_read_like_std() {
    assert_eq!(parse_u32(b"0"), Some(0));
    assert_eq!(parse_u32(b"+17"), Some(17));
    assert_eq!(parse_u32(b"4294967295"), Some(u32::MAX));
    assert_eq!(parse_u32(b"4294967296"), None);
    assert_eq!(parse_u32(b"-1"), None);
    assert_eq!(parse_u32(b""), None);
    assert_eq!(parse_u32(b"+"), None);
    assert_eq!(parse_u32(b"1a"), None);
    assert_eq!(parse_i32(b"-2147483648"), Some(i32::MIN));
    assert_eq!(parse_i32(b"2147483647"), Some(i32::MAX));
    assert_eq!(parse_i32(b"2147483648"), None);
    assert_eq!(parse_i32(b"-"), None);
    assert_eq!(parse_i32(b"+5"), Some(5));
    for s in ["0", "12", "+3", "-7", "99999999999", "x", "-2147483649"] {
        assert_eq!(parse_i32(s.as_bytes()), s.parse::<i32>().ok());
        assert_eq!(parse_u32(s.as_bytes()), s.parse::<u32>().ok());
    }
}
