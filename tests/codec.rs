use lighting_midi::codec::{buttons_from_nodes, parse_buttons, LiveMessage, LiveParser, MarkupNode};
use lighting_midi::models::Button;
use lighting_midi::session::{greeting, handshake_step, heartbeat_reply, response_step, Awaited, Command, HandshakeStep, ResponseStep};

fn drain(p: &mut LiveParser) -> Vec<LiveMessage> {
    let mut out = Vec::new();
    while let Some(m) = p.next_message() {
        out.push(m);
    }
    out
}

fn feed_all(bytes: &[u8]) -> Vec<LiveMessage> {
    let mut p = LiveParser::new();
    p.feed(bytes);
    drain(&mut p)
}

fn names(buttons: &[Button]) -> Vec<(u32, String)> {
    buttons.iter().map(|b| (b.id, b.name.clone())).collect()
}

#[test]
fn hello_line_is_connected() {
    let msgs = feed_all(b"HELLO|Server\r\n");
    assert_eq!(msgs.len(), 1);
    assert!(matches!(&msgs[0], LiveMessage::Connected(s) if s == "Server"));
}

#[test]
fn partial_line_stays_buffered() {
    let mut p = LiveParser::new();
    p.feed(b"BEAT_O");
    assert!(p.next_message().is_none());
    p.feed(b"N\r");
    assert!(p.next_message().is_none());
    p.feed(b"\n");
    assert!(matches!(p.next_message(), Some(LiveMessage::BeatOn)));
    assert!(p.next_message().is_none());
}

#[test]
fn keywords_decode() {
    let msgs = feed_all(
        b"ERROR|bad password\r\nBEAT_ON\r\nBEAT_OFF\r\nBUTTON_PRESS|Go\r\nBUTTON_RELEASE|Stop\r\nFADER_CHANGE|3|-42\r\nINTERFACE_CHANGE|page2\r\nBPM|128.5\r\nOK\r\nSOMETHING_NEW|x\r\n",
    );
    assert_eq!(msgs.len(), 10);
    assert!(matches!(&msgs[0], LiveMessage::Error(s) if s == "bad password"));
    assert!(matches!(msgs[1], LiveMessage::BeatOn));
    assert!(matches!(msgs[2], LiveMessage::BeatOff));
    assert!(matches!(&msgs[3], LiveMessage::ButtonPress(s) if s == "Go"));
    assert!(matches!(&msgs[4], LiveMessage::ButtonRelease(s) if s == "Stop"));
    assert!(matches!(msgs[5], LiveMessage::FaderChange { index: 3, value: -42 }));
    assert!(matches!(&msgs[6], LiveMessage::InterfaceChange(s) if s == "page2"));
    assert!(matches!(&msgs[7], LiveMessage::Bpm(s) if s == "128.5"));
    assert!(matches!(msgs[8], LiveMessage::Ack));
    assert!(matches!(&msgs[9], LiveMessage::Unknown(s) if s == "SOMETHING_NEW|x"));
}

#[test]
fn malformed_fader_is_unknown() {
    let msgs = feed_all(b"FADER_CHANGE|x|1\r\nFADER_CHANGE|1\r\n");
    assert!(matches!(&msgs[0], LiveMessage::Unknown(s) if s == "FADER_CHANGE|x|1"));
    assert!(matches!(&msgs[1], LiveMessage::Unknown(s) if s == "FADER_CHANGE|1"));
}

#[test]
fn hello_without_name_is_empty() {
    let msgs = feed_all(b"HELLO\r\n");
    assert!(matches!(&msgs[0], LiveMessage::Connected(s) if s.is_empty()));
}

#[test]
fn ok_must_be_whole_line() {
    let msgs = feed_all(b"OKAY\r\n");
    assert!(matches!(&msgs[0], LiveMessage::Unknown(s) if s == "OKAY"));
}

#[test]
fn inline_catalog_decodes() {
    let msgs = feed_all(b"BUTTON_LIST|<buttons><button index=\"1\"> Go </button><button index=\"2\">Stop</button></buttons>\r\n");
    match &msgs[0] {
        LiveMessage::ButtonList(b) => {
            assert_eq!(names(b), vec![(1, "Go".to_string()), (2, "Stop".to_string())])
        }
        other => panic!("unexpected {:?}", other),
    }
}

#[test]
fn catalog_drops_entries_without_index() {
    let b = parse_buttons("<list><button>NoIndex</button><button index=\"x\">Bad</button><button index=\"7\">Ok7</button><other index=\"8\">Other</other><button index=\"9\"/><button index=\"10\"></button></list>");
    assert_eq!(names(&b), vec![(7, "Ok7".to_string())]);
}

#[test]
fn catalog_of_bad_markup_is_empty() {
    assert!(parse_buttons("<button index=\"1\">").is_empty());
    assert!(parse_buttons("").is_empty());
}

#[test]
fn catalog_tag_case_is_ignored() {
    let b = parse_buttons("<Button index=\"1\">Go</Button>");
    assert_eq!(names(&b), vec![(1, "Go".to_string())]);
}

#[test]
fn chunking_does_not_change_messages() {
    let stream: &[u8] = b"HELLO|Srv\r\nBEAT_ON\r\nBUTTON_LIST|10<b>x|y</b>\r\nBUTTON_PRESS|A\r\nBUTTON_LIST|<button index=\"4\">D</button>\r\nOK\r\nBPM|1";
    let whole: Vec<String> = feed_all(stream).iter().map(|m| format!("{:?}", m)).collect();
    let mut p = LiveParser::new();
    for b in stream {
        p.feed(std::slice::from_ref(b));
    }
    let bytewise: Vec<String> = drain(&mut p).iter().map(|m| format!("{:?}", m)).collect();
    assert_eq!(whole, bytewise);
    assert_eq!(whole.len(), 6);
    for cut in 0..stream.len() {
        let mut q = LiveParser::new();
        q.feed(&stream[..cut]);
        q.feed(&stream[cut..]);
        let split: Vec<String> = drain(&mut q).iter().map(|m| format!("{:?}", m)).collect();
        assert_eq!(whole, split);
    }
}

#[test]
fn length_prefixed_catalog_waits_for_payload() {
    let payload: &[u8] = b"<button index=\"1\">A\r\nB</button>";
    let n = payload.len();
    let mut p = LiveParser::new();
    p.feed(format!("BUTTON_LIST|{}", n).as_bytes());
    p.feed(&payload[..n - 1]);
    assert!(p.next_message().is_none());
    let mut rest = payload[n - 1..].to_vec();
    rest.extend_from_slice(b"\r");
    p.feed(&rest);
    assert!(p.next_message().is_none());
    p.feed(b"\n");
    let msgs = drain(&mut p);
    assert_eq!(msgs.len(), 1);
    match &msgs[0] {
        LiveMessage::ButtonList(b) => assert_eq!(names(b), vec![(1, "A\nB".to_string())]),
        other => panic!("unexpected {:?}", other),
    }
}

#[test]
fn length_prefixed_catalog_ignores_line_ends_inside() {
    let mut p = LiveParser::new();
    p.feed(b"BUTTON_LIST|4<\r\n");
    assert!(p.next_message().is_none());
    p.feed(b">\r\nOK\r\n");
    let msgs = drain(&mut p);
    assert_eq!(msgs.len(), 2);
    assert!(matches!(&msgs[0], LiveMessage::ButtonList(b) if b.is_empty()));
    assert!(matches!(msgs[1], LiveMessage::Ack));
}

#[test]
fn length_prefixed_catalog_split_anywhere_gives_one_list() {
    let payload: &[u8] = b"<list><button index=\"2\">Go</button></list>";
    let mut stream = format!("BUTTON_LIST|{}", payload.len()).into_bytes();
    stream.extend_from_slice(payload);
    stream.extend_from_slice(b"\r\n");
    for cut in 0..stream.len() {
        let mut p = LiveParser::new();
        p.feed(&stream[..cut]);
        let early = drain(&mut p);
        assert!(early.is_empty());
        p.feed(&stream[cut..]);
        let msgs = drain(&mut p);
        assert_eq!(msgs.len(), 1);
        match &msgs[0] {
            LiveMessage::ButtonList(b) => assert_eq!(names(b), vec![(2, "Go".to_string())]),
            other => panic!("unexpected {:?}", other),
        }
    }
}

#[test]
fn oversized_length_is_read_as_a_line() {
    let msgs = feed_all(b"BUTTON_LIST|99999999999<x/>\r\n");
    assert_eq!(msgs.len(), 1);
    assert!(matches!(&msgs[0], LiveMessage::ButtonList(b) if b.is_empty()));
}

#[test]
fn handshake_and_catalog_end_to_end() {
    assert_eq!(greeting("App", "secret"), b"HELLO|App|secret\r\n".to_vec());
    let mut p = LiveParser::new();
    p.feed(b"HELLO|Server\r\n");
    let m = p.next_message().unwrap();
    assert!(matches!(handshake_step(m), HandshakeStep::Ready));
    let request = Command::ButtonList;
    assert_eq!(request.encode(), b"BUTTON_LIST\r\n".to_vec());
    p.feed(b"BUTTON_LIST|<Button index=\"1\">Go</Button>\r\n");
    let m = p.next_message().unwrap();
    match response_step(request.awaits(), m) {
        ResponseStep::Buttons(b) => assert_eq!(names(&b), vec![(1, "Go".to_string())]),
        other => panic!("unexpected {:?}", other),
    }
}

#[test]
fn handshake_error_and_other_messages() {
    assert!(matches!(handshake_step(LiveMessage::Error("denied".to_string())), HandshakeStep::Rejected(s) if s == "denied"));
    assert!(matches!(handshake_step(LiveMessage::BeatOn), HandshakeStep::Wait));
    assert!(matches!(handshake_step(LiveMessage::Bpm("120".to_string())), HandshakeStep::Wait));
}

#[test]
fn heartbeat_is_answered() {
    assert_eq!(heartbeat_reply(&LiveMessage::Bpm("99".to_string())), Some(b"BPM|120\r\n".to_vec()));
    assert_eq!(heartbeat_reply(&LiveMessage::Ack), None);
}

#[test]
fn responses_are_correlated() {
    assert!(matches!(response_step(Awaited::Acknowledgement, LiveMessage::Ack), ResponseStep::Acknowledged));
    assert!(matches!(response_step(Awaited::Acknowledgement, LiveMessage::BeatOn), ResponseStep::Skip));
    assert!(matches!(response_step(Awaited::Acknowledgement, LiveMessage::ButtonList(vec![])), ResponseStep::Skip));
    assert!(matches!(response_step(Awaited::Catalog, LiveMessage::Ack), ResponseStep::Skip));
    assert!(matches!(response_step(Awaited::Catalog, LiveMessage::Error("no".to_string())), ResponseStep::Failed(s) if s == "no"));
    assert!(matches!(response_step(Awaited::Nothing, LiveMessage::Error("no".to_string())), ResponseStep::Skip));
}

#[test]
fn commands_encode() {
    assert_eq!(Command::ButtonPress("Go".to_string()).encode(), b"BUTTON_PRESS|Go\r\n".to_vec());
    assert_eq!(Command::ButtonRelease("Go".to_string()).encode(), b"BUTTON_RELEASE|Go\r\n".to_vec());
    assert_eq!(Command::Cue("Go".to_string()).encode(), b"CUE|Go\r\n".to_vec());
    assert_eq!(Command::Bpm(7).encode(), b"BPM|7\r\n".to_vec());
    assert_eq!(Command::Bpm(1200).encode(), b"BPM|1200\r\n".to_vec());
}

#[test]
fn invalid_utf8_is_replaced() {
    let msgs = feed_all(b"BUTTON_PRESS|\xffA\r\n");
    assert!(matches!(&msgs[0], LiveMessage::ButtonPress(s) if s == "\u{fffd}A"));
}

fn node(tag: &str, index: Option<&str>, text: Option<&str>) -> MarkupNode {
    MarkupNode {
        tag: tag.to_string(),
        index: index.map(|s| s.to_string()),
        text: text.map(|s| s.to_string()),
    }
}

#[test]
fn nodes_become_buttons() {
    let nodes = vec![
        node("", None, None),
        node("list", None, None),
        node("button", Some("3"), Some("  Go  ")),
        node("BUTTON", Some("+4"), Some("Stop")),
        node("button", Some("5"), None),
        node("button", None, Some("No index")),
        node("button", Some("-1"), Some("Negative")),
        node("buttons", Some("6"), Some("Other tag")),
    ];
    assert_eq!(
        names(&buttons_from_nodes(&nodes)),
        vec![(3, "Go".to_string()), (4, "Stop".to_string())]
    );
    assert!(buttons_from_nodes(&[]).is_empty());
}
