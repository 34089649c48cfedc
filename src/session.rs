//! The decisions of a protocol session: what to send, and what each received
//! message or read outcome means for the greeting and for a pending request.
use vstd::prelude::*;
use vstd::utf8::encode_utf8;

use crate::codec::{crlf, tag_bpm, tag_button_press, tag_button_release, tag_hello, LiveMessage, MessageView};
use crate::models::Button;
use crate::text::{decimal_bytes, push_decimal_bytes};

verus! {

/// The tempo sent back whenever the device asks for one.
pub const HEARTBEAT_BPM: u32 = 120;

/// Seconds that one read may take before it is given up.
pub const READ_TIMEOUT_SECS: u64 = 5;

/// A command for the device.
#[derive(Clone, Debug)]
pub enum Command {
    ButtonList,
    ButtonPress(String),
    ButtonRelease(String),
    /// Toggles a button.
    Cue(String),
    /// Answers a tempo query.
    Bpm(u32),
}

pub enum CommandView {
    ButtonList,
    ButtonPress(Seq<char>),
    ButtonRelease(Seq<char>),
    Cue(Seq<char>),
    Bpm(u32),
}

impl View for Command {
    type V = CommandView;

    open spec fn view(&self) -> CommandView {
        match self {
            Command::ButtonList => CommandView::ButtonList,
            Command::ButtonPress(n) => CommandView::ButtonPress(n@),
            Command::ButtonRelease(n) => CommandView::ButtonRelease(n@),
            Command::Cue(n) => CommandView::Cue(n@),
            Command::Bpm(v) => CommandView::Bpm(*v),
        }
    }
}

pub open spec fn tag_list_request() -> Seq<u8> {
    seq![66u8, 85, 84, 84, 79, 78, 95, 76, 73, 83, 84]
}

pub open spec fn tag_cue() -> Seq<u8> {
    seq![67u8, 85, 69, 124]
}

/// The bytes of a command on the wire, terminator included.
pub open spec fn command_bytes(c: CommandView) -> Seq<u8> {
    match c {
        CommandView::ButtonList => tag_list_request() + crlf(),
        CommandView::ButtonPress(n) => tag_button_press() + encode_utf8(n) + crlf(),
        CommandView::ButtonRelease(n) => tag_button_release() + encode_utf8(n) + crlf(),
        CommandView::Cue(n) => tag_cue() + encode_utf8(n) + crlf(),
        CommandView::Bpm(v) => tag_bpm() + decimal_bytes(v as nat) + crlf(),
    }
}

/// The greeting: `HELLO|<app-name>|<credential>` and the terminator.
pub open spec fn greeting_bytes(app_name: Seq<char>, credential: Seq<char>) -> Seq<u8> {
    tag_hello() + seq![124u8] + encode_utf8(app_name) + seq![124u8] + encode_utf8(credential)
        + crlf()
}

fn push_bytes(v: &mut Vec<u8>, b: &[u8])
    ensures
        final(v)@ == old(v)@ + b@,
{
    v.extend_from_slice(b);
    assert(v@ =~= old(v)@ + b@);
}

fn push_crlf(v: &mut Vec<u8>)
    ensures
        final(v)@ == old(v)@ + crlf(),
{
    v.push(13);
    v.push(10);
    assert(v@ =~= old(v)@ + crlf());
}

pub fn greeting(app_name: &str, credential: &str) -> (r: Vec<u8>)
    ensures
        r@ == greeting_bytes(app_name@, credential@),
{
    let hello: [u8; 5] = [72, 69, 76, 76, 79];
    assert(hello@ == tag_hello());
    let mut v: Vec<u8> = Vec::new();
    push_bytes(&mut v, &hello);
    v.push(124);
    push_bytes(&mut v, app_name.as_bytes());
    v.push(124);
    push_bytes(&mut v, credential.as_bytes());
    push_crlf(&mut v);
    assert(v@ =~= greeting_bytes(app_name@, credential@));
    v
}

impl Command {
    pub fn encode(&self) -> (r: Vec<u8>)
        ensures
            r@ == command_bytes(self@),
    {
        let mut v: Vec<u8> = Vec::new();
        match self {
            Command::ButtonList => {
                let tag: [u8; 11] = [66, 85, 84, 84, 79, 78, 95, 76, 73, 83, 84];
                assert(tag@ == tag_list_request());
                push_bytes(&mut v, &tag);
            },
            Command::ButtonPress(n) => {
                let tag: [u8; 13] = [66, 85, 84, 84, 79, 78, 95, 80, 82, 69, 83, 83, 124];
                assert(tag@ == tag_button_press());
                push_bytes(&mut v, &tag);
                push_bytes(&mut v, n.as_str().as_bytes());
            },
            Command::ButtonRelease(n) => {
                let tag: [u8; 15] = [66, 85, 84, 84, 79, 78, 95, 82, 69, 76, 69, 65, 83, 69, 124];
                assert(tag@ == tag_button_release());
                push_bytes(&mut v, &tag);
                push_bytes(&mut v, n.as_str().as_bytes());
            },
            Command::Cue(n) => {
                let tag: [u8; 4] = [67, 85, 69, 124];
                assert(tag@ == tag_cue());
                push_bytes(&mut v, &tag);
                push_bytes(&mut v, n.as_str().as_bytes());
            },
            Command::Bpm(value) => {
                let tag: [u8; 4] = [66, 80, 77, 124];
                assert(tag@ == tag_bpm());
                push_bytes(&mut v, &tag);
                push_decimal_bytes(&mut v, *value);
            },
        }
        push_crlf(&mut v);
        assert(v@ =~= command_bytes(self@));
        v
    }
}

/// What the answer to the greeting means.
#[derive(Debug)]
pub enum HandshakeStep {
    /// The device accepted the greeting.
    Ready,
    /// The device refused it, with its reason.
    Rejected(String),
    /// Not an answer to the greeting; keep reading.
    Wait,
}

pub fn handshake_step(msg: LiveMessage) -> (r: HandshakeStep)
    ensures
        match msg@ {
            MessageView::Connected(_) => r is Ready,
            MessageView::Error(e) => r matches HandshakeStep::Rejected(s) && s@ == e,
            _ => r is Wait,
        },
{
    match msg {
        LiveMessage::Connected(_) => HandshakeStep::Ready,
        LiveMessage::Error(e) => HandshakeStep::Rejected(e),
        _ => HandshakeStep::Wait,
    }
}

/// What a request waits for.
#[derive(Clone, Copy, Debug, PartialEq, Eq, Structural)]
pub enum Awaited {
    /// A button catalog.
    Catalog,
    /// A plain acknowledgement.
    Acknowledgement,
    /// Nothing: the command is itself a reply.
    Nothing,
}

pub open spec fn awaited_by(c: CommandView) -> Awaited {
    match c {
        CommandView::ButtonList => Awaited::Catalog,
        CommandView::Bpm(_) => Awaited::Nothing,
        _ => Awaited::Acknowledgement,
    }
}

impl Command {
    pub fn awaits(&self) -> (r: Awaited)
        ensures
            r == awaited_by(self@),
    {
        match self {
            Command::ButtonList => Awaited::Catalog,
            Command::Bpm(_) => Awaited::Nothing,
            _ => Awaited::Acknowledgement,
        }
    }
}

/// What a received message means for the request in flight.
#[derive(Debug)]
pub enum ResponseStep {
    /// The catalog that was asked for.
    Buttons(Vec<Button>),
    /// The acknowledgement that was asked for.
    Acknowledged,
    /// The device answered with an error.
    Failed(String),
    /// Not the answer; it is set aside and reading goes on.
    Skip,
}

pub fn response_step(awaited: Awaited, msg: LiveMessage) -> (r: ResponseStep)
    ensures
        match msg@ {
            MessageView::Error(e) => awaited != Awaited::Nothing ==> (r matches ResponseStep::Failed(
                s,
            ) && s@ == e),
            MessageView::ButtonList(l) => awaited == Awaited::Catalog ==> (r matches ResponseStep::Buttons(
                b,
            ) && b@.map_values(|x: Button| x@) == l),
            MessageView::Ack => awaited == Awaited::Acknowledgement ==> r is Acknowledged,
            _ => true,
        },
        r is Failed ==> msg@ is Error && awaited != Awaited::Nothing,
        r is Buttons ==> msg@ is ButtonList && awaited == Awaited::Catalog,
        r is Acknowledged ==> msg@ is Ack && awaited == Awaited::Acknowledgement,
{
    match (awaited, msg) {
        (Awaited::Nothing, _) => ResponseStep::Skip,
        (_, LiveMessage::Error(e)) => ResponseStep::Failed(e),
        (Awaited::Catalog, LiveMessage::ButtonList(l)) => ResponseStep::Buttons(l),
        (Awaited::Acknowledgement, LiveMessage::Ack) => ResponseStep::Acknowledged,
        _ => ResponseStep::Skip,
    }
}

/// The reply owed at once to a tempo query, whatever request is in flight.
pub fn heartbeat_reply(msg: &LiveMessage) -> (r: Option<Vec<u8>>)
    ensures
        msg@ is Bpm ==> (r matches Some(b) && b@ == command_bytes(CommandView::Bpm(HEARTBEAT_BPM))),
        !(msg@ is Bpm) ==> r is None,
{
    match msg {
        LiveMessage::Bpm(_) => Some(Command::Bpm(HEARTBEAT_BPM).encode()),
        _ => None,
    }
}

/// Why a session ended, or why nothing could be sent.
#[derive(Debug)]
pub enum SessionError {
    /// The stream was closed.
    Closed,
    /// No answer to the greeting in time.
    HandshakeTimeout,
    /// There is no connection to send on.
    NotConnected,
}

/// How a read on the stream ended.
#[derive(Clone, Copy, Debug, PartialEq, Eq, Structural)]
pub enum ReadEvent {
    /// This many bytes came; zero means the stream was closed.
    Received(usize),
    /// The read took longer than its timeout.
    TimedOut,
}

#[derive(Debug)]
pub enum ReadAction {
    /// Hand the bytes to the parser.
    Feed,
    /// Read again.
    Retry,
    /// The session is over.
    Fail(SessionError),
}

/// A closed stream ends the session; a timeout ends it during the greeting and
/// is retried afterwards.
pub fn on_read(greeting: bool, event: ReadEvent) -> (r: ReadAction)
    ensures
        event == ReadEvent::Received(0) ==> r matches ReadAction::Fail(SessionError::Closed),
        (event matches ReadEvent::Received(n) && n > 0) ==> r is Feed,
        event == ReadEvent::TimedOut && greeting ==> r matches ReadAction::Fail(
            SessionError::HandshakeTimeout,
        ),
        event == ReadEvent::TimedOut && !greeting ==> r is Retry,
{
    match event {
        ReadEvent::Received(0) => ReadAction::Fail(SessionError::Closed),
        ReadEvent::Received(_) => ReadAction::Feed,
        ReadEvent::TimedOut => if greeting {
            ReadAction::Fail(SessionError::HandshakeTimeout)
        } else {
            ReadAction::Retry
        },
    }
}

} // verus!
