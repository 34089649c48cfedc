//! The controller's line protocol: frames end in CR LF. A button catalog comes
//! either inline as markup (`BUTTON_LIST|<markup>`) or length-prefixed
//! (`BUTTON_LIST|<N>` directly followed by N bytes of markup, then CR LF); a
//! digit after the separator tells the second form from the first.
use vstd::prelude::*;
use std::collections::VecDeque;
use vstd::utf8::encode_utf8;

use crate::bytes::{
    crlf_from, field, field_range, find_crlf, has_prefix, lemma_crlf_from_bounds,
    lemma_crlf_from_extend, starts_with,
};
use crate::models::Button;
use crate::text::{
    all_digits, bounded_digits, digits_value, i32_of_text, is_digit, parse_i32, parse_u32,
    u32_of_text,
};

verus! {

/// A message of the remote device.
#[derive(Debug)]
pub enum LiveMessage {
    Connected(String),
    Error(String),
    BeatOn,
    BeatOff,
    ButtonPress(String),
    ButtonRelease(String),
    FaderChange { index: u32, value: i32 },
    InterfaceChange(String),
    /// A tempo query; carries the value text as sent.
    Bpm(String),
    ButtonList(Vec<Button>),
    Unknown(String),
    Ack,
}

/// The content of a message, as contracts speak of it.
pub enum MessageView {
    Connected(Seq<char>),
    Error(Seq<char>),
    BeatOn,
    BeatOff,
    ButtonPress(Seq<char>),
    ButtonRelease(Seq<char>),
    FaderChange { index: u32, value: i32 },
    InterfaceChange(Seq<char>),
    Bpm(Seq<char>),
    ButtonList(Seq<(u32, Seq<char>)>),
    Unknown(Seq<char>),
    Ack,
}

impl View for LiveMessage {
    type V = MessageView;

    open spec fn view(&self) -> MessageView {
        match self {
            LiveMessage::Connected(s) => MessageView::Connected(s@),
            LiveMessage::Error(s) => MessageView::Error(s@),
            LiveMessage::BeatOn => MessageView::BeatOn,
            LiveMessage::BeatOff => MessageView::BeatOff,
            LiveMessage::ButtonPress(s) => MessageView::ButtonPress(s@),
            LiveMessage::ButtonRelease(s) => MessageView::ButtonRelease(s@),
            LiveMessage::FaderChange { index, value } => MessageView::FaderChange {
                index: *index,
                value: *value,
            },
            LiveMessage::InterfaceChange(s) => MessageView::InterfaceChange(s@),
            LiveMessage::Bpm(s) => MessageView::Bpm(s@),
            LiveMessage::ButtonList(l) => MessageView::ButtonList(
                l@.map_values(|b: Button| b@),
            ),
            LiveMessage::Unknown(s) => MessageView::Unknown(s@),
            LiveMessage::Ack => MessageView::Ack,
        }
    }
}

/// The text that `String::from_utf8_lossy` makes of some bytes.
pub uninterp spec fn lossy_text(bytes: Seq<u8>) -> Seq<char>;

/// The text that `str::trim` leaves of some text.
pub uninterp spec fn trimmed(text: Seq<char>) -> Seq<char>;

/// The nodes of a markup document in document order, each as its local tag name
/// (empty for a node that is no element), its `index` attribute and its text;
/// `None` where the text is no well-formed document.
pub uninterp spec fn markup_nodes(text: Seq<char>) -> Option<
    Seq<(Seq<char>, Option<Seq<char>>, Option<Seq<char>>)>,
>;

/// Relies on `String::from_utf8_lossy`: the text depends on the bytes alone.
#[verifier::external_body]
fn text_of_bytes(bytes: &[u8]) -> (r: String)
    ensures
        r@ == lossy_text(bytes@),
{
    String::from_utf8_lossy(bytes).into_owned()
}

/// Relies on `str::trim`: the result depends on the text alone.
#[verifier::external_body]
fn trim_text(text: &str) -> (r: String)
    ensures
        r@ == trimmed(text@),
{
    text.trim().to_string()
}

/// One node of a parsed markup document.
pub struct MarkupNode {
    pub tag: String,
    pub index: Option<String>,
    pub text: Option<String>,
}

pub open spec fn opt_text(s: Option<String>) -> Option<Seq<char>> {
    match s {
        Some(t) => Some(t@),
        None => None,
    }
}

impl View for MarkupNode {
    type V = (Seq<char>, Option<Seq<char>>, Option<Seq<char>>);

    open spec fn view(&self) -> (Seq<char>, Option<Seq<char>>, Option<Seq<char>>) {
        (self.tag@, opt_text(self.index), opt_text(self.text))
    }
}

/// Relies on `roxmltree::Document::parse` and its node accessors `tag_name`,
/// `attribute` and `text`: the nodes depend on the text alone.
#[verifier::external_body]
fn read_markup(text: &str) -> (r: Option<Vec<MarkupNode>>)
    ensures
        match r {
            Some(nodes) => markup_nodes(text@) == Some(nodes@.map_values(|n: MarkupNode| n@)),
            None => markup_nodes(text@) is None,
        },
{
    match roxmltree::Document::parse(text) {
        Ok(doc) => Some(doc.descendants().map(|n| MarkupNode {
            tag: n.tag_name().name().to_string(),
            index: n.attribute("index").map(|a| a.to_string()),
            text: n.text().map(|t| t.to_string()),
        }).collect()),
        Err(_) => None,
    }
}

pub open spec fn ascii_lower(b: u8) -> u8 {
    if 65 <= b <= 90 { (b + 32) as u8 } else { b }
}

pub open spec fn button_word() -> Seq<u8> {
    seq![98u8, 117, 116, 116, 111, 110]
}

/// An element named `button`, in any ASCII case.
pub open spec fn is_button_tag(tag: Seq<char>) -> bool {
    let b = encode_utf8(tag);
    b.len() == 6 && forall|i: int| 0 <= i < 6 ==> ascii_lower(#[trigger] b[i]) == button_word()[i]
}

/// The button that a node describes: a button element with a numeric index
/// and a name. An entry without either is dropped.
pub open spec fn button_of_node(node: (Seq<char>, Option<Seq<char>>, Option<Seq<char>>)) -> Option<
    (u32, Seq<char>),
> {
    if is_button_tag(node.0) && node.1 is Some && u32_of_text(encode_utf8(node.1->0)) is Some
        && node.2 is Some {
        Some((u32_of_text(encode_utf8(node.1->0))->0, trimmed(node.2->0)))
    } else {
        None
    }
}

pub open spec fn buttons_of_nodes(nodes: Seq<(Seq<char>, Option<Seq<char>>, Option<Seq<char>>)>) -> Seq<
    (u32, Seq<char>),
>
    decreases nodes.len(),
{
    if nodes.len() == 0 {
        Seq::empty()
    } else {
        buttons_of_nodes(nodes.drop_last()) + match button_of_node(nodes.last()) {
            Some(b) => seq![b],
            None => Seq::empty(),
        }
    }
}

/// The buttons of a catalog: every button element with a numeric index, in
/// document order; none where the markup does not parse.
pub open spec fn catalog_of(markup: Seq<char>) -> Seq<(u32, Seq<char>)> {
    match markup_nodes(markup) {
        Some(nodes) => buttons_of_nodes(nodes),
        None => Seq::empty(),
    }
}

fn is_button_name(tag: &String) -> (r: bool)
    ensures
        r == is_button_tag(tag@),
{
    let b = tag.as_str().as_bytes();
    if b.len() != 6 {
        return false;
    }
    let word: [u8; 6] = [98, 117, 116, 116, 111, 110];
    assert(word@ == button_word());
    let mut i: usize = 0;
    while i < 6
        invariant
            b@ == encode_utf8(tag@),
            b@.len() == 6,
            word@ == button_word(),
            i <= 6,
            forall|k: int| 0 <= k < i ==> ascii_lower(#[trigger] b@[k]) == button_word()[k],
        decreases 6 - i,
    {
        let c = b[i];
        let lower = if 65 <= c && c <= 90 { c + 32 } else { c };
        if lower != word[i] {
            return false;
        }
        i = i + 1;
    }
    true
}

/// The buttons that markup nodes describe, in order.
pub fn buttons_from_nodes(nodes: &[MarkupNode]) -> (r: Vec<Button>)
    ensures
        r@.map_values(|b: Button| b@) == buttons_of_nodes(nodes@.map_values(|n: MarkupNode| n@)),
{
    let mut out: Vec<Button> = Vec::new();
    let ghost seen = nodes@.map_values(|n: MarkupNode| n@);
    assert(out@.map_values(|b: Button| b@) =~= buttons_of_nodes(seen.subrange(0, 0)));
    let mut i: usize = 0;
    while i < nodes.len()
        invariant
            i <= nodes@.len(),
            seen == nodes@.map_values(|n: MarkupNode| n@),
            out@.map_values(|b: Button| b@) == buttons_of_nodes(seen.subrange(0, i as int)),
        decreases nodes@.len() - i,
    {
        let node = &nodes[i];
        assert(seen.subrange(0, i + 1).drop_last() =~= seen.subrange(0, i as int));
        assert(seen.subrange(0, i + 1).last() == node@);
        let ghost before = out@.map_values(|b: Button| b@);
        if is_button_name(&node.tag) {
            match (&node.index, &node.text) {
                (Some(idx), Some(text)) => {
                    match parse_u32(idx.as_str().as_bytes()) {
                        Some(id) => {
                            let name = trim_text(text.as_str());
                            assert(button_of_node(node@) == Some((id, name@)));
                            out.push(Button { id, name });
                            assert(out@.map_values(|b: Button| b@) =~= before + seq![(id, name@)]);
                        },
                        None => {},
                    }
                },
                _ => {},
            }
        }
        proof {
            if button_of_node(node@) is None {
                assert(buttons_of_nodes(seen.subrange(0, i + 1)) =~= buttons_of_nodes(
                    seen.subrange(0, i as int),
                ));
            }
        }
        i = i + 1;
    }
    assert(seen.subrange(0, nodes@.len() as int) =~= seen);
    out
}

/// Reads the buttons of a catalog.
pub fn parse_buttons(markup: &str) -> (r: Vec<Button>)
    ensures
        r@.map_values(|b: Button| b@) == catalog_of(markup@),
{
    match read_markup(markup) {
        Some(nodes) => buttons_from_nodes(nodes.as_slice()),
        None => {
            let out: Vec<Button> = Vec::new();
            assert(out@.map_values(|b: Button| b@) =~= Seq::empty());
            out
        },
    }
}

pub open spec fn tag_hello() -> Seq<u8> {
    seq![72u8, 69, 76, 76, 79]
}

pub open spec fn tag_error() -> Seq<u8> {
    seq![69u8, 82, 82, 79, 82, 124]
}

pub open spec fn tag_beat_on() -> Seq<u8> {
    seq![66u8, 69, 65, 84, 95, 79, 78]
}

pub open spec fn tag_beat_off() -> Seq<u8> {
    seq![66u8, 69, 65, 84, 95, 79, 70, 70]
}

pub open spec fn tag_button_list() -> Seq<u8> {
    seq![66u8, 85, 84, 84, 79, 78, 95, 76, 73, 83, 84, 124]
}

pub open spec fn tag_button_press() -> Seq<u8> {
    seq![66u8, 85, 84, 84, 79, 78, 95, 80, 82, 69, 83, 83, 124]
}

pub open spec fn tag_button_release() -> Seq<u8> {
    seq![66u8, 85, 84, 84, 79, 78, 95, 82, 69, 76, 69, 65, 83, 69, 124]
}

pub open spec fn tag_fader_change() -> Seq<u8> {
    seq![70u8, 65, 68, 69, 82, 95, 67, 72, 65, 78, 71, 69, 124]
}

pub open spec fn tag_interface_change() -> Seq<u8> {
    seq![73u8, 78, 84, 69, 82, 70, 65, 67, 69, 95, 67, 72, 65, 78, 71, 69, 124]
}

pub open spec fn tag_bpm() -> Seq<u8> {
    seq![66u8, 80, 77, 124]
}

pub open spec fn tag_ok() -> Seq<u8> {
    seq![79u8, 75]
}

pub open spec fn crlf() -> Seq<u8> {
    seq![13u8, 10]
}

/// The `k`-th `|`-separated piece of a line, or nothing where the line has fewer.
pub open spec fn field_text(line: Seq<u8>, k: nat) -> Seq<u8> {
    match field(line, k) {
        Some(f) => f,
        None => Seq::empty(),
    }
}

pub open spec fn fader_of(line: Seq<u8>) -> Option<(u32, i32)> {
    match (field(line, 1), field(line, 2)) {
        (Some(a), Some(b)) => match (u32_of_text(a), i32_of_text(b)) {
            (Some(i), Some(v)) => Some((i, v)),
            _ => None,
        },
        _ => None,
    }
}

/// The message that one line of the protocol carries. The first keyword that
/// starts the line decides; a line that none starts is passed on as unknown.
pub open spec fn line_message(line: Seq<u8>) -> MessageView {
    if has_prefix(line, tag_hello()) {
        MessageView::Connected(lossy_text(field_text(line, 1)))
    } else if has_prefix(line, tag_error()) {
        MessageView::Error(lossy_text(line.subrange(6, line.len() as int)))
    } else if has_prefix(line, tag_beat_on()) {
        MessageView::BeatOn
    } else if has_prefix(line, tag_beat_off()) {
        MessageView::BeatOff
    } else if has_prefix(line, tag_button_list()) {
        MessageView::ButtonList(catalog_of(lossy_text(field_text(line, 1))))
    } else if has_prefix(line, tag_button_press()) {
        MessageView::ButtonPress(lossy_text(field_text(line, 1)))
    } else if has_prefix(line, tag_button_release()) {
        MessageView::ButtonRelease(lossy_text(field_text(line, 1)))
    } else if has_prefix(line, tag_fader_change()) && fader_of(line) is Some {
        let (index, value) = fader_of(line)->0;
        MessageView::FaderChange { index, value }
    } else if has_prefix(line, tag_interface_change()) {
        MessageView::InterfaceChange(lossy_text(field_text(line, 1)))
    } else if has_prefix(line, tag_bpm()) {
        MessageView::Bpm(lossy_text(line.subrange(4, line.len() as int)))
    } else if line == tag_ok() {
        MessageView::Ack
    } else {
        MessageView::Unknown(lossy_text(line))
    }
}

fn field_bytes(line: &[u8], k: usize) -> (r: &[u8])
    ensures
        r@ == field_text(line@, k as nat),
{
    match field_range(line, k) {
        Some((a, b)) => &line[a..b],
        None => {
            let r = &line[0..0];
            assert(r@ =~= Seq::<u8>::empty());
            r
        },
    }
}

fn bytes_equal(a: &[u8], b: &[u8]) -> (r: bool)
    ensures
        r == (a@ == b@),
{
    if a.len() != b.len() {
        return false;
    }
    let r = starts_with(a, b);
    assert(a@.subrange(0, b@.len() as int) =~= a@);
    r
}

fn parse_line(line: &[u8]) -> (m: LiveMessage)
    ensures
        m@ == line_message(line@),
{
    let hello: [u8; 5] = [72, 69, 76, 76, 79];
    let error: [u8; 6] = [69, 82, 82, 79, 82, 124];
    let beat_on: [u8; 7] = [66, 69, 65, 84, 95, 79, 78];
    let beat_off: [u8; 8] = [66, 69, 65, 84, 95, 79, 70, 70];
    let button_list: [u8; 12] = [66, 85, 84, 84, 79, 78, 95, 76, 73, 83, 84, 124];
    let button_press: [u8; 13] = [66, 85, 84, 84, 79, 78, 95, 80, 82, 69, 83, 83, 124];
    let button_release: [u8; 15] = [66, 85, 84, 84, 79, 78, 95, 82, 69, 76, 69, 65, 83, 69, 124];
    let fader_change: [u8; 13] = [70, 65, 68, 69, 82, 95, 67, 72, 65, 78, 71, 69, 124];
    let interface_change: [u8; 17] = [
        73, 78, 84, 69, 82, 70, 65, 67, 69, 95, 67, 72, 65, 78, 71, 69, 124,
    ];
    let bpm: [u8; 4] = [66, 80, 77, 124];
    let ok: [u8; 2] = [79, 75];
    assert(hello@ == tag_hello());
    assert(error@ == tag_error());
    assert(beat_on@ == tag_beat_on());
    assert(beat_off@ == tag_beat_off());
    assert(button_list@ == tag_button_list());
    assert(button_press@ == tag_button_press());
    assert(button_release@ == tag_button_release());
    assert(fader_change@ == tag_fader_change());
    assert(interface_change@ == tag_interface_change());
    assert(bpm@ == tag_bpm());
    assert(ok@ == tag_ok());
    if starts_with(line, &hello) {
        return LiveMessage::Connected(text_of_bytes(field_bytes(line, 1)));
    }
    if starts_with(line, &error) {
        return LiveMessage::Error(text_of_bytes(&line[6..line.len()]));
    }
    if starts_with(line, &beat_on) {
        return LiveMessage::BeatOn;
    }
    if starts_with(line, &beat_off) {
        return LiveMessage::BeatOff;
    }
    if starts_with(line, &button_list) {
        let markup = text_of_bytes(field_bytes(line, 1));
        return LiveMessage::ButtonList(parse_buttons(markup.as_str()));
    }
    if starts_with(line, &button_press) {
        return LiveMessage::ButtonPress(text_of_bytes(field_bytes(line, 1)));
    }
    if starts_with(line, &button_release) {
        return LiveMessage::ButtonRelease(text_of_bytes(field_bytes(line, 1)));
    }
    if starts_with(line, &fader_change) {
        match (field_range(line, 1), field_range(line, 2)) {
            (Some((a, b)), Some((c, d))) => {
                match (parse_u32(&line[a..b]), parse_i32(&line[c..d])) {
                    (Some(index), Some(value)) => {
                        return LiveMessage::FaderChange { index, value };
                    },
                    _ => {},
                }
            },
            _ => {},
        }
    }
    if starts_with(line, &interface_change) {
        return LiveMessage::InterfaceChange(text_of_bytes(field_bytes(line, 1)));
    }
    if starts_with(line, &bpm) {
        return LiveMessage::Bpm(text_of_bytes(&line[4..line.len()]));
    }
    if bytes_equal(line, &ok) {
        return LiveMessage::Ack;
    }
    LiveMessage::Unknown(text_of_bytes(line))
}


/// One complete unit of the stream: a line, or the payload of a catalog that
/// came with a length header.
pub enum Frame {
    Line(Seq<u8>),
    Catalog(Seq<u8>),
}

/// The first position at or after `i` that holds no ASCII digit.
pub open spec fn digits_end(s: Seq<u8>, i: int) -> Option<int>
    decreases s.len() - i,
{
    if i < 0 || i >= s.len() {
        None
    } else if !is_digit(s[i]) {
        Some(i)
    } else {
        digits_end(s, i + 1)
    }
}

/// A line at the start of `s`, once its CR LF has come.
pub open spec fn line_frame(s: Seq<u8>) -> Option<(Frame, int)> {
    match crlf_from(s, 0) {
        None => None,
        Some(p) => Some((Frame::Line(s.subrange(0, p)), p + 2)),
    }
}

/// The stream starts with `BUTTON_LIST|` and a digit: a length-prefixed catalog.
pub open spec fn starts_catalog(s: Seq<u8>) -> bool {
    has_prefix(s, tag_button_list()) && s.len() > 12 && is_digit(s[12])
}

/// The first frame at the start of `s` and how many bytes it takes, once all of
/// it is there. A catalog `BUTTON_LIST|<N>` is followed directly by its N payload
/// bytes and then by the two bytes that close it; it waits until all of them
/// have come, whatever the payload holds. Every other frame is a line.
pub open spec fn next_frame(s: Seq<u8>) -> Option<(Frame, int)> {
    if starts_catalog(s) {
        match digits_end(s, 12) {
            None => None,
            Some(e) => match bounded_digits(s.subrange(12, e), u32::MAX as nat) {
                Some(n) => if e + n + 2 <= s.len() {
                    Some((Frame::Catalog(s.subrange(e, e + n)), e + n + 2))
                } else {
                    None
                },
                None => line_frame(s),
            },
        }
    } else {
        line_frame(s)
    }
}

/// The complete frames at the start of a stream, in order, and the bytes after them.
pub open spec fn scan(s: Seq<u8>) -> (Seq<Frame>, Seq<u8>)
    decreases s.len(),
{
    match next_frame(s) {
        Some((f, k)) => if 0 < k <= s.len() {
            let r = scan(s.subrange(k, s.len() as int));
            (seq![f] + r.0, r.1)
        } else {
            (Seq::empty(), s)
        },
        None => (Seq::empty(), s),
    }
}

pub open spec fn frame_message(f: Frame) -> MessageView {
    match f {
        Frame::Line(line) => line_message(line),
        Frame::Catalog(payload) => MessageView::ButtonList(catalog_of(lossy_text(payload))),
    }
}

pub open spec fn messages_of(frames: Seq<Frame>) -> Seq<MessageView> {
    frames.map_values(|f: Frame| frame_message(f))
}

proof fn lemma_digits_end_bounds(s: Seq<u8>, i: int)
    requires
        0 <= i,
    ensures
        match digits_end(s, i) {
            Some(e) => i <= e < s.len() && !is_digit(s[e]) && forall|k: int|
                i <= k < e ==> is_digit(#[trigger] s[k]),
            None => forall|k: int| i <= k < s.len() ==> is_digit(#[trigger] s[k]),
        },
    decreases s.len() - i,
{
    if i < s.len() && is_digit(s[i]) {
        lemma_digits_end_bounds(s, i + 1);
    }
}

proof fn lemma_digits_end_extend(s: Seq<u8>, t: Seq<u8>, i: int)
    requires
        digits_end(s, i) is Some,
    ensures
        digits_end(s + t, i) == digits_end(s, i),
    decreases s.len() - i,
{
    if is_digit(s[i]) {
        lemma_digits_end_extend(s, t, i + 1);
    }
}

proof fn lemma_digits_end_at(s: Seq<u8>, e: int, i: int)
    requires
        0 <= i <= e <= s.len(),
        forall|k: int| i <= k < e ==> is_digit(#[trigger] s[k]),
        e < s.len() ==> !is_digit(s[e]),
    ensures
        digits_end(s, i) == if e < s.len() { Some(e) } else { None::<int> },
    decreases e - i,
{
    if i < e {
        lemma_digits_end_at(s, e, i + 1);
    }
}

pub proof fn lemma_next_frame_bounds(s: Seq<u8>)
    ensures
        match next_frame(s) {
            Some((f, k)) => 0 < k <= s.len(),
            None => true,
        },
{
    lemma_crlf_from_bounds(s, 0);
    if starts_catalog(s) {
        lemma_digits_end_bounds(s, 12);
    }
}

proof fn lemma_line_frame_extend(s: Seq<u8>, t: Seq<u8>)
    requires
        line_frame(s) is Some,
    ensures
        line_frame(s + t) == line_frame(s),
{
    lemma_crlf_from_bounds(s, 0);
    lemma_crlf_from_extend(s, t, 0);
    let p = crlf_from(s, 0)->0;
    assert((s + t).subrange(0, p) =~= s.subrange(0, p));
}

/// A frame complete in `s` is the same frame in `s + t`.
pub proof fn lemma_next_frame_extend(s: Seq<u8>, t: Seq<u8>)
    requires
        next_frame(s) is Some,
    ensures
        next_frame(s + t) == next_frame(s),
{
    if s.len() >= 13 {
        assert((s + t).subrange(0, 12) =~= s.subrange(0, 12));
        assert((s + t)[12] == s[12]);
    }
    if starts_catalog(s) {
        lemma_digits_end_bounds(s, 12);
        lemma_digits_end_extend(s, t, 12);
        let e = digits_end(s, 12)->0;
        assert((s + t).subrange(12, e) =~= s.subrange(12, e));
        match bounded_digits(s.subrange(12, e), u32::MAX as nat) {
            Some(n) => {
                assert((s + t).subrange(e, e + n) =~= s.subrange(e, e + n));
            },
            None => {
                lemma_line_frame_extend(s, t);
            },
        }
    } else {
        lemma_line_frame_extend(s, t);
        lemma_crlf_from_bounds(s, 0);
        if s.len() < 13 && has_prefix(s + t, tag_button_list()) {
            let p = crlf_from(s, 0)->0;
            assert((s + t).subrange(0, 12)[p] == (s + t)[p]);
            assert((s + t)[p] == s[p]);
        }
    }
}

/// Scanning `a + b` finds the frames of `a`, then those of what `a` left over
/// followed by `b`.
pub proof fn lemma_scan_append(a: Seq<u8>, b: Seq<u8>)
    ensures
        scan(a + b).0 == scan(a).0 + scan(scan(a).1 + b).0,
        scan(a + b).1 == scan(scan(a).1 + b).1,
    decreases a.len(),
{
    lemma_next_frame_bounds(a);
    match next_frame(a) {
        Some((f, k)) => {
            lemma_next_frame_extend(a, b);
            lemma_next_frame_bounds(a + b);
            let a2 = a.subrange(k, a.len() as int);
            assert((a + b).subrange(k, (a + b).len() as int) =~= a2 + b);
            lemma_scan_append(a2, b);
            assert(scan(a + b).0 =~= scan(a).0 + scan(scan(a).1 + b).0);
        },
        None => {
            assert(scan(a).0 + scan(scan(a).1 + b).0 =~= scan(a + b).0);
        },
    }
}

/// Framing does not depend on how the stream is cut into chunks: with `held`
/// buffered, feeding `a` and then `b` yields the same messages, in the same
/// order, and leaves the same bytes buffered as feeding `a + b` at once.
pub proof fn lemma_chunking(held: Seq<u8>, a: Seq<u8>, b: Seq<u8>)
    ensures
        messages_of(scan(held + a).0) + messages_of(scan(scan(held + a).1 + b).0) == messages_of(
            scan(held + (a + b)).0,
        ),
        scan(scan(held + a).1 + b).1 == scan(held + (a + b)).1,
{
    assert(held + (a + b) =~= (held + a) + b);
    lemma_scan_append(held + a, b);
    assert(messages_of(scan(held + a).0 + scan(scan(held + a).1 + b).0) =~= messages_of(
        scan(held + a).0,
    ) + messages_of(scan(scan(held + a).1 + b).0));
}

/// What scanning leaves over never holds a complete frame.
pub proof fn lemma_scan_rest_is_incomplete(s: Seq<u8>)
    ensures
        next_frame(scan(s).1) is None,
    decreases s.len(),
{
    lemma_next_frame_bounds(s);
    match next_frame(s) {
        Some((f, k)) => {
            lemma_scan_rest_is_incomplete(s.subrange(k, s.len() as int));
        },
        None => {},
    }
}

/// The chunks of a stream joined in order.
pub open spec fn joined(chunks: Seq<Seq<u8>>) -> Seq<u8>
    decreases chunks.len(),
{
    if chunks.len() == 0 {
        Seq::empty()
    } else {
        joined(chunks.drop_last()) + chunks.last()
    }
}

/// The messages decoded, and the bytes left buffered, when the chunks are fed
/// one after another to a codec that holds `held`.
pub open spec fn fed(held: Seq<u8>, chunks: Seq<Seq<u8>>) -> (Seq<MessageView>, Seq<u8>)
    decreases chunks.len(),
{
    if chunks.len() == 0 {
        (Seq::empty(), held)
    } else {
        let before = fed(held, chunks.drop_last());
        let r = scan(before.1 + chunks.last());
        (before.0 + messages_of(r.0), r.1)
    }
}

/// Feeding a stream in any chunks, one byte at a time included, decodes the same
/// messages in the same order and leaves the same bytes buffered as feeding it
/// all at once.
pub proof fn lemma_any_chunking(held: Seq<u8>, chunks: Seq<Seq<u8>>)
    requires
        next_frame(held) is None,
    ensures
        fed(held, chunks) == (messages_of(scan(held + joined(chunks)).0), scan(
            held + joined(chunks),
        ).1),
    decreases chunks.len(),
{
    if chunks.len() == 0 {
        assert(held + joined(chunks) =~= held);
        assert(messages_of(scan(held).0) =~= Seq::<MessageView>::empty());
    } else {
        let init = chunks.drop_last();
        lemma_any_chunking(held, init);
        lemma_chunking(held, joined(init), chunks.last());
        assert(held + joined(chunks) =~= held + (joined(init) + chunks.last()));
    }
}

/// `BUTTON_LIST|` followed by the decimal payload length.
pub open spec fn catalog_header(digits: Seq<u8>) -> Seq<u8> {
    tag_button_list() + digits
}

pub open spec fn valid_length(digits: Seq<u8>) -> bool {
    digits.len() > 0 && all_digits(digits) && digits_value(digits) <= u32::MAX
}

/// A catalog announced with length `n` yields nothing while fewer than `n + 2`
/// bytes of payload and terminator have come: all of it stays buffered. (A
/// payload starts with no digit, or its first byte would lengthen the number.)
pub proof fn lemma_catalog_withheld(digits: Seq<u8>, partial: Seq<u8>)
    requires
        valid_length(digits),
        partial.len() < digits_value(digits) + 2,
        partial.len() > 0 ==> !is_digit(partial[0]),
    ensures
        scan(catalog_header(digits) + partial) == (
            Seq::<Frame>::empty(),
            catalog_header(digits) + partial,
        ),
{
    let s = catalog_header(digits) + partial;
    let e = 12 + digits.len() as int;
    assert(s.subrange(0, 12) =~= tag_button_list());
    assert forall|k: int| 12 <= k < e implies is_digit(#[trigger] s[k]) by {
        assert(s[k] == digits[k - 12]);
    }
    if partial.len() > 0 {
        assert(s[e] == partial[0]);
    }
    lemma_digits_end_at(s, e, 12);
    assert(s.subrange(12, e) =~= digits);
    assert(next_frame(s) is None);
}

/// Once the payload and the two closing bytes are there, the catalog is exactly
/// one frame, and nothing stays buffered.
pub proof fn lemma_catalog_complete(digits: Seq<u8>, payload: Seq<u8>)
    requires
        valid_length(digits),
        payload.len() == digits_value(digits),
        !is_digit((payload + crlf())[0]),
    ensures
        scan(catalog_header(digits) + payload + crlf()) == (
            seq![Frame::Catalog(payload)],
            Seq::<u8>::empty(),
        ),
{
    let s = catalog_header(digits) + payload + crlf();
    let e = 12 + digits.len() as int;
    assert(s.subrange(0, 12) =~= tag_button_list());
    assert forall|k: int| 12 <= k < e implies is_digit(#[trigger] s[k]) by {
        assert(s[k] == digits[k - 12]);
    }
    assert(s[e] == (payload + crlf())[0]);
    lemma_digits_end_at(s, e, 12);
    assert(s.subrange(12, e) =~= digits);
    assert(s.subrange(e, e + payload.len() as int) =~= payload);
    assert(s.subrange(s.len() as int, s.len() as int) =~= Seq::<u8>::empty());
    assert(scan(Seq::<u8>::empty()) == (Seq::<Frame>::empty(), Seq::<u8>::empty()));
    assert(seq![Frame::Catalog(payload)] + Seq::<Frame>::empty() =~= seq![Frame::Catalog(payload)]);
}

fn find_non_digit(s: &[u8], start: usize) -> (r: Option<usize>)
    requires
        start <= s@.len(),
    ensures
        match r {
            Some(e) => digits_end(s@, start as int) == Some(e as int),
            None => digits_end(s@, start as int) is None,
        },
{
    let mut i: usize = start;
    while i < s.len()
        invariant
            start <= i <= s@.len(),
            digits_end(s@, start as int) == digits_end(s@, i as int),
        decreases s@.len() - i,
    {
        if s[i] < 48 || s[i] > 57 {
            return Some(i);
        }
        i = i + 1;
    }
    None
}

fn line_exec(buf: &[u8]) -> (r: Option<(LiveMessage, usize)>)
    ensures
        match line_frame(buf@) {
            None => r is None,
            Some((f, k)) => r matches Some((m, u)) && m@ == frame_message(f) && u == k,
        },
{
    let len = buf.len();
    proof {
        lemma_crlf_from_bounds(buf@, 0);
    }
    match find_crlf(buf) {
        None => None,
        Some(p) => {
            assert(p + 2 <= len);
            Some((parse_line(&buf[0..p]), p + 2))
        },
    }
}

/// Decodes the first frame at the start of `buf`, if all of it is there, and
/// says how many bytes it takes.
fn frame_exec(buf: &[u8]) -> (r: Option<(LiveMessage, usize)>)
    ensures
        match next_frame(buf@) {
            None => r is None,
            Some((f, k)) => r matches Some((m, u)) && m@ == frame_message(f) && u == k,
        },
{
    let len = buf.len();
    let button_list: [u8; 12] = [66, 85, 84, 84, 79, 78, 95, 76, 73, 83, 84, 124];
    assert(button_list@ == tag_button_list());
    if starts_with(buf, &button_list) && len > 12 && buf[12] >= 48 && buf[12] <= 57 {
        proof {
            lemma_digits_end_bounds(buf@, 12);
        }
        match find_non_digit(buf, 12) {
            None => {
                return None;
            },
            Some(e) => {
                let digits = &buf[12..e];
                assert(digits@[0] == buf@[12]);
                match parse_u32(digits) {
                    Some(n) => {
                        let n = n as usize;
                        if len - e < 2 || len - e - 2 < n {
                            return None;
                        }
                        let markup = text_of_bytes(&buf[e..e + n]);
                        return Some((LiveMessage::ButtonList(parse_buttons(markup.as_str())), e + n + 2));
                    },
                    None => {},
                }
            },
        }
    }
    line_exec(buf)
}

/// Turns the byte stream of a session into messages. Bytes of a frame that is not
/// complete yet stay buffered until the rest arrives.
pub struct LiveParser {
    buffer: Vec<u8>,
    messages: VecDeque<LiveMessage>,
}

impl LiveParser {
    /// The bytes received and not yet part of a complete frame.
    pub closed spec fn buffered(&self) -> Seq<u8> {
        self.buffer@
    }

    /// The messages decoded and not yet taken, oldest first.
    pub closed spec fn pending(&self) -> Seq<MessageView> {
        self.messages@.map_values(|m: LiveMessage| m@)
    }

    pub fn new() -> (r: LiveParser)
        ensures
            r.buffered() == Seq::<u8>::empty(),
            next_frame(r.buffered()) is None,
            r.pending() == Seq::<MessageView>::empty(),
    {
        let r = LiveParser { buffer: Vec::new(), messages: VecDeque::new() };
        assert(r.pending() =~= Seq::<MessageView>::empty());
        r
    }

    /// Takes more bytes of the stream and decodes every frame that is now complete.
    pub fn feed(&mut self, data: &[u8])
        ensures
            final(self).buffered() == scan(old(self).buffered() + data@).1,
            next_frame(final(self).buffered()) is None,
            final(self).pending() == old(self).pending() + messages_of(
                scan(old(self).buffered() + data@).0,
            ),
    {
        let ghost total = old(self).buffered() + data@;
        let ghost before = old(self).pending();
        proof {
            lemma_scan_rest_is_incomplete(total);
        }
        self.buffer.extend_from_slice(data);
        assert(self.buffer@ =~= total);
        assert(messages_of(scan(total).0) =~= messages_of(Seq::<Frame>::empty()) + messages_of(
            scan(total).0,
        ));
        assert(before =~= before + messages_of(Seq::<Frame>::empty()));
        loop
            invariant
                scan(total).1 == scan(self.buffer@).1,
                before + messages_of(scan(total).0) == self.pending() + messages_of(
                    scan(self.buffer@).0,
                ),
            ensures
                self.buffer@ == scan(total).1,
                self.pending() == before + messages_of(scan(total).0),
            decreases self.buffer@.len(),
        {
            let ghost cur = self.buffer@;
            proof {
                lemma_next_frame_bounds(cur);
            }
            let (msg, used) = match frame_exec(self.buffer.as_slice()) {
                None => {
                    assert(messages_of(Seq::<Frame>::empty()) =~= Seq::<MessageView>::empty());
                    assert(self.pending() + Seq::<MessageView>::empty() =~= self.pending());
                    break ;
                },
                Some(found) => found,
            };
            let ghost (f, k) = next_frame(cur)->0;
            assert(msg@ == frame_message(f));
            let rest = self.buffer.split_off(used);
            self.buffer = rest;
            let ghost old_messages = self.pending();
            self.messages.push_back(msg);
            assert(self.pending() =~= old_messages + seq![frame_message(f)]);
            assert(messages_of(scan(cur).0) =~= seq![frame_message(f)] + messages_of(
                scan(self.buffer@).0,
            ));
        }
    }

    /// Takes the oldest decoded message, if there is one.
    pub fn next_message(&mut self) -> (r: Option<LiveMessage>)
        ensures
            final(self).buffered() == old(self).buffered(),
            old(self).pending().len() == 0 ==> r is None && final(self).pending() == old(
                self,
            ).pending(),
            old(self).pending().len() > 0 ==> (r matches Some(m) && m@ == old(self).pending()[0]
                && final(self).pending() == old(self).pending().drop_first()),
    {
        let m = self.messages.pop_front();
        proof {
            if m is Some {
                assert(self.pending() =~= old(self).pending().drop_first());
            }
        }
        m
    }
}

} // verus!
