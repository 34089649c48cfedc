use vstd::prelude::*;

use crate::text::{decimal, push_decimal};

verus! {

/// A note event as it arrives from the MIDI input.
#[derive(Clone, Copy, Debug, PartialEq, Eq, Structural)]
pub struct MidiNote {
    pub channel: u8,
    pub note: u8,
    pub velocity: u8,
}

/// A decoded MIDI event.
#[derive(Clone, Copy, Debug, PartialEq, Eq, Structural)]
pub enum MidiMessage {
    NoteOn(MidiNote),
    NoteOff(MidiNote),
    ControlChange { channel: u8, cc: u8, value: u8 },
}

/// A pattern over MIDI events; a control change without a value matches any value.
#[derive(Clone, Copy, Debug, PartialEq, Eq, Structural)]
pub enum MidiTrigger {
    NoteOn { channel: u8, note: u8 },
    NoteOff { channel: u8, note: u8 },
    ControlChange { channel: u8, cc: u8, value: Option<u8> },
}

/// The rule by which a trigger fires on an event.
pub open spec fn trigger_matches(t: MidiTrigger, m: MidiMessage) -> bool {
    match (t, m) {
        (MidiTrigger::NoteOn { channel, note }, MidiMessage::NoteOn(n)) =>
            channel == n.channel && note == n.note,
        (MidiTrigger::NoteOff { channel, note }, MidiMessage::NoteOff(n)) =>
            channel == n.channel && note == n.note,
        (
            MidiTrigger::ControlChange { channel, cc, value },
            MidiMessage::ControlChange { channel: c2, cc: cc2, value: v2 },
        ) => channel == c2 && cc == cc2 && (value is None || value == Some(v2)),
        _ => false,
    }
}

/// The trigger that learning an event records: same kind, channel and number,
/// and any value for a control change.
pub open spec fn trigger_of(m: MidiMessage) -> MidiTrigger {
    match m {
        MidiMessage::NoteOn(n) => MidiTrigger::NoteOn { channel: n.channel, note: n.note },
        MidiMessage::NoteOff(n) => MidiTrigger::NoteOff { channel: n.channel, note: n.note },
        MidiMessage::ControlChange { channel, cc, .. } =>
            MidiTrigger::ControlChange { channel, cc, value: None },
    }
}

/// The event that a raw three-byte MIDI message stands for, if any.
/// A note-on with velocity zero is a note-off.
pub open spec fn message_of_raw(data: Seq<u8>) -> Option<MidiMessage> {
    if data.len() < 3 {
        None
    } else {
        let kind = data[0] / 16;
        let channel = (data[0] % 16) as u8;
        if kind == 9 && data[2] == 0 {
            Some(MidiMessage::NoteOff(MidiNote { channel, note: data[1], velocity: 0 }))
        } else if kind == 9 {
            Some(MidiMessage::NoteOn(MidiNote { channel, note: data[1], velocity: data[2] }))
        } else if kind == 8 {
            Some(MidiMessage::NoteOff(MidiNote { channel, note: data[1], velocity: data[2] }))
        } else if kind == 11 {
            Some(MidiMessage::ControlChange { channel, cc: data[1], value: data[2] })
        } else {
            None
        }
    }
}

impl MidiTrigger {
    pub fn from_message(msg: &MidiMessage) -> (r: Option<MidiTrigger>)
        ensures
            r == Some(trigger_of(*msg)),
    {
        match msg {
            MidiMessage::NoteOn(n) => Some(MidiTrigger::NoteOn { channel: n.channel, note: n.note }),
            MidiMessage::NoteOff(n) => Some(MidiTrigger::NoteOff { channel: n.channel, note: n.note }),
            MidiMessage::ControlChange { channel, cc, .. } => Some(
                MidiTrigger::ControlChange { channel: *channel, cc: *cc, value: None },
            ),
        }
    }

    pub fn matches(&self, msg: &MidiMessage) -> (r: bool)
        ensures
            r == trigger_matches(*self, *msg),
    {
        match (self, msg) {
            (MidiTrigger::NoteOn { channel, note }, MidiMessage::NoteOn(n)) => *channel == n.channel
                && *note == n.note,
            (MidiTrigger::NoteOff { channel, note }, MidiMessage::NoteOff(n)) => *channel
                == n.channel && *note == n.note,
            (
                MidiTrigger::ControlChange { channel, cc, value },
                MidiMessage::ControlChange { channel: c2, cc: cc2, value: v2 },
            ) => *channel == *c2 && *cc == *cc2 && match value {
                None => true,
                Some(v) => *v == *v2,
            },
            _ => false,
        }
    }
}

impl MidiMessage {
    pub fn from_raw(data: &[u8]) -> (r: Option<MidiMessage>)
        ensures
            r == message_of_raw(data@),
    {
        if data.len() < 3 {
            return None;
        }
        let status = data[0];
        let kind = status / 16;
        let channel = status % 16;
        if kind == 9 {
            let velocity = data[2];
            if velocity == 0 {
                Some(MidiMessage::NoteOff(MidiNote { channel, note: data[1], velocity: 0 }))
            } else {
                Some(MidiMessage::NoteOn(MidiNote { channel, note: data[1], velocity }))
            }
        } else if kind == 8 {
            Some(MidiMessage::NoteOff(MidiNote { channel, note: data[1], velocity: data[2] }))
        } else if kind == 11 {
            Some(MidiMessage::ControlChange { channel, cc: data[1], value: data[2] })
        } else {
            None
        }
    }
}


/// A button of the remote device: the index it reports and its display name.
#[derive(Clone, Debug)]
pub struct Button {
    pub id: u32,
    pub name: String,
}

impl View for Button {
    type V = (u32, Seq<char>);

    open spec fn view(&self) -> (u32, Seq<char>) {
        (self.id, self.name@)
    }
}


/// The identifier type of presets, from the `uuid` crate.
#[verifier::external_type_specification]
#[verifier::external_body]
pub struct ExUuid(uuid::Uuid);

/// Relies on `uuid::Uuid`'s derived `Clone`, which copies the sixteen bytes.
pub assume_specification[ <uuid::Uuid as Clone>::clone ](id: &uuid::Uuid) -> (r: uuid::Uuid)
    ensures
        r == *id,
;

/// Relies on `uuid::Uuid::new_v4`, which draws a random identifier; nothing is
/// known of its value.
#[verifier::external_body]
fn fresh_id() -> uuid::Uuid {
    uuid::Uuid::new_v4()
}

/// What an action does to a button.
#[derive(Clone, Copy, Debug, PartialEq, Eq, Structural)]
pub enum ButtonActionType {
    Press,
    Release,
    Toggle,
}

/// One step of a preset: what to do to which button, after how long a wait.
#[derive(Clone, Debug)]
pub struct ButtonAction {
    pub button_id: u32,
    /// The button is addressed by name; the device's indices may change.
    pub button_name: String,
    pub action: ButtonActionType,
    /// Wait before the action, in milliseconds.
    pub delay_ms: u64,
}

/// Triggers that start it, and the actions it then runs in order.
#[derive(Clone, Debug)]
pub struct Preset {
    pub id: uuid::Uuid,
    pub name: String,
    pub description: String,
    pub triggers: Vec<MidiTrigger>,
    pub actions: Vec<ButtonAction>,
    /// Wait before the first action, in milliseconds.
    pub delay_ms: u64,
}

impl Preset {
    pub fn new(name: String, description: String) -> (r: Preset)
        ensures
            r.name@ == name@,
            r.description@ == description@,
            r.triggers@.len() == 0,
            r.actions@.len() == 0,
            r.delay_ms == 0,
    {
        Preset {
            id: fresh_id(),
            name,
            description,
            triggers: Vec::new(),
            actions: Vec::new(),
            delay_ms: 0,
        }
    }
}

/// Some preset already holds a trigger equal to `t`.
pub open spec fn trigger_taken(presets: Seq<Preset>, t: MidiTrigger) -> bool {
    exists|i: int, j: int|
        0 <= i < presets.len() && 0 <= j < presets[i].triggers@.len() && #[trigger] presets[i].triggers@[j]
            == t
}

/// Tells whether any preset already holds `new_trigger`.
pub fn check_conflicts(presets: &[Preset], new_trigger: &MidiTrigger) -> (r: bool)
    ensures
        r == trigger_taken(presets@, *new_trigger),
{
    let mut i: usize = 0;
    while i < presets.len()
        invariant
            i <= presets@.len(),
            forall|a: int, b: int|
                0 <= a < i && 0 <= b < presets@[a].triggers@.len() ==> #[trigger] presets@[a].triggers@[b]
                    != *new_trigger,
        decreases presets@.len() - i,
    {
        let triggers = &presets[i].triggers;
        let mut j: usize = 0;
        while j < triggers.len()
            invariant
                i < presets@.len(),
                triggers@ == presets@[i as int].triggers@,
                j <= triggers@.len(),
                forall|a: int, b: int|
                    0 <= a < i && 0 <= b < presets@[a].triggers@.len() ==> #[trigger] presets@[a].triggers@[b]
                        != *new_trigger,
                forall|b: int| 0 <= b < j ==> #[trigger] triggers@[b] != *new_trigger,
            decreases triggers@.len() - j,
        {
            if triggers[j] == *new_trigger {
                assert(presets@[i as int].triggers@[j as int] == *new_trigger);
                return true;
            }
            j = j + 1;
        }
        i = i + 1;
    }
    false
}

/// Learning a trigger: armed, the next event is recorded as a trigger.
pub struct MidiLearnState {
    pub active: bool,
    pub captured: Option<MidiTrigger>,
}

impl MidiLearnState {
    pub fn new() -> (r: MidiLearnState)
        ensures
            !r.active,
            r.captured is None,
    {
        MidiLearnState { active: false, captured: None }
    }

    /// Records the trigger of `msg` and disarms, when armed; does nothing otherwise.
    pub fn capture(&mut self, msg: &MidiMessage)
        ensures
            old(self).active ==> !final(self).active && final(self).captured == Some(
                trigger_of(*msg),
            ),
            !old(self).active ==> *final(self) == *old(self),
    {
        if !self.active {
            return;
        }
        self.captured = MidiTrigger::from_message(msg);
        self.active = false;
    }
}


/// The pitch class of a MIDI note number.
pub open spec fn note_name_of(note: u8) -> Seq<char> {
    let k = note % 12;
    if k == 0 { "C"@ }
    else if k == 1 { "C#"@ }
    else if k == 2 { "D"@ }
    else if k == 3 { "D#"@ }
    else if k == 4 { "E"@ }
    else if k == 5 { "F"@ }
    else if k == 6 { "F#"@ }
    else if k == 7 { "G"@ }
    else if k == 8 { "G#"@ }
    else if k == 9 { "A"@ }
    else if k == 10 { "A#"@ }
    else { "B"@ }
}

pub fn note_name(note: u8) -> (r: &'static str)
    ensures
        r@ == note_name_of(note),
{
    match note % 12 {
        0 => "C",
        1 => "C#",
        2 => "D",
        3 => "D#",
        4 => "E",
        5 => "F",
        6 => "F#",
        7 => "G",
        8 => "G#",
        9 => "A",
        10 => "A#",
        _ => "B",
    }
}

pub open spec fn dec(n: u8) -> Seq<char> {
    decimal(n as nat)
}

/// How a trigger is shown: `Note On Ch0 N60 (C)`, `CC7 Ch1 = 64`, `CC7 Ch1 (any)`.
pub open spec fn trigger_text(t: MidiTrigger) -> Seq<char> {
    match t {
        MidiTrigger::NoteOn { channel, note } => "Note On Ch"@ + dec(channel) + " N"@ + dec(note)
            + " ("@ + note_name_of(note) + ")"@,
        MidiTrigger::NoteOff { channel, note } => "Note Off Ch"@ + dec(channel) + " N"@ + dec(note)
            + " ("@ + note_name_of(note) + ")"@,
        MidiTrigger::ControlChange { channel, cc, value } => match value {
            Some(v) => "CC"@ + dec(cc) + " Ch"@ + dec(channel) + " = "@ + dec(v),
            None => "CC"@ + dec(cc) + " Ch"@ + dec(channel) + " (any)"@,
        },
    }
}

/// How an event is shown: `Note On Ch0 N60 V100`, `CC7 Ch1 = 64`.
pub open spec fn message_text(m: MidiMessage) -> Seq<char> {
    match m {
        MidiMessage::NoteOn(n) => "Note On Ch"@ + dec(n.channel) + " N"@ + dec(n.note) + " V"@ + dec(
            n.velocity,
        ),
        MidiMessage::NoteOff(n) => "Note Off Ch"@ + dec(n.channel) + " N"@ + dec(n.note) + " V"@
            + dec(n.velocity),
        MidiMessage::ControlChange { channel, cc, value } => "CC"@ + dec(cc) + " Ch"@ + dec(channel)
            + " = "@ + dec(value),
    }
}

fn note_text(s: &mut String, head: &str, channel: u8, note: u8)
    ensures
        final(s)@ == old(s)@ + head@ + dec(channel) + " N"@ + dec(note),
{
    s.append(head);
    push_decimal(s, channel as u32);
    s.append(" N");
    push_decimal(s, note as u32);
}

fn control_text(s: &mut String, cc: u8, channel: u8)
    ensures
        final(s)@ == old(s)@ + "CC"@ + dec(cc) + " Ch"@ + dec(channel),
{
    s.append("CC");
    push_decimal(s, cc as u32);
    s.append(" Ch");
    push_decimal(s, channel as u32);
}

impl MidiTrigger {
    pub fn display_name(&self) -> (r: String)
        ensures
            r@ == trigger_text(*self),
    {
        let mut s = String::new();
        match self {
            MidiTrigger::NoteOn { channel, note } => {
                note_text(&mut s, "Note On Ch", *channel, *note);
                s.append(" (");
                s.append(note_name(*note));
                s.append(")");
            },
            MidiTrigger::NoteOff { channel, note } => {
                note_text(&mut s, "Note Off Ch", *channel, *note);
                s.append(" (");
                s.append(note_name(*note));
                s.append(")");
            },
            MidiTrigger::ControlChange { channel, cc, value } => {
                control_text(&mut s, *cc, *channel);
                match value {
                    Some(v) => {
                        s.append(" = ");
                        push_decimal(&mut s, *v as u32);
                    },
                    None => {
                        s.append(" (any)");
                    },
                }
            },
        }
        assert(s@ =~= trigger_text(*self));
        s
    }
}

impl MidiMessage {
    pub fn display_name(&self) -> (r: String)
        ensures
            r@ == message_text(*self),
    {
        let mut s = String::new();
        match self {
            MidiMessage::NoteOn(n) => {
                note_text(&mut s, "Note On Ch", n.channel, n.note);
                s.append(" V");
                push_decimal(&mut s, n.velocity as u32);
            },
            MidiMessage::NoteOff(n) => {
                note_text(&mut s, "Note Off Ch", n.channel, n.note);
                s.append(" V");
                push_decimal(&mut s, n.velocity as u32);
            },
            MidiMessage::ControlChange { channel, cc, value } => {
                control_text(&mut s, *cc, *channel);
                s.append(" = ");
                push_decimal(&mut s, *value as u32);
            },
        }
        assert(s@ =~= message_text(*self));
        s
    }
}

} // verus!
