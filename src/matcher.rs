//! Deciding which presets an incoming MIDI event starts.
use vstd::prelude::*;

use crate::models::{trigger_matches, MidiMessage, MidiTrigger, Preset};

verus! {

/// Some trigger of the preset fires on the event.
pub open spec fn preset_fires(p: Preset, m: MidiMessage) -> bool {
    exists|j: int| 0 <= j < p.triggers@.len() && trigger_matches(#[trigger] p.triggers@[j], m)
}

/// The positions, in order, of the first `n` presets that the event starts.
pub open spec fn fired_among(presets: Seq<Preset>, m: MidiMessage, n: int) -> Seq<usize>
    decreases n,
{
    if n <= 0 {
        Seq::empty()
    } else if preset_fires(presets[n - 1], m) {
        fired_among(presets, m, n - 1).push((n - 1) as usize)
    } else {
        fired_among(presets, m, n - 1)
    }
}

/// The positions, in order, of every preset that the event starts.
pub open spec fn fired(presets: Seq<Preset>, m: MidiMessage) -> Seq<usize> {
    fired_among(presets, m, presets.len() as int)
}

/// Holds the current presets and matches events against them.
pub struct PresetMatcher {
    presets: Vec<Preset>,
}

impl PresetMatcher {
    pub closed spec fn presets(&self) -> Seq<Preset> {
        self.presets@
    }

    pub fn new(presets: Vec<Preset>) -> (r: PresetMatcher)
        ensures
            r.presets() == presets@,
    {
        PresetMatcher { presets }
    }

    pub fn update_presets(&mut self, presets: Vec<Preset>)
        ensures
            final(self).presets() == presets@,
    {
        self.presets = presets;
    }

    /// The presets that `msg` starts, by position and in declaration order.
    /// Within a preset the first trigger that fires decides; every preset that
    /// fires is listed.
    pub fn handle_midi(&self, msg: &MidiMessage) -> (r: Vec<usize>)
        ensures
            r@ == fired(self.presets(), *msg),
    {
        let mut out: Vec<usize> = Vec::new();
        let mut i: usize = 0;
        while i < self.presets.len()
            invariant
                i <= self.presets@.len(),
                out@ == fired_among(self.presets@, *msg, i as int),
            decreases self.presets@.len() - i,
        {
            let triggers = &self.presets[i].triggers;
            let mut hit = false;
            let mut j: usize = 0;
            while j < triggers.len() && !hit
                invariant
                    i < self.presets@.len(),
                    triggers@ == self.presets@[i as int].triggers@,
                    j <= triggers@.len(),
                    hit ==> preset_fires(self.presets@[i as int], *msg),
                    !hit ==> forall|b: int|
                        0 <= b < j ==> !trigger_matches(#[trigger] triggers@[b], *msg),
                decreases triggers@.len() - j,
            {
                if triggers[j].matches(msg) {
                    hit = true;
                }
                j = j + 1;
            }
            if hit {
                out.push(i);
            }
            i = i + 1;
        }
        out
    }
}

/// A control-change trigger without a value fires on every value of its channel
/// and controller; one with a value fires on that value alone.
pub proof fn lemma_wildcard_trigger(channel: u8, cc: u8, value: Option<u8>, event_value: u8)
    ensures
        trigger_matches(
            MidiTrigger::ControlChange { channel, cc, value },
            MidiMessage::ControlChange { channel, cc, value: event_value },
        ) == (value is None || value == Some(event_value)),
        value is None ==> trigger_matches(
            MidiTrigger::ControlChange { channel, cc, value },
            MidiMessage::ControlChange { channel, cc, value: event_value },
        ),
        forall|v: u8|
            value == Some(v) ==> (trigger_matches(
                MidiTrigger::ControlChange { channel, cc, value },
                MidiMessage::ControlChange { channel, cc, value: event_value },
            ) <==> v == event_value),
{
}

proof fn lemma_fired_among_contains(presets: Seq<Preset>, m: MidiMessage, n: int, i: int)
    requires
        0 <= i < n <= presets.len(),
        preset_fires(presets[i], m),
    ensures
        fired_among(presets, m, n).contains(i as usize),
    decreases n,
{
    if i == n - 1 {
        assert(fired_among(presets, m, n).last() == i as usize);
    } else {
        lemma_fired_among_contains(presets, m, n - 1, i);
        let prev = fired_among(presets, m, n - 1);
        let k = choose|k: int| 0 <= k < prev.len() && prev[k] == i as usize;
        if preset_fires(presets[n - 1], m) {
            assert(prev.push((n - 1) as usize)[k] == i as usize);
        }
    }
}

/// Every preset that an event starts is queued, not only the first: two presets
/// that both fire are both in the result, in declaration order.
pub proof fn lemma_all_fired_presets_queued(presets: Seq<Preset>, m: MidiMessage, i: int, j: int)
    requires
        0 <= i < j < presets.len(),
        preset_fires(presets[i], m),
        preset_fires(presets[j], m),
    ensures
        fired(presets, m).contains(i as usize),
        fired(presets, m).contains(j as usize),
{
    lemma_fired_among_contains(presets, m, presets.len() as int, i);
    lemma_fired_among_contains(presets, m, presets.len() as int, j);
}

} // verus!
