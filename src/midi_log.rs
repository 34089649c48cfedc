//! A log of recent MIDI activity that keeps only the newest entries.
use vstd::prelude::*;

verus! {

pub open spec fn entry_view(e: (String, String)) -> (Seq<char>, Seq<char>) {
    (e.0@, e.1@)
}

/// What adding an entry leaves: the oldest entry goes once there are too many.
pub open spec fn appended(
    entries: Seq<(Seq<char>, Seq<char>)>,
    entry: (Seq<char>, Seq<char>),
    max_entries: nat,
) -> Seq<(Seq<char>, Seq<char>)> {
    let grown = entries.push(entry);
    if grown.len() > max_entries {
        grown.drop_first()
    } else {
        grown
    }
}

/// Timestamped log lines, oldest first.
pub struct MidiLog {
    entries: Vec<(String, String)>,
    max_entries: usize,
}

impl MidiLog {
    pub closed spec fn entries(&self) -> Seq<(Seq<char>, Seq<char>)> {
        self.entries@.map_values(|e: (String, String)| entry_view(e))
    }

    pub closed spec fn capacity(&self) -> nat {
        self.max_entries as nat
    }

    pub fn new(max_entries: usize) -> (r: MidiLog)
        ensures
            r.entries() == Seq::<(Seq<char>, Seq<char>)>::empty(),
            r.capacity() == max_entries,
    {
        let r = MidiLog { entries: Vec::new(), max_entries };
        assert(r.entries() =~= Seq::<(Seq<char>, Seq<char>)>::empty());
        r
    }

    /// Adds a line stamped with `timestamp`.
    pub fn add(&mut self, timestamp: String, message: String)
        ensures
            final(self).capacity() == old(self).capacity(),
            final(self).entries() == appended(
                old(self).entries(),
                (timestamp@, message@),
                old(self).capacity(),
            ),
    {
        let ghost entry = (timestamp@, message@);
        self.entries.push((timestamp, message));
        assert(self.entries() =~= old(self).entries().push(entry));
        if self.entries.len() > self.max_entries {
            self.entries.remove(0);
            assert(self.entries() =~= old(self).entries().push(entry).drop_first());
        }
    }

    pub fn len(&self) -> (r: usize)
        ensures
            r == self.entries().len(),
    {
        self.entries.len()
    }

    /// The entry at position `i`, oldest first.
    pub fn entry(&self, i: usize) -> (r: (&str, &str))
        requires
            i < self.entries().len(),
        ensures
            r.0@ == self.entries()[i as int].0,
            r.1@ == self.entries()[i as int].1,
    {
        let e = &self.entries[i];
        (e.0.as_str(), e.1.as_str())
    }
}

} // verus!
