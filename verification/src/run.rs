//! What a run over the unsorted folder does with each entry, and the counts
//! of copied and skipped files that it reports at the end.

use vstd::prelude::*;

verus! {

/// What happens to one entry of the unsorted folder.
#[derive(Clone, Copy, Debug, PartialEq, Eq, Structural)]
pub enum EntryOutcome {
    /// Not a regular file: passed over without being counted.
    NotAFile,
    /// A file whose ID3 tags were read: it is organised and counted as copied.
    Organised,
    /// A file without readable ID3 tags: counted as skipped.
    Skipped,
}

/// The outcome for an entry, from whether it is a regular file and whether
/// its ID3 tags could be read.
pub fn entry_outcome(is_file: bool, tags_readable: bool) -> (outcome: EntryOutcome)
    ensures
        outcome == if !is_file {
            EntryOutcome::NotAFile
        } else if tags_readable {
            EntryOutcome::Organised
        } else {
            EntryOutcome::Skipped
        },
{
    if !is_file {
        EntryOutcome::NotAFile
    } else if tags_readable {
        EntryOutcome::Organised
    } else {
        EntryOutcome::Skipped
    }
}

/// The counts reported at the end of a run.
#[derive(Clone, Copy, Debug)]
pub struct Tally {
    pub copied: i64,
    pub skipped: i64,
}

impl Tally {
    /// A tally before any entry: nothing copied, nothing skipped.
    pub fn new() -> (t: Tally)
        ensures
            t.copied == 0,
            t.skipped == 0,
    {
        Tally { copied: 0, skipped: 0 }
    }

    /// Counts one entry: an organised file as copied, a skipped one as
    /// skipped, and nothing for an entry that is not a file.
    pub fn record(&mut self, outcome: EntryOutcome)
        requires
            outcome == EntryOutcome::Organised ==> old(self).copied < i64::MAX,
            outcome == EntryOutcome::Skipped ==> old(self).skipped < i64::MAX,
        ensures
            final(self).copied == old(self).copied + if outcome == EntryOutcome::Organised { 1int } else { 0int },
            final(self).skipped == old(self).skipped + if outcome == EntryOutcome::Skipped { 1int } else { 0int },
    {
        match outcome {
            EntryOutcome::NotAFile => {},
            EntryOutcome::Organised => {
                self.copied = self.copied + 1;
            },
            EntryOutcome::Skipped => {
                self.skipped = self.skipped + 1;
            },
        }
    }
}

} // verus!
