//! Which counts a report holds, and the default that applies when none is
//! asked for.

use vstd::prelude::*;

verus! {

/// One flag per count: each says whether that count is reported.
#[derive(Clone, Copy, Debug, PartialEq, Eq, Structural)]
pub struct ModeSet {
    pub lines: bool,
    pub words: bool,
    pub chars: bool,
    pub bytes: bool,
}

impl ModeSet {
    /// Whether no count at all is asked for.
    pub open spec fn is_empty(self) -> bool {
        !self.lines && !self.words && !self.chars && !self.bytes
    }

    /// The counts reported when none is asked for: lines, words and bytes.
    pub open spec fn default_triple() -> ModeSet {
        ModeSet { lines: true, words: true, chars: false, bytes: true }
    }

    /// The set of counts that is actually reported for these flags.
    pub open spec fn effective(self) -> ModeSet {
        if self.is_empty() {
            ModeSet::default_triple()
        } else {
            self
        }
    }

    /// The effective set: the flags as given when any is set, else lines,
    /// words and bytes, without characters.
    pub fn resolve(self) -> (r: ModeSet)
        ensures
            r == self.effective(),
            self.is_empty() ==> (r.lines && r.words && !r.chars && r.bytes),
            !self.is_empty() ==> r == self,
    {
        if !self.lines && !self.words && !self.chars && !self.bytes {
            ModeSet { lines: true, words: true, chars: false, bytes: true }
        } else {
            self
        }
    }
}

} // verus!
