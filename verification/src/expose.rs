//! Rules for exposing a directory of files: when its files are loaded, and
//! which entries stay hidden.

use vstd::prelude::*;

verus! {

/// When the files of an exposed directory are loaded.
#[derive(Clone, Copy, Debug, PartialEq, Eq)]
pub enum DirWarmup {
    /// The directory is read at the start; a file that changes is loaded
    /// again when it is next asked for.
    Warm,
    /// The directory is read at the start; a file that changes is loaded
    /// again at once.
    Hot,
    /// Nothing is read before a file is asked for.
    Cold,
}

impl Default for DirWarmup {
    fn default() -> (res: DirWarmup)
        ensures
            res == DirWarmup::Warm,
    {
        DirWarmup::Warm
    }
}

impl DirWarmup {
    /// Whether the directory is read when it is first exposed.
    pub open spec fn reads_at_start(self) -> bool {
        self != DirWarmup::Cold
    }

    /// Tells whether the directory is read when it is first exposed.
    pub fn scans_at_start(&self) -> (r: bool)
        ensures
            r == self.reads_at_start(),
    {
        match self {
            DirWarmup::Hot => true,
            DirWarmup::Warm => true,
            DirWarmup::Cold => false,
        }
    }
}

/// Whether the entry at `path` is hidden: its path starts with `.`, ends
/// with `~`, or has a segment that starts with `.`.
pub open spec fn is_hidden(path: Seq<u8>) -> bool {
    ||| (path.len() > 0 && path[0] == 0x2e)
    ||| (path.len() > 0 && path.last() == 0x7e)
    ||| exists|i: int| 0 <= i && i + 1 < path.len() && #[trigger] path[i] == 0x2f && path[i + 1] == 0x2e
}

/// Tells whether the entry at `path` may be exposed, which is when it is not
/// hidden.
pub fn not_hidden(path: &[u8]) -> (r: bool)
    ensures
        r == !is_hidden(path@),
{
    let n = path.len();
    if n == 0 {
        return true;
    }
    if path[0] == 0x2e || path[n - 1] == 0x7e {
        return false;
    }
    let mut i: usize = 0;
    while i + 1 < n
        invariant
            n == path@.len(),
            i < n,
            forall|k: int| 0 <= k < i ==> !(#[trigger] path@[k] == 0x2f && path@[k + 1] == 0x2e),
        decreases n - i,
    {
        if path[i] == 0x2f && path[i + 1] == 0x2e {
            return false;
        }
        i += 1;
    }
    true
}

} // verus!
