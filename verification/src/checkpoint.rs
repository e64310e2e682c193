use vstd::prelude::*;

verus! {

/// The mathematical image of the resumption cursor: its name and the last
/// height saved under it, if any was.
#[verifier::ext_equal]
pub struct CheckpointV {
    pub key: Seq<char>,
    pub height: Option<u64>,
}

/// The durable resumption cursor: one logical row per key, read once at
/// startup and overwritten after each committed event (last write wins).
/// The saved height means "resume no earlier than here": a crash before a
/// save costs at most a replay of the last events, never corruption.
pub struct CheckpointStore {
    pub key: String,
    pub height: Option<u64>,
}

impl View for CheckpointStore {
    type V = CheckpointV;

    open spec fn view(&self) -> CheckpointV {
        CheckpointV { key: self.key@, height: self.height }
    }
}

impl CheckpointStore {
    /// A cursor that no commit has advanced yet.
    pub fn new(key: String) -> (s: Self)
        ensures
            s@.key == key@,
            s@.height is None,
    {
        CheckpointStore { key, height: None }
    }

    /// The height to resume from, if any commit ever advanced the cursor.
    pub fn load(&self) -> (h: Option<u64>)
        ensures
            h == self@.height,
    {
        self.height
    }

    /// Overwrites the cursor with the height of a fully processed event.
    pub fn save(&mut self, height: u64)
        ensures
            final(self)@.key == old(self)@.key,
            final(self)@.height == Some(height),
    {
        self.height = Some(height);
    }
}

} // verus!
