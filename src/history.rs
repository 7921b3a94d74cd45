use vstd::prelude::*;

verus! {

/// A moment in UTC: whole seconds since the Unix epoch and the nanoseconds
/// past that second.
#[derive(Debug, Clone, Copy, PartialEq, Eq, Structural)]
pub struct Timestamp {
    pub secs: i64,
    pub nanos: u32,
}

/// Relies on `chrono::Utc::now` for the current time, split by
/// `DateTime::timestamp` and `DateTime::timestamp_subsec_nanos`.
#[verifier::external_body]
pub(crate) fn now_utc() -> (r: Timestamp) {
    let t = chrono::Utc::now();
    Timestamp { secs: t.timestamp(), nanos: t.timestamp_subsec_nanos() }
}

/// One completed relocation of a file.
#[derive(Debug, Clone, PartialEq, Eq)]
pub struct MovedFile {
    pub from: String,
    pub to: String,
    pub time: Timestamp,
}

impl MovedFile {
    /// A record of a move from `from` to `to`, stamped with the current time.
    pub fn stamped(from: String, to: String) -> (r: MovedFile)
        ensures
            r.from == from,
            r.to == to,
    {
        MovedFile { from, to, time: now_utc() }
    }
}

/// The moves not yet undone, oldest first.
#[derive(Debug, Clone, PartialEq, Eq)]
pub struct History {
    pub moves: Vec<MovedFile>,
}

impl History {
    /// An empty history.
    pub fn new() -> (r: History)
        ensures
            r.moves@ == Seq::<MovedFile>::empty(),
    {
        History { moves: Vec::new() }
    }

    /// Appends one record as the most recent move.
    pub fn push(&mut self, moved: MovedFile)
        ensures
            final(self).moves@ == old(self).moves@.push(moved),
    {
        self.moves.push(moved);
    }

    /// Removes and returns the most recent record; `None` and no change when
    /// the history is empty.
    pub fn pop_last(&mut self) -> (r: Option<MovedFile>)
        ensures
            old(self).moves@.len() == 0 ==> r is None && final(self).moves@ == old(self).moves@,
            old(self).moves@.len() > 0 ==> r == Some(old(self).moves@.last())
                && final(self).moves@ == old(self).moves@.drop_last(),
    {
        self.moves.pop()
    }

    /// Removes and returns every record, oldest first, leaving the history
    /// empty.
    pub fn take_all(&mut self) -> (r: Vec<MovedFile>)
        ensures
            r@ == old(self).moves@,
            final(self).moves@ == Seq::<MovedFile>::empty(),
    {
        let mut taken: Vec<MovedFile> = Vec::new();
        std::mem::swap(&mut taken, &mut self.moves);
        taken
    }

    /// The number of records.
    pub fn len(&self) -> (r: usize)
        ensures
            r == self.moves@.len(),
    {
        self.moves.len()
    }
}

impl Default for History {
    fn default() -> (r: History)
        ensures
            r.moves@ == Seq::<MovedFile>::empty(),
    {
        History::new()
    }
}

/// Where the history of moves is kept on disk.
#[derive(Debug, Clone)]
pub struct HistoryManager {
    path: String,
}

impl HistoryManager {
    /// A manager for the history file at `path`.
    pub fn new(path: String) -> (r: HistoryManager)
        ensures
            r.spec_path() == path@,
    {
        HistoryManager { path }
    }

    /// The path of the history file.
    pub closed spec fn spec_path(&self) -> Seq<char> {
        self.path@
    }

    /// The path of the history file.
    pub fn path(&self) -> (r: &str)
        ensures
            r@ == self.spec_path(),
    {
        self.path.as_str()
    }
}

} // verus!
