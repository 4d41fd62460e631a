//! A record store held in memory.
//!
//! It stands where a subscriber's record sink would: it keeps the paths it is
//! handed, in the order they came, and fails once it is full.

use vstd::prelude::*;

verus! {

/// Why a path was not stored.
#[derive(Clone, Copy, Debug, PartialEq, Eq, Structural)]
pub enum StoreError {
    /// The store holds as many records as it can.
    Full,
}

/// `RecordStore`, with its texts as sequences.
pub struct RecordStoreView {
    pub records: Seq<Seq<char>>,
    pub capacity: nat,
}

impl RecordStoreView {
    pub open spec fn empty(capacity: nat) -> RecordStoreView {
        RecordStoreView { records: Seq::empty(), capacity }
    }

    /// Whether another record fits.
    pub open spec fn has_room(self) -> bool {
        self.records.len() < self.capacity
    }

    /// Storing a path: it comes last where there is room, and nothing
    /// changes where there is none.
    pub open spec fn insert(self, video_path: Seq<char>) -> (
        RecordStoreView,
        Result<(), StoreError>,
    ) {
        if self.has_room() {
            (
                RecordStoreView {
                    records: self.records.push(video_path),
                    capacity: self.capacity,
                },
                Ok(()),
            )
        } else {
            (self, Err(StoreError::Full))
        }
    }
}

/// The records of a subscriber, oldest first.
#[derive(Debug, PartialEq, Eq)]
pub struct RecordStore {
    records: Vec<String>,
    capacity: usize,
}

impl View for RecordStore {
    type V = RecordStoreView;

    closed spec fn view(&self) -> RecordStoreView {
        RecordStoreView {
            records: Seq::new(self.records@.len(), |i: int| self.records@[i]@),
            capacity: self.capacity as nat,
        }
    }
}

impl RecordStore {
    /// An empty store with room for `capacity` records.
    pub fn new(capacity: usize) -> (store: RecordStore)
        ensures
            store@ == RecordStoreView::empty(capacity as nat),
    {
        let store = RecordStore { records: Vec::new(), capacity };
        assert(store@.records =~= Seq::empty());
        store
    }

    /// Stores a path.
    pub fn insert(&mut self, video_path: &str) -> (outcome: Result<(), StoreError>)
        ensures
            final(self)@ == old(self)@.insert(video_path@).0,
            outcome == old(self)@.insert(video_path@).1,
    {
        if self.records.len() < self.capacity {
            self.records.push(video_path.to_owned());
            assert(self@.records =~= old(self)@.records.push(video_path@));
            Ok(())
        } else {
            Err(StoreError::Full)
        }
    }

    /// The number of records.
    pub fn len(&self) -> (n: usize)
        ensures
            n == self@.records.len(),
    {
        self.records.len()
    }

    /// The path of the record at `index`, if there is one.
    pub fn record(&self, index: usize) -> (path: Option<&str>)
        ensures
            match path {
                Some(p) => index < self@.records.len() && p@ == self@.records[index as int],
                None => index >= self@.records.len(),
            },
    {
        if index < self.records.len() {
            Some(self.records[index].as_str())
        } else {
            None
        }
    }
}

} // verus!
