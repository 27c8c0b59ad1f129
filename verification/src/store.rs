//! The store itself: a hash map of reports and a counter.

use crate::fingerprint::fingerprint;
use crate::model::StoreState;
use crate::report::{GarbageReport, ReportData, StoreError};
use candid::Principal;
use std::collections::HashMap;
use vstd::prelude::*;

verus! {

broadcast use vstd::std_specs::hash::group_hash_axioms;

/// All reports submitted since start-up. Reports are only ever added: none
/// is changed or removed, and no identifier is given out twice.
pub struct ReportStore {
    reports: HashMap<u64, GarbageReport>,
    next_id: u64,
}

impl View for ReportStore {
    type V = StoreState;

    closed spec fn view(&self) -> StoreState {
        StoreState {
            reports: self.reports@.map_values(|r: GarbageReport| r@),
            next_id: self.next_id,
        }
    }
}

impl ReportStore {
    /// The invariant of the store, stated on its contents.
    pub open spec fn wf(&self) -> bool {
        self@.wf()
    }

    /// A store with no report in it.
    pub fn new() -> (store: ReportStore)
        ensures
            store.wf(),
            store@ == StoreState::empty(),
    {
        let store = ReportStore { reports: HashMap::new(), next_id: 0 };
        assert(store@.reports =~= Map::<u64, ReportData>::empty());
        store
    }

    /// The identifier that the next accepted submission will get.
    pub fn next_id(&self) -> (id: u64)
        ensures
            id == self@.next_id,
    {
        self.next_id
    }

    /// Whether the store can still number one more report. Only a store
    /// that has given out every identifier below `u64::MAX` cannot.
    pub fn has_room(&self) -> (room: bool)
        ensures
            room == self@.has_room(),
    {
        self.next_id < u64::MAX
    }

    /// Files a report whose picture has already been fingerprinted, and
    /// returns the identifier it was given.
    pub fn store_report(
        &mut self,
        image_hash: [u8; 32],
        latitude: u64,
        longitude: u64,
        reporter: Principal,
        timestamp: u64,
    ) -> (id: u64)
        requires
            old(self).wf(),
            old(self)@.has_room(),
        ensures
            final(self).wf(),
            id == old(self)@.next_id,
            final(self)@ == old(self)@.with_report(
                image_hash@,
                latitude,
                longitude,
                reporter,
                timestamp,
            ),
    {
        let id = self.next_id;
        let report = GarbageReport { id, image_hash, latitude, longitude, reporter, timestamp };
        self.next_id = id + 1;
        self.reports.insert(id, report);
        assert(self@.reports =~= old(self)@.reports.insert(id, report@));
        id
    }

    /// Takes in a report: the picture, where it was taken, who sends it and
    /// when.
    ///
    /// A submission without a picture is refused with `InvalidInput` and
    /// leaves the store as it was. Any other is fingerprinted, filed under
    /// the next identifier, and answered with that identifier. Coordinates
    /// are kept as given, whatever they are.
    pub fn submit_garbage_report(
        &mut self,
        image_data: Vec<u8>,
        latitude: u64,
        longitude: u64,
        reporter: Principal,
        timestamp: u64,
    ) -> (result: Result<u64, StoreError>)
        requires
            old(self).wf(),
            image_data@.len() > 0 ==> old(self)@.has_room(),
        ensures
            final(self).wf(),
            result == old(self)@.submit_result(image_data@),
            final(self)@ == old(self)@.submit(
                image_data@,
                latitude,
                longitude,
                reporter,
                timestamp,
            ),
            image_data@.len() == 0 ==> result == Err::<u64, StoreError>(StoreError::InvalidInput)
                && final(self)@ == old(self)@,
            image_data@.len() > 0 ==> result == Ok::<u64, StoreError>(old(self)@.next_id)
                && final(self)@.next_id == old(self)@.next_id + 1,
    {
        if image_data.is_empty() {
            return Err(StoreError::InvalidInput);
        }
        let image_hash = fingerprint(image_data.as_slice());
        let id = self.store_report(image_hash, latitude, longitude, reporter, timestamp);
        Ok(id)
    }

    /// Looks a report up by its identifier. An identifier that was never
    /// given out has no report; that is an answer, not a failure.
    pub fn get_garbage_report(&self, id: u64) -> (found: Option<GarbageReport>)
        requires
            self.wf(),
        ensures
            found.is_some() == (id < self@.next_id),
            match found {
                Some(report) => self@.get(id) == Some(report@),
                None => self@.get(id).is_none(),
            },
    {
        match self.reports.get(&id) {
            Some(report) => Some(*report),
            None => None,
        }
    }

    /// Every report, oldest first: the report at index `i` is the one with
    /// identifier `i`.
    pub fn get_all_garbage_reports(&self) -> (all: Vec<GarbageReport>)
        requires
            self.wf(),
        ensures
            all@.map_values(|r: GarbageReport| r@) == self@.all(),
            all@.len() == self@.all().len(),
            forall|i: int| 0 <= i < all@.len() ==> (#[trigger] all@[i])@ == self@.all()[i],
    {
        let mut all: Vec<GarbageReport> = Vec::new();
        let mut id: u64 = 0;
        while id < self.next_id
            invariant
                self.wf(),
                id <= self.next_id,
                all@.len() == id,
                forall|i: int| 0 <= i < id ==> (#[trigger] all@[i])@ == self@.reports[i as u64],
            decreases self.next_id - id,
        {
            assert(self@.reports.contains_key(id));
            assert(self@.reports[id] == self.reports@[id]@);
            if let Some(report) = self.reports.get(&id) {
                all.push(*report);
            }
            id = id + 1;
        }
        assert(all@.map_values(|r: GarbageReport| r@) =~= self@.all());
        all
    }

    /// Identifier, latitude and longitude of every report, in the order of
    /// `get_all_garbage_reports`.
    pub fn get_report_locations(&self) -> (locations: Vec<(u64, u64, u64)>)
        requires
            self.wf(),
        ensures
            locations@ == self@.locations(),
    {
        let mut locations: Vec<(u64, u64, u64)> = Vec::new();
        let mut id: u64 = 0;
        while id < self.next_id
            invariant
                self.wf(),
                id <= self.next_id,
                locations@.len() == id,
                forall|i: int| 0 <= i < id ==> #[trigger] locations@[i] == self@.locations()[i],
            decreases self.next_id - id,
        {
            assert(self@.reports.contains_key(id));
            assert(self@.reports[id] == self.reports@[id]@);
            if let Some(report) = self.reports.get(&id) {
                locations.push((report.id, report.latitude, report.longitude));
            }
            id = id + 1;
        }
        assert(locations@ =~= self@.locations());
        locations
    }
}

impl Default for ReportStore {
    /// The same as `ReportStore::new`.
    fn default() -> (store: ReportStore)
        ensures
            store.wf(),
            store@ == StoreState::empty(),
    {
        ReportStore::new()
    }
}

} // verus!
