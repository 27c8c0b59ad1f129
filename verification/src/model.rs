//! The store as a mathematical object: a finite map from identifiers to
//! reports, and the identifier that the next report will get.

use crate::fingerprint::sha256_of;
use crate::report::{ReportData, StoreError};
use candid::Principal;
use vstd::prelude::*;

verus! {

/// What the store holds at one moment.
#[verifier::ext_equal]
pub struct StoreState {
    /// The reports kept so far, by identifier.
    pub reports: Map<u64, ReportData>,
    /// The identifier that the next accepted submission gets.
    pub next_id: u64,
}

impl StoreState {
    /// The store at start-up: no report, and 0 as the first identifier.
    pub open spec fn empty() -> StoreState {
        StoreState { reports: Map::empty(), next_id: 0 }
    }

    /// The identifiers in use are exactly those below `next_id`, and every
    /// report is filed under its own identifier.
    pub open spec fn wf(self) -> bool {
        &&& forall|id: u64| #[trigger] self.reports.contains_key(id) <==> id < self.next_id
        &&& forall|id: u64| #[trigger] self.reports.contains_key(id) ==> self.reports[id].id == id
    }

    /// Whether one more report can be numbered.
    pub open spec fn has_room(self) -> bool {
        self.next_id < u64::MAX
    }

    /// The report stored under `id`, if there is one.
    pub open spec fn get(self, id: u64) -> Option<ReportData> {
        if self.reports.contains_key(id) {
            Some(self.reports[id])
        } else {
            None
        }
    }

    /// The store after a report with the given digest was filed under the
    /// next identifier.
    pub open spec fn with_report(
        self,
        image_hash: Seq<u8>,
        latitude: u64,
        longitude: u64,
        reporter: Principal,
        timestamp: u64,
    ) -> StoreState {
        StoreState {
            reports: self.reports.insert(
                self.next_id,
                ReportData {
                    id: self.next_id,
                    image_hash,
                    latitude,
                    longitude,
                    reporter,
                    timestamp,
                },
            ),
            next_id: (self.next_id + 1) as u64,
        }
    }

    /// What a submission answers: the identifier it was given, or
    /// `InvalidInput` when it carries no picture.
    pub open spec fn submit_result(self, image: Seq<u8>) -> Result<u64, StoreError> {
        if image.len() == 0 {
            Err(StoreError::InvalidInput)
        } else {
            Ok(self.next_id)
        }
    }

    /// The store after a submission: unchanged when the picture is empty,
    /// else grown by the report of that picture.
    pub open spec fn submit(
        self,
        image: Seq<u8>,
        latitude: u64,
        longitude: u64,
        reporter: Principal,
        timestamp: u64,
    ) -> StoreState {
        if image.len() == 0 {
            self
        } else {
            self.with_report(sha256_of(image), latitude, longitude, reporter, timestamp)
        }
    }

    /// Every report, in the order in which they were accepted.
    pub open spec fn all(self) -> Seq<ReportData> {
        Seq::new(self.next_id as nat, |i: int| self.reports[i as u64])
    }

    /// Identifier and coordinates of every report, in the order of `all`.
    pub open spec fn locations(self) -> Seq<(u64, u64, u64)> {
        self.all().map_values(|r: ReportData| (r.id, r.latitude, r.longitude))
    }
}

/// A submission keeps the store well formed, as long as an accepted one
/// still finds a free identifier.
pub proof fn lemma_submit_keeps_wf(
    s: StoreState,
    image: Seq<u8>,
    latitude: u64,
    longitude: u64,
    reporter: Principal,
    timestamp: u64,
)
    requires
        s.wf(),
        image.len() > 0 ==> s.has_room(),
    ensures
        s.submit(image, latitude, longitude, reporter, timestamp).wf(),
{
}

/// A submission without a picture is refused, and the store it leaves is
/// the store it found: same reports, same next identifier.
pub proof fn lemma_empty_picture_is_refused(
    s: StoreState,
    image: Seq<u8>,
    latitude: u64,
    longitude: u64,
    reporter: Principal,
    timestamp: u64,
)
    requires
        image.len() == 0,
    ensures
        s.submit_result(image) == Err::<u64, StoreError>(StoreError::InvalidInput),
        s.submit(image, latitude, longitude, reporter, timestamp) == s,
        s.submit(image, latitude, longitude, reporter, timestamp).all() == s.all(),
{
}

/// Of two accepted submissions, one right after the other, the second gets
/// the larger identifier: the one that follows the first.
pub proof fn lemma_next_id_is_larger(
    s: StoreState,
    image: Seq<u8>,
    latitude: u64,
    longitude: u64,
    reporter: Principal,
    timestamp: u64,
    next_image: Seq<u8>,
)
    requires
        s.wf(),
        image.len() > 0,
        next_image.len() > 0,
        s.has_room(),
    ensures
        s.submit_result(image) is Ok,
        s.submit(image, latitude, longitude, reporter, timestamp).submit_result(next_image) is Ok,
        s.submit_result(image)->Ok_0 < s.submit(
            image,
            latitude,
            longitude,
            reporter,
            timestamp,
        ).submit_result(next_image)->Ok_0,
        s.submit(image, latitude, longitude, reporter, timestamp).submit_result(next_image)->Ok_0
            == s.submit_result(image)->Ok_0 + 1,
{
}

/// An accepted submission can be read back under the identifier it was
/// given: coordinates, sender and time as submitted, and the digest of the
/// submitted picture.
pub proof fn lemma_accepted_report_reads_back(
    s: StoreState,
    image: Seq<u8>,
    latitude: u64,
    longitude: u64,
    reporter: Principal,
    timestamp: u64,
)
    requires
        s.wf(),
        image.len() > 0,
    ensures
        s.submit_result(image) == Ok::<u64, StoreError>(s.next_id),
        s.submit(image, latitude, longitude, reporter, timestamp).get(s.next_id) == Some(
            ReportData {
                id: s.next_id,
                image_hash: sha256_of(image),
                latitude,
                longitude,
                reporter,
                timestamp,
            },
        ),
{
}

/// A submission, accepted or not, leaves every earlier report as it was.
pub proof fn lemma_submit_keeps_earlier_reports(
    s: StoreState,
    image: Seq<u8>,
    latitude: u64,
    longitude: u64,
    reporter: Principal,
    timestamp: u64,
    id: u64,
)
    requires
        s.wf(),
        s.reports.contains_key(id),
    ensures
        s.submit(image, latitude, longitude, reporter, timestamp).get(id) == s.get(id),
{
}

/// An accepted submission adds exactly one report, at the end of the list;
/// a refused one adds none.
pub proof fn lemma_submit_grows_all_by_one(
    s: StoreState,
    image: Seq<u8>,
    latitude: u64,
    longitude: u64,
    reporter: Principal,
    timestamp: u64,
)
    requires
        s.wf(),
        image.len() > 0 ==> s.has_room(),
    ensures
        image.len() == 0 ==> s.submit(image, latitude, longitude, reporter, timestamp).all()
            == s.all(),
        image.len() > 0 ==> s.submit(image, latitude, longitude, reporter, timestamp).all()
            == s.all().push(
            ReportData {
                id: s.next_id,
                image_hash: sha256_of(image),
                latitude,
                longitude,
                reporter,
                timestamp,
            },
        ),
{
    if image.len() > 0 {
        let t = s.submit(image, latitude, longitude, reporter, timestamp);
        let added = ReportData {
            id: s.next_id,
            image_hash: sha256_of(image),
            latitude,
            longitude,
            reporter,
            timestamp,
        };
        assert(t.all() =~= s.all().push(added));
    }
}

/// The list of all reports holds each stored report once and nothing else:
/// it is as long as the number of identifiers given out, the report at
/// index `i` is the one stored under identifier `i`, and no two entries
/// share an identifier.
pub proof fn lemma_all_holds_each_report_once(s: StoreState)
    requires
        s.wf(),
    ensures
        s.all().len() == s.next_id,
        forall|i: int|
            0 <= i < s.all().len() ==> (#[trigger] s.all()[i]).id == i && s.get(i as u64) == Some(
                s.all()[i],
            ),
        forall|id: u64| #[trigger]
            s.reports.contains_key(id) ==> s.all()[id as int] == s.reports[id],
        forall|i: int, j: int|
            0 <= i < j < s.all().len() ==> (#[trigger] s.all()[i]).id != (#[trigger] s.all()[j]).id,
        s.all().no_duplicates(),
{
    assert forall|i: int| 0 <= i < s.all().len() implies (#[trigger] s.all()[i]).id == i && s.get(
        i as u64,
    ) == Some(s.all()[i]) by {
        assert(s.reports.contains_key(i as u64));
    }
}

/// The list of locations is the list of all reports, cut down to
/// identifier and coordinates: each entry names a stored report and
/// carries that report's latitude and longitude.
pub proof fn lemma_locations_project_reports(s: StoreState)
    requires
        s.wf(),
    ensures
        s.locations().len() == s.all().len(),
        forall|i: int|
            0 <= i < s.locations().len() ==> #[trigger] s.locations()[i] == (
                s.all()[i].id,
                s.all()[i].latitude,
                s.all()[i].longitude,
            ),
        forall|i: int|
            0 <= i < s.locations().len() ==> {
                let (id, latitude, longitude) = #[trigger] s.locations()[i];
                &&& s.get(id) is Some
                &&& s.get(id)->Some_0.id == id
                &&& s.get(id)->Some_0.latitude == latitude
                &&& s.get(id)->Some_0.longitude == longitude
            },
{
    assert forall|i: int| 0 <= i < s.locations().len() implies {
        let (id, latitude, longitude) = #[trigger] s.locations()[i];
        &&& s.get(id) is Some
        &&& s.get(id)->Some_0.id == id
        &&& s.get(id)->Some_0.latitude == latitude
        &&& s.get(id)->Some_0.longitude == longitude
    } by {
        assert(s.reports.contains_key(i as u64));
    }
}

} // verus!
