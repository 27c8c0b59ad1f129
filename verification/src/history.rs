//! What a whole run of submissions leaves in the store.

use crate::fingerprint::sha256_of;
use crate::model::{lemma_submit_grows_all_by_one, StoreState};
use crate::report::ReportData;
use candid::Principal;
use vstd::prelude::*;

verus! {

/// What one caller hands in, together with who called and when.
pub struct Submission {
    pub image: Seq<u8>,
    pub latitude: u64,
    pub longitude: u64,
    pub reporter: Principal,
    pub timestamp: u64,
}

impl Submission {
    /// A submission is accepted exactly when it carries a picture.
    pub open spec fn is_accepted(self) -> bool {
        self.image.len() > 0
    }

    /// The report that is kept for this submission when it gets `id`.
    pub open spec fn report(self, id: u64) -> ReportData {
        ReportData {
            id,
            image_hash: sha256_of(self.image),
            latitude: self.latitude,
            longitude: self.longitude,
            reporter: self.reporter,
            timestamp: self.timestamp,
        }
    }
}

/// The submissions among `attempts` that are accepted, in their order.
pub open spec fn accepted(attempts: Seq<Submission>) -> Seq<Submission>
    decreases attempts.len(),
{
    if attempts.len() == 0 {
        Seq::empty()
    } else if attempts.last().is_accepted() {
        accepted(attempts.drop_last()).push(attempts.last())
    } else {
        accepted(attempts.drop_last())
    }
}

/// The store that `start` becomes when `attempts` are submitted one after
/// the other.
pub open spec fn replay(start: StoreState, attempts: Seq<Submission>) -> StoreState
    decreases attempts.len(),
{
    if attempts.len() == 0 {
        start
    } else {
        let last = attempts.last();
        replay(start, attempts.drop_last()).submit(
            last.image,
            last.latitude,
            last.longitude,
            last.reporter,
            last.timestamp,
        )
    }
}

/// The reports that `batch` adds to a store whose next identifier is
/// `first_id`, all of `batch` being accepted.
pub open spec fn reports_of(batch: Seq<Submission>, first_id: u64) -> Seq<ReportData> {
    Seq::new(batch.len(), |i: int| batch[i].report((first_id + i) as u64))
}

/// A run of submissions adds one report for each accepted submission, in
/// the order of submission and numbered without a gap, and nothing else:
/// the reports that were there before stay first in the list, unchanged.
pub proof fn lemma_replay_appends_accepted(start: StoreState, attempts: Seq<Submission>)
    requires
        start.wf(),
        start.next_id + accepted(attempts).len() <= u64::MAX,
    ensures
        replay(start, attempts).wf(),
        replay(start, attempts).next_id == start.next_id + accepted(attempts).len(),
        replay(start, attempts).all() == start.all() + reports_of(
            accepted(attempts),
            start.next_id,
        ),
    decreases attempts.len(),
{
    if attempts.len() == 0 {
        assert(start.all() + reports_of(accepted(attempts), start.next_id) =~= start.all());
    } else {
        let earlier = attempts.drop_last();
        let last = attempts.last();
        lemma_replay_appends_accepted(start, earlier);
        let mid = replay(start, earlier);
        lemma_submit_grows_all_by_one(
            mid,
            last.image,
            last.latitude,
            last.longitude,
            last.reporter,
            last.timestamp,
        );
        if last.is_accepted() {
            assert(last.report(mid.next_id) == reports_of(accepted(attempts), start.next_id)[
                accepted(earlier).len() as int
            ]);
            assert(replay(start, attempts).all() =~= start.all() + reports_of(
                accepted(attempts),
                start.next_id,
            ));
        }
    }
}

/// Started empty, the store lists exactly the accepted submissions: as many
/// reports as there were, the `i`-th of them under identifier `i`, and no
/// identifier twice.
pub proof fn lemma_store_lists_accepted_submissions(attempts: Seq<Submission>)
    requires
        accepted(attempts).len() <= u64::MAX,
    ensures
        replay(StoreState::empty(), attempts).wf(),
        replay(StoreState::empty(), attempts).all().len() == accepted(attempts).len(),
        forall|i: int|
            0 <= i < accepted(attempts).len() ==> #[trigger] replay(
                StoreState::empty(),
                attempts,
            ).all()[i] == accepted(attempts)[i].report(i as u64),
        replay(StoreState::empty(), attempts).all().no_duplicates(),
{
    lemma_replay_appends_accepted(StoreState::empty(), attempts);
    let end = replay(StoreState::empty(), attempts);
    assert(StoreState::empty().all() =~= Seq::<ReportData>::empty());
    assert(end.all() =~= reports_of(accepted(attempts), 0));
}

/// An accepted submission gets a smaller identifier than every accepted
/// submission after it, whatever was submitted in between.
pub proof fn lemma_later_id_is_larger(
    start: StoreState,
    first: Submission,
    between: Seq<Submission>,
    later: Submission,
)
    requires
        start.wf(),
        first.is_accepted(),
        later.is_accepted(),
        start.next_id + 1 + accepted(between).len() <= u64::MAX,
    ensures
        ({
            let after_first = start.submit(
                first.image,
                first.latitude,
                first.longitude,
                first.reporter,
                first.timestamp,
            );
            let before_later = replay(after_first, between);
            &&& start.submit_result(first.image) is Ok
            &&& before_later.submit_result(later.image) is Ok
            &&& start.submit_result(first.image)->Ok_0 < before_later.submit_result(
                later.image,
            )->Ok_0
        }),
{
    let after_first = start.submit(
        first.image,
        first.latitude,
        first.longitude,
        first.reporter,
        first.timestamp,
    );
    lemma_replay_appends_accepted(after_first, between);
}

} // verus!
