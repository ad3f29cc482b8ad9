//! Joining the pieces that the workers fetched.
//!
//! Every worker leaves the bytes of its interval under its own id. The ids
//! were handed out in the order of the intervals, so the pieces taken in
//! ascending id order are the resource again.

use crate::decimal::{
    decimal_text, decimal_value, lemma_decimal_round_trip, parse_decimal, to_decimal,
};
use crate::partition::{lemma_tiles_within, tiles, Interval, WorkerId, MAX_WORKERS};
use vstd::prelude::*;
use vstd::relations::injective_on;
use vstd::set_lib::{lemma_int_range, lemma_map_size, lemma_subset_equality, set_int_range};
use vstd::string::*;

verus! {

/// The bytes that one worker fetched, kept under that worker's id.
#[derive(Debug, PartialEq, Eq)]
pub struct Artifact {
    pub worker_id: WorkerId,
    pub bytes: Vec<u8>,
}

/// Why a set of artifacts cannot be joined.
#[derive(Debug, Clone, Copy, PartialEq, Eq)]
pub enum ReassemblyError {
    /// There are more artifacts than worker ids.
    TooManyArtifacts,
    /// No artifact is kept under this id, the lowest such id.
    MissingArtifact { worker_id: WorkerId },
}

/// The index of the first artifact at or after `from` kept under `id`, and
/// the number of artifacts where there is none.
pub open spec fn slot_from(artifacts: Seq<Artifact>, id: int, from: int) -> int
    decreases artifacts.len() - from,
{
    if from < 0 || from >= artifacts.len() {
        artifacts.len() as int
    } else if artifacts[from].worker_id == id {
        from
    } else {
        slot_from(artifacts, id, from + 1)
    }
}

/// The index of the artifact kept under `id`.
pub open spec fn slot(artifacts: Seq<Artifact>, id: int) -> int {
    slot_from(artifacts, id, 0)
}

/// An artifact is kept under `id`.
pub open spec fn holds(artifacts: Seq<Artifact>, id: int) -> bool {
    exists|j: int| 0 <= j < artifacts.len() && (#[trigger] artifacts[j]).worker_id == id
}

/// Each of the ids `1` to the number of artifacts has its artifact.
pub open spec fn complete(artifacts: Seq<Artifact>) -> bool {
    forall|id: int| 1 <= id <= artifacts.len() ==> #[trigger] holds(artifacts, id)
}

/// The contents of the artifacts in ascending order of worker id.
pub open spec fn pieces(artifacts: Seq<Artifact>) -> Seq<Seq<u8>> {
    Seq::new(artifacts.len(), |i: int| artifacts[slot(artifacts, i + 1)].bytes@)
}

/// The parts one after the other.
pub open spec fn joined(parts: Seq<Seq<u8>>) -> Seq<u8>
    decreases parts.len(),
{
    if parts.len() == 0 {
        Seq::empty()
    } else {
        joined(parts.drop_last()) + parts.last()
    }
}

/// What the artifacts join to.
pub open spec fn assembled(artifacts: Seq<Artifact>) -> Seq<u8> {
    joined(pieces(artifacts))
}

/// The bytes of `resource` that `interval` names.
pub open spec fn slice_of(resource: Seq<u8>, interval: Interval) -> Seq<u8> {
    resource.subrange(interval.0 as int, interval.1 + 1)
}

/// The bytes of `resource` that each of `intervals` names, in their order.
pub open spec fn slices(resource: Seq<u8>, intervals: Seq<Interval>) -> Seq<Seq<u8>> {
    Seq::new(intervals.len(), |i: int| slice_of(resource, intervals[i]))
}

/// The artifacts are what the workers of `intervals` fetched of `resource`:
/// one artifact for each id, holding the bytes of that worker's interval.
pub open spec fn fetched_from(
    artifacts: Seq<Artifact>,
    resource: Seq<u8>,
    intervals: Seq<Interval>,
) -> bool {
    &&& artifacts.len() == intervals.len()
    &&& complete(artifacts)
    &&& forall|j: int|
        0 <= j < artifacts.len() ==> {
            &&& 1 <= (#[trigger] artifacts[j]).worker_id <= intervals.len()
            &&& artifacts[j].bytes@ == slice_of(resource, intervals[artifacts[j].worker_id - 1])
        }
}

/// The worker id that a storage key writes: a decimal number from `1` up
/// to the largest id.
pub open spec fn key_worker(key: Seq<char>) -> Option<WorkerId> {
    match decimal_value(key) {
        Some(n) => if 1 <= n <= MAX_WORKERS {
            Some(n as WorkerId)
        } else {
            None
        },
        None => None,
    }
}

/// [`slot_from`] finds an artifact of the id, and the first one.
pub proof fn lemma_slot_from(artifacts: Seq<Artifact>, id: int, from: int)
    requires
        0 <= from,
    ensures
        from <= slot_from(artifacts, id, from) || slot_from(artifacts, id, from) == artifacts.len(),
        slot_from(artifacts, id, from) <= artifacts.len(),
        slot_from(artifacts, id, from) < artifacts.len() ==> artifacts[slot_from(
            artifacts,
            id,
            from,
        )].worker_id == id,
        forall|j: int|
            from <= j < slot_from(artifacts, id, from) ==> (#[trigger] artifacts[j]).worker_id
                != id,
    decreases artifacts.len() - from,
{
    if from < artifacts.len() && artifacts[from].worker_id != id {
        lemma_slot_from(artifacts, id, from + 1);
    }
}

/// Where an artifact is kept under `id`, [`slot`] is the index of the first
/// such artifact; where none is, it is the number of artifacts.
pub proof fn lemma_slot(artifacts: Seq<Artifact>, id: int)
    ensures
        0 <= slot(artifacts, id) <= artifacts.len(),
        holds(artifacts, id) <==> slot(artifacts, id) < artifacts.len(),
        holds(artifacts, id) ==> artifacts[slot(artifacts, id)].worker_id == id,
        forall|j: int| 0 <= j < slot(artifacts, id) ==> (#[trigger] artifacts[j]).worker_id != id,
{
    lemma_slot_from(artifacts, id, 0);
    if holds(artifacts, id) {
        let j = choose|j: int|
            0 <= j < artifacts.len() && (#[trigger] artifacts[j]).worker_id == id;
        assert(slot(artifacts, id) <= j);
    }
}

/// The storage key of a worker's artifact: its id in decimal.
pub fn storage_key(worker_id: WorkerId) -> (key: String)
    ensures
        key@ == decimal_text(worker_id as nat),
{
    to_decimal(worker_id as u64)
}

/// The worker id that a storage key writes, if it writes one.
pub fn parse_worker_id(key: &str) -> (worker_id: Option<WorkerId>)
    ensures
        worker_id == key_worker(key@),
{
    match parse_decimal(key) {
        Some(n) => if 1 <= n && n <= MAX_WORKERS as u64 {
            Some(n as u16)
        } else {
            None
        },
        None => None,
    }
}

/// A worker's storage key reads back as that worker's id.
pub proof fn lemma_storage_key_round_trip(worker_id: WorkerId)
    requires
        worker_id >= 1,
    ensures
        key_worker(decimal_text(worker_id as nat)) == Some(worker_id),
{
    lemma_decimal_round_trip(worker_id as u64);
}

/// No two workers share a storage key.
pub proof fn lemma_storage_keys_differ(first: WorkerId, second: WorkerId)
    requires
        first != second,
    ensures
        decimal_text(first as nat) != decimal_text(second as nat),
{
    lemma_decimal_round_trip(first as u64);
    lemma_decimal_round_trip(second as u64);
}

impl ReassemblyError {
    /// What the user is told: the stage that failed and the worker whose
    /// interval is concerned.
    pub open spec fn message(self) -> Seq<char> {
        match self {
            ReassemblyError::TooManyArtifacts => "reassembly: more artifacts than worker ids"@,
            ReassemblyError::MissingArtifact { worker_id } => "reassembly: no artifact of worker "@
                + decimal_text(worker_id as nat),
        }
    }

    /// The message for the user.
    pub fn describe(&self) -> (text: String)
        ensures
            text@ == self.message(),
    {
        match self {
            ReassemblyError::TooManyArtifacts => String::from_str(
                "reassembly: more artifacts than worker ids",
            ),
            ReassemblyError::MissingArtifact { worker_id } => {
                let mut text: String = String::from_str("reassembly: no artifact of worker ");
                text.append(to_decimal(*worker_id as u64).as_str());
                text
            },
        }
    }
}

impl Artifact {
    /// The artifact found under a storage key, unless the key is none of a
    /// worker.
    pub fn from_stored(key: &str, bytes: Vec<u8>) -> (artifact: Option<Artifact>)
        ensures
            match artifact {
                Some(a) => key_worker(key@) == Some(a.worker_id) && a.bytes == bytes,
                None => key_worker(key@) is None,
            },
    {
        match parse_worker_id(key) {
            Some(worker_id) => Some(Artifact { worker_id, bytes }),
            None => None,
        }
    }
}

/// Where each worker's artifact is kept: at index `i` the index of the
/// artifact of worker `i + 1`, and the number of artifacts where that
/// worker has none. One pass over the artifacts fills the table.
pub fn worker_slots(artifacts: &Vec<Artifact>) -> (slots: Vec<usize>)
    ensures
        slots@.len() == artifacts@.len(),
        forall|i: int| 0 <= i < slots@.len() ==> #[trigger] slots@[i] == slot(artifacts@, i + 1),
{
    let count: usize = artifacts.len();
    let mut slots: Vec<usize> = vec![count; count];
    let mut j: usize = 0;
    proof {
        assert forall|i: int| 0 <= i < count implies #[trigger] slots@[i] == count && 0 <= slot(
            artifacts@,
            i + 1,
        ) by {
            lemma_slot(artifacts@, i + 1);
        }
    }
    while j < count
        invariant
            j <= count == artifacts@.len() == slots@.len(),
            forall|i: int|
                0 <= i < count ==> #[trigger] slots@[i] == if slot(artifacts@, i + 1) < j {
                    slot(artifacts@, i + 1)
                } else {
                    count as int
                },
        decreases count - j,
    {
        let id: usize = artifacts[j].worker_id as usize;
        let ghost before = slots@;
        proof {
            assert forall|i: int| 0 <= i < count implies (slot(artifacts@, i + 1) == j <==> i + 1
                == id && #[trigger] before[i] == count) by {
                lemma_slot(artifacts@, i + 1);
            }
        }
        if 1 <= id && id <= count && slots[id - 1] == count {
            slots.set(id - 1, j);
        }
        j = j + 1;
    }
    proof {
        assert forall|i: int| 0 <= i < slots@.len() implies #[trigger] slots@[i] == slot(
            artifacts@,
            i + 1,
        ) by {
            lemma_slot(artifacts@, i + 1);
        }
    }
    slots
}

/// Joins the artifacts in ascending order of worker id.
///
/// The artifacts may come in any order. They are joined only where each of
/// the ids `1` to their number has its artifact.
pub fn reassemble(artifacts: &Vec<Artifact>) -> (outcome: Result<Vec<u8>, ReassemblyError>)
    ensures
        match outcome {
            Ok(content) => {
                &&& artifacts@.len() <= MAX_WORKERS
                &&& complete(artifacts@)
                &&& content@ == assembled(artifacts@)
            },
            Err(ReassemblyError::MissingArtifact { worker_id }) => {
                &&& artifacts@.len() <= MAX_WORKERS
                &&& 1 <= worker_id <= artifacts@.len()
                &&& !holds(artifacts@, worker_id as int)
                &&& forall|id: int| 1 <= id < worker_id ==> #[trigger] holds(artifacts@, id)
            },
            Err(ReassemblyError::TooManyArtifacts) => artifacts@.len() > MAX_WORKERS,
        },
{
    let count: usize = artifacts.len();
    if count > MAX_WORKERS {
        return Err(ReassemblyError::TooManyArtifacts);
    }
    let slots: Vec<usize> = worker_slots(artifacts);
    let mut content: Vec<u8> = Vec::new();
    let mut done: usize = 0;
    assert(pieces(artifacts@).subrange(0, 0) =~= Seq::<Seq<u8>>::empty());
    while done < count
        invariant
            done <= count == artifacts@.len() == slots@.len(),
            count <= MAX_WORKERS,
            forall|i: int| 0 <= i < count ==> #[trigger] slots@[i] == slot(artifacts@, i + 1),
            forall|id: int| 1 <= id <= done ==> #[trigger] holds(artifacts@, id),
            content@ == joined(pieces(artifacts@).subrange(0, done as int)),
        decreases count - done,
    {
        let at: usize = slots[done];
        proof {
            lemma_slot(artifacts@, done + 1);
        }
        if at >= count {
            return Err(ReassemblyError::MissingArtifact { worker_id: (done + 1) as WorkerId });
        }
        let ghost before = content@;
        let ghost upto = pieces(artifacts@).subrange(0, done + 1);
        assert(upto.drop_last() =~= pieces(artifacts@).subrange(0, done as int));
        assert(upto.last() == artifacts@[at as int].bytes@);
        content.extend_from_slice(artifacts[at].bytes.as_slice());
        assert(content@ =~= before + artifacts@[at as int].bytes@);
        done = done + 1;
    }
    assert(pieces(artifacts@).subrange(0, done as int) =~= pieces(artifacts@));
    Ok(content)
}

/// In a complete set every artifact has an id of its own, from `1` to the
/// number of artifacts: none is left over and none is kept twice.
pub proof fn lemma_complete_one_each(artifacts: Seq<Artifact>)
    requires
        complete(artifacts),
    ensures
        forall|j: int|
            0 <= j < artifacts.len() ==> {
                &&& 1 <= (#[trigger] artifacts[j]).worker_id <= artifacts.len()
                &&& slot(artifacts, artifacts[j].worker_id as int) == j
            },
{
    let count = artifacts.len() as int;
    let ids = set_int_range(0, count);
    let place = |i: int| slot(artifacts, i + 1);
    let places = ids.map(place);
    lemma_int_range(0, count);
    assert forall|i: int| ids.contains(i) implies 0 <= #[trigger] place(i) < count
        && artifacts[place(i)].worker_id == i + 1 by {
        assert(holds(artifacts, i + 1));
        lemma_slot(artifacts, i + 1);
    }
    assert(injective_on(place, ids));
    lemma_map_size(ids, places, place);
    assert(places.subset_of(ids));
    lemma_subset_equality(places, ids);
    assert forall|j: int| 0 <= j < artifacts.len() implies {
        &&& 1 <= (#[trigger] artifacts[j]).worker_id <= artifacts.len()
        &&& slot(artifacts, artifacts[j].worker_id as int) == j
    } by {
        assert(ids.contains(j));
        assert(places.contains(j));
        let i = choose|i: int| ids.contains(i) && j == place(i);
        assert(place(i) == j);
    }
}

/// The slices of the first `upto` intervals of a tiling join to the
/// resource up to where the last of them ends.
pub proof fn lemma_slices_join_to_prefix(resource: Seq<u8>, intervals: Seq<Interval>, upto: int)
    requires
        resource.len() <= u64::MAX,
        tiles(intervals, resource.len() as u64),
        1 <= upto <= intervals.len(),
    ensures
        joined(slices(resource, intervals).subrange(0, upto)) == resource.subrange(
            0,
            intervals[upto - 1].1 + 1,
        ),
    decreases upto,
{
    let total = resource.len() as u64;
    let parts = slices(resource, intervals).subrange(0, upto);
    lemma_tiles_within(intervals, total, upto - 1);
    assert(parts.last() == slice_of(resource, intervals[upto - 1]));
    if upto == 1 {
        assert(parts.drop_last() =~= Seq::<Seq<u8>>::empty());
        assert(joined(parts.drop_last()) =~= Seq::<u8>::empty());
        assert(joined(parts) == joined(parts.drop_last()) + parts.last());
        assert(joined(parts) =~= resource.subrange(0, intervals[0].1 + 1));
    } else {
        lemma_slices_join_to_prefix(resource, intervals, upto - 1);
        lemma_tiles_within(intervals, total, upto - 2);
        assert(parts.drop_last() =~= slices(resource, intervals).subrange(0, upto - 1));
        assert(intervals[upto - 2].1 + 1 == intervals[upto - 1].0);
        assert(joined(parts) == joined(parts.drop_last()) + parts.last());
        assert(joined(parts) =~= resource.subrange(0, intervals[upto - 1].1 + 1));
    }
}

/// The slices of a tiling, one after the other, are the resource.
pub proof fn lemma_tiling_restores(resource: Seq<u8>, intervals: Seq<Interval>)
    requires
        resource.len() <= u64::MAX,
        tiles(intervals, resource.len() as u64),
    ensures
        joined(slices(resource, intervals)) == resource,
{
    let count = intervals.len() as int;
    lemma_slices_join_to_prefix(resource, intervals, count);
    assert(slices(resource, intervals).subrange(0, count) =~= slices(resource, intervals));
    assert(resource.subrange(0, resource.len() as int) =~= resource);
}

/// Joining in ascending order of worker id what the workers of a tiling
/// fetched gives the resource back, byte for byte.
pub proof fn lemma_reassembly_restores(
    resource: Seq<u8>,
    intervals: Seq<Interval>,
    artifacts: Seq<Artifact>,
)
    requires
        resource.len() <= u64::MAX,
        tiles(intervals, resource.len() as u64),
        fetched_from(artifacts, resource, intervals),
    ensures
        assembled(artifacts) == resource,
{
    assert forall|i: int| 0 <= i < artifacts.len() implies pieces(artifacts)[i] == slices(
        resource,
        intervals,
    )[i] by {
        assert(holds(artifacts, i + 1));
        lemma_slot(artifacts, i + 1);
    }
    assert(pieces(artifacts) =~= slices(resource, intervals));
    lemma_tiling_restores(resource, intervals);
}

/// A single worker fetches the whole resource: its artifact alone is what
/// one unranged download would have brought.
pub proof fn lemma_single_worker_restores(
    resource: Seq<u8>,
    intervals: Seq<Interval>,
    artifacts: Seq<Artifact>,
)
    requires
        resource.len() <= u64::MAX,
        tiles(intervals, resource.len() as u64),
        intervals.len() == 1,
        fetched_from(artifacts, resource, intervals),
    ensures
        artifacts[0].bytes@ == resource,
        assembled(artifacts) == resource,
{
    lemma_reassembly_restores(resource, intervals, artifacts);
    assert(artifacts[0].bytes@ =~= resource);
}

} // verus!
