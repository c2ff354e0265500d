//! Independent rotation queues, avoid-repeat selection, pause, and skip.

use vstd::prelude::*;
use vstd::string::*;

use crate::ids::{hyphenated, is_v4, AssetId, CollectionId, RotationQueueId};
use crate::text::{decimal, decimal_text, trim, trimmed_chars};

verus! {

/// Current serialized rotation-queue schema.
pub const ROTATION_QUEUE_SCHEMA_VERSION: u16 = 1;

/// Avoid-repeat and pause policy for a queue.
#[derive(Clone, Copy, Debug, PartialEq, Eq, Structural)]
pub struct RotationPolicy {
    /// Do not reselect an asset that appears in the last N history entries for this queue.
    pub avoid_repeat_count: u32,
    /// When true the scheduler holds the current wallpaper and skips auto-advance.
    pub paused: bool,
}

impl Default for RotationPolicy {
    fn default() -> (r: Self)
        ensures
            r.avoid_repeat_count == 5,
            !r.paused,
    {
        RotationPolicy { avoid_repeat_count: 5, paused: false }
    }
}

/// Where a rotation queue draws its ordered membership.
#[derive(Clone, Debug, PartialEq, Eq)]
pub enum RotationSource {
    /// Explicit ordered asset list owned by the queue.
    Assets {
        /// Membership in rotation order.
        asset_ids: Vec<AssetId>,
    },
    /// Library collection membership (resolved at selection time).
    Collection {
        /// Collection providing the ordered assets.
        collection_id: CollectionId,
    },
}

/// Independent wallpaper rotation queue.
#[derive(Clone, Debug)]
pub struct RotationQueue {
    /// Serialized schema version.
    pub schema_version: u16,
    /// Stable identity.
    pub id: RotationQueueId,
    /// User-visible name.
    pub name: String,
    /// Membership source.
    pub source: RotationSource,
    /// Avoid-repeat and pause controls.
    pub policy: RotationPolicy,
    /// Index of the next candidate within the resolved membership.
    pub cursor: u32,
}

/// The first invariant a queue breaks.
pub open spec fn queue_check(q: RotationQueue) -> Result<(), RotationError> {
    if q.schema_version != ROTATION_QUEUE_SCHEMA_VERSION {
        Err(RotationError::UnsupportedSchema(q.schema_version))
    } else if trim(q.name@).len() == 0 {
        Err(RotationError::EmptyName)
    } else if q.source matches RotationSource::Assets { asset_ids } && asset_ids@.len() == 0 {
        Err(RotationError::EmptyQueue)
    } else {
        Ok(())
    }
}

impl RotationQueue {
    /// Creates a queue from an explicit asset list.
    pub fn from_assets(name: &str, asset_ids: Vec<AssetId>) -> (r: Self)
        ensures
            r.schema_version == ROTATION_QUEUE_SCHEMA_VERSION,
            is_v4(r.id.0),
            r.name@ == name@,
            r.source == (RotationSource::Assets { asset_ids }),
            r.policy.avoid_repeat_count == 5 && !r.policy.paused,
            r.cursor == 0,
    {
        RotationQueue {
            schema_version: ROTATION_QUEUE_SCHEMA_VERSION,
            id: RotationQueueId::new(),
            name: name.to_owned(),
            source: RotationSource::Assets { asset_ids },
            policy: RotationPolicy::default(),
            cursor: 0,
        }
    }

    /// Creates a queue bound to a library collection.
    pub fn from_collection(name: &str, collection_id: CollectionId) -> (r: Self)
        ensures
            r.schema_version == ROTATION_QUEUE_SCHEMA_VERSION,
            is_v4(r.id.0),
            r.name@ == name@,
            r.source == (RotationSource::Collection { collection_id }),
            r.policy.avoid_repeat_count == 5 && !r.policy.paused,
            r.cursor == 0,
    {
        RotationQueue {
            schema_version: ROTATION_QUEUE_SCHEMA_VERSION,
            id: RotationQueueId::new(),
            name: name.to_owned(),
            source: RotationSource::Collection { collection_id },
            policy: RotationPolicy::default(),
            cursor: 0,
        }
    }

    /// Validates schema and name invariants.
    pub fn validate(&self) -> (r: Result<(), RotationError>)
        ensures
            r == queue_check(*self),
    {
        if self.schema_version != ROTATION_QUEUE_SCHEMA_VERSION {
            return Err(RotationError::UnsupportedSchema(self.schema_version));
        }
        let trimmed = trimmed_chars(self.name.as_str());
        if trimmed.len() == 0 {
            return Err(RotationError::EmptyName);
        }
        match &self.source {
            RotationSource::Assets { asset_ids } => {
                if asset_ids.len() == 0 {
                    return Err(RotationError::EmptyQueue);
                }
            },
            RotationSource::Collection { .. } => {},
        }
        Ok(())
    }
}

/// Explainable selection outcome from a rotation queue.
#[derive(Clone, Debug, PartialEq, Eq)]
pub struct SelectionDecision {
    /// Chosen asset.
    pub asset_id: AssetId,
    /// Human-readable reason suitable for status/CLI output.
    pub reason: String,
    /// Cursor value to persist after a successful apply.
    pub next_cursor: u32,
}

/// Whether `asset` is among the first `avoid` entries of the newest-first `recent` list.
pub open spec fn recently_used(recent: Seq<AssetId>, avoid: nat, asset: AssetId) -> bool {
    exists|k: int| 0 <= k < recent.len() && k < avoid && recent[k] == asset
}

/// Membership position reached `offset` steps after `start`, wrapping around.
pub open spec fn rotated(start: int, offset: int, len: int) -> int {
    (start + offset) % len
}

/// The member `offset` steps from `start` may be chosen: it was not recently used, or it is
/// the last member left to try.
pub open spec fn selectable(membership: Seq<AssetId>, recent: Seq<AssetId>, avoid: nat, start: int, offset: int) -> bool {
    !recently_used(recent, avoid, membership[rotated(start, offset, membership.len() as int)])
        || offset + 1 >= membership.len()
}

/// `offset` is the first step from `start` that reaches a selectable member.
pub open spec fn is_first_selectable(
    membership: Seq<AssetId>,
    recent: Seq<AssetId>,
    avoid: nat,
    start: int,
    offset: int,
) -> bool {
    &&& 0 <= offset < membership.len()
    &&& selectable(membership, recent, avoid, start, offset)
    &&& forall|o: int| 0 <= o < offset ==> !#[trigger] selectable(membership, recent, avoid, start, o)
}

/// Steps from the cursor to the member `select_next` picks.
pub open spec fn chosen_offset(membership: Seq<AssetId>, recent: Seq<AssetId>, avoid: nat, start: int) -> int {
    choose|o: int| is_first_selectable(membership, recent, avoid, start, o)
}

/// Cursor value after the member at `index`: the next position, wrapping, or zero when it
/// does not fit in `u32`.
pub open spec fn cursor_after(index: int, len: int) -> u32 {
    if (index + 1) % len <= u32::MAX {
        ((index + 1) % len) as u32
    } else {
        0
    }
}

/// The explanation `select_next` gives for choosing `asset` at `index`.
pub open spec fn selection_reason(asset: AssetId, index: int, avoid: nat, exhausted: bool) -> Seq<char> {
    "selected "@ + hyphenated(asset.0) + " at cursor "@ + decimal(index as nat) + if exhausted {
        " (avoid-repeat exhausted; all remaining recently used)"@
    } else {
        " (avoided last "@ + decimal(avoid) + " applies)"@
    }
}

fn rotated_index(start: usize, offset: usize, len: usize) -> (r: usize)
    requires
        start < len,
        offset < len,
    ensures
        r == rotated(start as int, offset as int, len as int),
        r < len,
{
    if offset < len - start {
        proof {
            vstd::arithmetic::div_mod::lemma_small_mod((start + offset) as nat, len as nat);
        }
        start + offset
    } else {
        let r = offset - (len - start);
        proof {
            vstd::arithmetic::div_mod::lemma_mod_multiples_vanish(1, r as int, len as int);
            vstd::arithmetic::div_mod::lemma_small_mod(r as nat, len as nat);
        }
        r
    }
}

fn is_recent(recent: &[AssetId], avoid: usize, candidate: AssetId) -> (r: bool)
    ensures
        r == recently_used(recent@, avoid as nat, candidate),
{
    let mut k: usize = 0;
    while k < recent.len() && k < avoid
        invariant
            k <= recent@.len(),
            forall|q: int| 0 <= q < k ==> recent@[q] != candidate,
        decreases recent@.len() - k,
    {
        if recent[k] == candidate {
            return true;
        }
        k = k + 1;
    }
    false
}

fn next_cursor_for(index: usize, len: usize) -> (r: u32)
    requires
        index < len,
    ensures
        r == cursor_after(index as int, len as int),
{
    let next = if index + 1 == len {
        proof {
            vstd::arithmetic::div_mod::lemma_mod_self_0(len as int);
        }
        0
    } else {
        proof {
            vstd::arithmetic::div_mod::lemma_small_mod((index + 1) as nat, len as nat);
        }
        index + 1
    };
    if next <= u32::MAX as usize {
        next as u32
    } else {
        0
    }
}

/// Selects the next asset from `membership`, honoring avoid-repeat and pause.
///
/// `recent` is the newest-first list of recently applied asset ids for this queue.
#[verifier::loop_isolation(false)]
pub fn select_next(queue: &RotationQueue, membership: &[AssetId], recent: &[AssetId]) -> (r: Result<SelectionDecision, RotationError>)
    ensures
        queue.policy.paused ==> r == Err::<SelectionDecision, _>(RotationError::Paused),
        !queue.policy.paused && membership@.len() == 0 ==> r == Err::<SelectionDecision, _>(RotationError::EmptyQueue),
        !queue.policy.paused && membership@.len() > 0 ==> ({
            let len = membership@.len() as int;
            let start = queue.cursor as int % len;
            let avoid = queue.policy.avoid_repeat_count as nat;
            let offset = chosen_offset(membership@, recent@, avoid, start);
            let index = rotated(start, offset, len);
            let asset = membership@[index];
            &&& r matches Ok(d)
            &&& d.asset_id == asset
            &&& d.next_cursor == cursor_after(index, len)
            &&& d.reason@ == selection_reason(asset, index, avoid, recently_used(recent@, avoid, asset))
        }),
{
    if queue.policy.paused {
        return Err(RotationError::Paused);
    }
    if membership.len() == 0 {
        return Err(RotationError::EmptyQueue);
    }
    let len = membership.len();
    let start = (queue.cursor as usize) % len;
    let avoid = queue.policy.avoid_repeat_count as usize;
    let ghost avoid_n = queue.policy.avoid_repeat_count as nat;
    let mut offset: usize = 0;
    loop
        invariant
            len == membership@.len(),
            len > 0,
            start < len,
            start == queue.cursor as int % len as int,
            avoid == avoid_n,
            offset < len,
            forall|o: int| 0 <= o < offset ==> !#[trigger] selectable(membership@, recent@, avoid_n, start as int, o),
        decreases len - offset,
    {
        let index = rotated_index(start, offset, len);
        let candidate = membership[index];
        let blocked = is_recent(recent, avoid, candidate);
        if !blocked || offset + 1 >= len {
            proof {
                assert(is_first_selectable(membership@, recent@, avoid_n, start as int, offset as int));
                let c = chosen_offset(membership@, recent@, avoid_n, start as int);
                lemma_first_selectable_unique(membership@, recent@, avoid_n, start as int, offset as int, c);
            }
            let next_cursor = next_cursor_for(index, len);
            let mut reason = String::from_str("selected ");
            reason.append(candidate.to_hyphenated_string().as_str());
            reason.append(" at cursor ");
            reason.append(decimal_text(index as u64).as_str());
            if blocked {
                reason.append(" (avoid-repeat exhausted; all remaining recently used)");
            } else {
                reason.append(" (avoided last ");
                reason.append(decimal_text(avoid as u64).as_str());
                reason.append(" applies)");
            }
            return Ok(SelectionDecision { asset_id: candidate, reason, next_cursor });
        }
        offset = offset + 1;
    }
}

proof fn lemma_first_selectable_unique(
    membership: Seq<AssetId>,
    recent: Seq<AssetId>,
    avoid: nat,
    start: int,
    a: int,
    b: int,
)
    requires
        is_first_selectable(membership, recent, avoid, start, a),
        is_first_selectable(membership, recent, avoid, start, b),
    ensures
        a == b,
{
    if a < b {
        assert(!selectable(membership, recent, avoid, start, a));
    } else if b < a {
        assert(!selectable(membership, recent, avoid, start, b));
    }
}

/// Avoid-repeat: while some member has not been used in the last `avoid` applies, the
/// selection never picks a recently used one; the first such member in cursor order wins.
pub proof fn lemma_select_avoids_recent(membership: Seq<AssetId>, recent: Seq<AssetId>, avoid: nat, start: int)
    requires
        membership.len() > 0,
        0 <= start < membership.len(),
        exists|i: int| 0 <= i < membership.len() && !recently_used(recent, avoid, #[trigger] membership[i]),
    ensures
        is_first_selectable(membership, recent, avoid, start, chosen_offset(membership, recent, avoid, start)),
        !recently_used(
            recent,
            avoid,
            membership[rotated(start, chosen_offset(membership, recent, avoid, start), membership.len() as int)],
        ),
{
    let len = membership.len() as int;
    lemma_first_selectable_exists(membership, recent, avoid, start);
    let o = chosen_offset(membership, recent, avoid, start);
    if recently_used(recent, avoid, membership[rotated(start, o, len)]) {
        // Then every offset before `o` is blocked and `o` is the last one: every member is blocked.
        assert(o == len - 1);
        let i = choose|i: int| 0 <= i < len && !recently_used(recent, avoid, #[trigger] membership[i]);
        let oi = if i >= start { i - start } else { i - start + len };
        assert(rotated(start, oi, len) == i) by {
            if i >= start {
                vstd::arithmetic::div_mod::lemma_small_mod(i as nat, len as nat);
            } else {
                vstd::arithmetic::div_mod::lemma_mod_multiples_vanish(1, i, len);
                vstd::arithmetic::div_mod::lemma_small_mod(i as nat, len as nat);
            }
        }
        if oi < o {
            assert(!selectable(membership, recent, avoid, start, oi));
        }
    }
}

proof fn lemma_first_selectable_from(membership: Seq<AssetId>, recent: Seq<AssetId>, avoid: nat, start: int, o: int)
    requires
        membership.len() > 0,
        0 <= o < membership.len(),
        forall|q: int| 0 <= q < o ==> !#[trigger] selectable(membership, recent, avoid, start, q),
    ensures
        exists|f: int| is_first_selectable(membership, recent, avoid, start, f),
    decreases membership.len() - o,
{
    if selectable(membership, recent, avoid, start, o) {
        assert(is_first_selectable(membership, recent, avoid, start, o));
    } else {
        assert(o + 1 < membership.len());
        lemma_first_selectable_from(membership, recent, avoid, start, o + 1);
    }
}

proof fn lemma_first_selectable_exists(membership: Seq<AssetId>, recent: Seq<AssetId>, avoid: nat, start: int)
    requires
        membership.len() > 0,
    ensures
        is_first_selectable(membership, recent, avoid, start, chosen_offset(membership, recent, avoid, start)),
{
    lemma_first_selectable_from(membership, recent, avoid, start, 0);
}

/// Advances the cursor as if the current candidate were skipped without applying.
pub fn skip_current(queue: &RotationQueue, membership: &[AssetId]) -> (r: Result<(u32, AssetId), RotationError>)
    ensures
        membership@.len() == 0 ==> r == Err::<(u32, AssetId), _>(RotationError::EmptyQueue),
        membership@.len() > 0 ==> ({
            let len = membership@.len() as int;
            let index = queue.cursor as int % len;
            r == Ok::<_, RotationError>((cursor_after(index, len), membership@[index]))
        }),
{
    if membership.len() == 0 {
        return Err(RotationError::EmptyQueue);
    }
    let len = membership.len();
    let index = (queue.cursor as usize) % len;
    let skipped = membership[index];
    let next_cursor = next_cursor_for(index, len);
    Ok((next_cursor, skipped))
}

/// Invalid rotation queue or selection state.
#[derive(Clone, Copy, Debug, PartialEq, Eq, Structural)]
pub enum RotationError {
    /// No migration exists for the serialized schema.
    UnsupportedSchema(u16),
    /// Queue names must contain visible characters.
    EmptyName,
    /// A queue needs at least one asset to rotate.
    EmptyQueue,
    /// Auto-advance is paused.
    Paused,
}

} // verus!
