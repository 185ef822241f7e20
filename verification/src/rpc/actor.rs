//! The decisions of the RPC actor: how shell events move the current head,
//! and which stored block becomes the head at start-up.

use crate::rpc::state::{BlockApplied, BlockView, RpcCollectedState};
use vstd::prelude::*;

verus! {

/// The shell events that the RPC server is told of.
pub enum ShellChannelMsg {
    /// A block was applied.
    BlockApplied(BlockApplied),
    /// Any other shell event; the RPC server ignores it.
    Other,
}

/// The head after a block is applied: the block, when there is no head yet
/// or when its level is above the head's; the head unchanged otherwise.
pub open spec fn next_head(head: Option<BlockView>, block: BlockView) -> Option<BlockView> {
    match head {
        Some(current) => if current.level < block.level {
            Some(block)
        } else {
            head
        },
        None => Some(block),
    }
}

/// The head after a shell event: moved by an applied block as `next_head`
/// says, unchanged by any other event.
pub open spec fn after_event(head: Option<BlockView>, msg: ShellChannelMsg) -> Option<BlockView> {
    match msg {
        ShellChannelMsg::BlockApplied(block) => next_head(head, block@),
        ShellChannelMsg::Other => head,
    }
}

/// Updates the collected state on a shell event.
pub fn receive(state: &mut RpcCollectedState, msg: ShellChannelMsg)
    ensures
        final(state).chain() == old(state).chain(),
        final(state).head() == after_event(old(state).head(), msg),
{
    match msg {
        ShellChannelMsg::BlockApplied(block) => {
            let have_seen_newer_head = match state.current_head() {
                Some(current_head) => current_head.level < block.level,
                None => true,
            };
            if have_seen_newer_head {
                state.set_current_head(Some(block));
            }
        },
        ShellChannelMsg::Other => {},
    }
}

/// The head after the blocks are applied in order, starting from `head`.
pub open spec fn head_after(head: Option<BlockView>, blocks: Seq<BlockView>) -> Option<BlockView>
    decreases blocks.len(),
{
    if blocks.len() == 0 {
        head
    } else {
        next_head(head_after(head, blocks.drop_last()), blocks.last())
    }
}

/// Applying a block never lowers the level of the head, and leaves a head
/// whose level is the higher of the two.
pub proof fn law_head_level_is_max(head: Option<BlockView>, block: BlockView)
    ensures
        next_head(head, block) matches Some(h) && match head {
            Some(current) => h.level == if current.level < block.level {
                block.level
            } else {
                current.level
            },
            None => h == block,
        },
{
}

/// Applying blocks one after the other from no head leaves as head the
/// first block of the highest level.
pub proof fn law_head_is_first_highest(blocks: Seq<BlockView>)
    requires
        blocks.len() > 0,
    ensures
        head_after(None, blocks) matches Some(h) && (forall|j: int|
            0 <= j < blocks.len() ==> #[trigger] blocks[j].level <= h.level) && exists|i: int|
            0 <= i < blocks.len() && blocks[i] == h && forall|j: int|
                0 <= j < i ==> #[trigger] blocks[j].level < h.level,
    decreases blocks.len(),
{
    if blocks.len() == 1 {
        assert(blocks.drop_last().len() == 0);
        assert(blocks[0] == blocks.last());
    } else {
        let prefix = blocks.drop_last();
        law_head_is_first_highest(prefix);
        let h = head_after(None, prefix)->0;
        let i = choose|i: int|
            0 <= i < prefix.len() && prefix[i] == h && forall|j: int|
                0 <= j < i ==> #[trigger] prefix[j].level < h.level;
        let last = blocks.last();
        assert forall|j: int| 0 <= j < prefix.len() implies #[trigger] blocks[j] == prefix[j] by {}
        if h.level < last.level {
            let n = blocks.len() - 1;
            assert(blocks[n] == last);
            assert forall|j: int| 0 <= j < n implies #[trigger] blocks[j].level < last.level by {
                assert(prefix[j].level <= h.level);
            }
        } else {
            assert(blocks[i] == h);
            assert forall|j: int| 0 <= j < i implies #[trigger] blocks[j].level < h.level by {
                assert(prefix[j].level < h.level);
            }
            assert forall|j: int| 0 <= j < blocks.len() implies #[trigger] blocks[j].level <= h.level by {
                if j < prefix.len() {
                    assert(prefix[j].level <= h.level);
                }
            }
        }
    }
}

/// Starting from a head is the same as starting from no head and applying
/// the head's block first.
pub proof fn law_head_after_from_head(head: BlockView, blocks: Seq<BlockView>)
    ensures
        head_after(Some(head), blocks) == head_after(None, seq![head] + blocks),
    decreases blocks.len(),
{
    if blocks.len() == 0 {
        let one = seq![head] + blocks;
        assert(one.drop_last() =~= Seq::<BlockView>::empty());
        assert(head_after(None, one.drop_last()) == None::<BlockView>);
        assert(one.last() == head);
    } else {
        law_head_after_from_head(head, blocks.drop_last());
        let all = seq![head] + blocks;
        assert(all.drop_last() =~= seq![head] + blocks.drop_last());
        assert(all.last() == blocks.last());
        assert(head_after(None, all) == next_head(head_after(None, all.drop_last()), all.last()));
    }
}

/// The head after the events are received in order, starting from `head`.
pub open spec fn head_after_events(head: Option<BlockView>, msgs: Seq<ShellChannelMsg>) -> Option<BlockView>
    decreases msgs.len(),
{
    if msgs.len() == 0 {
        head
    } else {
        after_event(head_after_events(head, msgs.drop_last()), msgs.last())
    }
}

/// The blocks that the events apply, in order.
pub open spec fn applied_blocks(msgs: Seq<ShellChannelMsg>) -> Seq<BlockView>
    decreases msgs.len(),
{
    if msgs.len() == 0 {
        Seq::empty()
    } else {
        let earlier = applied_blocks(msgs.drop_last());
        match msgs.last() {
            ShellChannelMsg::BlockApplied(block) => earlier.push(block@),
            ShellChannelMsg::Other => earlier,
        }
    }
}

/// Receiving a run of events, applied blocks mixed with any others, moves
/// the head as applying just its blocks in order does.
pub proof fn law_events_apply_their_blocks(head: Option<BlockView>, msgs: Seq<ShellChannelMsg>)
    ensures
        head_after_events(head, msgs) == head_after(head, applied_blocks(msgs)),
    decreases msgs.len(),
{
    if msgs.len() > 0 {
        law_events_apply_their_blocks(head, msgs.drop_last());
        let earlier = applied_blocks(msgs.drop_last());
        match msgs.last() {
            ShellChannelMsg::BlockApplied(block) => {
                assert(earlier.push(block@).drop_last() =~= earlier);
                assert(earlier.push(block@).last() == block@);
            },
            ShellChannelMsg::Other => {},
        }
    }
}

/// From no head, after any run of events that applies at least one block,
/// the head is the first applied block of the highest level.
pub proof fn law_events_keep_first_highest(msgs: Seq<ShellChannelMsg>)
    requires
        applied_blocks(msgs).len() > 0,
    ensures
        head_after_events(None, msgs) matches Some(h) && (forall|j: int|
            0 <= j < applied_blocks(msgs).len() ==> #[trigger] applied_blocks(msgs)[j].level
                <= h.level) && exists|i: int|
            0 <= i < applied_blocks(msgs).len() && applied_blocks(msgs)[i] == h && forall|j: int|
                0 <= j < i ==> #[trigger] applied_blocks(msgs)[j].level < h.level,
{
    law_events_apply_their_blocks(None, msgs);
    law_head_is_first_highest(applied_blocks(msgs));
}

/// What the block-meta storage yields for one stored block: its hash and
/// its metadata, each absent where it could not be read.
pub struct MetaRecord {
    pub block_hash: Option<Vec<u8>>,
    pub meta: Option<BlockMeta>,
}

/// The metadata of a stored block that start-up looks at.
pub struct BlockMeta {
    pub is_applied: bool,
    pub level: i32,
}

/// A record that can become the head: both parts were read and the block
/// is applied.
pub open spec fn is_candidate(record: MetaRecord) -> bool {
    &&& record.block_hash is Some
    &&& record.meta matches Some(m) && m.is_applied
}

/// The level of a record's block.
pub open spec fn record_level(record: MetaRecord) -> i32 {
    record.meta->0.level
}

/// Whether `pick` is the record whose block becomes the head at start-up:
/// among the readable records of applied blocks, the last one of the
/// highest level; none when there is no such record.
pub open spec fn picks(records: Seq<MetaRecord>, pick: Option<int>) -> bool {
    match pick {
        Some(i) => {
            &&& 0 <= i < records.len()
            &&& is_candidate(records[i])
            &&& forall|j: int|
                0 <= j < records.len() && is_candidate(#[trigger] records[j]) ==> record_level(
                    records[j],
                ) <= record_level(records[i])
            &&& forall|j: int|
                i < j < records.len() && is_candidate(#[trigger] records[j]) ==> record_level(
                    records[j],
                ) < record_level(records[i])
        },
        None => forall|j: int| 0 <= j < records.len() ==> !is_candidate(#[trigger] records[j]),
    }
}

/// The position of a pick as a mathematical integer.
pub open spec fn pick_index(res: Option<usize>) -> Option<int> {
    match res {
        Some(i) => Some(i as int),
        None => None,
    }
}

/// The record whose block becomes the head at start-up.
pub fn pick_current_head(records: &Vec<MetaRecord>) -> (res: Option<usize>)
    ensures
        picks(records@, pick_index(res)),
{
    let mut best: Option<usize> = None;
    let mut k: usize = 0;
    while k < records.len()
        invariant
            k <= records@.len(),
            match best {
                Some(i) => {
                    &&& i < k
                    &&& is_candidate(records@[i as int])
                    &&& forall|j: int|
                        0 <= j < k && is_candidate(#[trigger] records@[j]) ==> record_level(
                            records@[j],
                        ) <= record_level(records@[i as int])
                    &&& forall|j: int|
                        i < j < k && is_candidate(#[trigger] records@[j]) ==> record_level(
                            records@[j],
                        ) < record_level(records@[i as int])
                },
                None => forall|j: int| 0 <= j < k ==> !is_candidate(#[trigger] records@[j]),
            },
        decreases records.len() - k,
    {
        let record = &records[k];
        let applied_level = match (&record.block_hash, &record.meta) {
            (Some(_), Some(meta)) => if meta.is_applied {
                Some(meta.level)
            } else {
                None
            },
            _ => None,
        };
        if let Some(level) = applied_level {
            let take = match best {
                Some(i) => match &records[i].meta {
                    Some(best_meta) => best_meta.level <= level,
                    None => true,
                },
                None => true,
            };
            if take {
                best = Some(k);
            }
        }
        k = k + 1;
    }
    best
}

/// At most one record is the pick.
pub proof fn law_pick_is_unique(records: Seq<MetaRecord>, a: Option<int>, b: Option<int>)
    requires
        picks(records, a),
        picks(records, b),
    ensures
        a == b,
{
    match (a, b) {
        (Some(i), Some(j)) => {
            if i < j {
                assert(is_candidate(records[j]));
            } else if j < i {
                assert(is_candidate(records[i]));
            }
        },
        (Some(i), None) => {
            assert(is_candidate(records[i]));
        },
        (None, Some(j)) => {
            assert(is_candidate(records[j]));
        },
        (None, None) => {},
    }
}

/// Where the pick stands once a record is inserted at position `k`.
pub open spec fn shifted(pick: Option<int>, k: int) -> Option<int> {
    match pick {
        Some(i) => if i < k {
            Some(i)
        } else {
            Some(i + 1)
        },
        None => None,
    }
}

/// A record that cannot become the head (unreadable, or of a block not
/// applied), inserted anywhere among the records, changes neither whether
/// there is a pick nor which record it is.
pub proof fn law_pick_ignores_non_candidates(
    records: Seq<MetaRecord>,
    pick: Option<int>,
    k: int,
    other: MetaRecord,
)
    requires
        picks(records, pick),
        0 <= k <= records.len(),
        !is_candidate(other),
    ensures
        picks(records.insert(k, other), shifted(pick, k)),
        pick matches Some(i) ==> records.insert(k, other)[shifted(pick, k)->0] == records[i],
{
    let longer = records.insert(k, other);
    records.insert_ensures(k, other);
    assert forall|j: int| 0 <= j < longer.len() && is_candidate(#[trigger] longer[j]) implies
        j != k && 0 <= (if j < k { j } else { j - 1 }) < records.len()
            && longer[j] == records[if j < k { j } else { j - 1 }] by {
        if j > k {
            assert(longer[(j - 1) + 1] == records[j - 1]);
        }
    }
    match pick {
        Some(i) => {
            let i2 = if i < k { i } else { i + 1 };
            if i >= k {
                assert(longer[i + 1] == records[i]);
            }
            assert(longer[i2] == records[i]);
            assert forall|j: int|
                0 <= j < longer.len() && is_candidate(#[trigger] longer[j]) implies record_level(
                    longer[j],
                ) <= record_level(longer[i2]) by {
                let jj = if j < k { j } else { j - 1 };
                assert(is_candidate(records[jj]));
            }
            assert forall|j: int|
                i2 < j < longer.len() && is_candidate(#[trigger] longer[j]) implies record_level(
                    longer[j],
                ) < record_level(longer[i2]) by {
                let jj = if j < k { j } else { j - 1 };
                assert(is_candidate(records[jj]));
            }
        },
        None => {
            assert forall|j: int| 0 <= j < longer.len() implies !is_candidate(#[trigger] longer[j]) by {
                if is_candidate(longer[j]) {
                    let jj = if j < k { j } else { j - 1 };
                    assert(is_candidate(records[jj]));
                }
            }
        },
    }
}

/// The name under which the RPC server is registered.
pub fn name() -> (n: &'static str)
    ensures
        n@ == "rpc-server"@,
{
    "rpc-server"
}

/// The records that can become the head, in order.
pub open spec fn candidates(records: Seq<MetaRecord>) -> Seq<MetaRecord>
    decreases records.len(),
{
    if records.len() == 0 {
        records
    } else {
        let earlier = candidates(records.drop_last());
        if is_candidate(records.last()) {
            earlier.push(records.last())
        } else {
            earlier
        }
    }
}

/// The pick, computed record by record: a candidate replaces the pick so
/// far when there is none or its level is not below the pick's.
pub open spec fn pick_of(records: Seq<MetaRecord>) -> Option<int>
    decreases records.len(),
{
    if records.len() == 0 {
        None
    } else {
        let earlier = pick_of(records.drop_last());
        let last = records.last();
        if is_candidate(last) && match earlier {
            Some(b) => record_level(records[b]) <= record_level(last),
            None => true,
        } {
            Some(records.len() - 1)
        } else {
            earlier
        }
    }
}

/// The record at a pick.
pub open spec fn picked(records: Seq<MetaRecord>, pick: Option<int>) -> Option<MetaRecord> {
    match pick {
        Some(i) => Some(records[i]),
        None => None,
    }
}

proof fn lemma_pick_of_picks(records: Seq<MetaRecord>)
    ensures
        picks(records, pick_of(records)),
    decreases records.len(),
{
    if records.len() > 0 {
        let earlier = records.drop_last();
        lemma_pick_of_picks(earlier);
        let n = records.len() - 1;
        assert forall|j: int| 0 <= j < n implies #[trigger] records[j] == earlier[j] by {}
        assert(records[n] == records.last());
        match pick_of(earlier) {
            Some(b) => {
                assert(is_candidate(earlier[b]));
                if is_candidate(records.last()) && record_level(records[b]) <= record_level(records.last()) {
                    assert forall|j: int|
                        0 <= j < records.len() && is_candidate(#[trigger] records[j]) implies record_level(
                            records[j],
                        ) <= record_level(records[n]) by {
                        if j < n {
                            assert(is_candidate(earlier[j]));
                        }
                    }
                } else {
                    assert forall|j: int|
                        0 <= j < records.len() && is_candidate(#[trigger] records[j]) implies record_level(
                            records[j],
                        ) <= record_level(records[b]) by {
                        if j < n {
                            assert(is_candidate(earlier[j]));
                        }
                    }
                    assert forall|j: int|
                        b < j < records.len() && is_candidate(#[trigger] records[j]) implies record_level(
                            records[j],
                        ) < record_level(records[b]) by {
                        if j < n {
                            assert(is_candidate(earlier[j]));
                        }
                    }
                }
            },
            None => {
                assert forall|j: int| 0 <= j < n implies !is_candidate(#[trigger] records[j]) by {
                    assert(!is_candidate(earlier[j]));
                }
            },
        }
    }
}

proof fn lemma_pick_of_candidates(records: Seq<MetaRecord>)
    ensures
        picked(records, pick_of(records)) == picked(candidates(records), pick_of(candidates(records))),
    decreases records.len(),
{
    if records.len() > 0 {
        let earlier = records.drop_last();
        lemma_pick_of_candidates(earlier);
        lemma_pick_of_picks(earlier);
        let last = records.last();
        let c0 = candidates(earlier);
        lemma_pick_of_picks(c0);
        if is_candidate(last) {
            let c = c0.push(last);
            assert(c.drop_last() =~= c0);
            assert(c.last() == last);
            match pick_of(earlier) {
                Some(b) => {
                    let q = pick_of(c0)->0;
                    assert(records[b] == earlier[b]);
                    assert(c[q] == c0[q]);
                },
                None => {},
            }
        } else {
            match pick_of(earlier) {
                Some(b) => {
                    assert(records[b] == earlier[b]);
                },
                None => {},
            }
        }
    }
}

/// The head picked at start-up depends only on the records that can become
/// the head: two lists of records with the same readable, applied records in
/// the same order pick the same record, or both none. So unreadable records
/// and records of blocks not applied, however many and wherever they stand,
/// are skipped.
pub proof fn law_pick_depends_only_on_candidates(
    records1: Seq<MetaRecord>,
    pick1: Option<int>,
    records2: Seq<MetaRecord>,
    pick2: Option<int>,
)
    requires
        candidates(records1) == candidates(records2),
        picks(records1, pick1),
        picks(records2, pick2),
    ensures
        picked(records1, pick1) == picked(records2, pick2),
{
    lemma_pick_of_picks(records1);
    lemma_pick_of_picks(records2);
    law_pick_is_unique(records1, pick1, pick_of(records1));
    law_pick_is_unique(records2, pick2, pick_of(records2));
    lemma_pick_of_candidates(records1);
    lemma_pick_of_candidates(records2);
}

} // verus!
