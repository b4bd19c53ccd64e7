//! Fetching a range of blocks from a ledger whose older blocks may have moved
//! to archive shards: what to ask the shards for, in which order, and how
//! their answers and the ledger's own blocks make up the range.

use itertools::Itertools;
use vstd::prelude::*;
use crate::block::{
    ArchivedBlocksRange, Block, BlockIndex, GetBlocksArgs, GetBlocksError, GetBlocksResult,
    QueryBlocksResponse,
};
use crate::types::{CallError, CallResult};

verus! {

/// Why a range of blocks could not be fetched.
#[derive(Clone, Debug, PartialEq, Eq)]
pub enum TransportError {
    /// A call did not come back with an answer.
    CallFailed(CallError),
    /// An archive shard answered that it cannot serve the range.
    ArchiveRefused(GetBlocksError),
}

/// The ranges among `ranges` that begin at `start`, in their order.
pub open spec fn with_start(ranges: Seq<ArchivedBlocksRange>, start: BlockIndex) -> Seq<
    ArchivedBlocksRange,
> {
    ranges.filter(|r: ArchivedBlocksRange| r.start == start)
}

/// The ranges stand in ascending order of their first block.
pub open spec fn ascending_by_start(ranges: Seq<ArchivedBlocksRange>) -> bool {
    forall|i: int, j: int|
        0 <= i < j < ranges.len() ==> (#[trigger] ranges[i]).start <= (#[trigger] ranges[j]).start
}

/// `sorted` holds the ranges of `ranges`, each as often, in ascending order
/// of their first block, and ranges with the same first block in the order
/// they had in `ranges`.
pub open spec fn stably_sorted_by_start(
    ranges: Seq<ArchivedBlocksRange>,
    sorted: Seq<ArchivedBlocksRange>,
) -> bool {
    &&& ascending_by_start(sorted)
    &&& sorted.to_multiset() == ranges.to_multiset()
    &&& forall|start: BlockIndex| #[trigger] with_start(sorted, start) == with_start(ranges, start)
}

/// Sorts archive ranges by their first block with `Itertools::sorted_by_key`,
/// which collects the items and sorts them with the standard library's
/// `sort_by_key`. The contract states what that sort documents and is taken
/// on trust: the result is a rearrangement of the input in ascending key
/// order, and equal keys keep their relative order.
#[verifier::external_body]
fn sorted_by_start(ranges: Vec<ArchivedBlocksRange>) -> (sorted: Vec<ArchivedBlocksRange>)
    ensures
        stably_sorted_by_start(ranges@, sorted@),
{
    ranges.into_iter().sorted_by_key(|a| a.start).collect()
}

/// How to go on after the ledger answered a block query.
#[derive(Clone, Debug, PartialEq, Eq)]
pub enum BlocksFetch {
    /// The ledger held the whole range: these are its blocks.
    Complete(Vec<Block>),
    /// Part of the range is archived. `ranges` are to be asked of their
    /// shards, in this order; `blocks` are the ledger's own, which follow.
    FromArchives { ranges: Vec<ArchivedBlocksRange>, blocks: Vec<Block> },
}

/// Decides how to go on after the ledger answered a block query: done, if
/// no part of the range is archived, or else the archived ranges to ask for,
/// sorted by their first block.
pub fn plan_blocks_fetch(response: QueryBlocksResponse) -> (plan: BlocksFetch)
    ensures
        match plan {
            BlocksFetch::Complete(blocks) => {
                &&& response.archived_blocks@.len() == 0
                &&& blocks == response.blocks
            },
            BlocksFetch::FromArchives { ranges, blocks } => {
                &&& response.archived_blocks@.len() > 0
                &&& blocks == response.blocks
                &&& stably_sorted_by_start(response.archived_blocks@, ranges@)
            },
        },
{
    if response.archived_blocks.len() == 0 {
        BlocksFetch::Complete(response.blocks)
    } else {
        BlocksFetch::FromArchives {
            ranges: sorted_by_start(response.archived_blocks),
            blocks: response.blocks,
        }
    }
}

/// What to ask a shard for: the archived range, whole.
pub fn archive_request(range: &ArchivedBlocksRange) -> (args: GetBlocksArgs)
    ensures
        args == (GetBlocksArgs { start: range.start, length: range.length }),
{
    GetBlocksArgs { start: range.start, length: range.length }
}

/// The blocks that the shards returned, shard after shard; a shard that did
/// not return blocks contributes none.
pub open spec fn shard_blocks(responses: Seq<CallResult<GetBlocksResult>>) -> Seq<Block>
    decreases responses.len(),
{
    if responses.len() == 0 {
        Seq::empty()
    } else {
        shard_blocks(responses.drop_last()) + match responses.last() {
            Ok(Ok(blocks)) => blocks@,
            _ => Seq::empty(),
        }
    }
}

/// Every shard returned blocks.
pub open spec fn all_shards_answered(responses: Seq<CallResult<GetBlocksResult>>) -> bool {
    forall|i: int| 0 <= i < responses.len() ==> (#[trigger] responses[i]) matches Ok(Ok(_))
}

/// Every call to a shard came back.
pub open spec fn all_calls_returned(responses: Seq<CallResult<GetBlocksResult>>) -> bool {
    forall|i: int| 0 <= i < responses.len() ==> (#[trigger] responses[i]) is Ok
}

/// `error` is the failure of the first call that did not come back.
pub open spec fn first_failed_call(
    responses: Seq<CallResult<GetBlocksResult>>,
    error: CallError,
) -> bool {
    exists|i: int|
        0 <= i < responses.len() && (#[trigger] responses[i]) == Err::<GetBlocksResult, CallError>(
            error,
        ) && all_calls_returned(responses.take(i))
}

/// `error` is the refusal of the first shard that did not return blocks.
pub open spec fn first_refusal(
    responses: Seq<CallResult<GetBlocksResult>>,
    error: GetBlocksError,
) -> bool {
    exists|i: int|
        0 <= i < responses.len() && (#[trigger] responses[i]) == Ok::<GetBlocksResult, CallError>(
            Err(error),
        ) && all_shards_answered(responses.take(i))
}

/// Puts a fetched range together: the blocks of each shard, in the order in
/// which the shards were asked, then the ledger's own blocks. The range is
/// had whole or not at all: if a call failed, the first such failure is the
/// answer; if all calls came back but a shard refused, the first refusal is.
pub fn collect_blocks(archive_responses: Vec<CallResult<GetBlocksResult>>, blocks: Vec<Block>) -> (fetched:
    Result<Vec<Block>, TransportError>)
    ensures
        match fetched {
            Ok(all) => all_shards_answered(archive_responses@) && all@ == shard_blocks(
                archive_responses@,
            ) + blocks@,
            Err(TransportError::CallFailed(error)) => first_failed_call(archive_responses@, error),
            Err(TransportError::ArchiveRefused(error)) => all_calls_returned(archive_responses@)
                && first_refusal(archive_responses@, error),
        },
{
    let mut all: Vec<Block> = Vec::new();
    let mut refusal: Option<GetBlocksError> = None;
    let ghost responses = archive_responses@;
    proof {
        assert(responses.take(0) =~= Seq::<CallResult<GetBlocksResult>>::empty());
    }
    for response in it: archive_responses
        invariant
            it.seq() == responses,
            all_calls_returned(responses.take(it.index() as int)),
            all@ == shard_blocks(responses.take(it.index() as int)),
            match refusal {
                Some(error) => first_refusal(responses.take(it.index() as int), error),
                None => all_shards_answered(responses.take(it.index() as int)),
            },
    {
        let ghost i = it.index() as int;
        proof {
            assert(responses.take(i + 1).drop_last() =~= responses.take(i));
            assert(responses.take(i + 1).last() == responses[i]);
        }
        match response {
            Err(error) => {
                proof {
                    assert(responses[i] == Err::<GetBlocksResult, CallError>(error));
                }
                return Err(TransportError::CallFailed(error));
            },
            Ok(Err(error)) => {
                if refusal.is_none() {
                    proof {
                        assert(responses.take(i + 1)[i] == responses[i]);
                        assert(responses.take(i + 1).take(i) =~= responses.take(i));
                    }
                    refusal = Some(error);
                } else {
                    proof {
                        lemma_first_refusal_extends(responses.take(i), responses.take(i + 1), refusal->Some_0);
                    }
                }
                proof {
                    assert(all@ + Seq::<Block>::empty() =~= all@);
                }
            },
            Ok(Ok(mut shard)) => {
                proof {
                    if refusal is Some {
                        lemma_first_refusal_extends(responses.take(i), responses.take(i + 1), refusal->Some_0);
                    }
                }
                all.append(&mut shard);
            },
        }
        proof {
            assert forall|j: int| 0 <= j < i + 1 implies (#[trigger] responses.take(i + 1)[j]) is Ok by {
                if j < i {
                    assert(responses.take(i)[j] is Ok);
                }
            }
            if refusal is None {
                assert forall|j: int| 0 <= j < i + 1 implies (
                #[trigger] responses.take(i + 1)[j]) matches Ok(Ok(_)) by {
                    if j < i {
                        assert(responses.take(i)[j] matches Ok(Ok(_)));
                    }
                }
            }
        }
    }
    proof {
        assert(responses.take(responses.len() as int) =~= responses);
    }
    match refusal {
        Some(error) => Err(TransportError::ArchiveRefused(error)),
        None => {
            let mut blocks = blocks;
            all.append(&mut blocks);
            Ok(all)
        },
    }
}

proof fn lemma_first_refusal_extends(
    shorter: Seq<CallResult<GetBlocksResult>>,
    longer: Seq<CallResult<GetBlocksResult>>,
    error: GetBlocksError,
)
    requires
        first_refusal(shorter, error),
        shorter.len() <= longer.len(),
        longer.take(shorter.len() as int) == shorter,
    ensures
        first_refusal(longer, error),
{
    let i = choose|i: int|
        0 <= i < shorter.len() && (#[trigger] shorter[i]) == Ok::<GetBlocksResult, CallError>(
            Err(error),
        ) && all_shards_answered(shorter.take(i));
    assert(longer.take(shorter.len() as int)[i] == longer[i]);
    assert(longer.take(i) =~= shorter.take(i));
}

/// How many blocks the shards returned in all.
pub open spec fn shard_block_count(responses: Seq<CallResult<GetBlocksResult>>) -> nat
    decreases responses.len(),
{
    if responses.len() == 0 {
        0
    } else {
        shard_block_count(responses.drop_last()) + match responses.last() {
            Ok(Ok(blocks)) => blocks@.len(),
            _ => 0,
        }
    }
}

/// The blocks of the shards are as many as the shards returned, one by one.
pub proof fn lemma_shard_blocks_len(responses: Seq<CallResult<GetBlocksResult>>)
    ensures
        shard_blocks(responses).len() == shard_block_count(responses),
    decreases responses.len(),
{
    if responses.len() > 0 {
        lemma_shard_blocks_len(responses.drop_last());
    }
}

/// The blocks of a run of shards are those of a first part of the run
/// followed by those of the rest: nothing is left out, doubled or moved.
pub proof fn lemma_shard_blocks_append(
    first: Seq<CallResult<GetBlocksResult>>,
    rest: Seq<CallResult<GetBlocksResult>>,
)
    ensures
        shard_blocks(first + rest) == shard_blocks(first) + shard_blocks(rest),
    decreases rest.len(),
{
    if rest.len() == 0 {
        assert(first + rest =~= first);
        assert(shard_blocks(first) + Seq::<Block>::empty() =~= shard_blocks(first));
    } else {
        lemma_shard_blocks_append(first, rest.drop_last());
        assert((first + rest).drop_last() =~= first + rest.drop_last());
        assert((first + rest).last() == rest.last());
        let tail = match rest.last() {
            Ok(Ok(blocks)) => blocks@,
            _ => Seq::<Block>::empty(),
        };
        assert((shard_blocks(first) + shard_blocks(rest.drop_last())) + tail =~= shard_blocks(first)
            + (shard_blocks(rest.drop_last()) + tail));
    }
}

proof fn lemma_with_start_last(ranges: Seq<ArchivedBlocksRange>, start: BlockIndex)
    requires
        ranges.len() > 0,
    ensures
        with_start(ranges, start) == if ranges.last().start == start {
            with_start(ranges.drop_last(), start).push(ranges.last())
        } else {
            with_start(ranges.drop_last(), start)
        },
{
    reveal(Seq::filter);
}

proof fn lemma_with_start_empty(ranges: Seq<ArchivedBlocksRange>, start: BlockIndex)
    requires
        forall|i: int| 0 <= i < ranges.len() ==> (#[trigger] ranges[i]).start != start,
    ensures
        with_start(ranges, start).len() == 0,
    decreases ranges.len(),
{
    if ranges.len() > 0 {
        lemma_with_start_last(ranges, start);
        assert forall|i: int| 0 <= i < ranges.drop_last().len() implies (
        #[trigger] ranges.drop_last()[i]).start != start by {
            assert(ranges.drop_last()[i] == ranges[i]);
        }
        lemma_with_start_empty(ranges.drop_last(), start);
        assert(ranges[ranges.len() - 1].start != start);
    } else {
        reveal(Seq::filter);
    }
}

/// Two orders of the same ranges that are both ascending by first block and
/// both keep ranges with the same first block in their given order are the
/// same order: sorting archive ranges has one result.
pub proof fn lemma_stable_order_unique(a: Seq<ArchivedBlocksRange>, b: Seq<ArchivedBlocksRange>)
    requires
        ascending_by_start(a),
        ascending_by_start(b),
        forall|start: BlockIndex| #[trigger] with_start(a, start) == with_start(b, start),
    ensures
        a == b,
    decreases a.len() + b.len(),
{
    if a.len() == 0 && b.len() == 0 {
        assert(a =~= b);
    } else if a.len() == 0 {
        let k = b.last().start;
        lemma_with_start_last(b, k);
        lemma_with_start_empty(a, k);
        assert(with_start(a, k) == with_start(b, k));
    } else if b.len() == 0 {
        let k = a.last().start;
        lemma_with_start_last(a, k);
        lemma_with_start_empty(b, k);
        assert(with_start(a, k) == with_start(b, k));
    } else {
        let ka = a.last().start;
        let kb = b.last().start;
        lemma_with_start_last(a, ka);
        lemma_with_start_last(b, kb);
        assert(with_start(a, ka) == with_start(b, ka));
        assert(with_start(a, kb) == with_start(b, kb));
        if ka < kb {
            assert forall|i: int| 0 <= i < a.len() implies (#[trigger] a[i]).start != kb by {
                if i < a.len() - 1 {
                    assert(a[i].start <= a[a.len() - 1].start);
                }
            }
            lemma_with_start_empty(a, kb);
        } else if kb < ka {
            assert forall|i: int| 0 <= i < b.len() implies (#[trigger] b[i]).start != ka by {
                if i < b.len() - 1 {
                    assert(b[i].start <= b[b.len() - 1].start);
                }
            }
            lemma_with_start_empty(b, ka);
        } else {
            assert(a.last() == with_start(a, ka).last());
            assert(b.last() == with_start(b, kb).last());
            assert(a.last() == b.last());
            assert forall|start: BlockIndex| #[trigger]
                with_start(a.drop_last(), start) == with_start(b.drop_last(), start) by {
                lemma_with_start_last(a, start);
                lemma_with_start_last(b, start);
                assert(with_start(a, start) == with_start(b, start));
                if start == ka {
                    assert(with_start(a.drop_last(), start) =~= with_start(a, start).drop_last());
                    assert(with_start(b.drop_last(), start) =~= with_start(b, start).drop_last());
                }
            }
            assert forall|i: int, j: int| 0 <= i < j < a.drop_last().len() implies (
            #[trigger] a.drop_last()[i]).start <= (#[trigger] a.drop_last()[j]).start by {
                assert(a[i].start <= a[j].start);
            }
            assert forall|i: int, j: int| 0 <= i < j < b.drop_last().len() implies (
            #[trigger] b.drop_last()[i]).start <= (#[trigger] b.drop_last()[j]).start by {
                assert(b[i].start <= b[j].start);
            }
            lemma_stable_order_unique(a.drop_last(), b.drop_last());
            assert(a =~= a.drop_last().push(a.last()));
            assert(b =~= b.drop_last().push(b.last()));
        }
    }
}

/// Ranges that stand in ascending order already are left as they are.
pub proof fn lemma_sorted_ranges_unchanged(
    ranges: Seq<ArchivedBlocksRange>,
    sorted: Seq<ArchivedBlocksRange>,
)
    requires
        ascending_by_start(ranges),
        stably_sorted_by_start(ranges, sorted),
    ensures
        sorted == ranges,
{
    lemma_stable_order_unique(sorted, ranges);
}

} // verus!
