use transaction_notifier::block::{
    ArchiveCallback, ArchivedBlocksRange, Block, GetBlocksArgs, GetBlocksError,
    QueryBlocksResponse, Transaction,
};
use transaction_notifier::lifecycle::block_source::{
    archive_request, collect_blocks, plan_blocks_fetch, BlocksFetch, TransportError,
};
use transaction_notifier::types::{CallError, Principal, RejectionCode};

fn principal(n: u8) -> Principal {
    let mut bytes: [u8; 29] = [0; 29];
    bytes[0] = n;
    Principal { len: 1, bytes }
}

fn block(memo: u64) -> Block {
    Block {
        parent_hash: None,
        transaction: Transaction { memo, operation: None, created_at_time: 0 },
        timestamp: memo,
    }
}

fn range(start: u64, length: u64, shard: u8) -> ArchivedBlocksRange {
    ArchivedBlocksRange {
        start,
        length,
        callback: ArchiveCallback { canister_id: principal(shard), method: "get_blocks".to_string() },
    }
}

fn call_error(message: &str) -> CallError {
    CallError { code: RejectionCode::CanisterError, message: message.to_string() }
}

#[test]
fn no_archives_means_the_ledger_blocks_are_all() {
    let response = QueryBlocksResponse {
        chain_length: 12,
        blocks: vec![block(10), block(11)],
        first_block_index: 10,
        archived_blocks: vec![],
    };
    assert_eq!(plan_blocks_fetch(response), BlocksFetch::Complete(vec![block(10), block(11)]));
}

#[test]
fn archived_ranges_are_asked_in_ascending_order() {
    let response = QueryBlocksResponse {
        chain_length: 40,
        blocks: vec![block(30)],
        first_block_index: 30,
        archived_blocks: vec![range(20, 10, 3), range(0, 10, 1), range(10, 10, 2)],
    };
    assert_eq!(
        plan_blocks_fetch(response),
        BlocksFetch::FromArchives {
            ranges: vec![range(0, 10, 1), range(10, 10, 2), range(20, 10, 3)],
            blocks: vec![block(30)],
        }
    );
}

#[test]
fn ranges_with_equal_start_keep_their_order() {
    let response = QueryBlocksResponse {
        chain_length: 40,
        blocks: vec![],
        first_block_index: 30,
        archived_blocks: vec![range(5, 1, 9), range(0, 5, 1), range(5, 2, 8), range(5, 3, 7)],
    };
    assert_eq!(
        plan_blocks_fetch(response),
        BlocksFetch::FromArchives {
            ranges: vec![range(0, 5, 1), range(5, 1, 9), range(5, 2, 8), range(5, 3, 7)],
            blocks: vec![],
        }
    );
}

#[test]
fn a_shard_is_asked_for_its_whole_range() {
    assert_eq!(archive_request(&range(20, 7, 3)), GetBlocksArgs { start: 20, length: 7 });
}

#[test]
fn shard_blocks_come_before_the_ledger_blocks() {
    let fetched = collect_blocks(
        vec![Ok(Ok(vec![block(0), block(1)])), Ok(Ok(vec![])), Ok(Ok(vec![block(2)]))],
        vec![block(3), block(4)],
    );
    assert_eq!(fetched, Ok(vec![block(0), block(1), block(2), block(3), block(4)]));
}

#[test]
fn no_shards_leave_the_ledger_blocks() {
    assert_eq!(collect_blocks(vec![], vec![block(3)]), Ok(vec![block(3)]));
    assert_eq!(collect_blocks(vec![], vec![]), Ok(vec![]));
}

#[test]
fn first_failed_call_is_reported() {
    let fetched = collect_blocks(
        vec![
            Ok(Ok(vec![block(0)])),
            Err(call_error("first")),
            Ok(Ok(vec![block(2)])),
            Err(call_error("second")),
        ],
        vec![block(3)],
    );
    assert_eq!(fetched, Err(TransportError::CallFailed(call_error("first"))));
}

#[test]
fn first_refusal_is_reported_when_all_calls_returned() {
    let refusal = GetBlocksError::BadFirstBlockIndex { requested_index: 5, first_valid_index: 9 };
    let later = GetBlocksError::Other { error_code: 1, error_message: "later".to_string() };
    let fetched = collect_blocks(
        vec![Ok(Ok(vec![block(0)])), Ok(Err(refusal.clone())), Ok(Err(later))],
        vec![block(3)],
    );
    assert_eq!(fetched, Err(TransportError::ArchiveRefused(refusal)));
}

#[test]
fn failed_call_wins_over_earlier_refusal() {
    let refusal = GetBlocksError::Other { error_code: 1, error_message: "refused".to_string() };
    let fetched = collect_blocks(
        vec![Ok(Err(refusal)), Ok(Ok(vec![block(1)])), Err(call_error("down"))],
        vec![],
    );
    assert_eq!(fetched, Err(TransportError::CallFailed(call_error("down"))));
}
