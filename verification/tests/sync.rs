use prost::Message as _;
use veil::chain::ChainState;
use veil::config::WalletNetwork;
use veil::error::Error;
use veil::network::compact::{Message, ProviderError};
use veil::network::proto::{
    block_range_request, block_range_response, latest_block_request, transaction_request,
    transaction_response, tree_state_request, tree_state_response, RawTransaction,
};
use veil::sync::{
    begin_sync, bounded_target, enhance, judge_transaction, mined_height, sync, with_blocks,
    ChainSource, Enhancement, SyncAction, SyncEvent, SyncState,
};
use zcash_client_backend::proto::compact_formats;
use zcash_client_backend::proto::service;

const MAX_SIZE: usize = 4096;

#[test]
fn requests_are_encoded_as_protocol_buffers() {
    let latest = latest_block_request(MAX_SIZE).unwrap();
    assert_eq!(latest.kind, Message::GetLatestBlockRequest);
    assert!(latest.payload.is_empty());
    assert_eq!(latest.limit, 1);
    assert!(tree_state_request(0, MAX_SIZE).unwrap().payload.is_empty());
    let tree = tree_state_request(300, MAX_SIZE).unwrap();
    assert_eq!(tree.kind, Message::GetTreeStateRequest);
    assert_eq!(tree.payload, vec![0x08, 0xac, 0x02]);
    let largest = tree_state_request(u32::MAX, MAX_SIZE).unwrap();
    assert_eq!(largest.payload, vec![0x08, 0xff, 0xff, 0xff, 0xff, 0x0f]);
    let range = block_range_request(0, 300, MAX_SIZE).unwrap();
    assert_eq!(range.kind, Message::GetBlockRangeRequest);
    assert_eq!(range.payload, vec![0x0a, 0, 0x12, 3, 0x08, 0xac, 0x02]);
    assert_eq!(range.limit, 301);
    let transaction = transaction_request(&[7; 32], MAX_SIZE).unwrap();
    assert_eq!(transaction.kind, Message::GetTransactionRequest);
    let mut expected = vec![0x1a, 0x20];
    expected.extend([7; 32]);
    assert_eq!(transaction.payload, expected);
}

#[test]
fn ranges_are_bounded() {
    assert_eq!(block_range_request(5, 1004, MAX_SIZE).unwrap().limit, 1000);
    assert_eq!(
        block_range_request(5, 1005, MAX_SIZE).err(),
        Some(Error::ResponseLimit)
    );
    assert_eq!(
        transaction_request(&[7; 32], 33).err(),
        Some(Error::RequestTooLarge)
    );
}

fn block_id(height: u64) -> Vec<u8> {
    service::BlockId {
        height,
        hash: vec![1; 32],
    }
    .encode_to_vec()
}

#[test]
fn the_target_stays_one_header_behind() {
    let target = |latest, header| ChainSource::target(vec![block_id(latest)], header);
    assert_eq!(target(10, Some(20)), Ok(10));
    assert_eq!(target(20, Some(20)), Ok(19));
    assert_eq!(target(20, Some(0)), Ok(0));
    assert_eq!(target(20, None), Err(Error::HeaderNodeStarting));
    assert_eq!(target(1 << 32, Some(20)), Err(Error::IntegerConversion));
    assert_eq!(bounded_target(7, Some(7)), Ok(6));
    assert_eq!(
        ChainSource::target(vec![], Some(20)),
        Err(Error::ResponseCount)
    );
    assert!(matches!(
        ChainSource::target(vec![vec![0xff]], Some(20)),
        Err(Error::ResponseInvalid { .. })
    ));
}

#[test]
fn responses_are_decoded() {
    let tree = service::TreeState {
        network: "main".to_string(),
        height: 5,
        hash: "ab".to_string(),
        time: 1,
        sapling_tree: "s".to_string(),
        orchard_tree: "o".to_string(),
        ironwood_tree: "i".to_string(),
    };
    let decoded = tree_state_response(vec![tree.encode_to_vec()]).unwrap();
    assert_eq!(decoded.height, 5);
    assert_eq!(decoded.hash, "ab");
    assert_eq!(decoded.sapling_tree, "s");
    assert_eq!(decoded.orchard_tree, "o");
    assert_eq!(decoded.ironwood_tree, "i");
    assert!(matches!(
        tree_state_response(vec![vec![0xff]]),
        Err(Error::ResponseInvalid { .. })
    ));
    let raw = service::RawTransaction {
        data: vec![1, 2],
        height: 9,
    };
    let decoded = transaction_response(vec![raw.encode_to_vec()]).unwrap();
    assert_eq!((decoded.data, decoded.height), (vec![1, 2], 9));
    let block = compact_formats::CompactBlock {
        height: 6,
        hash: vec![1; 32],
        prev_hash: vec![2; 32],
        vtx: vec![compact_formats::CompactTx {
            txid: vec![3; 32],
            outputs: vec![compact_formats::CompactSaplingOutput {
                cmu: vec![4; 32],
                ..Default::default()
            }],
            actions: vec![compact_formats::CompactOrchardAction {
                cmx: vec![5; 32],
                ..Default::default()
            }],
            ironwood_actions: vec![compact_formats::CompactOrchardAction {
                cmx: vec![6; 32],
                ..Default::default()
            }],
            ..Default::default()
        }],
        ..Default::default()
    };
    let blocks = block_range_response(&vec![block.encode_to_vec(), vec![]]).unwrap();
    assert_eq!(blocks.len(), 2);
    assert_eq!(blocks[0].height, 6);
    assert_eq!(blocks[0].hash, vec![1; 32]);
    assert_eq!(blocks[0].prev_hash, vec![2; 32]);
    assert_eq!(blocks[0].vtx[0].txid, vec![3; 32]);
    assert_eq!(blocks[0].vtx[0].outputs, vec![vec![4; 32]]);
    assert_eq!(blocks[0].vtx[0].actions, vec![vec![5; 32]]);
    assert_eq!(blocks[0].vtx[0].ironwood_actions, vec![vec![6; 32]]);
    assert!(blocks[1].vtx.is_empty());
    assert!(matches!(
        block_range_response(&vec![vec![0xff]]),
        Err(Error::ResponseInvalid { .. })
    ));
}

fn tree(height: u32, hash: [u8; 32]) -> SyncEvent {
    SyncEvent::Tree {
        chain: ChainState::empty(height, hash),
    }
}

fn after(state: SyncState, event: SyncEvent) -> (SyncState, SyncAction) {
    sync(state, event).unwrap_or_else(|error| panic!("{}", error.message()))
}

#[test]
fn a_wallet_without_an_account_is_left_alone() {
    let (state, action) = begin_sync();
    assert!(matches!(action, SyncAction::AskInitialized));
    let (state, action) = after(state, SyncEvent::Initialized { initialized: false });
    assert!(matches!(state, SyncState::Done));
    assert!(matches!(action, SyncAction::Stop));
}

#[test]
fn a_reorganised_wallet_is_taken_back_and_scanned_again() {
    let (state, _) = begin_sync();
    let (state, action) = after(state, SyncEvent::Initialized { initialized: true });
    assert!(matches!(action, SyncAction::AskTarget));
    let (state, action) = after(state, SyncEvent::Target { target: 350 });
    assert!(matches!(action, SyncAction::AskScanned));
    let (state, action) = after(
        state,
        SyncEvent::Scanned {
            block: Some((200, [1; 32])),
        },
    );
    assert!(matches!(action, SyncAction::AskTree { height: 200 }));
    let (state, action) = after(state, tree(200, [2; 32]));
    assert!(matches!(action, SyncAction::Truncate { height: 199 }));
    let (state, action) = after(state, SyncEvent::Truncated);
    assert!(matches!(action, SyncAction::AskScanned));
    let (state, action) = after(
        state,
        SyncEvent::Scanned {
            block: Some((199, [3; 32])),
        },
    );
    assert!(matches!(action, SyncAction::AskTree { height: 199 }));
    let (state, action) = after(state, tree(199, [3; 32]));
    assert!(matches!(action, SyncAction::UpdateTip { height: 350 }));
    let (state, action) = after(state, SyncEvent::TipUpdated);
    assert!(matches!(action, SyncAction::AskRange));
    let (state, action) = after(
        state,
        SyncEvent::Range {
            range: Some((200, 351)),
        },
    );
    assert!(matches!(action, SyncAction::AskTree { height: 199 }));
    let (state, action) = after(state, tree(199, [3; 32]));
    let (start, end, from) = match action {
        SyncAction::Scan { start, end, from } => (start, end, from),
        _ => panic!("no scan"),
    };
    assert_eq!((start, end), (200, 299));
    assert_eq!((from.height, from.hash), (199, [3; 32]));
    let (state, action) = after(state, SyncEvent::BlocksScanned);
    assert!(matches!(action, SyncAction::AskRange));
    let (state, action) = after(state, SyncEvent::Range { range: None });
    assert!(matches!(action, SyncAction::Enhance));
    let (_, action) = after(state, SyncEvent::Enhanced);
    assert!(matches!(action, SyncAction::Stop));
}

fn range(target: u32, range: (u32, u32)) -> Result<(SyncState, SyncAction), Error> {
    sync(
        SyncState::Range { target },
        SyncEvent::Range { range: Some(range) },
    )
}

#[test]
fn scan_ranges_are_cut_to_size() {
    let scanned = |target, asked| match range(target, asked).unwrap().0 {
        SyncState::From { start, end, .. } => Some((start, end)),
        _ => None,
    };
    assert_eq!(scanned(1000, (10, 20)), Some((10, 19)));
    assert_eq!(scanned(1000, (10, 500)), Some((10, 109)));
    assert_eq!(scanned(50, (10, 500)), Some((10, 50)));
    assert_eq!(scanned(5, (10, 500)), None);
    assert_eq!(scanned(1000, (10, 10)), None);
    assert_eq!(
        scanned(u32::MAX, (u32::MAX - 3, u32::MAX)),
        Some((u32::MAX - 3, u32::MAX - 1))
    );
    assert_eq!(range(1000, (0, 20)).err(), Some(Error::ScanGenesis));
}

#[test]
fn a_lagging_source_is_no_reorganisation() {
    let scanned = |height| {
        sync(
            SyncState::Scanned { target: 5 },
            SyncEvent::Scanned {
                block: Some((height, [0; 32])),
            },
        )
    };
    assert_eq!(scanned(6).err(), Some(Error::SourceBehind));
    assert!(scanned(5).is_ok());
    let genesis = SyncState::Ancestor {
        target: 5,
        height: 0,
        hash: [0; 32],
    };
    assert_eq!(
        sync(genesis, tree(0, [1; 32])).err(),
        Some(Error::ReorgAtGenesis)
    );
    let unscanned = sync(
        SyncState::Scanned { target: 5 },
        SyncEvent::Scanned { block: None },
    );
    assert!(matches!(
        unscanned,
        Ok((_, SyncAction::UpdateTip { height: 5 }))
    ));
}

/// A transaction of the first format with one input and one output.
fn transaction() -> Vec<u8> {
    let mut bytes = 1u32.to_le_bytes().to_vec();
    bytes.push(1);
    bytes.extend([3; 32]);
    bytes.extend(0u32.to_le_bytes());
    bytes.push(0);
    bytes.extend(u32::MAX.to_le_bytes());
    bytes.push(1);
    bytes.extend(5u64.to_le_bytes());
    bytes.push(0);
    bytes.extend(0u32.to_le_bytes());
    bytes.push(0);
    bytes
}

fn txid(data: &[u8]) -> [u8; 32] {
    let branch = zcash_protocol::consensus::BranchId::Nu6_3;
    let transaction = zcash_primitives::transaction::Transaction::read(data, branch).unwrap();
    *transaction.txid().as_ref()
}

const NETWORK: WalletNetwork = WalletNetwork::Regtest {
    ironwood_activation: 2,
};

fn judge(height: u64, data: Vec<u8>, chain: Option<u32>) -> Result<Enhancement, Error> {
    let asked = txid(&transaction());
    enhance(NETWORK, &asked, Ok(RawTransaction { data, height }), chain)
}

#[test]
fn transactions_are_stored_as_mined_or_not() {
    assert_eq!(
        judge(9, transaction(), None),
        Ok(Enhancement::Stored { height: Some(9) })
    );
    for height in [0, u64::MAX] {
        assert_eq!(
            judge(height, transaction(), Some(9)),
            Ok(Enhancement::Stored { height: None })
        );
        assert_eq!(
            judge(height, transaction(), None),
            Err(Error::ChainHeightUnknown)
        );
    }
    assert_eq!(
        judge(1 << 32, transaction(), Some(9)),
        Err(Error::IntegerConversion)
    );
    let error = judge(9, vec![], Some(9)).unwrap_err();
    assert!(matches!(&error, Error::TransactionInvalid { .. }));
    let branch = zcash_protocol::consensus::BranchId::Nu6_3;
    let refused = zcash_primitives::transaction::Transaction::read(&[][..], branch).unwrap_err();
    assert_eq!(error.message(), refused.to_string());
    let mut other = transaction();
    other[5] = 4;
    assert_eq!(judge(9, other, Some(9)), Err(Error::TransactionMismatch));
    assert_eq!(mined_height(7), Ok(Some(7)));
    assert_eq!(
        judge_transaction(&[1; 32], Ok([1; 32]), Some(3)),
        Ok(Enhancement::Stored { height: Some(3) })
    );
}

#[test]
fn an_unknown_transaction_is_not_recognised() {
    let failed = |code| {
        let status = ProviderError {
            code,
            message: "no".to_string(),
        };
        enhance(NETWORK, &[0; 32], Err(Error::Provider { status }), None)
    };
    assert_eq!(failed(5), Ok(Enhancement::NotRecognized));
    assert_eq!(
        failed(4).unwrap_err().message(),
        "ztreamer error 4: no".to_string()
    );
    assert_eq!(
        enhance(NETWORK, &[0; 32], Err(Error::ResponseCount), None),
        Err(Error::ResponseCount)
    );
}

#[test]
fn blocks_are_selected_by_height_and_limit() {
    let heights = vec![5, 6, 7, 8];
    assert_eq!(with_blocks(&heights, None, None), vec![0, 1, 2, 3]);
    assert_eq!(with_blocks(&heights, Some(6), None), vec![1, 2, 3]);
    assert_eq!(with_blocks(&heights, Some(6), Some(2)), vec![1, 2]);
    assert_eq!(with_blocks(&heights, Some(9), Some(2)), Vec::<usize>::new());
    assert_eq!(with_blocks(&heights, None, Some(0)), Vec::<usize>::new());
}
