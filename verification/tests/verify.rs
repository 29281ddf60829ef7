use veil::chain::{ChainState, TreeState};
use veil::error::Error;
use veil::network::history::{BlockData, BlockRoots};
use veil::network::node::network_parameters;
use veil::scan::{CompactBlock, CompactTx};
use veil::sync::{ChainSource, SourceStep};
use veil::network::verify::{
    authenticated_chain_state, check_frontiers, RootVerifier, RootsStep,
};
use veil::config::WalletNetwork;
use incrementalmerkletree::frontier::Frontier;
use zakura_chain::block::{ChainHistoryBlockTxAuthCommitmentHash, Header};
use zakura_chain::history_tree::{HistoryTree, HistoryTreeBlockParts};
use zakura_chain::parallel::commitment_aux::BlockCommitmentRoots;
use zakura_chain::parameters::Network;
use zakura_chain::serialization::ZcashDeserialize;

fn empty_roots(height: u32) -> BlockRoots {
    BlockRoots {
        height,
        sapling_root: zakura_chain::sapling::tree::NoteCommitmentTree::default().root().into(),
        orchard_root: zakura_chain::orchard::tree::NoteCommitmentTree::default().root().into(),
        ironwood_root: zakura_chain::ironwood::tree::NoteCommitmentTree::default().root().into(),
        sapling_tx: 0,
        orchard_tx: 0,
        ironwood_tx: 0,
        auth_data_root: [0; 32],
    }
}

fn commitments(roots: &BlockRoots) -> Vec<u8> {
    let mut bytes = roots.height.to_le_bytes().to_vec();
    bytes.extend(roots.sapling_root);
    bytes.extend(roots.orchard_root);
    bytes.extend(roots.ironwood_root);
    bytes.extend(roots.sapling_tx.to_le_bytes());
    bytes.extend(roots.orchard_tx.to_le_bytes());
    bytes.extend(roots.ironwood_tx.to_le_bytes());
    bytes.extend(roots.auth_data_root);
    bytes
}

fn header(previous: [u8; 32], commitment: [u8; 32], nonce: u8) -> Vec<u8> {
    header_with(previous, commitment, nonce, 0x200f_0f0f)
}

fn header_with(previous: [u8; 32], commitment: [u8; 32], nonce: u8, threshold: u32) -> Vec<u8> {
    let mut bytes = 4u32.to_le_bytes().to_vec();
    bytes.extend(previous);
    bytes.extend([9; 32]);
    bytes.extend(commitment);
    bytes.extend(1_600_000_000u32.to_le_bytes());
    bytes.extend(threshold.to_le_bytes());
    bytes.extend([nonce; 32]);
    bytes.push(36);
    bytes.extend([0; 36]);
    bytes
}

struct Block {
    header: Vec<u8>,
    roots: BlockRoots,
}

impl Block {
    fn hash(&self) -> [u8; 32] {
        Header::zcash_deserialize(self.header.as_slice()).unwrap().hash().0
    }
    fn data(&self) -> BlockData {
        BlockData::decode(self.header.clone(), commitments(&self.roots)).unwrap()
    }
}

fn push(network: &Network, history: &mut HistoryTree, block: &Block) {
    let header = Header::zcash_deserialize(block.header.as_slice()).unwrap();
    let roots =
        BlockCommitmentRoots::zcash_deserialize(commitments(&block.roots).as_slice()).unwrap();
    let parts = HistoryTreeBlockParts {
        header: &header,
        height: roots.height,
        sapling_root: &roots.sapling_root,
        orchard_root: &roots.orchard_root,
        ironwood_root: &roots.ironwood_root,
        sapling_tx: roots.sapling_tx,
        orchard_tx: roots.orchard_tx,
        ironwood_tx: roots.ironwood_tx,
    };
    if history.is_none() {
        *history = HistoryTree::from_parts(network, parts).unwrap();
    } else {
        history.push_from_parts(network, parts).unwrap();
    }
}

fn commitment(history: &HistoryTree, auth_data_root: [u8; 32]) -> [u8; 32] {
    ChainHistoryBlockTxAuthCommitmentHash::from_commitments(
        &history.hash().unwrap(),
        &auth_data_root.into(),
    )
    .into()
}

const NETWORK: WalletNetwork = WalletNetwork::Regtest {
    ironwood_activation: 3,
};

/// Blocks from height 1 on, each of which commits to the history before it.
fn chain(count: u32) -> Vec<Block> {
    chain_with(count, |_| {})
}

fn chain_with(count: u32, change: impl Fn(&mut BlockRoots)) -> Vec<Block> {
    let network = network_parameters(NETWORK).unwrap();
    let mut history = HistoryTree::default();
    let mut blocks: Vec<Block> = Vec::new();
    for height in 1..=count {
        let mut roots = BlockRoots {
            auth_data_root: [height as u8; 32],
            ..empty_roots(height)
        };
        change(&mut roots);
        let (previous, committed) = match blocks.last() {
            None => ([0; 32], [1; 32]),
            Some(block) => (block.hash(), commitment(&history, roots.auth_data_root)),
        };
        let block = Block {
            header: header(previous, committed, height as u8),
            roots,
        };
        push(&network, &mut history, &block);
        blocks.push(block);
    }
    blocks
}

/// Answers a question from a chain, or returns its error.
fn ask(
    verifier: &mut RootVerifier,
    height: u32,
    chain: &[Block],
) -> Result<([u8; 32], BlockRoots), Error> {
    let mut read = verifier.roots(height)?;
    loop {
        match verifier.supply(chain[read as usize - 1].data())? {
            RootsStep::Read { height } => read = height,
            RootsStep::Done { hash, roots } => return Ok((hash, roots)),
        }
    }
}

fn fresh() -> RootVerifier {
    RootVerifier::new(network_parameters(NETWORK).unwrap()).unwrap()
}

#[test]
fn matching_block_hash_does_not_authorize_a_different_ironwood_root() {
    let hash = [7; 32];
    let chain = ChainState::empty(2, hash);
    let mut roots = empty_roots(2);
    check_frontiers(&chain, &hash, &roots).expect("the matching empty frontiers are valid");
    roots.ironwood_root = zakura_chain::ironwood::tree::Root::default().into();
    let error = check_frontiers(&chain, &hash, &roots).unwrap_err();
    assert!(error.message().contains("Ironwood frontier"));
}

#[test]
fn every_root_and_the_hash_are_compared() {
    let hash = [7; 32];
    let chain = ChainState::empty(2, hash);
    let mut roots = empty_roots(2);
    assert_eq!(
        check_frontiers(&chain, &[8; 32], &roots),
        Err(Error::TreeStateHash)
    );
    roots.orchard_root = [0; 32];
    assert_eq!(
        check_frontiers(&chain, &hash, &roots),
        Err(Error::OrchardFrontier)
    );
    roots.sapling_root = [0; 32];
    assert_eq!(
        check_frontiers(&chain, &hash, &roots),
        Err(Error::SaplingFrontier)
    );
}

#[test]
fn successor_headers_authenticate_roots_across_an_upgrade() {
    let chain = chain(8);
    let mut verifier = fresh();
    for height in [4, 5, 4, 7, 2, 6] {
        let block = &chain[height as usize - 1];
        let (hash, roots) = ask(&mut verifier, height, &chain).unwrap();
        assert_eq!(hash, block.hash());
        assert_eq!(roots, block.roots);
    }
}

#[test]
fn reads_happen_in_order() {
    let chain = chain(5);
    let mut verifier = fresh();
    let mut reads = vec![verifier.roots(3).unwrap()];
    loop {
        let read = *reads.last().unwrap() as usize;
        match verifier.supply(chain[read - 1].data()).unwrap() {
            RootsStep::Read { height } => reads.push(height),
            RootsStep::Done { hash, .. } => {
                assert_eq!(hash, chain[2].hash());
                break;
            }
        }
    }
    assert_eq!(reads, vec![3, 4, 4]);
    assert_eq!(verifier.roots(3).unwrap(), 4);
    assert!(matches!(
        verifier.supply(chain[3].data()).unwrap(),
        RootsStep::Done { .. }
    ));
}

#[test]
fn heights_before_the_ironwood_boundary_are_refused() {
    let mut verifier = fresh();
    assert_eq!(verifier.roots(1), Err(Error::BirthdayBeforeIronwood));
    assert_eq!(verifier.roots(2), Ok(1));
    assert_eq!(verifier.roots(3), Ok(1));
    assert_eq!(fresh().roots(3), Ok(3));
}

#[test]
fn a_changed_root_is_rejected_by_the_next_header() {
    let mut chain = chain(6);
    chain[3].roots.sapling_tx = 1;
    let mut verifier = fresh();
    assert!(ask(&mut verifier, 3, &chain).is_ok());
    match ask(&mut verifier, 4, &chain) {
        Err(Error::CommitmentRejected { height, .. }) => assert_eq!(height, 5),
        _ => panic!("the next header does not commit to the changed count"),
    }
    assert_eq!(
        ask(&mut verifier, 4, &chain).unwrap_err().message().split(':').next(),
        Some("header commitment verification failed at 5")
    );
}

#[test]
fn a_header_of_another_branch_is_refused() {
    let mut chain = chain(6);
    let other = Block {
        header: header([5; 32], [1; 32], 77),
        roots: empty_roots(5),
    };
    chain[4] = other;
    let mut verifier = fresh();
    assert_eq!(
        ask(&mut verifier, 4, &chain).unwrap_err(),
        Error::BranchChanged
    );
    assert!(ask(&mut verifier, 3, &chain).is_ok());
}

#[test]
fn a_successor_that_is_reselected_meanwhile_is_refused() {
    let chain = chain(6);
    let mut verifier = fresh();
    assert_eq!(verifier.roots(3), Ok(3));
    assert!(verifier.supply(chain[2].data()).is_ok());
    assert!(verifier.supply(chain[3].data()).is_ok());
    let other = Block {
        header: header(chain[2].hash(), [1; 32], 78),
        roots: empty_roots(4),
    };
    assert!(matches!(
        verifier.supply(other.data()),
        Err(Error::BranchChanged)
    ));
    assert!(ask(&mut verifier, 3, &chain).is_ok());
}

#[test]
fn a_reorganised_tip_discards_the_run() {
    let first = chain(6);
    let mut verifier = fresh();
    assert!(ask(&mut verifier, 4, &first).is_ok());
    let network = network_parameters(NETWORK).unwrap();
    let mut second = chain(6);
    second.truncate(3);
    let mut history = HistoryTree::default();
    for block in &second {
        push(&network, &mut history, block);
    }
    for height in 4..=6 {
        let roots = empty_roots(height);
        let block = Block {
            header: header(
                second.last().unwrap().hash(),
                commitment(&history, roots.auth_data_root),
                100,
            ),
            roots,
        };
        push(&network, &mut history, &block);
        second.push(block);
    }
    let (hash, _) = ask(&mut verifier, 4, &second).unwrap();
    assert_eq!(hash, second[3].hash());
    assert_ne!(hash, first[3].hash());
}

#[test]
fn inactive_pools_are_pinned_to_empty() {
    let mut chain = chain(4);
    chain[0].roots.ironwood_tx = 12;
    let error = ask(&mut fresh(), 2, &chain).unwrap_err();
    assert!(matches!(&error, Error::IronwoodCountNotZero { .. }));
    assert_eq!(
        error.message(),
        "invalid header commitment: invalid pre-Nu6_3 ironwood transaction count: \
         expected 0, actual: 12"
    );
    chain[0].roots.ironwood_root = small(0xa7);
    let error = ask(&mut fresh(), 2, &chain).unwrap_err();
    assert!(matches!(&error, Error::IronwoodRootNotEmpty { .. }));
    let hex: String =
        orchard_root(&[]).iter().map(|byte| format!("{byte:02x}")).collect();
    assert_eq!(
        error.message(),
        format!(
            "invalid header commitment: invalid pre-Nu6_3 ironwood root: expected the empty-tree \
             root \"{hex}\", actual: \"a7{}\"",
            "00".repeat(31)
        )
    );
}

#[test]
fn malformed_blocks_are_not_decoded() {
    let chain = chain(1);
    let good = commitments(&chain[0].roots);
    let decode = |header: &[u8], bytes: &[u8]| BlockData::decode(header.to_vec(), bytes.to_vec());
    assert!(decode(&chain[0].header, &good).is_some());
    assert_eq!(decode(&chain[0].header, &good).unwrap().height(), 1);
    assert!(decode(&chain[0].header, &good[..155]).is_none());
    assert!(decode(&chain[0].header[..100], &good).is_none());
    let mut large = good.clone();
    large[4..36].copy_from_slice(&[0xff; 32]);
    assert!(decode(&chain[0].header, &large).is_none());
    let mut high = good.clone();
    high[3] = 0x80;
    assert!(decode(&chain[0].header, &high).is_none());
    let mut many = good.clone();
    many[107] = 0xff;
    assert!(decode(&chain[0].header, &many).is_some());
    let mut version = chain[0].header.clone();
    version[0] = 3;
    assert!(decode(&version, &good).is_none());
}

#[test]
fn blocks_that_add_up_are_taken() {
    let chain = chain_with(5, |roots| {
        if roots.height == 3 {
            roots.sapling_tx = u64::MAX;
        }
    });
    let (_, roots) = ask(&mut fresh(), 3, &chain).unwrap();
    assert_eq!(roots.sapling_tx, u64::MAX);
    let mut verifier = fresh();
    assert_eq!(verifier.roots(3), Ok(3));
    assert!(verifier.takes(&chain[2].data()));
    assert!(verifier.supply(chain[2].data()).is_ok());
    assert!(verifier.takes(&chain[3].data()));
    let mut full = Block {
        header: chain[3].header.clone(),
        roots: chain[3].roots,
    };
    full.roots.sapling_tx = 1;
    assert!(!verifier.takes(&full.data()));
    full.header = header([5; 32], [1; 32], 9);
    assert!(verifier.takes(&full.data()));
    assert!(matches!(
        verifier.supply(full.data()),
        Err(Error::BranchChanged)
    ));
}

#[test]
fn work_has_to_add_up_too() {
    let network = network_parameters(NETWORK).unwrap();
    let start = chain(3);
    let block = |previous: &Block, history: &HistoryTree, height: u32, threshold: u32| {
        let roots = empty_roots(height);
        let committed = commitment(history, roots.auth_data_root);
        Block {
            header: header_with(previous.hash(), committed, 1, threshold),
            roots,
        }
    };
    let mut history = HistoryTree::default();
    push(&network, &mut history, &start[0]);
    push(&network, &mut history, &start[1]);
    let hard = block(&start[1], &history, 3, 0x0300_0001);
    push(&network, &mut history, &hard);
    let mut verifier = fresh();
    assert_eq!(verifier.roots(3), Ok(3));
    assert!(!verifier.takes(&block(&start[1], &history, 3, 0x2080_0000).data()));
    assert!(verifier.takes(&hard.data()));
    assert!(verifier.supply(hard.data()).is_ok());
    assert!(!verifier.takes(&block(&hard, &history, 4, 0x0300_0001).data()));
    assert!(!verifier.takes(&block(&hard, &history, 4, 0x2080_0000).data()));
    let easy = block(&hard, &history, 4, 0x0300_0002);
    assert!(verifier.takes(&easy.data()));
    assert!(verifier.supply(easy.data()).is_ok());
    assert!(matches!(
        verifier.supply(easy.data()),
        Ok(RootsStep::Done { .. })
    ));
}

#[test]
fn a_source_takes_only_what_it_can_work_on() {
    let chain = funded();
    let mut source = source();
    let rootless = TreeState {
        sapling_tree: format!("0001{}00", "00".repeat(32)),
        ..empty_tree(3, chain[2].hash())
    };
    assert_eq!(
        source.tree_state(4, empty_tree(3, chain[2].hash())).err(),
        Some(Error::TreeStateHeight)
    );
    assert!(source.tree_state(3, rootless).is_ok());
    assert!(matches!(source.offer(chain[2].data()), Some(Ok(_))));
    assert!(matches!(source.offer(chain[3].data()), Some(Ok(_))));
    assert!(!source.takes(&chain[3].data()));
    assert!(source.offer(chain[3].data()).is_none());
    let other = Block {
        header: header(chain[2].hash(), [1; 32], 78),
        roots: empty_roots(4),
    };
    assert!(matches!(
        source.offer(other.data()),
        Some(Err(Error::BranchChanged))
    ));
}

#[test]
fn a_tree_state_is_parsed_and_checked() {
    let tree = TreeState {
        height: 2,
        hash: "07".repeat(32),
        sapling_tree: "000000".to_string(),
        orchard_tree: "000000".to_string(),
        ironwood_tree: "000000".to_string(),
    };
    assert!(tree.sound());
    let chain = authenticated_chain_state(&tree, &[7; 32], &empty_roots(2)).unwrap();
    assert_eq!(chain.height, 2);
    assert_eq!(chain.hash, [7; 32]);
    assert!(matches!(
        authenticated_chain_state(&tree, &[8; 32], &empty_roots(2)),
        Err(Error::TreeStateHash)
    ));
    let bad = TreeState {
        hash: "zz".to_string(),
        ..tree
    };
    assert!(matches!(
        authenticated_chain_state(&bad, &[7; 32], &empty_roots(2)),
        Err(Error::TreeStateInvalid { .. })
    ));
}

#[test]
fn a_tree_state_beyond_the_largest_height_is_refused() {
    let tree = TreeState {
        height: 1 << 32,
        hash: String::new(),
        sapling_tree: String::new(),
        orchard_tree: String::new(),
        ironwood_tree: String::new(),
    };
    assert_eq!(fresh().tree_state(&tree), Err(Error::TreeHeight));
}

#[test]
fn trees_with_parents_but_no_leaves_are_not_sound() {
    let node = "00".repeat(32);
    let large = "ff".repeat(32);
    let tree = |sapling: &str, orchard: &str, ironwood: &str| TreeState {
        height: 0,
        hash: "00".repeat(32),
        sapling_tree: sapling.to_string(),
        orchard_tree: orchard.to_string(),
        ironwood_tree: ironwood.to_string(),
    };
    let rootless = [
        format!("0001{node}00"),
        format!("00000101{node}"),
        format!("0000020001{node}00"),
        format!("00001F{}01{node}", "00".repeat(30)),
    ];
    for text in &rootless {
        assert!(!tree(text, "", "").sound(), "{text}");
        assert!(!tree("", text, "").sound(), "{text}");
        assert!(!tree("000000", "", text).sound(), "{text}");
        assert!(tree("0", text, text).sound(), "{text}");
        assert!(tree("", "zz", text).sound(), "{text}");
        let unnamed = TreeState {
            hash: "00".to_string(),
            ..tree(text, "", "")
        };
        assert!(unnamed.sound() && unnamed.to_chain_state().is_err());
        let high = TreeState {
            height: 1 << 32,
            ..tree(text, "", "")
        };
        assert!(high.sound() && high.to_chain_state().is_err());
    }
    for text in ["", "000000", "0000020000", &format!("01{node}000101{node}")] {
        let tree = tree(text, "", "");
        assert!(tree.sound() && tree.to_chain_state().is_ok(), "{text}");
    }
    for text in [
        "00",
        "0001",
        "00000101",
        "0000ff01",
        &format!("0001{large}00"),
        &format!("0001{node}0"),
        &format!("0001{node}zz"),
        &format!("000020{}", "00".repeat(32)),
    ] {
        let tree = tree(text, "", "");
        assert!(tree.sound() && tree.to_chain_state().is_err(), "{text}");
    }
}

fn small(number: u8) -> [u8; 32] {
    let mut bytes = [0; 32];
    bytes[0] = number;
    bytes
}

fn sapling_root(numbers: &[u8]) -> [u8; 32] {
    let mut tree = Frontier::<sapling_crypto::Node, 32>::empty();
    for number in numbers {
        let cmu = sapling_crypto::note::ExtractedNoteCommitment::from_bytes(&small(*number));
        assert!(tree.append(sapling_crypto::Node::from_cmu(&cmu.unwrap())));
    }
    tree.root().to_bytes()
}

fn orchard_root(numbers: &[u8]) -> [u8; 32] {
    let mut tree = Frontier::<orchard::tree::MerkleHashOrchard, 32>::empty();
    for number in numbers {
        let cmx = orchard::note::ExtractedNoteCommitment::from_bytes(&small(*number));
        assert!(tree.append(orchard::tree::MerkleHashOrchard::from_cmx(&cmx.unwrap())));
    }
    tree.root().to_bytes()
}

fn tx(outputs: &[u8], actions: &[u8], ironwood_actions: &[u8]) -> CompactTx {
    let list = |numbers: &[u8]| numbers.iter().map(|n| small(*n).to_vec()).collect();
    CompactTx {
        txid: vec![1; 32],
        outputs: list(outputs),
        actions: list(actions),
        ironwood_actions: list(ironwood_actions),
    }
}

/// A chain whose block 4 has notes in every pool, and whose block 5 has one more in Ironwood.
fn funded() -> Vec<Block> {
    chain_with(7, |roots| {
        if roots.height >= 4 {
            roots.sapling_root = sapling_root(&[1, 2, 3]);
            roots.orchard_root = orchard_root(&[4]);
            let notes: &[u8] = if roots.height == 4 { &[5, 6] } else { &[5, 6, 7] };
            roots.ironwood_root = orchard_root(notes);
        }
    })
}

fn compact(block: &Block, previous: [u8; 32], vtx: Vec<CompactTx>) -> CompactBlock {
    CompactBlock {
        height: block.roots.height.into(),
        hash: block.hash().to_vec(),
        prev_hash: previous.to_vec(),
        vtx,
    }
}

fn funded_blocks(chain: &[Block]) -> Vec<CompactBlock> {
    vec![
        compact(
            &chain[3],
            chain[2].hash(),
            vec![tx(&[1, 2], &[], &[5]), tx(&[3], &[4], &[6])],
        ),
        compact(&chain[4], chain[3].hash(), vec![tx(&[], &[], &[7])]),
    ]
}

fn source() -> ChainSource {
    ChainSource::for_network(NETWORK).unwrap()
}

#[test]
fn a_source_needs_parameters_of_the_header_node() {
    assert!(ChainSource::for_network(WalletNetwork::Mainnet).is_ok());
    for ironwood_activation in [0, u32::MAX] {
        let network = WalletNetwork::Regtest {
            ironwood_activation,
        };
        assert_eq!(
            ChainSource::for_network(network).err(),
            network_parameters(network).err()
        );
    }
}

fn finish(
    source: &mut ChainSource,
    first: Result<SourceStep, Error>,
    chain: &[Block],
) -> Result<SourceStep, Error> {
    let mut step = first?;
    while let SourceStep::Read { height } = step {
        step = source.supply(chain[height as usize - 1].data())?;
    }
    Ok(step)
}

fn check_blocks(chain: &[Block], blocks: Vec<CompactBlock>) -> Result<Vec<CompactBlock>, Error> {
    let mut source = source();
    let end = 3 + blocks.len() as u32;
    let from = ChainState::empty(3, chain[2].hash());
    let first = source.blocks(4, end, from, blocks);
    match finish(&mut source, first, chain)? {
        SourceStep::Blocks { blocks } => Ok(blocks),
        _ => panic!("blocks were asked for"),
    }
}

#[test]
fn blocks_on_the_selected_chain_are_accepted() {
    let chain = funded();
    let blocks = check_blocks(&chain, funded_blocks(&chain)).unwrap();
    assert_eq!(blocks.len(), 2);
    assert_eq!(blocks[1].hash, chain[4].hash());
}

#[test]
fn a_changed_note_commitment_is_rejected() {
    let chain = funded();
    let mut blocks = funded_blocks(&chain);
    blocks[1].vtx[0].ironwood_actions[0] = small(8).to_vec();
    assert_eq!(
        check_blocks(&chain, blocks).err(),
        Some(Error::IronwoodCommitments)
    );
    let mut blocks = funded_blocks(&chain);
    blocks[0].vtx.swap(0, 1);
    assert_eq!(
        check_blocks(&chain, blocks).err(),
        Some(Error::SaplingCommitments)
    );
    let mut blocks = funded_blocks(&chain);
    blocks[0].vtx[1].actions.clear();
    assert_eq!(
        check_blocks(&chain, blocks).err(),
        Some(Error::OrchardCommitments)
    );
}

#[test]
fn malformed_compact_blocks_are_rejected() {
    let chain = funded();
    let mut blocks = funded_blocks(&chain);
    blocks[1].height = 6;
    assert_eq!(check_blocks(&chain, blocks).err(), Some(Error::BlockIdentity));
    let mut blocks = funded_blocks(&chain);
    blocks[0].prev_hash.pop();
    assert_eq!(check_blocks(&chain, blocks).err(), Some(Error::BlockIdentity));
    let mut blocks = funded_blocks(&chain);
    blocks[0].prev_hash = vec![0; 32];
    assert_eq!(check_blocks(&chain, blocks).err(), Some(Error::BlockNotSelected));
    let mut blocks = funded_blocks(&chain);
    blocks[1].hash = vec![0; 32];
    assert_eq!(check_blocks(&chain, blocks).err(), Some(Error::BlockNotSelected));
    let mut blocks = funded_blocks(&chain);
    blocks[0].vtx[1].txid.push(0);
    assert_eq!(
        check_blocks(&chain, blocks).err(),
        Some(Error::TransactionIdentity)
    );
    for (commitment, error) in [
        (vec![0xff; 32], Error::CommitmentInvalid),
        (vec![1; 31], Error::CommitmentLength),
    ] {
        let mut blocks = funded_blocks(&chain);
        blocks[0].vtx[1].actions[0] = commitment;
        assert_eq!(check_blocks(&chain, blocks).err(), Some(error));
    }
    let mut blocks = funded_blocks(&chain);
    blocks[0].vtx[0].outputs[1] = vec![0xff; 32];
    assert_eq!(
        check_blocks(&chain, blocks).err(),
        Some(Error::CommitmentInvalid)
    );
}

#[test]
fn an_incomplete_range_is_rejected() {
    let chain = funded();
    let mut source = source();
    let from = ChainState::empty(3, chain[2].hash());
    assert_eq!(
        source.blocks(4, 6, from, funded_blocks(&chain)).err(),
        Some(Error::IncompleteRange)
    );
}

#[test]
fn short_sapling_commitments_are_rejected() {
    let chain = funded();
    let mut blocks = funded_blocks(&chain);
    blocks[0].vtx[1].outputs[0].pop();
    assert_eq!(
        check_blocks(&chain, blocks).err(),
        Some(Error::CommitmentInvalid)
    );
}

fn reversed_hex(bytes: [u8; 32]) -> String {
    bytes.iter().rev().map(|byte| format!("{byte:02x}")).collect()
}

fn empty_tree(height: u64, hash: [u8; 32]) -> TreeState {
    TreeState {
        height,
        hash: reversed_hex(hash),
        sapling_tree: "000000".to_string(),
        orchard_tree: "000000".to_string(),
        ironwood_tree: "000000".to_string(),
    }
}

#[test]
fn tree_states_on_the_selected_chain_are_accepted() {
    let chain = funded();
    let mut source = source();
    let first = source.tree_state(3, empty_tree(3, chain[2].hash()));
    match finish(&mut source, first, &chain).unwrap() {
        SourceStep::Chain { chain: state } => {
            assert_eq!(state.height, 3);
            assert_eq!(state.hash, chain[2].hash());
        }
        _ => panic!("a tree state was asked for"),
    }
    let first = source.tree_state(4, empty_tree(4, chain[3].hash()));
    assert_eq!(
        finish(&mut source, first, &chain).err(),
        Some(Error::SaplingFrontier)
    );
    let first = source.tree_state(3, empty_tree(3, chain[3].hash()));
    assert_eq!(
        finish(&mut source, first, &chain).err(),
        Some(Error::TreeStateHash)
    );
    assert_eq!(
        source.tree_state(3, empty_tree(4, chain[3].hash())).err(),
        Some(Error::TreeStateHeight)
    );
    assert_eq!(
        source.tree_state(1, empty_tree(1, chain[0].hash())).err(),
        Some(Error::BirthdayBeforeIronwood)
    );
}
