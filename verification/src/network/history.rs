//! Blocks as the header node stores them, and the chain history that their headers commit to.
use vstd::prelude::*;
use zakura_chain::block::{Header, Height};
use zakura_chain::history_tree::{HistoryTree, HistoryTreeBlockParts, NonEmptyHistoryTree};
use zakura_chain::parallel::commitment_aux::BlockCommitmentRoots;
use zakura_chain::parallel::commitment_aux_verify::{
    verify_supplied_ironwood_root_below_nu6_3, verify_supplied_ironwood_tx_below_nu6_3,
    verify_supplied_roots_from_parts,
};
use zakura_chain::parameters::{Network, NetworkUpgrade};
use zakura_chain::serialization::ZcashDeserialize;

use crate::chain::{is_orchard_node, is_sapling_node, little_endian, orchard_root};
use crate::config::Upgrade;
use crate::network::node::{node_activation_height, node_heights, node_points, MAX_HEIGHT};
use crate::text::{decimal_text, hex_text};

verus! {

/// The header node's chain history.
#[verifier::external_type_specification]
#[verifier::external_body]
pub struct ExHistoryTree(HistoryTree);

/// The header node's chain history from Heartwood on.
#[verifier::external_type_specification]
#[verifier::external_body]
pub struct ExNonEmptyHistoryTree(NonEmptyHistoryTree);

/// The note-tree roots and transaction counts that accompany a header.
#[derive(Clone, Copy, Debug, PartialEq, Eq)]
pub struct BlockRoots {
    pub height: u32,
    pub sapling_root: [u8; 32],
    pub orchard_root: [u8; 32],
    pub ironwood_root: [u8; 32],
    pub sapling_tx: u64,
    pub orchard_tx: u64,
    pub ironwood_tx: u64,
    pub auth_data_root: [u8; 32],
}

/// The roots and counts, with the roots as byte strings.
pub struct RootsView {
    pub height: u32,
    pub sapling_root: Seq<u8>,
    pub orchard_root: Seq<u8>,
    pub ironwood_root: Seq<u8>,
    pub sapling_tx: u64,
    pub orchard_tx: u64,
    pub ironwood_tx: u64,
    pub auth_data_root: Seq<u8>,
}

impl View for BlockRoots {
    type V = RootsView;

    open spec fn view(&self) -> RootsView {
        RootsView {
            height: self.height,
            sapling_root: self.sapling_root@,
            orchard_root: self.orchard_root@,
            ironwood_root: self.ironwood_root@,
            sapling_tx: self.sapling_tx,
            orchard_tx: self.orchard_tx,
            ironwood_tx: self.ironwood_tx,
            auth_data_root: self.auth_data_root@,
        }
    }
}

/// Whether bytes spell a block header.
pub uninterp spec fn is_header(bytes: Seq<u8>) -> bool;

/// The hash of the block header that bytes spell.
pub uninterp spec fn header_hash(header: Seq<u8>) -> Seq<u8>;

/// The work that the difficulty threshold of a block header stands for, if it stands for any.
pub uninterp spec fn header_work(header: Seq<u8>) -> Option<nat>;

/// The roots and counts that bytes spell, if they spell any: four bytes of height, the Sapling,
/// the Orchard and the Ironwood root, eight bytes for each count in the same order, and the root
/// of the authorizing data.
pub open spec fn spelled_roots(bytes: Seq<u8>) -> Option<RootsView> {
    if bytes.len() >= 156 && is_sapling_node(bytes.subrange(4, 36)) && is_orchard_node(
        bytes.subrange(36, 68),
    ) && is_orchard_node(bytes.subrange(68, 100)) {
        Some(
            RootsView {
                height: little_endian(bytes.subrange(0, 4)) as u32,
                sapling_root: bytes.subrange(4, 36),
                orchard_root: bytes.subrange(36, 68),
                ironwood_root: bytes.subrange(68, 100),
                sapling_tx: little_endian(bytes.subrange(100, 108)) as u64,
                orchard_tx: little_endian(bytes.subrange(108, 116)) as u64,
                ironwood_tx: little_endian(bytes.subrange(116, 124)) as u64,
                auth_data_root: bytes.subrange(124, 156),
            },
        )
    } else {
        None
    }
}

/// Calls `zakura_chain::block::Header::zcash_deserialize`, and returns the hash of the previous
/// block. The claim is that success depends on the bytes alone, and that the hash stands at byte
/// 4.
#[verifier::external_body]
fn decode_header(bytes: &[u8]) -> (previous: Option<[u8; 32]>)
    ensures
        previous is Some <==> is_header(bytes@),
        previous matches Some(previous) ==> bytes@.len() >= 36 && previous@ == bytes@.subrange(
            4,
            36,
        ),
{
    let header = Header::zcash_deserialize(bytes).ok()?;
    Some(header.previous_block_hash.0)
}

/// Calls `zakura_chain::block::Header::hash`. The claim is that the hash depends on the bytes of
/// the header alone.
#[verifier::external_body]
fn hash_of_header(header: &[u8]) -> (hash: [u8; 32])
    requires
        is_header(header@),
    ensures
        hash@ == header_hash(header@),
{
    Header::zcash_deserialize(header).unwrap().hash().0
}

/// Calls `zakura_chain::work::difficulty::CompactDifficulty::to_work`, and returns the two halves
/// of the work. The claim is that the work depends on the bytes of the header alone, and is below
/// the 256th power of two.
#[verifier::external_body]
fn work_of_header(header: &[u8]) -> (work: Option<(u128, u128)>)
    requires
        is_header(header@),
    ensures
        header_work(header@) == (match work {
            Some((high, low)) => Some(whole(high, low)),
            None => None,
        }),
{
    let header = Header::zcash_deserialize(header).unwrap();
    let bytes = header.difficulty_threshold.to_work()?.as_u256().to_big_endian();
    let (high, low) = bytes.split_at(16);
    let high = u128::from_be_bytes(high.try_into().unwrap());
    Some((high, u128::from_be_bytes(low.try_into().unwrap())))
}

/// The number whose two halves are given.
pub open spec fn whole(high: u128, low: u128) -> nat {
    high as nat * 0x1_0000_0000_0000_0000_0000_0000_0000_0000nat + low as nat
}

/// Calls `zakura_chain::parallel::commitment_aux::BlockCommitmentRoots::zcash_deserialize`. The
/// claim is that it reads the fields of [`spelled_roots`] and fails where a root is not
/// canonical or bytes are missing.
#[verifier::external_body]
fn decode_roots(commitments: &[u8]) -> (roots: Option<BlockRoots>)
    ensures
        match roots {
            Some(roots) => spelled_roots(commitments@) == Some(roots@),
            None => spelled_roots(commitments@) is None,
        },
{
    let roots = BlockCommitmentRoots::zcash_deserialize(commitments).ok()?;
    Some(BlockRoots {
        height: roots.height.0,
        sapling_root: roots.sapling_root.into(),
        orchard_root: roots.orchard_root.into(),
        ironwood_root: roots.ironwood_root.into(),
        sapling_tx: roots.sapling_tx, orchard_tx: roots.orchard_tx,
        ironwood_tx: roots.ironwood_tx,
        auth_data_root: roots.auth_data_root.into(),
    })
}

/// A block as the header node stores it: its header, and the roots and counts that accompany
/// the header, both as bytes.
#[verifier::ext_equal]
pub struct BlockView {
    pub header: Seq<u8>,
    pub commitments: Seq<u8>,
}

impl BlockView {
    /// The hash of the block.
    pub open spec fn hash(self) -> Seq<u8> {
        header_hash(self.header)
    }

    /// The hash of the block before it.
    pub open spec fn previous(self) -> Seq<u8> {
        self.header.subrange(4, 36)
    }

    /// The roots and counts of the block.
    pub open spec fn roots(self) -> RootsView {
        spelled_roots(self.commitments)->Some_0
    }

    /// The height of the block.
    pub open spec fn height(self) -> u32 {
        self.roots().height
    }

    /// Whether the header and the roots can be read, and the height is one that the header node
    /// counts.
    pub open spec fn is_regular(self) -> bool {
        &&& is_header(self.header)
        &&& self.header.len() >= 36
        &&& spelled_roots(self.commitments) is Some
        &&& self.height() <= MAX_HEIGHT
    }
}

/// A block that the header node stores, decoded.
pub struct BlockData {
    header: Vec<u8>,
    commitments: Vec<u8>,
    hash: [u8; 32],
    previous: [u8; 32],
    work: Option<(u128, u128)>,
    roots: BlockRoots,
}

impl View for BlockData {
    type V = BlockView;

    closed spec fn view(&self) -> BlockView {
        BlockView { header: self.header@, commitments: self.commitments@ }
    }
}

impl BlockData {
    /// Whether the decoded fields are those of the bytes.
    pub closed spec fn wf(self) -> bool {
        &&& self@.is_regular()
        &&& self.hash@ == self@.hash()
        &&& self.previous@ == self@.previous()
        &&& self.roots@ == self@.roots()
        &&& header_work(self.header@) == (match self.work {
            Some((high, low)) => Some(whole(high, low)),
            None => None,
        })
    }

    /// What the invariant of a block says of what it stands for.
    pub proof fn wf_is_regular(self)
        requires
            self.wf(),
        ensures
            self@.is_regular(),
    {
    }

    /// Decodes a block. There is none where the bytes are malformed or the height is out of
    /// range.
    pub fn decode(header: Vec<u8>, commitments: Vec<u8>) -> (data: Option<BlockData>)
        ensures
            match data {
                Some(data) => data.wf() && data@ == (BlockView {
                    header: header@,
                    commitments: commitments@,
                }),
                None => !(BlockView { header: header@, commitments: commitments@ }).is_regular(),
            },
    {
        let previous = match decode_header(header.as_slice()) {
            Some(previous) => previous,
            None => return None,
        };
        let roots = match decode_roots(commitments.as_slice()) {
            Some(roots) => roots,
            None => return None,
        };
        if roots.height > MAX_HEIGHT {
            return None;
        }
        let hash = hash_of_header(header.as_slice());
        let work = work_of_header(header.as_slice());
        Some(BlockData { header, commitments, hash, previous, work, roots })
    }

    /// The height of the block.
    pub fn height(&self) -> (height: u32)
        requires
            self.wf(),
        ensures
            height == self@.height(),
    {
        self.roots.height
    }

    /// The hash of the block.
    pub fn hash(&self) -> (hash: [u8; 32])
        requires
            self.wf(),
        ensures
            hash@ == self@.hash(),
    {
        self.hash
    }

    /// The hash of the block before it.
    pub fn previous(&self) -> (previous: [u8; 32])
        requires
            self.wf(),
        ensures
            previous@ == self@.previous(),
    {
        self.previous
    }

    /// The roots and counts of the block.
    pub fn roots(&self) -> (roots: BlockRoots)
        requires
            self.wf(),
        ensures
            roots@ == self@.roots(),
    {
        self.roots
    }
}

/// When a network's upgrades take effect, and its activation list.
pub struct Schedule {
    pub heights: Map<Upgrade, u32>,
    pub points: Map<u32, Option<Upgrade>>,
}

/// The schedule of a network.
pub open spec fn schedule(network: Network) -> Schedule {
    Schedule { heights: node_heights(network), points: node_points(network) }
}

impl Schedule {
    /// Whether an upgrade has taken effect at a height.
    pub open spec fn active(self, upgrade: Upgrade, height: u32) -> bool {
        self.heights.contains_key(upgrade) && self.heights[upgrade] <= height
    }

    /// Whether a height is the last one up to `height` at which an upgrade takes effect.
    pub open spec fn is_start(self, height: u32, start: u32) -> bool {
        &&& self.points.contains_key(start)
        &&& start <= height
        &&& forall|point: u32| #[trigger]
            self.points.contains_key(point) && point <= height ==> point <= start
    }

    /// The last height up to `height` at which an upgrade takes effect.
    pub open spec fn start(self, height: u32) -> u32 {
        choose|start: u32| self.is_start(height, start)
    }

    /// Whether the activation list holds genesis, genesis has no chain history, and every upgrade
    /// from Heartwood on is one that the wallet knows.
    pub open spec fn is_known(self) -> bool {
        &&& self.points.contains_key(0)
        &&& !self.active(Upgrade::Heartwood, 0)
        &&& forall|point: u32| #[trigger]
            self.points.contains_key(point) && self.active(Upgrade::Heartwood, point)
                ==> self.points[point] is Some
    }

    /// Whether a block has no Ironwood notes, or Ironwood is active at its height.
    pub open spec fn keeps_ironwood_empty(self, block: BlockView) -> bool {
        self.active(Upgrade::Nu6_3, block.height()) || {
            &&& block.roots().ironwood_root == orchard_root(Seq::<u8>::empty())
            &&& block.roots().ironwood_tx == 0
        }
    }

    /// The blocks of a chain history after one more block. There is no history before
    /// Heartwood, and each upgrade starts it anew.
    pub open spec fn pushed(self, history: Seq<BlockView>, block: BlockView) -> Seq<BlockView> {
        if !self.active(Upgrade::Heartwood, block.height()) {
            history
        } else if block.height() == self.heights[Upgrade::Heartwood] || self.points.contains_key(
            block.height(),
        ) {
            seq![block]
        } else {
            history.push(block)
        }
    }

    /// The blocks of the chain history at the end of a run of blocks.
    pub open spec fn history(self, trail: Seq<BlockView>) -> Seq<BlockView>
        decreases trail.len(),
    {
        if trail.len() == 0 {
            seq![]
        } else {
            self.pushed(self.history(trail.drop_last()), trail.last())
        }
    }

    /// Whether a chain history can take a block next.
    pub open spec fn precedes(self, history: Seq<BlockView>, block: BlockView) -> bool {
        if self.active(Upgrade::Heartwood, block.height()) {
            block.height() == self.heights[Upgrade::Heartwood] || (history.len() > 0
                && history.last().height() + 1 == block.height())
        } else {
            history.len() == 0
        }
    }

    /// What a block adds to the totals of a chain history. An inactive pool adds nothing.
    pub open spec fn counted(self, block: BlockView) -> Totals {
        Totals {
            sapling: block.roots().sapling_tx as nat,
            orchard: if self.active(Upgrade::Nu5, block.height()) {
                block.roots().orchard_tx as nat
            } else {
                0
            },
            ironwood: if self.active(Upgrade::Nu6_3, block.height()) {
                block.roots().ironwood_tx as nat
            } else {
                0
            },
            work: header_work(block.header)->Some_0,
        }
    }

    /// The totals of a chain history.
    pub open spec fn totals(self, history: Seq<BlockView>) -> Totals
        decreases history.len(),
    {
        if history.len() == 0 {
            Totals { sapling: 0, orchard: 0, ironwood: 0, work: 0 }
        } else {
            self.totals(history.drop_last()).plus(self.counted(history.last()))
        }
    }

    /// Whether a block can be added up with the blocks of a chain history: from Heartwood on its
    /// header stands for some work, and the totals have room.
    pub open spec fn adds_up(self, history: Seq<BlockView>, block: BlockView) -> bool {
        self.active(Upgrade::Heartwood, block.height()) ==> {
            &&& header_work(block.header) is Some
            &&& self.totals(self.pushed(history, block)).fit()
        }
    }

    /// Whether blocks can be those of a chain history: genesis is not among them, their headers
    /// stand for some work, and the totals have room.
    pub open spec fn is_history(self, history: Seq<BlockView>) -> bool {
        &&& forall|i: int| 0 <= i < history.len() ==> (#[trigger] history[i]).is_regular()
        &&& forall|i: int| 0 <= i < history.len() ==> (#[trigger] history[i]).height() >= 1
        &&& forall|i: int|
            0 <= i < history.len() ==> header_work((#[trigger] history[i]).header) is Some
        &&& self.totals(history).fit()
    }
}

/// What the blocks of a chain history have together: their transactions in each pool, and their
/// work.
pub struct Totals {
    pub sapling: nat,
    pub orchard: nat,
    pub ironwood: nat,
    pub work: nat,
}

impl Totals {
    /// The sum of two totals.
    pub open spec fn plus(self, other: Totals) -> Totals {
        Totals {
            sapling: self.sapling + other.sapling,
            orchard: self.orchard + other.orchard,
            ironwood: self.ironwood + other.ironwood,
            work: self.work + other.work,
        }
    }

    /// Whether the counts have eight bytes, and the work 32.
    pub open spec fn fit(self) -> bool {
        &&& self.sapling <= u64::MAX
        &&& self.orchard <= u64::MAX
        &&& self.ironwood <= u64::MAX
        &&& self.work <= whole(u128::MAX, u128::MAX)
    }
}

/// The blocks that a chain history holds, from the last upgrade on.
pub uninterp spec fn history_blocks(history: HistoryTree) -> Seq<BlockView>;

/// The schedule of the network that a chain history was made for.
pub uninterp spec fn history_schedule(history: HistoryTree) -> Schedule;

/// Whether a chain history is one of a network. One without blocks is one of every network.
pub open spec fn belongs(history: HistoryTree, network: Network) -> bool {
    history_blocks(history).len() > 0 ==> history_schedule(history) == schedule(network)
}

/// Whether a chain history can start with a block, or why it cannot.
pub uninterp spec fn history_opens(schedule: Schedule, block: BlockView) -> Result<(), Seq<char>>;

/// Whether a block can be added to a chain history, or why it cannot.
pub uninterp spec fn history_extends(
    schedule: Schedule,
    history: Seq<BlockView>,
    block: BlockView,
) -> Result<(), Seq<char>>;

/// Whether the header of a block commits to the chain history before it, or why it does not.
pub uninterp spec fn successor_commits(
    schedule: Schedule,
    history: Seq<BlockView>,
    block: BlockView,
) -> Result<(), Seq<char>>;

/// Calls `zakura_chain::parameters::NetworkUpgrade::current_with_activation_height`. The claim
/// is that it gives the last height of the activation list up to the asked one.
#[verifier::external_body]
pub(crate) fn upgrade_start(network: &Network, height: u32) -> (start: u32)
    ensures
        schedule(*network).is_start(height, start),
{
    NetworkUpgrade::current_with_activation_height(network, Height(height)).1.0
}

/// What is told of an Ironwood root before Ironwood that is not the one of the empty tree.
pub open spec fn root_refusal(root: Seq<u8>) -> Seq<char> {
    "invalid header commitment: invalid pre-Nu6_3 ironwood root: expected the empty-tree root \""@
        + hex_text(orchard_root(Seq::<u8>::empty())) + "\", actual: \""@ + hex_text(root) + "\""@
}

/// What is told of Ironwood transactions before Ironwood.
pub open spec fn count_refusal(count: u64) -> Seq<char> {
    "invalid header commitment: invalid pre-Nu6_3 ironwood transaction count: expected 0, actual: "@
        + decimal_text(count as nat)
}

/// Calls `verify_supplied_ironwood_root_below_nu6_3` of
/// `zakura_chain::parallel::commitment_aux_verify`. The claim is that it accepts every root
/// from Ironwood on, and before only that of the empty tree, and what it says of another one.
#[verifier::external_body]
pub(crate) fn check_ironwood_root(network: &Network, block: &BlockData) -> (checked: Result<
    (),
    String,
>)
    requires
        block.wf(),
    ensures
        checked is Ok <==> schedule(*network).active(Upgrade::Nu6_3, block@.height())
            || block@.roots().ironwood_root == orchard_root(Seq::<u8>::empty()),
        checked matches Err(detail) ==> detail@ == root_refusal(block@.roots().ironwood_root),
{
    let roots = BlockCommitmentRoots::zcash_deserialize(block.commitments.as_slice()).unwrap();
    verify_supplied_ironwood_root_below_nu6_3(network, roots.height, &roots.ironwood_root)
        .map_err(|error| error.to_string())
}

/// Calls `verify_supplied_ironwood_tx_below_nu6_3` of
/// `zakura_chain::parallel::commitment_aux_verify`. The claim is that it accepts every count
/// from Ironwood on, and before only zero, and what it says of another one.
#[verifier::external_body]
pub(crate) fn check_ironwood_count(network: &Network, block: &BlockData) -> (checked: Result<
    (),
    String,
>)
    requires
        block.wf(),
    ensures
        checked is Ok <==> schedule(*network).active(Upgrade::Nu6_3, block@.height())
            || block@.roots().ironwood_tx == 0,
        checked matches Err(detail) ==> detail@ == count_refusal(block@.roots().ironwood_tx),
{
    verify_supplied_ironwood_tx_below_nu6_3(
        network, Height(block.roots.height), block.roots.ironwood_tx,
    ).map_err(|error| error.to_string())
}

/// Calls `zakura_chain::history_tree::HistoryTree::from_parts`. The claim is that the outcome
/// depends on the schedule and the block alone, that the history holds the block from Heartwood
/// on, and nothing before, and that it keeps to the network that it is made for. A block without
/// work, or an upgrade that has no branch identifier, makes the call panic from Heartwood on.
#[verifier::external_body]
fn new_history(network: &Network, block: &BlockData) -> (history: Result<HistoryTree, String>)
    requires
        block.wf(),
        schedule(*network).is_known(),
        schedule(*network).adds_up(seq![], block@),
    ensures
        history_opens(schedule(*network), block@) == (match history {
            Ok(_) => Ok(()),
            Err(detail) => Err(detail@),
        }),
        history matches Ok(history) ==> history_blocks(history) == schedule(*network).pushed(
            seq![],
            block@,
        ),
        history matches Ok(history) ==> (history_blocks(history).len() > 0 ==> history_schedule(
            history,
        ) == schedule(*network)),
{
    let header = Header::zcash_deserialize(block.header.as_slice()).unwrap();
    let roots = BlockCommitmentRoots::zcash_deserialize(block.commitments.as_slice()).unwrap();
    let parts = HistoryTreeBlockParts {
        header: &header, height: roots.height,
        sapling_root: &roots.sapling_root, sapling_tx: roots.sapling_tx,
        orchard_root: &roots.orchard_root, orchard_tx: roots.orchard_tx,
        ironwood_root: &roots.ironwood_root, ironwood_tx: roots.ironwood_tx,
    };
    HistoryTree::from_parts(network, parts).map_err(|error| error.to_string())
}

/// Calls `zakura_chain::history_tree::HistoryTree::push_from_parts` on a clone, with the network
/// that the history was made for. The claim is that the outcome depends on the schedule, the
/// blocks of the history and the block alone, and that, where it succeeds, the history then holds
/// the block too, that an upgrade starts it anew, that there is none before Heartwood, and that it
/// keeps to its network. The call panics on a block of another height than the next one, on one
/// without work, where a total has no room, and at an upgrade that has no branch identifier.
#[verifier::external_body]
fn extended_history(network: &Network, history: &HistoryTree, block: &BlockData) -> (extended:
    Result<HistoryTree, String>)
    requires
        block.wf(),
        schedule(*network).is_known(),
        schedule(*network).is_history(history_blocks(*history)),
        belongs(*history, *network),
        schedule(*network).precedes(history_blocks(*history), block@),
        schedule(*network).adds_up(history_blocks(*history), block@),
    ensures
        history_extends(schedule(*network), history_blocks(*history), block@) == (match extended {
            Ok(_) => Ok(()),
            Err(detail) => Err(detail@),
        }),
        extended matches Ok(extended) ==> history_blocks(extended) == schedule(*network).pushed(
            history_blocks(*history),
            block@,
        ),
        extended matches Ok(extended) ==> (history_blocks(extended).len() > 0 ==> history_schedule(
            extended,
        ) == schedule(*network)),
{
    let header = Header::zcash_deserialize(block.header.as_slice()).unwrap();
    let roots = BlockCommitmentRoots::zcash_deserialize(block.commitments.as_slice()).unwrap();
    let parts = HistoryTreeBlockParts {
        header: &header, height: roots.height,
        sapling_root: &roots.sapling_root, sapling_tx: roots.sapling_tx,
        orchard_root: &roots.orchard_root, orchard_tx: roots.orchard_tx,
        ironwood_root: &roots.ironwood_root, ironwood_tx: roots.ironwood_tx,
    };
    let mut extended = history.clone();
    extended.push_from_parts(network, parts).map_err(|error| error.to_string())?;
    Ok(extended)
}

/// Calls `verify_supplied_roots_from_parts` of
/// `zakura_chain::parallel::commitment_aux_verify` with one block, and with the network that the
/// history was made for. The claim is that the outcome depends on the schedule, the blocks of the
/// history and the block alone, and that it refuses Ironwood notes before Ironwood.
#[verifier::external_body]
fn verify_successor(network: &Network, history: &HistoryTree, block: &BlockData) -> (checked:
    Result<(), String>)
    requires
        block.wf(),
        schedule(*network).is_known(),
        schedule(*network).is_history(history_blocks(*history)),
        belongs(*history, *network),
    ensures
        successor_commits(schedule(*network), history_blocks(*history), block@) == (match checked {
            Ok(_) => Ok(()),
            Err(detail) => Err(detail@),
        }),
        checked is Ok ==> schedule(*network).keeps_ironwood_empty(block@),
{
    let header = Header::zcash_deserialize(block.header.as_slice()).unwrap();
    let roots = BlockCommitmentRoots::zcash_deserialize(block.commitments.as_slice()).unwrap();
    match verify_supplied_roots_from_parts(network, history.clone(), [(&header, &roots)]) {
        Ok(_) => Ok(()),
        Err((_, error)) => Err(error.to_string()),
    }
}

/// Totals that have room.
#[derive(Clone, Copy)]
struct Sums {
    sapling: u64,
    orchard: u64,
    ironwood: u64,
    high: u128,
    low: u128,
}

impl Sums {
    spec fn view(self) -> Totals {
        Totals {
            sapling: self.sapling as nat,
            orchard: self.orchard as nat,
            ironwood: self.ironwood as nat,
            work: whole(self.high, self.low),
        }
    }

    /// What a block adds, if its header stands for some work.
    fn of(network: &Network, block: &BlockData) -> (sums: Option<Sums>)
        requires
            block.wf(),
        ensures
            match sums {
                Some(sums) => header_work(block@.header) is Some && sums@ == schedule(
                    *network,
                ).counted(block@),
                None => header_work(block@.header) is None,
            },
    {
        let (high, low) = match block.work {
            Some(work) => work,
            None => return None,
        };
        let orchard: u64 = if is_active(network, Upgrade::Nu5, block.roots.height) {
            block.roots.orchard_tx
        } else {
            0
        };
        let ironwood: u64 = if is_active(network, Upgrade::Nu6_3, block.roots.height) {
            block.roots.ironwood_tx
        } else {
            0
        };
        Some(Sums { sapling: block.roots.sapling_tx, orchard, ironwood, high, low })
    }

    /// The sum of two totals, if it has room.
    fn plus(self, other: Sums) -> (sums: Option<Sums>)
        ensures
            match sums {
                Some(sums) => self@.plus(other@).fit() && sums@ == self@.plus(other@),
                None => !self@.plus(other@).fit(),
            },
    {
        let sapling: u64 = match self.sapling.checked_add(other.sapling) {
            Some(sum) => sum,
            None => return None,
        };
        let orchard: u64 = match self.orchard.checked_add(other.orchard) {
            Some(sum) => sum,
            None => return None,
        };
        let ironwood: u64 = match self.ironwood.checked_add(other.ironwood) {
            Some(sum) => sum,
            None => return None,
        };
        let room: u128 = u128::MAX - other.low;
        let carries = self.low > room;
        let low: u128 = if carries {
            self.low - room - 1
        } else {
            self.low + other.low
        };
        let high: u128 = match self.high.checked_add(other.high) {
            Some(sum) => sum,
            None => return None,
        };
        if !carries {
            return Some(Sums { sapling, orchard, ironwood, high, low });
        }
        match high.checked_add(1) {
            Some(high) => Some(Sums { sapling, orchard, ironwood, high, low }),
            None => None,
        }
    }

    /// The totals of a chain history after one more block, if they have room.
    fn grown(self, history: Ghost<Seq<BlockView>>, network: &Network, block: &BlockData) -> (sums:
        Option<Sums>)
        requires
            block.wf(),
            self@ == schedule(*network).totals(history@),
        ensures
            match sums {
                Some(sums) => {
                    &&& schedule(*network).adds_up(history@, block@)
                    &&& sums@ == schedule(*network).totals(
                        schedule(*network).pushed(history@, block@),
                    )
                },
                None => !schedule(*network).adds_up(history@, block@),
            },
    {
        let height: u32 = block.roots.height;
        let heartwood: u32 = match node_activation_height(network, Upgrade::Heartwood) {
            Some(heartwood) => heartwood,
            None => return Some(self),
        };
        if height < heartwood {
            return Some(self);
        }
        let counted = match Sums::of(network, block) {
            Some(counted) => counted,
            None => return None,
        };
        let start: u32 = upgrade_start(network, height);
        proof {
            let schedule = schedule(*network);
            reveal_with_fuel(Schedule::totals, 2);
            assert(seq![block@].drop_last() =~= seq![]);
            assert(history@.push(block@).drop_last() =~= history@);
            assert(start == height <==> schedule.points.contains_key(height));
        }
        if height == heartwood || start == height {
            Some(counted)
        } else {
            self.plus(counted)
        }
    }
}

fn is_active(network: &Network, upgrade: Upgrade, height: u32) -> (active: bool)
    ensures
        active == schedule(*network).active(upgrade, height),
{
    match node_activation_height(network, upgrade) {
        Some(activation) => activation <= height,
        None => false,
    }
}

/// A chain history of a network, with its totals.
pub(crate) struct History {
    tree: HistoryTree,
    sums: Sums,
}

impl History {
    /// The blocks of the history.
    pub closed spec fn blocks(self) -> Seq<BlockView> {
        history_blocks(self.tree)
    }

    /// Whether the history is one of a network, and its totals are those of its blocks.
    pub closed spec fn wf(self, network: Network) -> bool {
        &&& belongs(self.tree, network)
        &&& schedule(network).is_history(history_blocks(self.tree))
        &&& self.sums@ == schedule(network).totals(history_blocks(self.tree))
    }

    /// Whether a history can add its first block up.
    pub fn starts(network: &Network, block: &BlockData) -> (starts: bool)
        requires
            block.wf(),
        ensures
            starts == schedule(*network).adds_up(seq![], block@),
    {
        let none = Sums { sapling: 0, orchard: 0, ironwood: 0, high: 0, low: 0 };
        none.grown(Ghost(Seq::empty()), network, block).is_some()
    }

    /// A history that starts with a block.
    pub fn open(network: &Network, block: &BlockData) -> (history: Result<History, String>)
        requires
            block.wf(),
            schedule(*network).is_known(),
            schedule(*network).adds_up(seq![], block@),
        ensures
            history_opens(schedule(*network), block@) == (match history {
                Ok(_) => Ok(()),
                Err(detail) => Err(detail@),
            }),
            history matches Ok(history) ==> {
                &&& history.wf(*network)
                &&& history.blocks() == schedule(*network).pushed(seq![], block@)
            },
    {
        let none = Sums { sapling: 0, orchard: 0, ironwood: 0, high: 0, low: 0 };
        let sums = none.grown(Ghost(Seq::empty()), network, block);
        match new_history(network, block) {
            Err(detail) => Err(detail),
            Ok(tree) => {
                proof {
                    pushing_keeps_a_history(schedule(*network), seq![], block@);
                }
                Ok(History { tree, sums: sums.unwrap() })
            },
        }
    }

    /// Whether the history can add a block up.
    pub fn continues(&self, network: &Network, block: &BlockData) -> (continues: bool)
        requires
            block.wf(),
            self.wf(*network),
        ensures
            continues == schedule(*network).adds_up(self.blocks(), block@),
    {
        self.sums.grown(Ghost(self.blocks()), network, block).is_some()
    }

    /// The history with one more block.
    pub fn extended(&self, network: &Network, block: &BlockData) -> (extended: Result<
        History,
        String,
    >)
        requires
            block.wf(),
            self.wf(*network),
            schedule(*network).is_known(),
            schedule(*network).precedes(self.blocks(), block@),
            schedule(*network).adds_up(self.blocks(), block@),
        ensures
            history_extends(schedule(*network), self.blocks(), block@) == (match extended {
                Ok(_) => Ok(()),
                Err(detail) => Err(detail@),
            }),
            extended matches Ok(extended) ==> {
                &&& extended.wf(*network)
                &&& extended.blocks() == schedule(*network).pushed(self.blocks(), block@)
            },
    {
        let sums = self.sums.grown(Ghost(self.blocks()), network, block);
        match extended_history(network, &self.tree, block) {
            Err(detail) => Err(detail),
            Ok(tree) => {
                proof {
                    pushing_keeps_a_history(schedule(*network), self.blocks(), block@);
                }
                Ok(History { tree, sums: sums.unwrap() })
            },
        }
    }

    /// Whether the header of a block commits to the history.
    pub fn check_successor(&self, network: &Network, block: &BlockData) -> (checked: Result<
        (),
        String,
    >)
        requires
            block.wf(),
            self.wf(*network),
            schedule(*network).is_known(),
        ensures
            successor_commits(schedule(*network), self.blocks(), block@) == (match checked {
                Ok(_) => Ok(()),
                Err(detail) => Err(detail@),
            }),
            checked is Ok ==> schedule(*network).keeps_ironwood_empty(block@),
    {
        verify_successor(network, &self.tree, block)
    }
}

/// Every height has a last one up to it at which an upgrade takes effect.
pub proof fn every_height_has_a_start(schedule: Schedule, height: u32)
    requires
        schedule.is_known(),
    ensures
        schedule.is_start(height, schedule.start(height)),
    decreases height,
{
    if schedule.points.contains_key(height) {
        assert(schedule.is_start(height, height));
    } else {
        let lower = (height - 1) as u32;
        every_height_has_a_start(schedule, lower);
        assert(schedule.is_start(height, schedule.start(lower)));
    }
}

/// A chain history stays one when a block is pushed that it can add up.
proof fn pushing_keeps_a_history(schedule: Schedule, history: Seq<BlockView>, block: BlockView)
    requires
        schedule.is_known(),
        schedule.is_history(history),
        schedule.adds_up(history, block),
        block.is_regular(),
    ensures
        schedule.is_history(schedule.pushed(history, block)),
{
}

/// Whether a chain history starts anew with a block: an upgrade takes effect at its height.
pub open spec fn starts_anew(schedule: Schedule, block: BlockView) -> bool {
    schedule.points.contains_key(block.height()) || block.height()
        == schedule.heights[Upgrade::Heartwood]
}

/// The chain history at the end of a run holds the blocks from the last one on at which an upgrade
/// takes effect, in their order and all of them. It holds nothing before Heartwood.
pub proof fn the_history_holds_the_blocks_since_the_upgrade(
    schedule: Schedule,
    trail: Seq<BlockView>,
    first: int,
)
    requires
        0 <= first <= trail.len(),
        forall|i: int|
            first <= i < trail.len() ==> schedule.active(
                Upgrade::Heartwood,
                (#[trigger] trail[i]).height(),
            ),
        first == trail.len() ==> forall|i: int|
            0 <= i < trail.len() ==> !schedule.active(
                Upgrade::Heartwood,
                (#[trigger] trail[i]).height(),
            ),
        first < trail.len() ==> starts_anew(schedule, trail[first]),
        forall|i: int| first < i < trail.len() ==> !starts_anew(schedule, #[trigger] trail[i]),
    ensures
        schedule.history(trail) == trail.skip(first),
    decreases trail.len(),
{
    if trail.len() == 0 {
        assert(trail.skip(first) =~= seq![]);
    } else {
        let shorter = trail.drop_last();
        let last = trail.len() - 1;
        assert forall|i: int| 0 <= i < shorter.len() implies #[trigger] shorter[i]
            == trail[i] by {}
        if first <= last {
            assert(schedule.active(Upgrade::Heartwood, trail[last].height()));
        }
        if first == last {
            assert(trail.skip(first) =~= seq![trail[last]]);
        } else {
            if first == trail.len() {
                assert(!schedule.active(Upgrade::Heartwood, trail[last].height()));
                the_history_holds_the_blocks_since_the_upgrade(schedule, shorter, first - 1);
                assert(shorter.skip(first - 1) =~= seq![]);
                assert(trail.skip(first) =~= seq![]);
            } else {
                the_history_holds_the_blocks_since_the_upgrade(schedule, shorter, first);
                assert(trail.skip(first) =~= shorter.skip(first).push(trail[last]));
            }
        }
    }
}

/// The totals of a chain history are added up over all its blocks: the Sapling transactions and the
/// work of every block, and the Orchard and Ironwood transactions of those at whose heights these
/// pools are active.
pub proof fn totals_are_added_up(
    schedule: Schedule,
    first: Seq<BlockView>,
    second: Seq<BlockView>,
    block: BlockView,
)
    ensures
        ({
            let (a, b) = (schedule.totals(first), schedule.totals(second));
            let sum = schedule.totals(first + second);
            let none = schedule.totals(seq![]);
            let one = schedule.totals(seq![block]);
            let (orchard, ironwood) = (
                schedule.active(Upgrade::Nu5, block.height()),
                schedule.active(Upgrade::Nu6_3, block.height()),
            );
            &&& none.sapling == 0 && none.orchard == 0 && none.ironwood == 0 && none.work == 0
            &&& one.sapling == block.roots().sapling_tx
            &&& orchard ==> one.orchard == block.roots().orchard_tx
            &&& !orchard ==> one.orchard == 0
            &&& ironwood ==> one.ironwood == block.roots().ironwood_tx
            &&& !ironwood ==> one.ironwood == 0
            &&& header_work(block.header) matches Some(work) ==> one.work == work
            &&& sum.sapling == a.sapling + b.sapling
            &&& sum.orchard == a.orchard + b.orchard
            &&& sum.ironwood == a.ironwood + b.ironwood
            &&& sum.work == a.work + b.work
        }),
    decreases second.len(),
{
    reveal_with_fuel(Schedule::totals, 2);
    assert(seq![block].drop_last() =~= seq![]);
    if second.len() == 0 {
        assert(first + second =~= first);
    } else {
        totals_are_added_up(schedule, first, second.drop_last(), block);
        assert((first + second).drop_last() =~= first + second.drop_last());
    }
}

/// Before Heartwood every block can be added up. From there on a block can be where its header
/// stands for some work, and the counts then have eight bytes and the work 32.
pub proof fn blocks_add_up_where_there_is_room(
    schedule: Schedule,
    history: Seq<BlockView>,
    block: BlockView,
)
    ensures
        ({
            let totals = schedule.totals(
                if starts_anew(schedule, block) {
                    seq![block]
                } else {
                    history + seq![block]
                },
            );
            let counts: int = 0x1_0000_0000_0000_0000;
            schedule.adds_up(history, block) <==> {
                ||| !schedule.heights.contains_key(Upgrade::Heartwood)
                ||| block.height() < schedule.heights[Upgrade::Heartwood]
                ||| {
                    &&& header_work(block.header) is Some
                    &&& totals.sapling < counts
                    &&& totals.orchard < counts
                    &&& totals.ironwood < counts
                    &&& totals.work < 0x1_0000_0000_0000_0000_0000_0000_0000_0000nat
                        * 0x1_0000_0000_0000_0000_0000_0000_0000_0000nat
                }
            }
        }),
{
    assert(history + seq![block] =~= history.push(block));
}

} // verus!
