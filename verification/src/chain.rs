//! Chain states: a block and the note commitment trees as of its end.
use incrementalmerkletree::frontier::Frontier;
use orchard::tree::MerkleHashOrchard;
use vstd::prelude::*;
use vstd::string::*;
use vstd::utf8::encode_utf8;

use crate::error::Error;
use crate::shape::{is_hex, unhex, Kind, Shape};

verus! {

/// The right edge of a note commitment tree.
#[verifier::external_type_specification]
#[verifier::external_body]
#[verifier::reject_recursive_types(H)]
pub struct ExFrontier<H, const DEPTH: u8>(Frontier<H, DEPTH>);

/// A node of the Sapling note commitment tree.
#[verifier::external_type_specification]
#[verifier::external_body]
pub struct ExSaplingNode(sapling_crypto::Node);

/// A node of an Orchard-shaped note commitment tree.
#[verifier::external_type_specification]
#[verifier::external_body]
pub struct ExMerkleHashOrchard(MerkleHashOrchard);

/// What a Sapling frontier holds: its position, its leaf and its ommers, as bytes. An empty
/// frontier holds nothing.
pub uninterp spec fn sapling_state(frontier: Frontier<sapling_crypto::Node, 32>) -> Seq<u8>;

/// What an Orchard-shaped frontier holds: its position, its leaf and its ommers, as bytes. An
/// empty frontier holds nothing.
pub uninterp spec fn orchard_state(frontier: Frontier<MerkleHashOrchard, 32>) -> Seq<u8>;

/// The root of the Sapling tree whose frontier holds `state`.
pub uninterp spec fn sapling_root(state: Seq<u8>) -> Seq<u8>;

/// The root of the Orchard-shaped tree whose frontier holds `state`.
pub uninterp spec fn orchard_root(state: Seq<u8>) -> Seq<u8>;

/// What a Sapling frontier that holds `state` holds after a commitment was appended, or none
/// where its tree has no room.
pub uninterp spec fn sapling_appended(state: Seq<u8>, commitment: Seq<u8>) -> Option<Seq<u8>>;

/// What an Orchard-shaped frontier that holds `state` holds after a commitment was appended,
/// or none where its tree has no room.
pub uninterp spec fn orchard_appended(state: Seq<u8>, commitment: Seq<u8>) -> Option<Seq<u8>>;

/// The number that bytes spell, least significant byte first.
pub open spec fn little_endian(bytes: Seq<u8>) -> nat
    decreases bytes.len(),
{
    if bytes.len() == 0 {
        0
    } else {
        bytes[0] as nat + 256 * little_endian(bytes.skip(1))
    }
}

/// Whether bytes are a node of the Sapling tree, such as a note commitment or a root: the
/// canonical encoding of an element of the scalar field of BLS12-381.
pub open spec fn is_sapling_node(bytes: Seq<u8>) -> bool {
    &&& bytes.len() == 32
    &&& little_endian(bytes)
        < 0x73eda753299d7d483339d80809a1d80553bda402fffe5bfeffffffff00000001nat
}

/// Whether bytes are a node of an Orchard-shaped tree, such as a note commitment or a root: the
/// canonical encoding of an element of the base field of Pallas.
pub open spec fn is_orchard_node(bytes: Seq<u8>) -> bool {
    &&& bytes.len() == 32
    &&& little_endian(bytes)
        < 0x40000000000000000000000000000000224698fc094cf91b992d30ed00000001nat
}

/// Calls `sapling_crypto::note::ExtractedNoteCommitment::from_bytes`. The claim is that it
/// accepts the canonical field elements, and that other lengths are no commitments.
#[verifier::external_body]
pub(crate) fn accepts_sapling_commitment(bytes: &[u8]) -> (accepted: bool)
    ensures
        accepted == is_sapling_node(bytes@),
{
    <&[u8; 32]>::try_from(bytes).is_ok_and(
        |bytes| sapling_crypto::note::ExtractedNoteCommitment::from_bytes(bytes).is_some().into(),
    )
}

/// Calls `orchard::note::ExtractedNoteCommitment::from_bytes`. The claim is that it accepts
/// the canonical field elements, and that other lengths are no commitments.
#[verifier::external_body]
pub(crate) fn accepts_orchard_commitment(bytes: &[u8]) -> (accepted: bool)
    ensures
        accepted == is_orchard_node(bytes@),
{
    <&[u8; 32]>::try_from(bytes).is_ok_and(
        |bytes| orchard::note::ExtractedNoteCommitment::from_bytes(bytes).is_some().into(),
    )
}

/// Calls `incrementalmerkletree::frontier::Frontier::append` with the Sapling leaf of a
/// commitment. The claim is that it returns whether there was room and leaves the frontier
/// alone where there was none.
#[verifier::external_body]
pub(crate) fn append_sapling(
    frontier: &mut Frontier<sapling_crypto::Node, 32>,
    commitment: &[u8],
) -> (appended: bool)
    requires
        is_sapling_node(commitment@),
    ensures
        appended == (sapling_appended(sapling_state(*old(frontier)), commitment@) is Some),
        sapling_state(*final(frontier)) == (match sapling_appended(
            sapling_state(*old(frontier)),
            commitment@,
        ) {
            Some(state) => state,
            None => sapling_state(*old(frontier)),
        }),
{
    let bytes = commitment.try_into().unwrap();
    let cmu = sapling_crypto::note::ExtractedNoteCommitment::from_bytes(bytes).unwrap();
    frontier.append(sapling_crypto::Node::from_cmu(&cmu))
}

/// Calls `incrementalmerkletree::frontier::Frontier::append` with the Orchard leaf of a
/// commitment. The claim is that it returns whether there was room and leaves the frontier
/// alone where there was none.
#[verifier::external_body]
pub(crate) fn append_orchard(
    frontier: &mut Frontier<MerkleHashOrchard, 32>,
    commitment: &[u8],
) -> (appended: bool)
    requires
        is_orchard_node(commitment@),
    ensures
        appended == (orchard_appended(orchard_state(*old(frontier)), commitment@) is Some),
        orchard_state(*final(frontier)) == (match orchard_appended(
            orchard_state(*old(frontier)),
            commitment@,
        ) {
            Some(state) => state,
            None => orchard_state(*old(frontier)),
        }),
{
    let bytes = commitment.try_into().unwrap();
    let cmx = orchard::note::ExtractedNoteCommitment::from_bytes(bytes).unwrap();
    frontier.append(MerkleHashOrchard::from_cmx(&cmx))
}

/// Calls `incrementalmerkletree::frontier::Frontier::root` on a Sapling frontier.
#[verifier::external_body]
pub(crate) fn root_of_sapling(frontier: &Frontier<sapling_crypto::Node, 32>) -> (root: [u8; 32])
    ensures
        root@ == sapling_root(sapling_state(*frontier)),
{
    frontier.root().to_bytes()
}

/// Calls `incrementalmerkletree::frontier::Frontier::root` on an Orchard-shaped frontier.
#[verifier::external_body]
pub(crate) fn root_of_orchard(frontier: &Frontier<MerkleHashOrchard, 32>) -> (root: [u8; 32])
    ensures
        root@ == orchard_root(orchard_state(*frontier)),
{
    frontier.root().to_bytes()
}

/// Calls `incrementalmerkletree::frontier::Frontier::empty` for the Sapling tree.
#[verifier::external_body]
fn empty_sapling() -> (frontier: Frontier<sapling_crypto::Node, 32>)
    ensures
        sapling_state(frontier) == Seq::<u8>::empty(),
{
    Frontier::empty()
}

/// Calls `incrementalmerkletree::frontier::Frontier::empty` for an Orchard-shaped tree.
#[verifier::external_body]
fn empty_orchard() -> (frontier: Frontier<MerkleHashOrchard, 32>)
    ensures
        orchard_state(frontier) == Seq::<u8>::empty(),
{
    Frontier::empty()
}

/// A block and the note commitment trees as of its end.
pub struct ChainState {
    pub height: u32,
    pub hash: [u8; 32],
    pub sapling: Frontier<sapling_crypto::Node, 32>,
    pub orchard: Frontier<MerkleHashOrchard, 32>,
    pub ironwood: Frontier<MerkleHashOrchard, 32>,
}

/// A chain state, with its trees by what their frontiers hold.
pub struct ChainView {
    pub height: u32,
    pub hash: Seq<u8>,
    pub trees: TreesView,
}

/// What the frontiers of the three trees hold.
pub struct TreesView {
    pub sapling: Seq<u8>,
    pub orchard: Seq<u8>,
    pub ironwood: Seq<u8>,
}

impl View for ChainState {
    type V = ChainView;

    open spec fn view(&self) -> ChainView {
        ChainView {
            height: self.height,
            hash: self.hash@,
            trees: TreesView {
                sapling: sapling_state(self.sapling),
                orchard: orchard_state(self.orchard),
                ironwood: orchard_state(self.ironwood),
            },
        }
    }
}

impl ChainState {
    /// A chain state with empty trees.
    pub fn empty(height: u32, hash: [u8; 32]) -> (state: ChainState)
        ensures
            state@ == (ChainView {
                height,
                hash: hash@,
                trees: TreesView { sapling: seq![], orchard: seq![], ironwood: seq![] },
            }),
    {
        ChainState {
            height,
            hash,
            sapling: empty_sapling(),
            orchard: empty_orchard(),
            ironwood: empty_orchard(),
        }
    }
}

/// A provider's tree state: a block, and its trees in hexadecimal.
pub struct TreeState {
    pub height: u64,
    pub hash: String,
    pub sapling_tree: String,
    pub orchard_tree: String,
    pub ironwood_tree: String,
}

/// A tree state as text.
pub struct TreeStateView {
    pub height: u64,
    pub hash: Seq<char>,
    pub sapling_tree: Seq<char>,
    pub orchard_tree: Seq<char>,
    pub ironwood_tree: Seq<char>,
}

impl View for TreeState {
    type V = TreeStateView;

    open spec fn view(&self) -> TreeStateView {
        TreeStateView {
            height: self.height,
            hash: self.hash@,
            sapling_tree: self.sapling_tree@,
            orchard_tree: self.orchard_tree@,
            ironwood_tree: self.ironwood_tree@,
        }
    }
}

impl TreeStateView {
    /// Whether the height and the hash are those of a block.
    pub open spec fn names_a_block(self) -> bool {
        &&& self.height <= u32::MAX
        &&& encode_utf8(self.hash).len() == 64
        &&& is_hex(encode_utf8(self.hash))
    }

    /// Whether the tree state can be parsed or refused: a tree without a first leaf but with other
    /// nodes is neither, unless something before it is refused.
    pub open spec fn is_sound(self) -> bool {
        self.names_a_block() ==> match Kind::Sapling.shape(self.sapling_tree) {
            Shape::Malformed => true,
            Shape::Rootless => false,
            Shape::Rooted => match Kind::Orchard.shape(self.orchard_tree) {
                Shape::Malformed => true,
                Shape::Rootless => false,
                Shape::Rooted => !(Kind::Orchard.shape(self.ironwood_tree) is Rootless),
            },
        }
    }
}

/// The chain state that a tree state spells, or why it spells none.
pub uninterp spec fn spelled_chain_state(tree: TreeStateView) -> Result<ChainView, Seq<char>>;

/// Calls `zcash_client_backend::proto::service::TreeState::to_chain_state`. The claim is that
/// its result depends on the tree state alone and keeps its height. A tree without a first
/// leaf but with other nodes makes the call panic, where nothing before it is refused.
#[verifier::external_body]
fn parse_tree_state(tree: &TreeState) -> (state: Result<ChainState, String>)
    requires
        tree@.is_sound(),
    ensures
        match state {
            Ok(state) => {
                &&& spelled_chain_state(tree@) == Ok::<ChainView, Seq<char>>(state@)
                &&& state.height == tree.height
            },
            Err(detail) => spelled_chain_state(tree@) == Err::<ChainView, Seq<char>>(detail@),
        },
{
    let (sapling_tree, orchard_tree) = (tree.sapling_tree.clone(), tree.orchard_tree.clone());
    let (hash, ironwood_tree) = (tree.hash.clone(), tree.ironwood_tree.clone());
    let tree = zcash_client_backend::proto::service::TreeState {
        height: tree.height, hash, sapling_tree, orchard_tree, ironwood_tree,
        ..Default::default()
    };
    let state = tree.to_chain_state().map_err(|error| error.to_string())?;
    Ok(ChainState {
        height: state.block_height().into(), hash: state.block_hash().0,
        sapling: state.final_sapling_tree().clone(), orchard: state.final_orchard_tree().clone(),
        ironwood: state.final_ironwood_tree().clone(),
    })
}

impl TreeState {
    /// Whether the tree state can be parsed or refused.
    pub fn sound(&self) -> (sound: bool)
        ensures
            sound == self@.is_sound(),
    {
        let hash = self.hash.as_str().as_bytes();
        if self.height > 0xffff_ffff || hash.len() != 64 || unhex(hash).is_none() {
            return true;
        }
        match Kind::Sapling.read_text(self.sapling_tree.as_str()) {
            Shape::Malformed => true,
            Shape::Rootless => false,
            Shape::Rooted => match Kind::Orchard.read_text(self.orchard_tree.as_str()) {
                Shape::Malformed => true,
                Shape::Rootless => false,
                Shape::Rooted => match Kind::Orchard.read_text(self.ironwood_tree.as_str()) {
                    Shape::Rootless => false,
                    _ => true,
                },
            },
        }
    }

    /// Parses the tree state.
    pub fn to_chain_state(&self) -> (state: Result<ChainState, Error>)
        requires
            self@.is_sound(),
        ensures
            match state {
                Ok(state) => {
                    &&& spelled_chain_state(self@) == Ok::<ChainView, Seq<char>>(state@)
                    &&& state.height == self.height
                },
                Err(error) => error matches Error::TreeStateInvalid { detail }
                    && spelled_chain_state(self@) == Err::<ChainView, Seq<char>>(detail@),
            },
    {
        match parse_tree_state(self) {
            Ok(state) => Ok(state),
            Err(detail) => Err(Error::TreeStateInvalid { detail }),
        }
    }
}

/// A tree state can be parsed or refused unless it names a block and one of its trees is rootless,
/// with no malformed tree before it.
pub proof fn rooted_trees_are_sound(tree: TreeStateView)
    ensures
        ({
            let sapling = Kind::Sapling.shape(tree.sapling_tree);
            let orchard = Kind::Orchard.shape(tree.orchard_tree);
            let ironwood = Kind::Orchard.shape(tree.ironwood_tree);
            tree.is_sound() <==> {
                ||| tree.height > u32::MAX
                ||| encode_utf8(tree.hash).len() != 64
                ||| !is_hex(encode_utf8(tree.hash))
                ||| sapling is Malformed
                ||| sapling is Rooted && orchard is Malformed
                ||| sapling is Rooted && orchard is Rooted && !(ironwood is Rootless)
            }
        }),
        Kind::Sapling.shape(seq![]) is Rooted,
        Kind::Orchard.shape(seq![]) is Rooted,
{
}

/// A chain state is seen with its block and with what each of its three frontiers holds.
pub proof fn chain_states_are_seen_whole(state: ChainState)
    ensures
        state@.height == state.height,
        state@.hash == state.hash@,
        state@.trees.sapling == sapling_state(state.sapling),
        state@.trees.orchard == orchard_state(state.orchard),
        state@.trees.ironwood == orchard_state(state.ironwood),
{
}

} // verus!
