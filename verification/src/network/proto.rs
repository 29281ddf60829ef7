//! The encodings of what the wallet asks a provider and of what it answers.
use prost::Message as _;
use vstd::prelude::*;
use zcash_client_backend::proto::{compact_formats, service};

use crate::chain::{TreeState, TreeStateView};
use crate::error::Error;
use crate::network::compact::{CompactClient, Message, Request};
use crate::scan::{CompactBlock, CompactTx, CompactView};

verus! {

/// A number in seven-bit groups, least significant first, all but the last with the high bit.
pub open spec fn varint(number: nat) -> Seq<u8>
    decreases number,
{
    if number < 0x80 {
        seq![number as u8]
    } else {
        seq![(0x80 + number % 0x80) as u8] + varint(number / 0x80)
    }
}

/// A block by its height alone: the field is left out where it is zero.
pub open spec fn block_id_bytes(height: u32) -> Seq<u8> {
    if height == 0 {
        seq![]
    } else {
        seq![0x08u8] + varint(height as nat)
    }
}

/// A range of blocks from a first to a last one.
pub open spec fn block_range_bytes(start: u32, end: u32) -> Seq<u8> {
    seq![0x0au8, block_id_bytes(start).len() as u8] + block_id_bytes(start) + seq![
        0x12u8,
        block_id_bytes(end).len() as u8,
    ] + block_id_bytes(end)
}

/// A transaction by its identifier.
pub open spec fn tx_filter_bytes(txid: Seq<u8>) -> Seq<u8> {
    seq![0x1au8, 0x20u8] + txid
}

/// Calls `prost::Message::encode_to_vec` on a `service::BlockId` of
/// `zcash_client_backend::proto`. The claim is that it writes the bytes of [`block_id_bytes`].
#[verifier::external_body]
fn encode_block_id(height: u32) -> (bytes: Vec<u8>)
    ensures
        bytes@ == block_id_bytes(height),
{
    service::BlockId { height: height.into(), hash: vec![] }.encode_to_vec()
}

/// Calls `prost::Message::encode_to_vec` on a `service::BlockRange` of
/// `zcash_client_backend::proto`. The claim is that it writes the bytes of
/// [`block_range_bytes`].
#[verifier::external_body]
fn encode_block_range(start: u32, end: u32) -> (bytes: Vec<u8>)
    ensures
        bytes@ == block_range_bytes(start, end),
{
    service::BlockRange {
        start: Some(service::BlockId { height: start.into(), hash: vec![] }),
        end: Some(service::BlockId { height: end.into(), hash: vec![] }),
        pool_types: vec![],
    }.encode_to_vec()
}

/// Calls `prost::Message::encode_to_vec` on a `service::TxFilter` of
/// `zcash_client_backend::proto`. The claim is that it writes the bytes of [`tx_filter_bytes`].
#[verifier::external_body]
fn encode_tx_filter(txid: &[u8; 32]) -> (bytes: Vec<u8>)
    ensures
        bytes@ == tx_filter_bytes(txid@),
{
    service::TxFilter { hash: txid.to_vec(), ..Default::default() }.encode_to_vec()
}

/// Calls `prost::Message::encode_to_vec` on a `service::ChainSpec` of
/// `zcash_client_backend::proto`. The claim is that a message without fields takes no bytes.
#[verifier::external_body]
fn encode_chain_spec() -> (bytes: Vec<u8>)
    ensures
        bytes@ == Seq::<u8>::empty(),
{
    service::ChainSpec {}.encode_to_vec()
}

/// Whether a request is of a kind, carries a payload, and may get a number of responses. There is
/// none where the payload has more than `max_size` bytes.
pub open spec fn asks(
    request: Result<Request, Error>,
    kind: Message,
    payload: Seq<u8>,
    limit: int,
    max_size: usize,
) -> bool {
    if payload.len() > max_size {
        request matches Err(error) && error is RequestTooLarge
    } else {
        request matches Ok(request) && request.kind == kind && request.payload@ == payload
            && request.limit == limit
    }
}

/// Asks for the latest block.
pub fn latest_block_request(max_size: usize) -> (request: Result<Request, Error>)
    ensures
        asks(request, Message::GetLatestBlockRequest, seq![], 1, max_size),
{
    CompactClient::request(Message::GetLatestBlockRequest, encode_chain_spec(), 1, max_size)
}

/// Asks for the tree state at the end of a block.
pub fn tree_state_request(height: u32, max_size: usize) -> (request: Result<Request, Error>)
    ensures
        asks(request, Message::GetTreeStateRequest, block_id_bytes(height), 1, max_size),
{
    CompactClient::request(Message::GetTreeStateRequest, encode_block_id(height), 1, max_size)
}

/// Asks for a range of at most a thousand blocks.
pub fn block_range_request(start: u32, end: u32, max_size: usize) -> (request: Result<
    Request,
    Error,
>)
    requires
        start <= end,
        end - start < u32::MAX,
    ensures
        if end - start < 1000 {
            asks(
                request,
                Message::GetBlockRangeRequest,
                block_range_bytes(start, end),
                end - start + 1,
                max_size,
            )
        } else {
            request matches Err(error) && error is ResponseLimit
        },
{
    CompactClient::request(
        Message::GetBlockRangeRequest,
        encode_block_range(start, end),
        (end - start + 1) as usize,
        max_size,
    )
}

/// Asks for a transaction.
pub fn transaction_request(txid: &[u8; 32], max_size: usize) -> (request: Result<Request, Error>)
    ensures
        asks(request, Message::GetTransactionRequest, tx_filter_bytes(txid@), 1, max_size),
{
    CompactClient::request(Message::GetTransactionRequest, encode_tx_filter(txid), 1, max_size)
}

/// A transaction as a provider sends it.
pub struct RawTransaction {
    pub data: Vec<u8>,
    pub height: u64,
}

/// A provider's transaction, with its bytes as a byte string.
pub struct RawView {
    pub data: Seq<u8>,
    pub height: u64,
}

impl View for RawTransaction {
    type V = RawView;

    open spec fn view(&self) -> RawView {
        RawView { data: self.data@, height: self.height }
    }
}

/// The height of the block that an encoded block identifier gives, or why bytes are none.
pub uninterp spec fn spelled_block_id(bytes: Seq<u8>) -> Result<u64, Seq<char>>;

/// The tree state that bytes encode, or why they encode none.
pub uninterp spec fn spelled_tree_state(bytes: Seq<u8>) -> Result<TreeStateView, Seq<char>>;

/// The transaction that bytes encode, or why they encode none.
pub uninterp spec fn spelled_raw_transaction(bytes: Seq<u8>) -> Result<RawView, Seq<char>>;

/// The compact block that bytes encode, or why they encode none.
pub uninterp spec fn spelled_block(bytes: Seq<u8>) -> Result<CompactView, Seq<char>>;

/// Calls `prost::Message::decode` for a `service::BlockId` of `zcash_client_backend::proto`. The
/// claim is that the outcome depends on the bytes alone.
#[verifier::external_body]
fn decode_block_id(bytes: &[u8]) -> (height: Result<u64, String>)
    ensures
        match height {
            Ok(height) => spelled_block_id(bytes@) == Ok::<u64, Seq<char>>(height),
            Err(detail) => spelled_block_id(bytes@) == Err::<u64, Seq<char>>(detail@),
        },
{
    let id = service::BlockId::decode(bytes).map_err(|error| error.to_string())?;
    Ok(id.height)
}

/// Calls `prost::Message::decode` for a `service::TreeState` of `zcash_client_backend::proto`.
/// The claim is that the outcome depends on the bytes alone.
#[verifier::external_body]
fn decode_tree_state(bytes: &[u8]) -> (tree: Result<TreeState, String>)
    ensures
        match tree {
            Ok(tree) => spelled_tree_state(bytes@) == Ok::<TreeStateView, Seq<char>>(tree@),
            Err(detail) => spelled_tree_state(bytes@) == Err::<TreeStateView, Seq<char>>(detail@),
        },
{
    let tree = service::TreeState::decode(bytes).map_err(|error| error.to_string())?;
    Ok(TreeState {
        height: tree.height,
        hash: tree.hash,
        sapling_tree: tree.sapling_tree,
        orchard_tree: tree.orchard_tree,
        ironwood_tree: tree.ironwood_tree,
    })
}

/// Calls `prost::Message::decode` for a `service::RawTransaction` of
/// `zcash_client_backend::proto`. The claim is that the outcome depends on the bytes alone.
#[verifier::external_body]
fn decode_raw_transaction(bytes: &[u8]) -> (raw: Result<RawTransaction, String>)
    ensures
        match raw {
            Ok(raw) => spelled_raw_transaction(bytes@) == Ok::<RawView, Seq<char>>(raw@),
            Err(detail) => spelled_raw_transaction(bytes@) == Err::<RawView, Seq<char>>(detail@),
        },
{
    let raw = service::RawTransaction::decode(bytes).map_err(|error| error.to_string())?;
    Ok(RawTransaction { data: raw.data, height: raw.height })
}

/// Calls `prost::Message::decode` for a `compact_formats::CompactBlock` of
/// `zcash_client_backend::proto`. The claim is that the outcome depends on the bytes alone.
#[verifier::external_body]
fn decode_block(bytes: &[u8]) -> (block: Result<CompactBlock, String>)
    ensures
        match block {
            Ok(block) => spelled_block(bytes@) == Ok::<CompactView, Seq<char>>(block@),
            Err(detail) => spelled_block(bytes@) == Err::<CompactView, Seq<char>>(detail@),
        },
{
    let block = compact_formats::CompactBlock::decode(bytes).map_err(|error| error.to_string())?;
    let vtx = block.vtx.into_iter().map(|tx| CompactTx {
        txid: tx.txid,
        outputs: tx.outputs.into_iter().map(|output| output.cmu).collect(),
        actions: tx.actions.into_iter().map(|action| action.cmx).collect(),
        ironwood_actions: tx.ironwood_actions.into_iter().map(|action| action.cmx).collect(),
    }).collect();
    Ok(CompactBlock { height: block.height, hash: block.hash, prev_hash: block.prev_hash, vtx })
}

/// The height of the latest block, from the responses to a request for it.
pub fn latest_block_response(responses: Vec<Vec<u8>>) -> (height: Result<u64, Error>)
    ensures
        if responses@.len() != 1 {
            height matches Err(error) && error is ResponseCount
        } else {
            match spelled_block_id(responses@[0]@) {
                Ok(latest) => height == Ok::<u64, Error>(latest),
                Err(detail) => height matches Err(Error::ResponseInvalid { detail: told })
                    && told@ == detail,
            }
        },
{
    match CompactClient::unary(responses) {
        Err(error) => Err(error),
        Ok(bytes) => match decode_block_id(bytes.as_slice()) {
            Ok(height) => Ok(height),
            Err(detail) => Err(Error::ResponseInvalid { detail }),
        },
    }
}

/// A tree state, from the responses to a request for it.
pub fn tree_state_response(responses: Vec<Vec<u8>>) -> (tree: Result<TreeState, Error>)
    ensures
        if responses@.len() != 1 {
            tree matches Err(error) && error is ResponseCount
        } else {
            match spelled_tree_state(responses@[0]@) {
                Ok(spelled) => tree matches Ok(tree) && tree@ == spelled,
                Err(detail) => tree matches Err(Error::ResponseInvalid { detail: told })
                    && told@ == detail,
            }
        },
{
    match CompactClient::unary(responses) {
        Err(error) => Err(error),
        Ok(bytes) => match decode_tree_state(bytes.as_slice()) {
            Ok(tree) => Ok(tree),
            Err(detail) => Err(Error::ResponseInvalid { detail }),
        },
    }
}

/// A transaction, from the responses to a request for it.
pub fn transaction_response(responses: Vec<Vec<u8>>) -> (raw: Result<RawTransaction, Error>)
    ensures
        if responses@.len() != 1 {
            raw matches Err(error) && error is ResponseCount
        } else {
            match spelled_raw_transaction(responses@[0]@) {
                Ok(spelled) => raw matches Ok(raw) && raw@ == spelled,
                Err(detail) => raw matches Err(Error::ResponseInvalid { detail: told })
                    && told@ == detail,
            }
        },
{
    match CompactClient::unary(responses) {
        Err(error) => Err(error),
        Ok(bytes) => match decode_raw_transaction(bytes.as_slice()) {
            Ok(raw) => Ok(raw),
            Err(detail) => Err(Error::ResponseInvalid { detail }),
        },
    }
}

/// A range of compact blocks, from the responses to a request for it.
pub fn block_range_response(responses: &Vec<Vec<u8>>) -> (blocks: Result<Vec<CompactBlock>, Error>)
    ensures
        match blocks {
            Ok(blocks) => {
                &&& blocks@.len() == responses@.len()
                &&& forall|i: int|
                    0 <= i < blocks@.len() ==> spelled_block(responses@[i]@) == Ok::<
                        CompactView,
                        Seq<char>,
                    >((#[trigger] blocks@[i])@)
            },
            Err(error) => error matches Error::ResponseInvalid { detail } && exists|i: int|
                #![trigger responses@[i]]
                0 <= i < responses@.len() && {
                    &&& spelled_block(responses@[i]@) == Err::<CompactView, Seq<char>>(detail@)
                    &&& forall|k: int|
                        0 <= k < i ==> spelled_block((#[trigger] responses@[k])@) is Ok
                },
        },
{
    let mut blocks: Vec<CompactBlock> = Vec::new();
    let mut i: usize = 0;
    while i < responses.len()
        invariant
            i <= responses@.len(),
            blocks@.len() == i,
            forall|k: int|
                0 <= k < i ==> spelled_block(responses@[k]@) == Ok::<CompactView, Seq<char>>(
                    (#[trigger] blocks@[k])@,
                ),
        decreases responses@.len() - i,
    {
        match decode_block(responses[i].as_slice()) {
            Ok(block) => blocks.push(block),
            Err(detail) => {
                assert forall|k: int| 0 <= k < i implies spelled_block(
                    (#[trigger] responses@[k])@,
                ) is Ok by {
                    let _ = blocks@[k]@;
                    assert(spelled_block(responses@[k]@) == Ok::<CompactView, Seq<char>>(
                        blocks@[k]@,
                    ));
                }
                return Err(Error::ResponseInvalid { detail });
            },
        }
        i += 1;
    }
    Ok(blocks)
}

/// The number that seven-bit groups spell, least significant first.
pub open spec fn group_value(bytes: Seq<u8>) -> nat
    decreases bytes.len(),
{
    if bytes.len() == 0 {
        0
    } else {
        bytes[0] as nat % 128 + 128 * group_value(bytes.skip(1))
    }
}

/// A number is written in groups that spell it, all but the last with the high bit, and the last is
/// not zero unless the number is.
pub proof fn numbers_are_written_in_groups(number: nat)
    ensures
        group_value(varint(number)) == number,
        varint(number).len() > 0,
        forall|i: int|
            0 <= i < varint(number).len() ==> (#[trigger] varint(number)[i] >= 128 <==> i
                < varint(number).len() - 1),
        varint(number).last() == 0 ==> number == 0,
    decreases number,
{
    reveal_with_fuel(group_value, 2);
    let bytes = varint(number);
    if number < 0x80 {
        assert(bytes.skip(1) =~= seq![]);
    } else {
        let rest = varint(number / 0x80);
        numbers_are_written_in_groups(number / 0x80);
        assert(bytes.skip(1) =~= rest);
        assert forall|i: int| 0 <= i < bytes.len() implies (#[trigger] bytes[i] >= 128 <==> i
            < bytes.len() - 1) by {
            if i > 0 {
                assert(bytes[i] == rest[i - 1]);
            }
        }
        assert(bytes.last() == rest.last());
    }
}

/// A block is asked for by its height: the bytes are the tag of the field and the height, and none
/// for genesis.
pub proof fn blocks_are_asked_for_by_height(height: u32)
    ensures
        height == 0 ==> block_id_bytes(height).len() == 0,
        height > 0 ==> block_id_bytes(height)[0] == 8 && group_value(block_id_bytes(height).skip(1))
            == height,
{
    if height > 0 {
        numbers_are_written_in_groups(height as nat);
        assert(block_id_bytes(height).skip(1) =~= varint(height as nat));
    }
}

/// A request is made exactly where its payload fits, and it is then of the kind, with the payload
/// and the limit that were asked for.
pub proof fn requests_that_fit_are_made(
    request: Result<Request, Error>,
    kind: Message,
    payload: Seq<u8>,
    limit: int,
    max_size: usize,
)
    requires
        asks(request, kind, payload, limit, max_size),
    ensures
        request is Ok <==> payload.len() <= max_size,
        request matches Ok(made) ==> made.kind == kind && made.payload@ == payload && made.limit
            == limit,
        request matches Err(error) ==> error is RequestTooLarge,
{
}

} // verus!
