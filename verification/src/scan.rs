//! Checks a range of compact blocks against authenticated hashes and roots.
use incrementalmerkletree::frontier::Frontier;
use orchard::tree::MerkleHashOrchard;
use vstd::prelude::*;

use crate::bytes::{is_hash, same_hash, views};
use crate::chain::{
    accepts_orchard_commitment, accepts_sapling_commitment, append_orchard, append_sapling,
    is_orchard_node, is_sapling_node, orchard_appended, orchard_root, orchard_state,
    root_of_orchard, root_of_sapling, sapling_appended, sapling_root, sapling_state, ChainState,
    ChainView, TreesView,
};
use crate::error::Error;
use crate::network::history::{BlockRoots, RootsView};

verus! {

/// A compact transaction: its identifier and the commitments of its notes.
pub struct CompactTx {
    pub txid: Vec<u8>,
    pub outputs: Vec<Vec<u8>>,
    pub actions: Vec<Vec<u8>>,
    pub ironwood_actions: Vec<Vec<u8>>,
}

/// A compact transaction, with its fields as byte strings.
#[verifier::ext_equal]
pub struct TxView {
    pub txid: Seq<u8>,
    pub outputs: Seq<Seq<u8>>,
    pub actions: Seq<Seq<u8>>,
    pub ironwood_actions: Seq<Seq<u8>>,
}

impl View for CompactTx {
    type V = TxView;

    open spec fn view(&self) -> TxView {
        TxView {
            txid: self.txid@,
            outputs: views(self.outputs),
            actions: views(self.actions),
            ironwood_actions: views(self.ironwood_actions),
        }
    }
}

/// A compact block.
pub struct CompactBlock {
    pub height: u64,
    pub hash: Vec<u8>,
    pub prev_hash: Vec<u8>,
    pub vtx: Vec<CompactTx>,
}

/// A compact block, with its fields as byte strings.
#[verifier::ext_equal]
pub struct CompactView {
    pub height: u64,
    pub hash: Seq<u8>,
    pub prev_hash: Seq<u8>,
    pub vtx: Seq<TxView>,
}

impl View for CompactBlock {
    type V = CompactView;

    open spec fn view(&self) -> CompactView {
        CompactView {
            height: self.height,
            hash: self.hash@,
            prev_hash: self.prev_hash@,
            vtx: self.vtx@.map_values(|tx: CompactTx| tx@),
        }
    }
}

/// What the Sapling tree holds after commitments were appended, or why one cannot be.
pub open spec fn sapling_grown(state: Seq<u8>, commitments: Seq<Seq<u8>>) -> Result<Seq<u8>, Error>
    decreases commitments.len(),
{
    if commitments.len() == 0 {
        Ok(state)
    } else {
        match sapling_grown(state, commitments.drop_last()) {
            Err(error) => Err(error),
            Ok(state) => if !is_sapling_node(commitments.last()) {
                Err(Error::CommitmentInvalid)
            } else {
                match sapling_appended(state, commitments.last()) {
                    Some(state) => Ok(state),
                    None => Err(Error::SaplingFull),
                }
            },
        }
    }
}

/// What an Orchard-shaped tree holds after commitments were appended, or why one cannot be.
pub open spec fn orchard_grown(state: Seq<u8>, commitments: Seq<Seq<u8>>, full: Error) -> Result<
    Seq<u8>,
    Error,
>
    decreases commitments.len(),
{
    if commitments.len() == 0 {
        Ok(state)
    } else {
        match orchard_grown(state, commitments.drop_last(), full) {
            Err(error) => Err(error),
            Ok(state) => if commitments.last().len() != 32 {
                Err(Error::CommitmentLength)
            } else if !is_orchard_node(commitments.last()) {
                Err(Error::CommitmentInvalid)
            } else {
                match orchard_appended(state, commitments.last()) {
                    Some(state) => Ok(state),
                    None => Err(full),
                }
            },
        }
    }
}

/// What the trees hold after the commitments of a transaction were appended, or why one cannot
/// be.
pub open spec fn tx_grown(trees: TreesView, tx: TxView) -> Result<TreesView, Error> {
    if tx.txid.len() != 32 {
        Err(Error::TransactionIdentity)
    } else {
        match sapling_grown(trees.sapling, tx.outputs) {
            Err(error) => Err(error),
            Ok(sapling) => match orchard_grown(trees.orchard, tx.actions, Error::OrchardFull) {
                Err(error) => Err(error),
                Ok(orchard) => match orchard_grown(
                    trees.ironwood,
                    tx.ironwood_actions,
                    Error::IronwoodFull,
                ) {
                    Err(error) => Err(error),
                    Ok(ironwood) => Ok(TreesView { sapling, orchard, ironwood }),
                },
            },
        }
    }
}

/// What the trees hold after the commitments of transactions were appended, or why one cannot
/// be.
pub open spec fn block_grown(trees: TreesView, vtx: Seq<TxView>) -> Result<TreesView, Error>
    decreases vtx.len(),
{
    if vtx.len() == 0 {
        Ok(trees)
    } else {
        match block_grown(trees, vtx.drop_last()) {
            Err(error) => Err(error),
            Ok(trees) => tx_grown(trees, vtx.last()),
        }
    }
}

proof fn sapling_fault_stays(state: Seq<u8>, commitments: Seq<Seq<u8>>, count: int)
    requires
        0 <= count <= commitments.len(),
        sapling_grown(state, commitments.take(count)) is Err,
    ensures
        sapling_grown(state, commitments) == sapling_grown(state, commitments.take(count)),
    decreases commitments.len(),
{
    if count == commitments.len() {
        assert(commitments.take(count) =~= commitments);
    } else {
        assert(commitments.drop_last().take(count) =~= commitments.take(count));
        sapling_fault_stays(state, commitments.drop_last(), count);
    }
}

proof fn orchard_fault_stays(state: Seq<u8>, commitments: Seq<Seq<u8>>, full: Error, count: int)
    requires
        0 <= count <= commitments.len(),
        orchard_grown(state, commitments.take(count), full) is Err,
    ensures
        orchard_grown(state, commitments, full) == orchard_grown(
            state,
            commitments.take(count),
            full,
        ),
    decreases commitments.len(),
{
    if count == commitments.len() {
        assert(commitments.take(count) =~= commitments);
    } else {
        assert(commitments.drop_last().take(count) =~= commitments.take(count));
        orchard_fault_stays(state, commitments.drop_last(), full, count);
    }
}

proof fn block_fault_stays(trees: TreesView, vtx: Seq<TxView>, count: int)
    requires
        0 <= count <= vtx.len(),
        block_grown(trees, vtx.take(count)) is Err,
    ensures
        block_grown(trees, vtx) == block_grown(trees, vtx.take(count)),
    decreases vtx.len(),
{
    if count == vtx.len() {
        assert(vtx.take(count) =~= vtx);
    } else {
        assert(vtx.drop_last().take(count) =~= vtx.take(count));
        block_fault_stays(trees, vtx.drop_last(), count);
    }
}

fn grow_sapling(
    frontier: &mut Frontier<sapling_crypto::Node, 32>,
    commitments: &Vec<Vec<u8>>,
) -> (grown: Result<(), Error>)
    ensures
        match sapling_grown(sapling_state(*old(frontier)), views(*commitments)) {
            Ok(state) => grown is Ok && sapling_state(*final(frontier)) == state,
            Err(error) => grown == Err::<(), Error>(error),
        },
{
    let ghost start = sapling_state(*frontier);
    let ghost all = views(*commitments);
    let mut i: usize = 0;
    assert(all.take(0) =~= seq![]);
    while i < commitments.len()
        invariant
            i <= commitments@.len(),
            all == views(*commitments),
            start == sapling_state(*old(frontier)),
            sapling_grown(start, all.take(i as int)) == Ok::<Seq<u8>, Error>(
                sapling_state(*frontier),
            ),
        decreases commitments@.len() - i,
    {
        let commitment = commitments[i].as_slice();
        proof {
            assert(all.take(i + 1).drop_last() =~= all.take(i as int));
            assert(all.take(i + 1).last() == commitment@);
            if sapling_grown(start, all.take(i + 1)) is Err {
                sapling_fault_stays(start, all, i + 1);
            }
        }
        if !accepts_sapling_commitment(commitment) {
            return Err(Error::CommitmentInvalid);
        }
        if !append_sapling(frontier, commitment) {
            return Err(Error::SaplingFull);
        }
        i += 1;
    }
    assert(all.take(i as int) =~= all);
    Ok(())
}

fn grow_orchard(
    frontier: &mut Frontier<MerkleHashOrchard, 32>,
    commitments: &Vec<Vec<u8>>,
    full: Error,
) -> (grown: Result<(), Error>)
    ensures
        match orchard_grown(orchard_state(*old(frontier)), views(*commitments), full) {
            Ok(state) => grown is Ok && orchard_state(*final(frontier)) == state,
            Err(error) => grown == Err::<(), Error>(error),
        },
{
    let ghost start = orchard_state(*frontier);
    let ghost all = views(*commitments);
    let mut i: usize = 0;
    assert(all.take(0) =~= seq![]);
    while i < commitments.len()
        invariant
            i <= commitments@.len(),
            all == views(*commitments),
            start == orchard_state(*old(frontier)),
            orchard_grown(start, all.take(i as int), full) == Ok::<Seq<u8>, Error>(
                orchard_state(*frontier),
            ),
        decreases commitments@.len() - i,
    {
        let commitment = commitments[i].as_slice();
        proof {
            assert(all.take(i + 1).drop_last() =~= all.take(i as int));
            assert(all.take(i + 1).last() == commitment@);
            if orchard_grown(start, all.take(i + 1), full) is Err {
                orchard_fault_stays(start, all, full, i + 1);
            }
        }
        if commitment.len() != 32 {
            return Err(Error::CommitmentLength);
        }
        if !accepts_orchard_commitment(commitment) {
            return Err(Error::CommitmentInvalid);
        }
        if !append_orchard(frontier, commitment) {
            return Err(full);
        }
        i += 1;
    }
    assert(all.take(i as int) =~= all);
    Ok(())
}

struct Trees {
    sapling: Frontier<sapling_crypto::Node, 32>,
    orchard: Frontier<MerkleHashOrchard, 32>,
    ironwood: Frontier<MerkleHashOrchard, 32>,
}

impl Trees {
    spec fn view(self) -> TreesView {
        TreesView {
            sapling: sapling_state(self.sapling),
            orchard: orchard_state(self.orchard),
            ironwood: orchard_state(self.ironwood),
        }
    }

    fn grow_tx(&mut self, tx: &CompactTx) -> (grown: Result<(), Error>)
        ensures
            match tx_grown(old(self)@, tx@) {
                Ok(trees) => grown is Ok && final(self)@ == trees,
                Err(error) => grown == Err::<(), Error>(error),
            },
    {
        if tx.txid.len() != 32 {
            return Err(Error::TransactionIdentity);
        }
        match grow_sapling(&mut self.sapling, &tx.outputs) {
            Ok(()) => {},
            Err(error) => return Err(error),
        }
        match grow_orchard(&mut self.orchard, &tx.actions, Error::OrchardFull) {
            Ok(()) => {},
            Err(error) => return Err(error),
        }
        grow_orchard(&mut self.ironwood, &tx.ironwood_actions, Error::IronwoodFull)
    }

    fn grow_block(&mut self, vtx: &Vec<CompactTx>) -> (grown: Result<(), Error>)
        ensures
            match block_grown(old(self)@, vtx@.map_values(|tx: CompactTx| tx@)) {
                Ok(trees) => grown is Ok && final(self)@ == trees,
                Err(error) => grown == Err::<(), Error>(error),
            },
    {
        let ghost start = self@;
        let ghost all = vtx@.map_values(|tx: CompactTx| tx@);
        let mut i: usize = 0;
        assert(all.take(0) =~= seq![]);
        while i < vtx.len()
            invariant
                i <= vtx@.len(),
                all == vtx@.map_values(|tx: CompactTx| tx@),
                start == old(self)@,
                block_grown(start, all.take(i as int)) == Ok::<TreesView, Error>(self@),
            decreases vtx@.len() - i,
        {
            proof {
                assert(all.take(i + 1).drop_last() =~= all.take(i as int));
                assert(all.take(i + 1).last() == vtx@[i as int]@);
                if block_grown(start, all.take(i + 1)) is Err {
                    block_fault_stays(start, all, i + 1);
                }
            }
            match self.grow_tx(&vtx[i]) {
                Ok(()) => {},
                Err(error) => return Err(error),
            }
            i += 1;
        }
        assert(all.take(i as int) =~= all);
        Ok(())
    }
}

/// An authenticated block: its hash and its roots.
pub struct AnswerView {
    pub hash: Seq<u8>,
    pub roots: RootsView,
}

/// How far the check of a range has come: the range starts after the block `from`, and the
/// first blocks of it were checked against the answers.
pub struct ScanView {
    pub start: u32,
    pub from: ChainView,
    pub blocks: Seq<CompactView>,
    pub answers: Seq<AnswerView>,
}

/// Why the trees do not have the roots of a block, if they do not.
pub open spec fn commitment_fault(trees: TreesView, roots: RootsView) -> Option<Error> {
    if sapling_root(trees.sapling) != roots.sapling_root {
        Some(Error::SaplingCommitments)
    } else if orchard_root(trees.orchard) != roots.orchard_root {
        Some(Error::OrchardCommitments)
    } else if orchard_root(trees.ironwood) != roots.ironwood_root {
        Some(Error::IronwoodCommitments)
    } else {
        None
    }
}

impl ScanView {
    /// The trees after the first blocks of the range.
    pub open spec fn trees(self, count: nat) -> TreesView
        decreases count,
    {
        if count == 0 {
            self.from.trees
        } else {
            match block_grown(self.trees((count - 1) as nat), self.blocks[count - 1].vtx) {
                Ok(trees) => trees,
                Err(_) => self.trees((count - 1) as nat),
            }
        }
    }

    /// The hash of the block before one of the range.
    pub open spec fn previous(self, i: int) -> Seq<u8> {
        if i == 0 {
            self.from.hash
        } else {
            self.answers[i - 1].hash
        }
    }

    /// Whether a block of the range says that it is at its height, and has whole hashes.
    pub open spec fn identifies(self, i: int) -> bool {
        &&& self.blocks[i].height == self.start + i
        &&& self.blocks[i].hash.len() == 32
        &&& self.blocks[i].prev_hash.len() == 32
    }

    /// Why a block of the range does not fit an answer, if it does not.
    pub open spec fn fault(self, i: int, answer: AnswerView) -> Option<Error> {
        if self.blocks[i].hash != answer.hash || self.blocks[i].prev_hash != self.previous(i) {
            Some(Error::BlockNotSelected)
        } else {
            match block_grown(self.trees(i as nat), self.blocks[i].vtx) {
                Err(error) => Some(error),
                Ok(trees) => commitment_fault(trees, answer.roots),
            }
        }
    }

    /// The check with one more block answered.
    pub open spec fn with(self, answer: AnswerView) -> ScanView {
        ScanView { answers: self.answers.push(answer), ..self }
    }

    /// Whether an answered block was checked.
    pub open spec fn checks(self, i: int) -> bool {
        self.identifies(i) && self.fault(i, self.answers[i]) is None
    }

    /// Whether every answered block was checked.
    pub open spec fn is_sound(self) -> bool {
        &&& self.answers.len() <= self.blocks.len()
        &&& self.start + self.blocks.len() <= u32::MAX + 1
        &&& forall|i: int| 0 <= i < self.answers.len() ==> #[trigger] self.checks(i)
    }
}

/// The trees after blocks of a range do not depend on the answers.
pub proof fn trees_ignore_answers(scan: ScanView, answer: AnswerView, count: nat)
    ensures
        scan.with(answer).trees(count) == scan.trees(count),
    decreases count,
{
    if count > 0 {
        trees_ignore_answers(scan, answer, (count - 1) as nat);
    }
}

/// A checked range stays so when its next block fits an answer.
pub proof fn check_grows(scan: ScanView, answer: AnswerView)
    requires
        scan.is_sound(),
        scan.answers.len() < scan.blocks.len(),
        scan.identifies(scan.answers.len() as int),
        scan.fault(scan.answers.len() as int, answer) is None,
    ensures
        scan.with(answer).is_sound(),
{
    let next = scan.with(answer);
    assert forall|i: int| 0 <= i < next.answers.len() implies #[trigger] next.checks(i) by {
        trees_ignore_answers(scan, answer, i as nat);
        if i < scan.answers.len() {
            assert(scan.checks(i));
        }
    }
}

/// A range of compact blocks that is checked block by block.
pub struct BlockScan {
    start: u32,
    blocks: Vec<CompactBlock>,
    index: usize,
    trees: Trees,
    previous: [u8; 32],
    from: Ghost<ChainView>,
    answers: Ghost<Seq<AnswerView>>,
}

impl View for BlockScan {
    type V = ScanView;

    closed spec fn view(&self) -> ScanView {
        ScanView {
            start: self.start,
            from: self.from@,
            blocks: self.blocks@.map_values(|block: CompactBlock| block@),
            answers: self.answers@,
        }
    }
}

impl BlockScan {
    /// Whether the check holds what its state says.
    pub closed spec fn wf(self) -> bool {
        &&& self@.is_sound()
        &&& self.index == self@.answers.len()
        &&& self.trees@ == self@.trees(self.index as nat)
        &&& self.previous@ == self@.previous(self.index as int)
    }

    /// What the invariant of a check says of its state.
    pub proof fn wf_is_sound(self)
        requires
            self.wf(),
        ensures
            self@.is_sound(),
    {
    }

    /// Begins the check of the blocks from `start` to `end`, which follow the block `from`.
    pub fn new(start: u32, end: u32, from: ChainState, blocks: Vec<CompactBlock>) -> (scan: Result<
        BlockScan,
        Error,
    >)
        requires
            start <= end,
        ensures
            match scan {
                Ok(scan) => {
                    &&& scan.wf()
                    &&& blocks@.len() == end - start + 1
                    &&& scan@ == (ScanView {
                        start,
                        from: from@,
                        blocks: blocks@.map_values(|block: CompactBlock| block@),
                        answers: seq![],
                    })
                },
                Err(error) => error is IncompleteRange && blocks@.len() != end - start + 1,
            },
    {
        let count: u64 = (end - start) as u64 + 1;
        if blocks.len() as u64 != count {
            return Err(Error::IncompleteRange);
        }
        let ghost view = from@;
        Ok(
            BlockScan {
                start,
                blocks,
                index: 0,
                trees: Trees {
                    sapling: from.sapling,
                    orchard: from.orchard,
                    ironwood: from.ironwood,
                },
                previous: from.hash,
                from: Ghost(view),
                answers: Ghost(Seq::empty()),
            },
        )
    }

    /// The height of the next block to be answered, if any is left.
    pub fn next(&self) -> (height: Result<Option<u32>, Error>)
        requires
            self.wf(),
        ensures
            if self@.answers.len() == self@.blocks.len() {
                height == Ok::<Option<u32>, Error>(None)
            } else if self@.identifies(self@.answers.len() as int) {
                height == Ok::<Option<u32>, Error>(
                    Some((self@.start + self@.answers.len()) as u32),
                )
            } else {
                height == Err::<Option<u32>, Error>(Error::BlockIdentity)
            },
    {
        if self.index == self.blocks.len() {
            return Ok(None);
        }
        let block = &self.blocks[self.index];
        assert(self@.blocks[self.index as int] == block@);
        let height: u32 = self.start + self.index as u32;
        if block.height != height as u64 || block.hash.len() != 32 || block.prev_hash.len() != 32 {
            return Err(Error::BlockIdentity);
        }
        Ok(Some(height))
    }

    /// Checks the next block against its authenticated hash and roots.
    pub fn accept(self, hash: [u8; 32], roots: BlockRoots) -> (scan: Result<BlockScan, Error>)
        requires
            self.wf(),
            self@.answers.len() < self@.blocks.len(),
            self@.identifies(self@.answers.len() as int),
        ensures
            ({
                let answer = AnswerView { hash: hash@, roots: roots@ };
                match self@.fault(self@.answers.len() as int, answer) {
                    Some(error) => scan matches Err(found) && found == error,
                    None => scan matches Ok(scan) && scan.wf() && scan@ == self@.with(answer),
                }
            }),
    {
        let ghost before = self@;
        let ghost answer = AnswerView { hash: hash@, roots: roots@ };
        let mut scan = self;
        let ghost n = scan.index as int;
        assert(before.blocks[n] == scan.blocks@[n]@);
        if !is_hash(scan.blocks[scan.index].hash.as_slice(), &hash) || !is_hash(
            scan.blocks[scan.index].prev_hash.as_slice(),
            &scan.previous,
        ) {
            return Err(Error::BlockNotSelected);
        }
        match scan.trees.grow_block(&scan.blocks[scan.index].vtx) {
            Ok(()) => {},
            Err(error) => return Err(error),
        }
        if !same_hash(&root_of_sapling(&scan.trees.sapling), &roots.sapling_root) {
            return Err(Error::SaplingCommitments);
        }
        if !same_hash(&root_of_orchard(&scan.trees.orchard), &roots.orchard_root) {
            return Err(Error::OrchardCommitments);
        }
        if !same_hash(&root_of_orchard(&scan.trees.ironwood), &roots.ironwood_root) {
            return Err(Error::IronwoodCommitments);
        }
        assert(scan.index < scan.blocks.len());
        scan.previous = hash;
        scan.index = scan.index + 1;
        scan.answers = Ghost(scan.answers@.push(answer));
        proof {
            check_grows(before, answer);
            trees_ignore_answers(before, answer, (n + 1) as nat);
        }
        Ok(scan)
    }

    /// The blocks, once all of them were checked.
    pub fn finish(self) -> (blocks: Vec<CompactBlock>)
        requires
            self.wf(),
            self@.answers.len() == self@.blocks.len(),
        ensures
            blocks@.map_values(|block: CompactBlock| block@) == self@.blocks,
    {
        self.blocks
    }
}

/// Checked blocks stand at consecutive heights, each names the one before, the first names the
/// block that the range follows, each has the hash of its answer, and its commitments complete
/// the trees to the roots of its answer.
pub proof fn checked_blocks_match_their_answers(scan: ScanView, i: int)
    requires
        scan.is_sound(),
        0 <= i < scan.answers.len(),
    ensures
        scan.blocks[i].height == scan.start + i,
        scan.blocks[i].hash == scan.answers[i].hash,
        i == 0 ==> scan.blocks[i].prev_hash == scan.from.hash,
        i > 0 ==> scan.blocks[i].prev_hash == scan.blocks[i - 1].hash,
        block_grown(scan.trees(i as nat), scan.blocks[i].vtx) == Ok::<TreesView, Error>(
            scan.trees((i + 1) as nat),
        ),
        commitment_fault(scan.trees((i + 1) as nat), scan.answers[i].roots) is None,
{
    assert(scan.checks(i));
    if i > 0 {
        assert(scan.checks(i - 1));
    }
}

/// One more Sapling commitment is appended to the tree that holds the ones before it, however many
/// these are, if it is a node and the tree has room.
pub proof fn every_sapling_commitment_is_appended(
    state: Seq<u8>,
    commitments: Seq<Seq<u8>>,
    commitment: Seq<u8>,
)
    ensures
        sapling_grown(state, seq![]) == Ok::<Seq<u8>, Error>(state),
        sapling_grown(state, commitments) matches Err(error) ==> sapling_grown(
            state,
            commitments.push(commitment),
        ) == Err::<Seq<u8>, Error>(error),
        sapling_grown(state, commitments) matches Ok(before) ==> sapling_grown(
            state,
            commitments.push(commitment),
        ) == match sapling_appended(before, commitment) {
            _ if !is_sapling_node(commitment) => Err(Error::CommitmentInvalid),
            Some(after) => Ok(after),
            None => Err(Error::SaplingFull),
        },
{
    assert(commitments.push(commitment).drop_last() =~= commitments);
}

/// One more commitment is appended to the Orchard-shaped tree that holds the ones before it,
/// however many these are, if it has its length, is a node and the tree has room.
pub proof fn every_orchard_commitment_is_appended(
    state: Seq<u8>,
    commitments: Seq<Seq<u8>>,
    commitment: Seq<u8>,
    full: Error,
)
    ensures
        orchard_grown(state, seq![], full) == Ok::<Seq<u8>, Error>(state),
        orchard_grown(state, commitments, full) matches Err(error) ==> orchard_grown(
            state,
            commitments.push(commitment),
            full,
        ) == Err::<Seq<u8>, Error>(error),
        orchard_grown(state, commitments, full) matches Ok(before) ==> orchard_grown(
            state,
            commitments.push(commitment),
            full,
        ) == match orchard_appended(before, commitment) {
            _ if commitment.len() != 32 => Err(Error::CommitmentLength),
            _ if !is_orchard_node(commitment) => Err(Error::CommitmentInvalid),
            Some(after) => Ok(after),
            None => Err(full),
        },
{
    assert(commitments.push(commitment).drop_last() =~= commitments);
}

/// Sapling commitments grow a tree to what it holds at last where each is appended, in order, to
/// what it holds after the one before.
pub proof fn sapling_commitments_are_appended_in_order(
    states: Seq<Seq<u8>>,
    commitments: Seq<Seq<u8>>,
)
    requires
        states.len() == commitments.len() + 1,
        forall|i: int|
            0 <= i < commitments.len() ==> is_sapling_node(commitments[i]) && sapling_appended(
                #[trigger] states[i],
                commitments[i],
            ) == Some(states[i + 1]),
    ensures
        sapling_grown(states[0], commitments) == Ok::<Seq<u8>, Error>(states.last()),
    decreases commitments.len(),
{
    if commitments.len() > 0 {
        let last = commitments.len() - 1;
        sapling_commitments_are_appended_in_order(states.drop_last(), commitments.drop_last());
        assert(sapling_appended(states[last], commitments[last]) == Some(states[last + 1]));
    }
}

/// Commitments grow an Orchard-shaped tree to what it holds at last where each is appended, in
/// order, to what it holds after the one before.
pub proof fn orchard_commitments_are_appended_in_order(
    states: Seq<Seq<u8>>,
    commitments: Seq<Seq<u8>>,
    full: Error,
)
    requires
        states.len() == commitments.len() + 1,
        forall|i: int|
            0 <= i < commitments.len() ==> is_orchard_node(commitments[i]) && orchard_appended(
                #[trigger] states[i],
                commitments[i],
            ) == Some(states[i + 1]),
    ensures
        orchard_grown(states[0], commitments, full) == Ok::<Seq<u8>, Error>(states.last()),
    decreases commitments.len(),
{
    if commitments.len() > 0 {
        let last = commitments.len() - 1;
        orchard_commitments_are_appended_in_order(
            states.drop_last(),
            commitments.drop_last(),
            full,
        );
        assert(orchard_appended(states[last], commitments[last]) == Some(states[last + 1]));
    }
}

/// Sapling commitments that follow others grow the tree that those have grown.
pub proof fn sapling_growth_goes_on(state: Seq<u8>, first: Seq<Seq<u8>>, second: Seq<Seq<u8>>)
    ensures
        sapling_grown(state, first + second) == match sapling_grown(state, first) {
            Ok(between) => sapling_grown(between, second),
            Err(error) => Err(error),
        },
    decreases second.len(),
{
    if second.len() == 0 {
        assert(first + second =~= first);
    } else {
        sapling_growth_goes_on(state, first, second.drop_last());
        assert((first + second).drop_last() =~= first + second.drop_last());
    }
}

/// Commitments that follow others grow the Orchard-shaped tree that those have grown.
pub proof fn orchard_growth_goes_on(
    state: Seq<u8>,
    first: Seq<Seq<u8>>,
    second: Seq<Seq<u8>>,
    full: Error,
)
    ensures
        orchard_grown(state, first + second, full) == match orchard_grown(state, first, full) {
            Ok(between) => orchard_grown(between, second, full),
            Err(error) => Err(error),
        },
    decreases second.len(),
{
    if second.len() == 0 {
        assert(first + second =~= first);
    } else {
        orchard_growth_goes_on(state, first, second.drop_last(), full);
        assert((first + second).drop_last() =~= first + second.drop_last());
    }
}

/// A transaction with a whole identifier grows each of the three trees by its own commitments, and
/// fails only where one of them does, the Sapling tree first and the Ironwood tree last.
pub proof fn a_transaction_grows_each_tree(trees: TreesView, tx: TxView)
    ensures
        tx.txid.len() != 32 ==> tx_grown(trees, tx) == Err::<TreesView, Error>(
            Error::TransactionIdentity,
        ),
        tx.txid.len() == 32 ==> tx_grown(trees, tx) == match (
            sapling_grown(trees.sapling, tx.outputs),
            orchard_grown(trees.orchard, tx.actions, Error::OrchardFull),
            orchard_grown(trees.ironwood, tx.ironwood_actions, Error::IronwoodFull),
        ) {
            (Ok(sapling), Ok(orchard), Ok(ironwood)) => Ok(
                TreesView { sapling, orchard, ironwood },
            ),
            (Err(error), _, _) => Err(error),
            (Ok(_), Err(error), _) => Err(error),
            (Ok(_), Ok(_), Err(error)) => Err(error),
        },
{
}

/// The transactions of a block grow the trees one after the other, however many these are.
pub proof fn every_transaction_grows_the_trees(
    trees: TreesView,
    first: Seq<TxView>,
    second: Seq<TxView>,
    tx: TxView,
)
    ensures
        block_grown(trees, seq![]) == Ok::<TreesView, Error>(trees),
        block_grown(trees, seq![tx]) == tx_grown(trees, tx),
        block_grown(trees, first.push(tx)) == match block_grown(trees, first) {
            Ok(between) => tx_grown(between, tx),
            Err(error) => Err(error),
        },
        block_grown(trees, first + second) == match block_grown(trees, first) {
            Ok(between) => block_grown(between, second),
            Err(error) => Err(error),
        },
    decreases second.len(),
{
    reveal_with_fuel(block_grown, 2);
    assert(seq![tx].drop_last() =~= seq![]);
    assert(first.push(tx).drop_last() =~= first);
    if second.len() == 0 {
        assert(first + second =~= first);
    } else {
        every_transaction_grows_the_trees(trees, first, second.drop_last(), tx);
        assert((first + second).drop_last() =~= first + second.drop_last());
    }
}

/// The outputs of the transactions of a block, in order.
pub open spec fn all_outputs(vtx: Seq<TxView>) -> Seq<Seq<u8>> {
    vtx.map_values(|tx: TxView| tx.outputs).flatten()
}

/// The Orchard actions of the transactions of a block, in order.
pub open spec fn all_actions(vtx: Seq<TxView>) -> Seq<Seq<u8>> {
    vtx.map_values(|tx: TxView| tx.actions).flatten()
}

/// The Ironwood actions of the transactions of a block, in order.
pub open spec fn all_ironwood_actions(vtx: Seq<TxView>) -> Seq<Seq<u8>> {
    vtx.map_values(|tx: TxView| tx.ironwood_actions).flatten()
}

proof fn flatten_push(lists: Seq<Seq<Seq<u8>>>, list: Seq<Seq<u8>>)
    ensures
        lists.push(list).flatten() == lists.flatten() + list,
{
    lists.lemma_flatten_and_flatten_alt_are_equivalent();
    lists.push(list).lemma_flatten_and_flatten_alt_are_equivalent();
    assert(lists.push(list).drop_last() =~= lists);
}

/// A block grows each tree by all commitments of the block for it, in order, and it does so
/// exactly where all its transactions have whole identifiers and each tree can be grown.
pub proof fn a_block_grows_each_tree_by_all_its_commitments(trees: TreesView, vtx: Seq<TxView>)
    ensures
        block_grown(trees, vtx) is Ok <==> {
            &&& forall|i: int| 0 <= i < vtx.len() ==> (#[trigger] vtx[i]).txid.len() == 32
            &&& sapling_grown(trees.sapling, all_outputs(vtx)) is Ok
            &&& orchard_grown(trees.orchard, all_actions(vtx), Error::OrchardFull) is Ok
            &&& orchard_grown(
                trees.ironwood,
                all_ironwood_actions(vtx),
                Error::IronwoodFull,
            ) is Ok
        },
        block_grown(trees, vtx) matches Ok(grown) ==> {
            &&& sapling_grown(trees.sapling, all_outputs(vtx)) == Ok::<Seq<u8>, Error>(
                grown.sapling,
            )
            &&& orchard_grown(trees.orchard, all_actions(vtx), Error::OrchardFull) == Ok::<
                Seq<u8>,
                Error,
            >(grown.orchard)
            &&& orchard_grown(trees.ironwood, all_ironwood_actions(vtx), Error::IronwoodFull)
                == Ok::<Seq<u8>, Error>(grown.ironwood)
        },
    decreases vtx.len(),
{
    if vtx.len() == 0 {
        assert(all_outputs(vtx) =~= seq![]);
        assert(all_actions(vtx) =~= seq![]);
        assert(all_ironwood_actions(vtx) =~= seq![]);
    } else {
        let before = vtx.drop_last();
        let tx = vtx.last();
        a_block_grows_each_tree_by_all_its_commitments(trees, before);
        assert(vtx.map_values(|tx: TxView| tx.outputs) =~= before.map_values(
            |tx: TxView| tx.outputs,
        ).push(tx.outputs));
        assert(vtx.map_values(|tx: TxView| tx.actions) =~= before.map_values(
            |tx: TxView| tx.actions,
        ).push(tx.actions));
        assert(vtx.map_values(|tx: TxView| tx.ironwood_actions) =~= before.map_values(
            |tx: TxView| tx.ironwood_actions,
        ).push(tx.ironwood_actions));
        flatten_push(before.map_values(|tx: TxView| tx.outputs), tx.outputs);
        flatten_push(before.map_values(|tx: TxView| tx.actions), tx.actions);
        flatten_push(before.map_values(|tx: TxView| tx.ironwood_actions), tx.ironwood_actions);
        sapling_growth_goes_on(trees.sapling, all_outputs(before), tx.outputs);
        orchard_growth_goes_on(
            trees.orchard,
            all_actions(before),
            tx.actions,
            Error::OrchardFull,
        );
        orchard_growth_goes_on(
            trees.ironwood,
            all_ironwood_actions(before),
            tx.ironwood_actions,
            Error::IronwoodFull,
        );
        assert forall|i: int| 0 <= i < before.len() implies #[trigger] before[i] == vtx[i] by {}
        if block_grown(trees, vtx) is Ok {
            assert forall|i: int| 0 <= i < vtx.len() implies (
            #[trigger] vtx[i]).txid.len() == 32 by {
                if i < before.len() {
                    assert(before[i].txid.len() == 32);
                }
            }
        } else if forall|i: int| 0 <= i < vtx.len() ==> (#[trigger] vtx[i]).txid.len() == 32 {
            assert(vtx[vtx.len() - 1].txid.len() == 32);
            assert forall|i: int| 0 <= i < before.len() implies (
            #[trigger] before[i]).txid.len() == 32 by {
                assert(vtx[i].txid.len() == 32);
            }
        }
    }
}

/// The trees of a range start as those of the block that it follows, and each of its blocks that
/// can grow them does.
pub proof fn the_trees_of_a_range_grow(scan: ScanView, i: nat)
    ensures
        scan.trees(0) == scan.from.trees,
        block_grown(scan.trees(i), scan.blocks[i as int].vtx) matches Ok(grown) ==> scan.trees(
            i + 1,
        ) == grown,
{
}

/// A block of a range fits an answer where it has the hash of the answer, names the block before
/// it, and its commitments complete the three trees to the roots of the answer. Otherwise it is
/// refused for the first of these that does not hold.
pub proof fn fitting_blocks_are_accepted(scan: ScanView, i: int, answer: AnswerView)
    requires
        0 <= i,
    ensures
        ({
            let block = scan.blocks[i];
            let before = if i == 0 {
                scan.from.hash
            } else {
                scan.answers[i - 1].hash
            };
            let fault = scan.fault(i, answer);
            match block_grown(scan.trees(i as nat), block.vtx) {
                _ if block.hash != answer.hash => fault == Some(Error::BlockNotSelected),
                _ if block.prev_hash != before => fault == Some(Error::BlockNotSelected),
                Err(error) => fault == Some(error),
                Ok(trees) => fault == match (
                    sapling_root(trees.sapling) == answer.roots.sapling_root,
                    orchard_root(trees.orchard) == answer.roots.orchard_root,
                    orchard_root(trees.ironwood) == answer.roots.ironwood_root,
                ) {
                    (true, true, true) => None,
                    (false, _, _) => Some(Error::SaplingCommitments),
                    (true, false, _) => Some(Error::OrchardCommitments),
                    (true, true, false) => Some(Error::IronwoodCommitments),
                },
            }
        }),
{
}

/// A block of a range is identified where it says the height of its place and both its hashes are
/// whole.
pub proof fn blocks_are_identified_by_their_place(scan: ScanView, i: int)
    ensures
        scan.identifies(i) <==> scan.blocks[i].height == scan.start + i
            && scan.blocks[i].hash.len() == 32 && scan.blocks[i].prev_hash.len() == 32,
        forall|answer: AnswerView|
            ({
                let next = #[trigger] scan.with(answer);
                &&& next.answers == scan.answers.push(answer)
                &&& next.blocks == scan.blocks
                &&& next.start == scan.start
                &&& next.from == scan.from
            }),
{
}

/// A compact block is seen with every field, every transaction in its order, and of each of these
/// every commitment in its order.
pub proof fn compact_blocks_are_seen_whole(block: CompactBlock, i: int)
    requires
        0 <= i < block.vtx@.len(),
    ensures
        block@.height == block.height,
        block@.hash == block.hash@,
        block@.prev_hash == block.prev_hash@,
        block@.vtx.len() == block.vtx@.len(),
        block@.vtx[i].txid == block.vtx@[i].txid@,
        block@.vtx[i].outputs.len() == block.vtx@[i].outputs@.len(),
        block@.vtx[i].actions.len() == block.vtx@[i].actions@.len(),
        block@.vtx[i].ironwood_actions.len() == block.vtx@[i].ironwood_actions@.len(),
        forall|k: int|
            0 <= k < block.vtx@[i].outputs@.len() ==> #[trigger] block@.vtx[i].outputs[k]
                == block.vtx@[i].outputs@[k]@,
        forall|k: int|
            0 <= k < block.vtx@[i].actions@.len() ==> #[trigger] block@.vtx[i].actions[k]
                == block.vtx@[i].actions@[k]@,
        forall|k: int|
            0 <= k < block.vtx@[i].ironwood_actions@.len() ==> #[trigger]
                block@.vtx[i].ironwood_actions[k] == block.vtx@[i].ironwood_actions@[k]@,
{
}

} // verus!
