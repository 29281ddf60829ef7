//! Brings the wallet up to the selected chain.
use vstd::prelude::*;
use zakura_chain::parameters::Network;
use zcash_primitives::transaction::Transaction;
use zcash_protocol::consensus::BranchId;

use crate::bytes::same_hash;
use crate::chain::{
    orchard_root, sapling_root, spelled_chain_state, ChainState, ChainView, TreeState,
    TreeStateView, TreesView,
};
use crate::config::{Upgrade, WalletNetwork};
use crate::error::Error;
use crate::network::history::{schedule, BlockData, BlockView, Schedule};
use crate::network::node::{activation_list, network_parameters, regtest_refusal, MAX_HEIGHT};
use crate::network::proto::{latest_block_response, spelled_block_id, RawTransaction, RawView};
use crate::network::verify::{
    a_question_begins_on_the_branch, an_authentic_read_helps, answers_are_authenticated,
    authentic_branches_can_be_cut, authenticated_chain_state, can_be_told_apart, frontier_fault,
    is_authentic, is_authenticated, Outcome, Refusal, RootVerifier, RootsStep, RunView,
    VerifierView,
};
use crate::scan::{
    block_grown, check_grows, checked_blocks_match_their_answers, commitment_fault,
    trees_ignore_answers, AnswerView, BlockScan, CompactBlock, CompactView, ScanView,
};

verus! {

/// What a chain source works on.
pub enum TaskView {
    Tree { tree: TreeStateView },
    Blocks { scan: ScanView },
}

/// What a chain source knows: what its verifier knows, and what it works on.
pub struct SourceView {
    pub verifier: VerifierView,
    pub task: Option<TaskView>,
}

/// How the work of a chain source goes on.
pub enum SourceOutcome {
    Read { height: u32 },
    Chain { chain: ChainView },
    Blocks { blocks: Seq<CompactView> },
    Refused { refusal: Refusal },
    Malformed { detail: Seq<char> },
    Failed { error: Error },
}

/// Whether the answer to a block of a range is that of an authenticated block.
pub open spec fn answer_is_authenticated(schedule: Schedule, scan: ScanView, i: int) -> bool {
    is_authenticated(
        schedule,
        (scan.start + i) as u32,
        scan.answers[i].hash,
        scan.answers[i].roots,
    )
}

/// Whether all answers to blocks of a range are those of authenticated blocks.
pub open spec fn all_are_authenticated(schedule: Schedule, scan: ScanView) -> bool {
    forall|i: int|
        0 <= i < scan.answers.len() ==> #[trigger] answer_is_authenticated(schedule, scan, i)
}

impl SourceView {
    /// The height whose roots the work asks for.
    pub open spec fn height(self) -> int {
        match self.task->Some_0 {
            TaskView::Tree { tree } => tree.height as int,
            TaskView::Blocks { scan } => scan.start + scan.answers.len(),
        }
    }

    /// Whether the state is one that a source can be in.
    pub open spec fn is_sound(self) -> bool {
        &&& self.verifier.is_sound()
        &&& self.task is Some ==> self.verifier.query is Some && self.verifier.query->Some_0.height
            == self.height()
        &&& self.task matches Some(TaskView::Blocks { scan }) ==> {
            &&& scan.is_sound()
            &&& scan.answers.len() < scan.blocks.len()
            &&& scan.identifies(scan.answers.len() as int)
            &&& all_are_authenticated(self.verifier.run.schedule, scan)
        }
    }

    /// Whether the work can go on with the block that it asks for: the verifier can, and where the
    /// roots of a tree state are authenticated then, the tree state can be parsed or refused.
    pub open spec fn takes(self, block: BlockView) -> bool {
        &&& self.verifier.takes(block)
        &&& self.verifier.supplied(block).1 is Done ==> (self.task matches Some(
            TaskView::Tree { tree },
        ) ==> tree.is_sound())
    }

    /// The source after its verifier was asked for the roots at a height.
    pub open spec fn asking(self, task: TaskView, height: u32) -> (SourceView, SourceOutcome) {
        let verifier = self.verifier.begun(height);
        if self.verifier.refuses(height) {
            SourceView { verifier, ..self }.failing(Error::BirthdayBeforeIronwood)
        } else {
            (
                SourceView { verifier, task: Some(task) },
                SourceOutcome::Read { height: verifier.asked() },
            )
        }
    }

    /// The source with its work ended by an error.
    pub open spec fn failing(self, error: Error) -> (SourceView, SourceOutcome) {
        (SourceView { task: None, ..self }, SourceOutcome::Failed { error })
    }

    /// How the check of a range goes on with its next block.
    pub open spec fn scanning(self, scan: ScanView) -> (SourceView, SourceOutcome) {
        let next = scan.answers.len();
        if next == scan.blocks.len() {
            (
                SourceView { task: None, ..self },
                SourceOutcome::Blocks { blocks: scan.blocks },
            )
        } else if !scan.identifies(next as int) {
            self.failing(Error::BlockIdentity)
        } else {
            self.asking(TaskView::Blocks { scan }, (scan.start + next) as u32)
        }
    }

    /// How the work goes on when the verifier has answered.
    pub open spec fn answered(self, task: TaskView, answer: AnswerView) -> (
        SourceView,
        SourceOutcome,
    ) {
        match task {
            TaskView::Tree { tree } => match spelled_chain_state(tree) {
                Err(detail) => (
                    SourceView { task: None, ..self },
                    SourceOutcome::Malformed { detail },
                ),
                Ok(chain) => match frontier_fault(chain, answer.hash, answer.roots) {
                    Some(error) => self.failing(error),
                    None => (SourceView { task: None, ..self }, SourceOutcome::Chain { chain }),
                },
            },
            TaskView::Blocks { scan } => match scan.fault(scan.answers.len() as int, answer) {
                Some(error) => self.failing(error),
                None => self.scanning(scan.with(answer)),
            },
        }
    }

    /// How the work goes on when the block that it asks for is read.
    pub open spec fn supplied(self, block: BlockView) -> (SourceView, SourceOutcome) {
        let (verifier, outcome) = self.verifier.supplied(block);
        let next = SourceView { verifier, ..self };
        match outcome {
            Outcome::Read { height } => (next, SourceOutcome::Read { height }),
            Outcome::Done { hash, roots } => next.answered(
                self.task->Some_0,
                AnswerView { hash, roots },
            ),
            Outcome::Refused { refusal } => (
                SourceView { verifier, task: None },
                SourceOutcome::Refused { refusal },
            ),
        }
    }
}

/// How the work of a chain source goes on.
pub enum SourceStep {
    /// The block at a height is to be read and supplied.
    Read { height: u32 },
    /// The chain state is authenticated.
    Chain { chain: ChainState },
    /// The blocks are authenticated.
    Blocks { blocks: Vec<CompactBlock> },
}

impl SourceOutcome {
    /// Whether a step reports the outcome.
    pub open spec fn is_reported_by(self, step: Result<SourceStep, Error>) -> bool {
        match self {
            SourceOutcome::Read { height } => step matches Ok(SourceStep::Read { height: read })
                && read == height,
            SourceOutcome::Chain { chain } => step matches Ok(SourceStep::Chain { chain: found })
                && found@ == chain,
            SourceOutcome::Blocks { blocks } => step matches Ok(
                SourceStep::Blocks { blocks: found },
            ) && found@.map_values(|block: CompactBlock| block@) == blocks,
            SourceOutcome::Refused { refusal } => step matches Err(error)
                && refusal.is_reported_by(error),
            SourceOutcome::Malformed { detail } => step matches Err(
                Error::TreeStateInvalid { detail: told },
            ) && told@ == detail,
            SourceOutcome::Failed { error } => step matches Err(found) && found == error,
        }
    }
}

/// The answers to a range stay those of authenticated blocks with the answer of the verifier.
proof fn authentication_grows(source: SourceView, block: BlockView)
    requires
        source.is_sound(),
        source.task matches Some(TaskView::Blocks { scan }),
        source.verifier.supplied(block).1 is Done,
    ensures
        ({
            let outcome = source.verifier.supplied(block).1;
            let answer = AnswerView { hash: outcome->hash, roots: outcome->roots };
            all_are_authenticated(
                source.verifier.run.schedule,
                source.task->Some_0->scan.with(answer),
            )
        }),
{
    answers_are_authenticated(source.verifier, block);
    let outcome = source.verifier.supplied(block).1;
    let answer = AnswerView { hash: outcome->hash, roots: outcome->roots };
    let scan = source.task->Some_0->scan;
    let schedule = source.verifier.run.schedule;
    assert forall|i: int|
        0 <= i < scan.with(answer).answers.len() implies #[trigger] answer_is_authenticated(
        schedule,
        scan.with(answer),
        i,
    ) by {
        if i < scan.answers.len() {
            assert(answer_is_authenticated(schedule, scan, i));
        }
    }
}

enum Task {
    Tree { tree: TreeState },
    Blocks { scan: BlockScan },
}

impl Task {
    spec fn view(self) -> TaskView {
        match self {
            Task::Tree { tree } => TaskView::Tree { tree: tree@ },
            Task::Blocks { scan } => TaskView::Blocks { scan: scan@ },
        }
    }

    spec fn wf(self) -> bool {
        self matches Task::Blocks { scan } ==> scan.wf()
    }
}

/// Authenticates what a provider says of the chain against the header node.
pub struct ChainSource {
    verifier: RootVerifier,
    task: Option<Task>,
}

impl View for ChainSource {
    type V = SourceView;

    closed spec fn view(&self) -> SourceView {
        SourceView {
            verifier: self.verifier@,
            task: match self.task {
                None => None,
                Some(task) => Some(task@),
            },
        }
    }
}

/// The last height that the wallet can be brought to: that of the provider's latest block, or of
/// the block before the best header. A block's roots are authenticated by its successor's header.
pub open spec fn target_height(latest: u64, header: u32) -> int {
    let authenticated = if header == 0 {
        0
    } else {
        header - 1
    };
    if latest <= authenticated {
        latest as int
    } else {
        authenticated
    }
}

impl ChainSource {
    /// Whether the source holds what its state says.
    pub closed spec fn wf(self) -> bool {
        &&& self@.is_sound()
        &&& self.verifier.wf()
        &&& self.task matches Some(task) ==> task.wf()
    }

    /// What the invariant of a source says of its state.
    pub proof fn wf_is_sound(self)
        requires
            self.wf(),
        ensures
            self@.is_sound(),
    {
    }

    /// A source for a network. There is none where the network has no Ironwood activation.
    pub fn new(network: Network) -> (source: Result<ChainSource, Error>)
        requires
            schedule(network).is_known(),
        ensures
            match source {
                Ok(source) => {
                    &&& source.wf()
                    &&& schedule(network).heights.contains_key(Upgrade::Nu6_3)
                    &&& source@.task is None
                    &&& source@.verifier.query is None
                    &&& source@.verifier.activation == schedule(network).heights[Upgrade::Nu6_3]
                    &&& source@.verifier.run == (RunView {
                        schedule: schedule(network),
                        start: u32::MAX,
                        trail: seq![],
                    })
                },
                Err(error) => error is IronwoodNotActivated && !schedule(
                    network,
                ).heights.contains_key(Upgrade::Nu6_3),
            },
    {
        match RootVerifier::new(network) {
            Ok(verifier) => {
                proof {
                    verifier.wf_is_sound();
                }
                Ok(ChainSource { verifier, task: None })
            },
            Err(error) => Err(error),
        }
    }

    /// A source for a network of the wallet. There is none where the header node has no parameters
    /// for it.
    pub fn for_network(network: WalletNetwork) -> (source: Result<ChainSource, Error>)
        ensures
            match source {
                Ok(source) => {
                    &&& source.wf()
                    &&& 1 <= network.heights().nu6_3 <= MAX_HEIGHT
                    &&& source@.task is None
                    &&& source@.verifier == (VerifierView {
                        run: RunView {
                            schedule: Schedule {
                                heights: network.heights().map(),
                                points: activation_list(network),
                            },
                            start: u32::MAX,
                            trail: seq![],
                        },
                        activation: network.heights().nu6_3,
                        query: None,
                    })
                },
                Err(error) => {
                    &&& !(1 <= network.heights().nu6_3 <= MAX_HEIGHT)
                    &&& error matches Error::RegtestParameters { detail } && detail@
                        == regtest_refusal(network.heights())
                },
            },
    {
        match network_parameters(network) {
            Ok(parameters) => {
                assert(network.heights().map()[Upgrade::Nu6_3] == network.heights().at(
                    Upgrade::Nu6_3,
                ));
                ChainSource::new(parameters)
            },
            Err(error) => Err(error),
        }
    }

    /// The height to bring the wallet to, from the responses to a request for the latest block
    /// and the height of the best header.
    pub fn target(responses: Vec<Vec<u8>>, header: Option<u32>) -> (target: Result<u32, Error>)
        ensures
            if responses@.len() != 1 {
                target matches Err(error) && error is ResponseCount
            } else {
                match (spelled_block_id(responses@[0]@), header) {
                    (Err(detail), _) => target matches Err(Error::ResponseInvalid { detail: told })
                        && told@ == detail,
                    (Ok(latest), None) => target matches Err(error)
                        && error is HeaderNodeStarting,
                    (Ok(latest), Some(header)) => if latest > u32::MAX {
                        target matches Err(error) && error is IntegerConversion
                    } else {
                        target matches Ok(target) && target == target_height(latest, header)
                    },
                }
            },
    {
        let latest: u64 = match latest_block_response(responses) {
            Ok(latest) => latest,
            Err(error) => return Err(error),
        };
        bounded_target(latest, header)
    }

    fn ask(&mut self, task: Task, height: u32) -> (step: Result<SourceStep, Error>)
        requires
            old(self).wf(),
            old(self).task is None,
            task.wf(),
            task@ matches TaskView::Tree { tree } ==> height == tree.height,
            task@ matches TaskView::Blocks { scan } ==> {
                &&& scan.is_sound()
                &&& scan.answers.len() < scan.blocks.len()
                &&& scan.identifies(scan.answers.len() as int)
                &&& all_are_authenticated(old(self)@.verifier.run.schedule, scan)
                &&& height == scan.start + scan.answers.len()
            },
        ensures
            final(self).wf(),
            final(self)@ == old(self)@.asking(task@, height).0,
            old(self)@.asking(task@, height).1.is_reported_by(step),
    {
        let asked = self.verifier.roots(height);
        proof {
            self.verifier.wf_is_sound();
        }
        match asked {
            Ok(height) => {
                self.task = Some(task);
                Ok(SourceStep::Read { height })
            },
            Err(error) => Err(error),
        }
    }

    /// Authenticates the tree state that a provider sent for a height.
    pub fn tree_state(&mut self, height: u32, tree: TreeState) -> (step: Result<SourceStep, Error>)
        requires
            old(self).wf(),
        ensures
            final(self).wf(),
            if tree.height != height {
                &&& final(self)@.verifier == old(self)@.verifier
                &&& final(self)@.task is None
                &&& step matches Err(error) && error is TreeStateHeight
            } else {
                &&& final(self)@ == old(self)@.asking(TaskView::Tree { tree: tree@ }, height).0
                &&& old(self)@.asking(TaskView::Tree { tree: tree@ }, height).1.is_reported_by(
                    step,
                )
            },
    {
        self.task = None;
        if tree.height != height as u64 {
            return Err(Error::TreeStateHeight);
        }
        let asked = self.verifier.tree_state(&tree);
        proof {
            self.verifier.wf_is_sound();
        }
        match asked {
            Ok(height) => {
                self.task = Some(Task::Tree { tree });
                Ok(SourceStep::Read { height })
            },
            Err(error) => Err(error),
        }
    }

    fn scan_next(&mut self, scan: BlockScan) -> (step: Result<SourceStep, Error>)
        requires
            old(self).wf(),
            old(self).task is None,
            scan.wf(),
            all_are_authenticated(old(self)@.verifier.run.schedule, scan@),
        ensures
            final(self).wf(),
            final(self)@ == old(self)@.scanning(scan@).0,
            old(self)@.scanning(scan@).1.is_reported_by(step),
    {
        proof {
            scan.wf_is_sound();
        }
        match scan.next() {
            Err(error) => Err(error),
            Ok(None) => Ok(SourceStep::Blocks { blocks: scan.finish() }),
            Ok(Some(height)) => self.ask(Task::Blocks { scan }, height),
        }
    }

    /// Authenticates the blocks from `start` to `end` that a provider sent, which follow the
    /// block `from`.
    pub fn blocks(
        &mut self,
        start: u32,
        end: u32,
        from: ChainState,
        blocks: Vec<CompactBlock>,
    ) -> (step: Result<SourceStep, Error>)
        requires
            old(self).wf(),
            start <= end,
        ensures
            final(self).wf(),
            if blocks@.len() != end - start + 1 {
                &&& final(self)@.verifier == old(self)@.verifier
                &&& final(self)@.task is None
                &&& step matches Err(error) && error is IncompleteRange
            } else {
                let scan = ScanView {
                    start,
                    from: from@,
                    blocks: blocks@.map_values(|block: CompactBlock| block@),
                    answers: seq![],
                };
                &&& final(self)@ == old(self)@.scanning(scan).0
                &&& old(self)@.scanning(scan).1.is_reported_by(step)
            },
    {
        self.task = None;
        match BlockScan::new(start, end, from, blocks) {
            Ok(scan) => self.scan_next(scan),
            Err(error) => Err(error),
        }
    }

    /// Whether the work can go on with the block that it asks for.
    pub fn takes(&self, data: &BlockData) -> (takes: bool)
        requires
            self.wf(),
            self@.task is Some,
            data.wf(),
        ensures
            takes == self@.takes(data@),
    {
        self.verifier.takes(data) && match &self.task {
            Some(Task::Tree { tree }) => !self.verifier.answers(data) || tree.sound(),
            _ => true,
        }
    }

    /// Supplies the block that the work asks for, if the work can go on with it. There is no step
    /// where it cannot, and the source stays as it was.
    pub fn offer(&mut self, data: BlockData) -> (step: Option<Result<SourceStep, Error>>)
        requires
            old(self).wf(),
            old(self)@.task is Some,
            data.wf(),
            data@.height() == old(self)@.verifier.asked(),
        ensures
            final(self).wf(),
            if old(self)@.takes(data@) {
                &&& step matches Some(step)
                &&& final(self)@ == old(self)@.supplied(data@).0
                &&& old(self)@.supplied(data@).1.is_reported_by(step)
                &&& step matches Ok(SourceStep::Chain { chain }) ==> chain.height == old(
                    self,
                )@.height()
            } else {
                step is None && final(self)@ == old(self)@
            },
    {
        if !self.takes(&data) {
            return None;
        }
        Some(self.supply(data))
    }

    /// Supplies the block that the work asks for.
    pub fn supply(&mut self, data: BlockData) -> (step: Result<SourceStep, Error>)
        requires
            old(self).wf(),
            old(self)@.task is Some,
            data.wf(),
            data@.height() == old(self)@.verifier.asked(),
            old(self)@.takes(data@),
        ensures
            final(self).wf(),
            final(self)@ == old(self)@.supplied(data@).0,
            old(self)@.supplied(data@).1.is_reported_by(step),
            step matches Ok(SourceStep::Chain { chain }) ==> chain.height == old(self)@.height(),
    {
        let task = match self.task.take() {
            Some(task) => task,
            None => return Err(Error::BranchChanged),
        };
        let supplied = self.verifier.supply(data);
        proof {
            self.verifier.wf_is_sound();
            if task@ is Blocks && supplied matches Ok(RootsStep::Done { .. }) {
                authentication_grows(old(self)@, data@);
            }
        }
        match supplied {
            Err(error) => Err(error),
            Ok(RootsStep::Read { height }) => {
                self.task = Some(task);
                Ok(SourceStep::Read { height })
            },
            Ok(RootsStep::Done { hash, roots }) => match task {
                Task::Tree { tree } => match authenticated_chain_state(&tree, &hash, &roots) {
                    Ok(chain) => Ok(SourceStep::Chain { chain }),
                    Err(error) => Err(error),
                },
                Task::Blocks { scan } => match scan.accept(hash, roots) {
                    Ok(scan) => self.scan_next(scan),
                    Err(error) => Err(error),
                },
            },
        }
    }
}

/// The lesser of the latest height and that of the block before the best header.
pub fn bounded_target(latest: u64, header: Option<u32>) -> (target: Result<u32, Error>)
    ensures
        match header {
            None => target matches Err(error) && error is HeaderNodeStarting,
            Some(header) => if latest > u32::MAX {
                target matches Err(error) && error is IntegerConversion
            } else {
                target matches Ok(target) && target == target_height(latest, header)
            },
        },
{
    let header: u32 = match header {
        Some(header) => header,
        None => return Err(Error::HeaderNodeStarting),
    };
    if latest > 0xffff_ffff {
        return Err(Error::IntegerConversion);
    }
    let latest: u32 = latest as u32;
    let authenticated: u32 = header.saturating_sub(1);
    if latest <= authenticated {
        Ok(latest)
    } else {
        Ok(authenticated)
    }
}

/// The wallet stays one header behind: the block after the target has a header already, unless
/// there is only the genesis header.
pub proof fn the_target_has_a_successor_header(latest: u64, header: u32)
    ensures
        target_height(latest, header) <= latest,
        header > 0 ==> target_height(latest, header) + 1 <= header,
        header == 0 ==> target_height(latest, header) == 0,
{
}

/// A tree state is accepted only where it is of the authenticated block at its height, and its
/// frontiers have the roots that were authenticated for that block.
pub proof fn accepted_tree_states_are_authenticated(source: SourceView, block: BlockView)
    requires
        source.is_sound(),
        source.task matches Some(TaskView::Tree { tree }),
        source.supplied(block).1 is Chain,
    ensures
        ({
            let height = source.height() as u32;
            let chain = source.supplied(block).1->chain;
            let run = source.supplied(block).0.verifier.run;
            &&& run.authenticates(height)
            &&& frontier_fault(chain, run.block(height).hash(), run.block(height).roots()) is None
        }),
{
    answers_are_authenticated(source.verifier, block);
}

/// A block of a range is accepted, so that the range goes on or ends, only where it has the hash
/// of the authenticated block at its height, and its commitments complete the trees to the roots
/// that were authenticated for that block.
pub proof fn accepted_blocks_are_authenticated(source: SourceView, block: BlockView)
    requires
        source.is_sound(),
        source.task matches Some(TaskView::Blocks { scan }),
        source.verifier.supplied(block).1 is Done,
        source.supplied(block).1 is Read || source.supplied(block).1 is Blocks,
    ensures
        ({
            let scan = source.task->Some_0->scan;
            let count = scan.answers.len();
            let height = source.height() as u32;
            let run = source.supplied(block).0.verifier.run;
            &&& run.authenticates(height)
            &&& scan.blocks[count as int].hash == run.block(height).hash()
            &&& block_grown(scan.trees(count), scan.blocks[count as int].vtx) matches Ok(trees)
                && commitment_fault(trees, run.block(height).roots()) is None
        }),
{
    answers_are_authenticated(source.verifier, block);
}

/// Whether a block of a range is the authenticated one at its height on a network: it says that it
/// is at that height and has the hash of a block there that a linked run authenticates, it names
/// the block before it, and its commitments complete the trees to the roots of that block.
pub open spec fn block_is_authenticated(schedule: Schedule, scan: ScanView, i: int) -> bool {
    let height = (scan.start + i) as u32;
    let block = scan.blocks[i];
    let trees = scan.trees((i + 1) as nat);
    &&& block.height == scan.start + i
    &&& block.prev_hash == if i == 0 {
        scan.from.hash
    } else {
        scan.blocks[i - 1].hash
    }
    &&& block_grown(scan.trees(i as nat), block.vtx) == Ok::<TreesView, Error>(trees)
    &&& exists|run: RunView| #[trigger]
        run.authenticates(height) && run.is_linked() && run.schedule == schedule && run.block(
            height,
        ).hash() == block.hash && commitment_fault(trees, run.block(height).roots()) is None
}

/// A range is delivered only as it was sent, and when every block of it is the authenticated one
/// at its height.
pub proof fn delivered_blocks_are_authenticated(source: SourceView, block: BlockView)
    requires
        source.is_sound(),
        source.task matches Some(TaskView::Blocks { scan }),
        source.supplied(block).1 is Blocks,
    ensures
        ({
            let scan = source.task->Some_0->scan;
            &&& source.supplied(block).1->blocks == scan.blocks
            &&& forall|i: int|
                0 <= i < scan.blocks.len() ==> #[trigger] block_is_authenticated(
                    source.verifier.run.schedule,
                    scan,
                    i,
                )
        }),
{
    let scan = source.task->Some_0->scan;
    let schedule = source.verifier.run.schedule;
    let outcome = source.verifier.supplied(block).1;
    let answer = AnswerView { hash: outcome->hash, roots: outcome->roots };
    let done = scan.with(answer);
    authentication_grows(source, block);
    check_grows(scan, answer);
    assert forall|i: int| 0 <= i < scan.blocks.len() implies #[trigger] block_is_authenticated(
        schedule,
        scan,
        i,
    ) by {
        checked_blocks_match_their_answers(done, i);
        trees_ignore_answers(scan, answer, i as nat);
        trees_ignore_answers(scan, answer, (i + 1) as nat);
        assert(answer_is_authenticated(schedule, done, i));
    }
}

/// The check of a range keeps to the range that was sent and to the block that it follows.
pub proof fn the_range_is_kept(source: SourceView, block: BlockView)
    requires
        source.task matches Some(TaskView::Blocks { scan }),
        source.supplied(block).0.task is Some,
    ensures
        source.supplied(block).0.task matches Some(TaskView::Blocks { scan }) && {
            let before = source.task->Some_0->scan;
            &&& scan.start == before.start
            &&& scan.from == before.from
            &&& scan.blocks == before.blocks
        },
{
}

/// How many blocks are scanned at a time.
pub const SCAN_BLOCKS: u32 = 100;

/// What a synchronisation waits for.
pub enum SyncState {
    Initialized,
    Target,
    Scanned { target: u32 },
    Ancestor { target: u32, height: u32, hash: [u8; 32] },
    Truncated { target: u32 },
    Tip { target: u32 },
    Range { target: u32 },
    From { target: u32, start: u32, end: u32 },
    Blocks { target: u32 },
    Enhanced,
    Done,
}

/// What is to be done for a synchronisation.
pub enum SyncAction {
    /// Ask whether the wallet has an account.
    AskInitialized,
    /// Ask the chain source for the height to go to.
    AskTarget,
    /// Ask for the last block up to which the wallet has scanned everything.
    AskScanned,
    /// Authenticate the tree state at a height.
    AskTree { height: u32 },
    /// Take the wallet back to a height.
    Truncate { height: u32 },
    /// Tell the wallet how high the chain is.
    UpdateTip { height: u32 },
    /// Ask for the first range of blocks that the wallet wants scanned.
    AskRange,
    /// Authenticate the blocks from `start` to `end`, which follow the block `from`, and scan them
    /// from there.
    Scan { start: u32, end: u32, from: ChainState },
    /// Complete what the wallet knows of its transactions.
    Enhance,
    /// Nothing more.
    Stop,
}

/// What has happened in a synchronisation.
pub enum SyncEvent {
    Initialized { initialized: bool },
    Target { target: u32 },
    Scanned { block: Option<(u32, [u8; 32])> },
    /// The authenticated tree state at the height that was asked for.
    Tree { chain: ChainState },
    Truncated,
    TipUpdated,
    /// The range excludes its end.
    Range { range: Option<(u32, u32)> },
    BlocksScanned,
    Enhanced,
}

/// The last block to scan of a range that excludes its end.
pub open spec fn scan_end(start: u32, end: u32, target: u32) -> int {
    let last = if end == 0 {
        0
    } else {
        end - 1
    };
    let full = if start + SCAN_BLOCKS - 1 > u32::MAX {
        u32::MAX as int
    } else {
        start + SCAN_BLOCKS - 1
    };
    let bound = if last < full {
        last
    } else {
        full
    };
    if bound < target {
        bound
    } else {
        target as int
    }
}

impl SyncState {
    /// The height that the wallet is brought to, once it is known and until the scan is over.
    pub open spec fn target(self) -> Option<u32> {
        match self {
            SyncState::Scanned { target } => Some(target),
            SyncState::Ancestor { target, .. } => Some(target),
            SyncState::Truncated { target } => Some(target),
            SyncState::Tip { target } => Some(target),
            SyncState::Range { target } => Some(target),
            SyncState::From { target, .. } => Some(target),
            SyncState::Blocks { target } => Some(target),
            _ => None,
        }
    }

    /// Whether an event is one that the state waits for.
    pub open spec fn expects(self, event: SyncEvent) -> bool {
        match self {
            SyncState::Initialized => event is Initialized,
            SyncState::Target => event is Target,
            SyncState::Scanned { .. } => event is Scanned,
            SyncState::Ancestor { .. } => event is Tree,
            SyncState::Truncated { .. } => event is Truncated,
            SyncState::Tip { .. } => event is TipUpdated,
            SyncState::Range { .. } => event is Range,
            SyncState::From { .. } => event is Tree,
            SyncState::Blocks { .. } => event is BlocksScanned,
            SyncState::Enhanced => event is Enhanced,
            SyncState::Done => false,
        }
    }

    /// The next state and action after an event that the state waits for.
    pub open spec fn after(self, event: SyncEvent) -> Result<(SyncState, SyncAction), Error> {
        match (self, event) {
            (SyncState::Initialized, SyncEvent::Initialized { initialized }) => if initialized {
                Ok((SyncState::Target, SyncAction::AskTarget))
            } else {
                Ok((SyncState::Done, SyncAction::Stop))
            },
            (SyncState::Target, SyncEvent::Target { target }) => Ok(
                (SyncState::Scanned { target }, SyncAction::AskScanned),
            ),
            (SyncState::Scanned { target }, SyncEvent::Scanned { block }) => match block {
                None => Ok((SyncState::Tip { target }, SyncAction::UpdateTip { height: target })),
                Some((height, hash)) => if height > target {
                    Err(Error::SourceBehind)
                } else {
                    Ok(
                        (
                            SyncState::Ancestor { target, height, hash },
                            SyncAction::AskTree { height },
                        ),
                    )
                },
            },
            (
                SyncState::Ancestor { target, height, hash },
                SyncEvent::Tree { chain },
            ) => if hash@ == chain.hash@ {
                Ok((SyncState::Tip { target }, SyncAction::UpdateTip { height: target }))
            } else if height == 0 {
                Err(Error::ReorgAtGenesis)
            } else {
                Ok(
                    (
                        SyncState::Truncated { target },
                        SyncAction::Truncate { height: (height - 1) as u32 },
                    ),
                )
            },
            (SyncState::Truncated { target }, _) => Ok(
                (SyncState::Scanned { target }, SyncAction::AskScanned),
            ),
            (SyncState::Tip { target }, _) => Ok(
                (SyncState::Range { target }, SyncAction::AskRange),
            ),
            (SyncState::Range { target }, SyncEvent::Range { range }) => match range {
                None => Ok((SyncState::Enhanced, SyncAction::Enhance)),
                Some((start, end)) => if start > scan_end(start, end, target) {
                    Ok((SyncState::Enhanced, SyncAction::Enhance))
                } else if start == 0 {
                    Err(Error::ScanGenesis)
                } else {
                    Ok(
                        (
                            SyncState::From {
                                target,
                                start,
                                end: scan_end(start, end, target) as u32,
                            },
                            SyncAction::AskTree { height: (start - 1) as u32 },
                        ),
                    )
                },
            },
            (SyncState::From { target, start, end }, SyncEvent::Tree { chain }) => Ok(
                (SyncState::Blocks { target }, SyncAction::Scan { start, end, from: chain }),
            ),
            (SyncState::Blocks { target }, _) => Ok(
                (SyncState::Range { target }, SyncAction::AskRange),
            ),
            (_, _) => Ok((SyncState::Done, SyncAction::Stop)),
        }
    }
}

fn tip_next(target: u32) -> (next: (SyncState, SyncAction))
    ensures
        next == (SyncState::Tip { target }, SyncAction::UpdateTip { height: target }),
{
    (SyncState::Tip { target }, SyncAction::UpdateTip { height: target })
}

/// Begins a synchronisation.
pub fn begin_sync() -> (begun: (SyncState, SyncAction))
    ensures
        begun == (SyncState::Initialized, SyncAction::AskInitialized),
{
    (SyncState::Initialized, SyncAction::AskInitialized)
}

/// Goes on with a synchronisation after an event that it waits for.
///
/// A wallet without an account is left alone. Otherwise the wallet is taken back, block by block,
/// to one that is on the selected chain; the wallet is told how high the chain is; the ranges
/// that it asks for are scanned up to there; and its transactions are completed.
pub fn sync(state: SyncState, event: SyncEvent) -> (next: Result<(SyncState, SyncAction), Error>)
    requires
        state.expects(event),
    ensures
        next == state.after(event),
{
    match (state, event) {
        (SyncState::Initialized, SyncEvent::Initialized { initialized }) => if initialized {
            Ok((SyncState::Target, SyncAction::AskTarget))
        } else {
            Ok((SyncState::Done, SyncAction::Stop))
        },
        (SyncState::Target, SyncEvent::Target { target }) => Ok(
            (SyncState::Scanned { target }, SyncAction::AskScanned),
        ),
        (SyncState::Scanned { target }, SyncEvent::Scanned { block }) => match block {
            None => Ok(tip_next(target)),
            Some((height, hash)) => {
                if height > target {
                    return Err(Error::SourceBehind);
                }
                Ok((SyncState::Ancestor { target, height, hash }, SyncAction::AskTree { height }))
            },
        },
        (SyncState::Ancestor { target, height, hash }, SyncEvent::Tree { chain }) => {
            if same_hash(&hash, &chain.hash) {
                return Ok(tip_next(target));
            }
            if height == 0 {
                return Err(Error::ReorgAtGenesis);
            }
            Ok((SyncState::Truncated { target }, SyncAction::Truncate { height: height - 1 }))
        },
        (SyncState::Truncated { target }, _) => Ok(
            (SyncState::Scanned { target }, SyncAction::AskScanned),
        ),
        (SyncState::Tip { target }, _) => Ok((SyncState::Range { target }, SyncAction::AskRange)),
        (SyncState::Range { target }, SyncEvent::Range { range }) => match range {
            None => Ok((SyncState::Enhanced, SyncAction::Enhance)),
            Some((start, end)) => {
                let mut last: u32 = end.saturating_sub(1);
                let full: u32 = start.saturating_add(SCAN_BLOCKS - 1);
                if full < last {
                    last = full;
                }
                if target < last {
                    last = target;
                }
                if start > last {
                    return Ok((SyncState::Enhanced, SyncAction::Enhance));
                }
                if start == 0 {
                    return Err(Error::ScanGenesis);
                }
                Ok(
                    (
                        SyncState::From { target, start, end: last },
                        SyncAction::AskTree { height: start - 1 },
                    ),
                )
            },
        },
        (SyncState::From { target, start, end }, SyncEvent::Tree { chain }) => Ok(
            (SyncState::Blocks { target }, SyncAction::Scan { start, end, from: chain }),
        ),
        (SyncState::Blocks { target }, _) => Ok(
            (SyncState::Range { target }, SyncAction::AskRange),
        ),
        (_, _) => Ok((SyncState::Done, SyncAction::Stop)),
    }
}

/// A synchronisation keeps to the target that it was begun with.
pub proof fn the_target_is_kept(state: SyncState, event: SyncEvent, next: SyncState)
    requires
        state.expects(event),
        state.after(event) matches Ok((after, _)) && after == next,
        state.target() is Some,
        next.target() is Some,
    ensures
        next.target() == state.target(),
{
}

/// A range to scan lies in the range that the wallet asked for, goes no further than the target,
/// has at most a hundred blocks, and is preceded by the block whose tree state is asked for.
pub proof fn scans_stay_below_the_target(state: SyncState, event: SyncEvent)
    requires
        state.expects(event),
        state.after(event) matches Ok((SyncState::From { .. }, _)),
    ensures
        state.after(event) matches Ok(
            (SyncState::From { target, start, end }, SyncAction::AskTree { height }),
        ) && {
            &&& state == (SyncState::Range { target })
            &&& event matches SyncEvent::Range { range: Some((first, excluded)) } && start == first
                && end < excluded
            &&& height + 1 == start
            &&& start <= end <= target
            &&& end - start < SCAN_BLOCKS
        },
{
}

/// A range is scanned from the chain state that was given for the block before it.
pub proof fn a_scan_starts_from_the_block_before(
    state: SyncState,
    event: SyncEvent,
    chain: ChainState,
)
    requires
        state.expects(event),
        state.after(event) matches Ok((SyncState::From { .. }, _)),
    ensures
        state.after(event) matches Ok(
            (SyncState::From { target, start, end }, SyncAction::AskTree { height }),
        ) && {
            let next = SyncState::From { target, start, end };
            &&& height + 1 == start
            &&& next.expects(SyncEvent::Tree { chain })
            &&& next.after(SyncEvent::Tree { chain }) == Ok::<(SyncState, SyncAction), Error>(
                (SyncState::Blocks { target }, SyncAction::Scan { start, end, from: chain }),
            )
        },
{
}

/// Nothing is scanned but from a chain state that was just given.
pub proof fn scans_start_from_a_given_chain_state(state: SyncState, event: SyncEvent)
    requires
        state.expects(event),
        state.after(event) matches Ok((_, SyncAction::Scan { .. })),
    ensures
        state matches SyncState::From { target, start, end } && event matches SyncEvent::Tree {
            chain,
        } && state.after(event)->Ok_0.1 == (SyncAction::Scan { start, end, from: chain }),
{
}

/// The wallet is told of the chain's height only when its last scanned block is on the selected
/// chain and not above the target, or when it has scanned none.
pub proof fn the_tip_is_updated_on_the_selected_chain(state: SyncState, event: SyncEvent)
    requires
        state.expects(event),
        state.after(event) matches Ok((_, SyncAction::UpdateTip { .. })),
    ensures
        state.after(event) matches Ok((SyncState::Tip { target }, SyncAction::UpdateTip { height }))
            && height == target && {
            ||| state == (SyncState::Scanned { target }) && event == (SyncEvent::Scanned {
                block: None,
            })
            ||| state matches SyncState::Ancestor { target: known, height, hash } && event matches
                SyncEvent::Tree { chain } && known == target && chain.hash@ == hash@
        },
{
}

/// The wallet is taken back only where its last scanned block is not on the selected chain, and
/// then to the block before.
pub proof fn truncation_leaves_only_the_other_branch(state: SyncState, event: SyncEvent)
    requires
        state.expects(event),
        state.after(event) matches Ok((_, SyncAction::Truncate { .. })),
    ensures
        state matches SyncState::Ancestor { target, height, hash } && event matches
            SyncEvent::Tree { chain } && chain.hash@ != hash@ && height > 0
            && state.after(event)->Ok_0.1 == (SyncAction::Truncate { height: (height - 1) as u32 }),
{
}

/// What becomes of a transaction that the wallet wants to know more of.
#[derive(Clone, Copy, Debug, PartialEq, Eq, Structural)]
pub enum Enhancement {
    /// The provider does not know the transaction.
    NotRecognized,
    /// The transaction is stored, as mined at a height or as not in the main chain.
    Stored { height: Option<u32> },
}

/// The status code of a provider that does not know what it was asked for.
pub const NOT_FOUND: i32 = 5;

/// The identifier of the transaction that bytes spell under the rules of an upgrade, or why they
/// spell none.
pub uninterp spec fn spelled_txid(data: Seq<u8>, upgrade: Option<Upgrade>) -> Result<
    Seq<u8>,
    Seq<char>,
>;

/// Calls `zcash_primitives::transaction::Transaction::read` with the branch of an upgrade, or
/// that of Sprout, and `txid` on the transaction. The claim is that the identifier depends on
/// the bytes and the upgrade alone.
#[verifier::external_body]
fn read_txid(data: &[u8], upgrade: Option<Upgrade>) -> (txid: Result<[u8; 32], String>)
    ensures
        spelled_txid(data@, upgrade) == (match txid {
            Ok(txid) => Ok(txid@),
            Err(detail) => Err(detail@),
        }),
{
    let branch = match upgrade {
        None => BranchId::Sprout,
        Some(Upgrade::Overwinter) => BranchId::Overwinter,
        Some(Upgrade::Sapling) => BranchId::Sapling,
        Some(Upgrade::Blossom) => BranchId::Blossom,
        Some(Upgrade::Heartwood) => BranchId::Heartwood, Some(Upgrade::Canopy) => BranchId::Canopy,
        Some(Upgrade::Nu5) => BranchId::Nu5, Some(Upgrade::Nu6) => BranchId::Nu6,
        Some(Upgrade::Nu6_1) => BranchId::Nu6_1, Some(Upgrade::Nu6_2) => BranchId::Nu6_2,
        Some(Upgrade::Nu6_3) => BranchId::Nu6_3,
    };
    let transaction = Transaction::read(data, branch).map_err(|error| error.to_string())?;
    Ok(*transaction.txid().as_ref())
}

/// The height at which a provider says that a transaction was mined: none where it says zero or
/// the largest number.
pub fn mined_height(height: u64) -> (mined: Result<Option<u32>, Error>)
    ensures
        if height == 0 || height == u64::MAX {
            mined == Ok::<Option<u32>, Error>(None)
        } else if height > u32::MAX {
            mined == Err::<Option<u32>, Error>(Error::IntegerConversion)
        } else {
            mined == Ok::<Option<u32>, Error>(Some(height as u32))
        },
{
    if height == 0 || height == u64::MAX {
        Ok(None)
    } else if height > 0xffff_ffff {
        Err(Error::IntegerConversion)
    } else {
        Ok(Some(height as u32))
    }
}

/// Whether an outcome is what becomes of a transaction that was asked for, where the transaction
/// that the provider sent has an identifier, or its bytes spell none.
pub open spec fn is_judgement(
    outcome: Result<Enhancement, Error>,
    asked: Seq<u8>,
    found: Result<Seq<u8>, Seq<char>>,
    height: Option<u32>,
) -> bool {
    match found {
        Err(detail) => outcome matches Err(Error::TransactionInvalid { detail: told }) && told@
            == detail,
        Ok(txid) => if txid == asked {
            outcome == Ok::<Enhancement, Error>(Enhancement::Stored { height })
        } else {
            outcome == Err::<Enhancement, Error>(Error::TransactionMismatch)
        },
    }
}

/// What becomes of a transaction whose bytes spell an identifier, or none, under the rules at
/// its height.
pub fn judge_transaction(
    asked: &[u8; 32],
    found: Result<[u8; 32], String>,
    height: Option<u32>,
) -> (enhancement: Result<Enhancement, Error>)
    ensures
        is_judgement(
            enhancement,
            asked@,
            match found {
                Ok(txid) => Ok(txid@),
                Err(detail) => Err(detail@),
            },
            height,
        ),
{
    match found {
        Err(detail) => Err(Error::TransactionInvalid { detail }),
        Ok(txid) => if same_hash(&txid, asked) {
            Ok(Enhancement::Stored { height })
        } else {
            Err(Error::TransactionMismatch)
        },
    }
}

/// Whether an outcome is that of judging a provider's transaction.
pub open spec fn judges(
    outcome: Result<Enhancement, Error>,
    network: WalletNetwork,
    asked: Seq<u8>,
    raw: RawView,
    chain_height: Option<u32>,
) -> bool {
    let unmined = raw.height == 0 || raw.height == u64::MAX;
    if !unmined && raw.height > u32::MAX {
        outcome == Err::<Enhancement, Error>(Error::IntegerConversion)
    } else if unmined && chain_height is None {
        outcome == Err::<Enhancement, Error>(Error::ChainHeightUnknown)
    } else {
        let height = if unmined {
            chain_height->Some_0
        } else {
            raw.height as u32
        };
        is_judgement(
            outcome,
            asked,
            spelled_txid(raw.data, network.heights().active(height)),
            if unmined {
                None
            } else {
                Some(height)
            },
        )
    }
}

/// Judges the response to a request for a transaction. A transaction that the provider does not
/// know is not recognised; any other failure is passed on.
pub fn enhance(
    network: WalletNetwork,
    txid: &[u8; 32],
    response: Result<RawTransaction, Error>,
    chain_height: Option<u32>,
) -> (enhancement: Result<Enhancement, Error>)
    ensures
        match response {
            Err(error) => if error matches Error::Provider { status } && status.code == NOT_FOUND {
                enhancement == Ok::<Enhancement, Error>(Enhancement::NotRecognized)
            } else {
                enhancement == Err::<Enhancement, Error>(error)
            },
            Ok(raw) => judges(enhancement, network, txid@, raw@, chain_height),
        },
{
    let raw = match response {
        Ok(raw) => raw,
        Err(Error::Provider { status }) => {
            if status.code == NOT_FOUND {
                return Ok(Enhancement::NotRecognized);
            }
            return Err(Error::Provider { status });
        },
        Err(error) => return Err(error),
    };
    let height: Option<u32> = match mined_height(raw.height) {
        Ok(height) => height,
        Err(error) => return Err(error),
    };
    let branch_height: u32 = match height {
        Some(height) => height,
        None => match chain_height {
            Some(height) => height,
            None => return Err(Error::ChainHeightUnknown),
        },
    };
    let found = read_txid(raw.data.as_slice(), network.upgrade_at(branch_height));
    judge_transaction(txid, found, height)
}

/// The blocks at and above a height, by their place in a list of heights.
pub open spec fn blocks_from(heights: Seq<u64>, from: Option<u32>) -> Seq<usize>
    decreases heights.len(),
{
    if heights.len() == 0 {
        seq![]
    } else {
        let rest = blocks_from(heights.drop_last(), from);
        if from is None || heights.last() >= from->Some_0 {
            rest.push((heights.len() - 1) as usize)
        } else {
            rest
        }
    }
}

/// Selects the blocks to hand to the scanner: those at and above a height, in order, and no more
/// than a limit.
pub fn with_blocks(heights: &Vec<u64>, from: Option<u32>, limit: Option<usize>) -> (selected: Vec<
    usize,
>)
    ensures
        selected@ == blocks_from(heights@, from).take(
            if limit is Some && limit->Some_0 < blocks_from(heights@, from).len() {
                limit->Some_0 as int
            } else {
                blocks_from(heights@, from).len() as int
            },
        ),
{
    let limit: usize = match limit {
        Some(limit) => limit,
        None => usize::MAX,
    };
    let mut selected: Vec<usize> = Vec::new();
    let mut i: usize = 0;
    proof {
        assert(heights@.take(0) =~= seq![]);
        blocks_from_is_monotone(heights@, from, 0);
        blocks_from_is_short(heights@, from);
    }
    while i < heights.len() && selected.len() < limit
        invariant
            i <= heights@.len(),
            selected@.len() <= limit,
            selected@ == blocks_from(heights@.take(i as int), from),
        decreases heights@.len() - i,
    {
        proof {
            assert(heights@.take(i + 1).drop_last() =~= heights@.take(i as int));
        }
        let wanted = match from {
            None => true,
            Some(from) => heights[i] >= from as u64,
        };
        if wanted {
            selected.push(i);
        }
        i += 1;
    }
    proof {
        blocks_from_is_monotone(heights@, from, i as int);
        assert(heights@.take(heights@.len() as int) =~= heights@);
    }
    selected
}

/// The selected blocks are among those of the list, in its order, and at or above the height.
pub proof fn selected_blocks_are_high_enough(heights: Seq<u64>, from: Option<u32>)
    requires
        heights.len() <= usize::MAX,
    ensures
        forall|i: int|
            #![trigger blocks_from(heights, from)[i]]
            0 <= i < blocks_from(heights, from).len() ==> {
                &&& blocks_from(heights, from)[i] < heights.len()
                &&& from is Some ==> heights[blocks_from(heights, from)[i] as int]
                    >= from->Some_0
            },
        forall|i: int, j: int|
            0 <= i < j < blocks_from(heights, from).len() ==> blocks_from(heights, from)[i]
                < blocks_from(heights, from)[j],
    decreases heights.len(),
{
    if heights.len() > 0 {
        let shorter = heights.drop_last();
        let rest = blocks_from(shorter, from);
        let all = blocks_from(heights, from);
        selected_blocks_are_high_enough(shorter, from);
        assert forall|i: int| #![trigger all[i]] 0 <= i < all.len() implies {
            &&& all[i] < heights.len()
            &&& from is Some ==> heights[all[i] as int] >= from->Some_0
        } by {
            if i < rest.len() {
                assert(all[i] == rest[i]);
                assert(shorter[rest[i] as int] == heights[rest[i] as int]);
            }
        }
        assert forall|i: int, j: int| 0 <= i < j < all.len() implies all[i] < all[j] by {
            assert(all[i] == rest[i]);
            if j < rest.len() {
                assert(all[j] == rest[j]);
            }
        }
    }
}

proof fn blocks_from_is_short(heights: Seq<u64>, from: Option<u32>)
    ensures
        blocks_from(heights, from).len() <= heights.len(),
    decreases heights.len(),
{
    if heights.len() > 0 {
        blocks_from_is_short(heights.drop_last(), from);
    }
}

proof fn blocks_from_is_monotone(heights: Seq<u64>, from: Option<u32>, count: int)
    requires
        0 <= count <= heights.len(),
    ensures
        blocks_from(heights.take(count), from).len() <= blocks_from(heights, from).len(),
        blocks_from(heights, from).take(blocks_from(heights.take(count), from).len() as int)
            == blocks_from(heights.take(count), from),
    decreases heights.len(),
{
    if count == heights.len() {
        assert(heights.take(count) =~= heights);
    } else {
        assert(heights.drop_last().take(count) =~= heights.take(count));
        blocks_from_is_monotone(heights.drop_last(), from, count);
        let short = blocks_from(heights.take(count), from);
        assert(blocks_from(heights, from).take(short.len() as int) =~= blocks_from(
            heights.drop_last(),
            from,
        ).take(short.len() as int));
    }
}

/// The target is the highest block that the provider has and whose successor has a header, or
/// genesis where there is no such block.
pub proof fn the_target_is_the_highest(latest: u64, header: u32, height: int)
    requires
        0 <= height <= latest,
        height + 1 <= header,
    ensures
        height <= target_height(latest, header) <= latest,
        target_height(latest, header) + 1 <= header,
{
}

/// A range that the wallet wants is scanned from its start on: up to its end, to the target, or
/// for a hundred blocks, whichever comes first. The scan ends only where no range is wanted, or
/// where the wanted one is empty or starts above the target.
pub proof fn wanted_ranges_are_scanned(target: u32, range: Option<(u32, u32)>)
    ensures
        ({
            let next = SyncState::Range { target }.after(SyncEvent::Range { range });
            let over = next == Ok::<(SyncState, SyncAction), Error>(
                (SyncState::Enhanced, SyncAction::Enhance),
            );
            match range {
                None => over,
                Some((start, end)) => if start == 0 {
                    next == Err::<(SyncState, SyncAction), Error>(Error::ScanGenesis)
                } else if start < end && start <= target {
                    next matches Ok(
                        (
                            SyncState::From { target: kept, start: first, end: last },
                            SyncAction::AskTree { height },
                        ),
                    ) && {
                        &&& kept == target
                        &&& first == start
                        &&& height == start - 1
                        &&& start <= last < end
                        &&& last <= target
                        &&& last < start + 100
                        &&& last + 1 == end || last == target || last + 1 == start + 100
                    }
                } else {
                    over
                },
            }
        }),
{
}

/// A wallet is brought up to date exactly where it has an account: then the target is asked for,
/// and then the last block that it has scanned.
pub proof fn wallets_with_an_account_are_synchronised(initialized: bool, target: u32)
    ensures
        ({
            let asked = SyncState::Initialized.after(SyncEvent::Initialized { initialized });
            let found = SyncState::Target.after(SyncEvent::Target { target });
            &&& initialized ==> asked == Ok::<(SyncState, SyncAction), Error>(
                (SyncState::Target, SyncAction::AskTarget),
            )
            &&& !initialized ==> asked == Ok::<(SyncState, SyncAction), Error>(
                (SyncState::Done, SyncAction::Stop),
            )
            &&& found == Ok::<(SyncState, SyncAction), Error>(
                (SyncState::Scanned { target }, SyncAction::AskScanned),
            )
        }),
{
}

/// The last scanned block is looked up on the selected chain at its own height, unless it is above
/// the target. A wallet that has scanned nothing is told of the target at once.
pub proof fn the_last_scanned_block_is_looked_up(target: u32, height: u32, hash: [u8; 32])
    ensures
        ({
            let state = SyncState::Scanned { target };
            let unscanned = state.after(SyncEvent::Scanned { block: None });
            let scanned = state.after(SyncEvent::Scanned { block: Some((height, hash)) });
            let ancestor = SyncState::Ancestor { target, height, hash };
            &&& unscanned == Ok::<(SyncState, SyncAction), Error>(
                (SyncState::Tip { target }, SyncAction::UpdateTip { height: target }),
            )
            &&& height <= target ==> scanned == Ok::<(SyncState, SyncAction), Error>(
                (ancestor, SyncAction::AskTree { height }),
            )
            &&& height > target ==> scanned == Err::<(SyncState, SyncAction), Error>(
                Error::SourceBehind,
            )
        }),
{
}

/// A scanned block with the hash of the selected chain is the common ancestor. Below another one
/// the ancestor is looked for again, one block lower, unless that block is genesis.
pub proof fn the_common_ancestor_is_looked_for(
    target: u32,
    height: u32,
    hash: [u8; 32],
    chain: ChainState,
)
    ensures
        ({
            let state = SyncState::Ancestor { target, height, hash };
            let next = state.after(SyncEvent::Tree { chain });
            let again = SyncState::Truncated { target }.after(SyncEvent::Truncated);
            &&& chain.hash@ == hash@ ==> next == Ok::<(SyncState, SyncAction), Error>(
                (SyncState::Tip { target }, SyncAction::UpdateTip { height: target }),
            )
            &&& chain.hash@ != hash@ && height == 0 ==> next == Err::<
                (SyncState, SyncAction),
                Error,
            >(Error::ReorgAtGenesis)
            &&& chain.hash@ != hash@ && height > 0 ==> next == Ok::<
                (SyncState, SyncAction),
                Error,
            >(
                (
                    SyncState::Truncated { target },
                    SyncAction::Truncate { height: (height - 1) as u32 },
                ),
            )
            &&& again == Ok::<(SyncState, SyncAction), Error>(
                (SyncState::Scanned { target }, SyncAction::AskScanned),
            )
        }),
{
}

/// Once the wallet knows the height of the chain, and after every scan, it is asked for the next
/// range, and when no range is left its transactions are completed once, and that is all.
pub proof fn ranges_are_asked_for_until_none_is_left(target: u32)
    ensures
        ({
            let told = SyncState::Tip { target }.after(SyncEvent::TipUpdated);
            let scanned = SyncState::Blocks { target }.after(SyncEvent::BlocksScanned);
            let none = SyncState::Range { target }.after(SyncEvent::Range { range: None });
            let enhanced = SyncState::Enhanced.after(SyncEvent::Enhanced);
            let ask = (SyncState::Range { target }, SyncAction::AskRange);
            &&& told == Ok::<(SyncState, SyncAction), Error>(ask)
            &&& scanned == Ok::<(SyncState, SyncAction), Error>(ask)
            &&& none == Ok::<(SyncState, SyncAction), Error>(
                (SyncState::Enhanced, SyncAction::Enhance),
            )
            &&& enhanced == Ok::<(SyncState, SyncAction), Error>(
                (SyncState::Done, SyncAction::Stop),
            )
        }),
{
}

/// What is done is what is waited for: after every step, the events that are expected are those
/// that the action brings about, and no others.
pub proof fn actions_bring_about_what_is_expected(
    state: SyncState,
    event: SyncEvent,
    answer: SyncEvent,
)
    requires
        state.expects(event),
        state.after(event) is Ok,
    ensures
        ({
            let (next, action) = state.after(event)->Ok_0;
            next.expects(answer) <==> match action {
                SyncAction::AskInitialized => answer is Initialized,
                SyncAction::AskTarget => answer is Target,
                SyncAction::AskScanned => answer is Scanned,
                SyncAction::AskTree { .. } => answer is Tree,
                SyncAction::Truncate { .. } => answer is Truncated,
                SyncAction::UpdateTip { .. } => answer is TipUpdated,
                SyncAction::AskRange => answer is Range,
                SyncAction::Scan { .. } => answer is BlocksScanned,
                SyncAction::Enhance => answer is Enhanced,
                SyncAction::Stop => false,
            }
        }),
{
}

/// A transaction is stored as mined exactly at the height that the provider gives, and as not in
/// the main chain where the provider gives none.
pub proof fn transactions_are_stored_where_they_were_mined(
    outcome: Result<Enhancement, Error>,
    network: WalletNetwork,
    asked: Seq<u8>,
    raw: RawView,
    chain_height: Option<u32>,
)
    requires
        judges(outcome, network, asked, raw, chain_height),
    ensures
        outcome matches Ok(stored) ==> stored is Stored,
        outcome matches Ok(Enhancement::Stored { height: Some(height) }) ==> height == raw.height
            && 0 < raw.height < u64::MAX,
        outcome == Ok::<Enhancement, Error>(Enhancement::Stored { height: None }) ==> raw.height
            == 0 || raw.height == u64::MAX,
{
}

/// The bytes of a mined transaction are read under the rules at the height where it was mined, and
/// those of another one under the rules at the wallet's chain height. The transaction is stored
/// where it is the one that was asked for, and otherwise refused.
pub proof fn transactions_are_judged_under_the_rules_of_their_height(
    outcome: Result<Enhancement, Error>,
    network: WalletNetwork,
    asked: Seq<u8>,
    raw: RawView,
    chain_height: Option<u32>,
    height: u32,
)
    requires
        judges(outcome, network, asked, raw, chain_height),
        if raw.height == 0 || raw.height == u64::MAX {
            chain_height == Some(height)
        } else {
            raw.height == height
        },
    ensures
        match spelled_txid(raw.data, network.heights().active(height)) {
            Ok(txid) => if txid == asked {
                outcome matches Ok(Enhancement::Stored { height: mined }) && (mined is Some <==> 0
                    < raw.height < u64::MAX)
            } else {
                outcome == Err::<Enhancement, Error>(Error::TransactionMismatch)
            },
            Err(detail) => outcome matches Err(Error::TransactionInvalid { detail: told }) && told@
                == detail,
        },
{
}

/// What becomes of a mined transaction does not depend on the wallet's chain height. A height that
/// cannot be one of a block is refused, and so is a transaction that is not mined while the wallet
/// knows no height.
pub proof fn mined_transactions_do_not_depend_on_the_tip(
    outcome: Result<Enhancement, Error>,
    network: WalletNetwork,
    asked: Seq<u8>,
    raw: RawView,
    chain_height: Option<u32>,
    other: Option<u32>,
)
    requires
        judges(outcome, network, asked, raw, chain_height),
    ensures
        0 < raw.height < u64::MAX ==> judges(outcome, network, asked, raw, other),
        u32::MAX < raw.height < u64::MAX ==> outcome == Err::<Enhancement, Error>(
            Error::IntegerConversion,
        ),
        (raw.height == 0 || raw.height == u64::MAX) && chain_height is None ==> outcome == Err::<
            Enhancement,
            Error,
        >(Error::ChainHeightUnknown),
{
}

/// Every block at or above the height is selected.
pub proof fn no_high_block_is_left_out(heights: Seq<u64>, from: Option<u32>, i: int)
    requires
        heights.len() <= usize::MAX,
        0 <= i < heights.len(),
        from is None || heights[i] >= from->Some_0,
    ensures
        blocks_from(heights, from).contains(i as usize),
    decreases heights.len(),
{
    let shorter = heights.drop_last();
    let rest = blocks_from(shorter, from);
    let all = blocks_from(heights, from);
    if i < shorter.len() {
        no_high_block_is_left_out(shorter, from, i);
        let at = choose|at: int| 0 <= at < rest.len() && rest[at] == i as usize;
        assert(all[at] == i as usize);
    } else {
        assert(all[rest.len() as int] == i as usize);
    }
}

/// Work begins with a question for the roots at its height where the height is one from the block
/// before the Ironwood activation on, and is refused at every lower one.
pub proof fn work_begins_from_ironwood_on(source: SourceView, task: TaskView, height: u32)
    requires
        source.verifier.is_sound(),
    ensures
        ({
            let (next, outcome) = source.asking(task, height);
            if height + 1 < source.verifier.run.schedule.heights[Upgrade::Nu6_3] {
                &&& outcome == (SourceOutcome::Failed { error: Error::BirthdayBeforeIronwood })
                &&& next.task is None
            } else {
                &&& outcome == (SourceOutcome::Read { height: next.verifier.asked() })
                &&& next.verifier.query matches Some(query) && query.height == height
                &&& next.task == Some(task)
            }
        }),
{
}

/// Work goes on as its question does: it reads what the question reads, and is refused where the
/// question is.
pub proof fn work_follows_its_question(source: SourceView, block: BlockView)
    ensures
        ({
            let (next, outcome) = source.supplied(block);
            match source.verifier.supplied(block).1 {
                Outcome::Read { height } => {
                    &&& outcome == (SourceOutcome::Read { height })
                    &&& next.task == source.task
                },
                Outcome::Refused { refusal } => {
                    &&& outcome == (SourceOutcome::Refused { refusal })
                    &&& next.task is None
                },
                Outcome::Done { .. } => true,
            }
        }),
        source.supplied(block).0.verifier.run.schedule == source.verifier.run.schedule,
{
}

/// A tree state is accepted where it can be parsed and has the hash and the three roots that were
/// authenticated, and it is handed on as it was parsed.
pub proof fn matching_tree_states_are_accepted(source: SourceView, block: BlockView)
    requires
        source.task is Some,
        source.task->Some_0 is Tree,
        source.verifier.supplied(block).1 is Done,
    ensures
        ({
            let answer = source.verifier.supplied(block).1;
            let (next, outcome) = source.supplied(block);
            &&& next.task is None
            &&& match spelled_chain_state(source.task->Some_0->tree) {
                Err(detail) => outcome == (SourceOutcome::Malformed { detail }),
                Ok(chain) => {
                    let fits = chain.hash == answer->hash && sapling_root(chain.trees.sapling)
                        == answer->roots.sapling_root && orchard_root(chain.trees.orchard)
                        == answer->roots.orchard_root && orchard_root(chain.trees.ironwood)
                        == answer->roots.ironwood_root;
                    &&& fits ==> outcome == (SourceOutcome::Chain { chain })
                    &&& !fits ==> outcome is Failed
                },
            }
        }),
{
}

impl SourceView {
    /// How the work goes on with a number of reads from a branch of blocks, unless it comes to an
    /// end before.
    pub open spec fn reading(self, branch: spec_fn(u32) -> BlockView, reads: nat) -> (
        SourceView,
        SourceOutcome,
    )
        decreases reads,
    {
        if reads == 0 {
            (self, SourceOutcome::Read { height: self.verifier.asked() })
        } else {
            let (state, outcome) = self.reading(branch, (reads - 1) as nat);
            if outcome is Read {
                state.supplied(branch(state.verifier.asked()))
            } else {
                (state, outcome)
            }
        }
    }

    /// Whether the work ends with an outcome after some reads from a branch, all of which it can
    /// go on with.
    pub open spec fn comes_to(
        self,
        outcome: SourceOutcome,
        branch: spec_fn(u32) -> BlockView,
        reads: nat,
    ) -> bool {
        &&& self.reading(branch, reads).1 == outcome
        &&& forall|i: nat|
            i < reads ==> {
                let state = #[trigger] self.reading(branch, i).0;
                state.takes(branch(state.verifier.asked()))
            }
    }
}

/// Whether a block of a range is the one of a branch at its height: it says that height, has the
/// hash of the block there and names the one before, and its commitments complete the trees to the
/// roots of the block there.
pub open spec fn is_of_branch(
    scan: ScanView,
    branch: spec_fn(u32) -> BlockView,
    i: int,
) -> bool {
    let block = scan.blocks[i];
    let there = branch((scan.start + i) as u32);
    &&& block.height == scan.start + i
    &&& block.hash.len() == 32
    &&& block.prev_hash.len() == 32
    &&& block.hash == there.hash()
    &&& block.prev_hash == if i == 0 {
        scan.from.hash
    } else {
        branch((scan.start + i - 1) as u32).hash()
    }
    &&& block_grown(scan.trees(i as nat), block.vtx) matches Ok(trees) && {
        &&& sapling_root(trees.sapling) == there.roots().sapling_root
        &&& orchard_root(trees.orchard) == there.roots().orchard_root
        &&& orchard_root(trees.ironwood) == there.roots().ironwood_root
    }
}

proof fn trees_depend_on_blocks_alone(a: ScanView, b: ScanView, count: nat)
    requires
        a.from == b.from,
        a.blocks == b.blocks,
    ensures
        a.trees(count) == b.trees(count),
    decreases count,
{
    if count > 0 {
        trees_depend_on_blocks_alone(a, b, (count - 1) as nat);
    }
}

/// A read that does not end the work can be counted as the first one.
proof fn a_first_read_of_a_source_counts(
    source: SourceView,
    branch: spec_fn(u32) -> BlockView,
    reads: nat,
)
    requires
        source.supplied(branch(source.verifier.asked())).1 == (SourceOutcome::Read {
            height: source.supplied(branch(source.verifier.asked())).0.verifier.asked(),
        }),
    ensures
        source.reading(branch, reads + 1) == source.supplied(
            branch(source.verifier.asked()),
        ).0.reading(branch, reads),
    decreases reads,
{
    reveal_with_fuel(SourceView::reading, 2);
    if reads > 0 {
        a_first_read_of_a_source_counts(source, branch, (reads - 1) as nat);
    }
}

/// Where the work goes on after a read that it can go on with, and then comes to an outcome, it
/// comes to that outcome from the start.
proof fn a_first_read_leads_on(
    source: SourceView,
    outcome: SourceOutcome,
    branch: spec_fn(u32) -> BlockView,
    reads: nat,
)
    requires
        source.takes(branch(source.verifier.asked())),
        source.supplied(branch(source.verifier.asked())).1 == (SourceOutcome::Read {
            height: source.supplied(branch(source.verifier.asked())).0.verifier.asked(),
        }),
        source.supplied(branch(source.verifier.asked())).0.comes_to(outcome, branch, reads),
    ensures
        source.comes_to(outcome, branch, reads + 1),
{
    let next = source.supplied(branch(source.verifier.asked())).0;
    a_first_read_of_a_source_counts(source, branch, reads);
    assert forall|i: nat| i < reads + 1 implies {
        let state = #[trigger] source.reading(branch, i).0;
        state.takes(branch(state.verifier.asked()))
    } by {
        if i > 0 {
            a_first_read_of_a_source_counts(source, branch, (i - 1) as nat);
            let state = next.reading(branch, (i - 1) as nat).0;
            assert(state.takes(branch(state.verifier.asked())));
        }
    }
}

/// The check of a range of an authentic branch comes to its end.
proof fn authentic_checks_end(
    source: SourceView,
    sent: ScanView,
    branch: spec_fn(u32) -> BlockView,
    start: u32,
)
    requires
        source.task matches Some(TaskView::Blocks { scan }) && {
            &&& scan.start == sent.start
            &&& scan.from == sent.from
            &&& scan.blocks == sent.blocks
            &&& scan.answers.len() < scan.blocks.len()
            &&& forall|i: int|
                0 <= i < scan.answers.len() ==> (#[trigger] scan.answers[i]).hash == branch(
                    (scan.start + i) as u32,
                ).hash()
            &&& source.verifier.nears(
                (scan.start + scan.answers.len()) as u32,
                branch,
                start,
            )
        },
        sent.start + sent.blocks.len() <= u32::MAX,
        source.verifier.activation <= sent.start + 1,
        start <= sent.start,
        is_authentic(
            source.verifier.run.schedule,
            branch,
            start,
            (sent.start + sent.blocks.len() - 1) as u32,
        ),
        forall|i: int| 0 <= i < sent.blocks.len() ==> #[trigger] is_of_branch(sent, branch, i),
    ensures
        exists|reads: nat| #[trigger]
            source.comes_to((SourceOutcome::Blocks { blocks: sent.blocks }), branch, reads),
    decreases
            sent.blocks.len() - source.task->Some_0->scan.answers.len(),
            source.verifier.distance(
                (sent.start + source.task->Some_0->scan.answers.len()) as u32,
                start,
            ),
{
    let scan = source.task->Some_0->scan;
    let count = scan.answers.len() as int;
    let height = (scan.start + count) as u32;
    let last = (sent.start + sent.blocks.len() - 1) as u32;
    let block = branch(source.verifier.asked());
    let delivered = SourceOutcome::Blocks { blocks: sent.blocks };
    authentic_branches_can_be_cut(source.verifier.run.schedule, branch, start, last, height);
    an_authentic_read_helps(source.verifier, height, branch, start);
    assert(source.takes(block));
    let (verifier, outcome) = source.verifier.supplied(block);
    let next = source.supplied(block).0;
    if outcome is Read {
        authentic_checks_end(next, sent, branch, start);
        let rest = choose|reads: nat| #[trigger] next.comes_to(delivered, branch, reads);
        a_first_read_leads_on(source, delivered, branch, rest);
    } else {
        let answer = AnswerView { hash: outcome->hash, roots: outcome->roots };
        assert(is_of_branch(sent, branch, count));
        trees_depend_on_blocks_alone(scan, sent, count as nat);
        assert(scan.fault(count, answer) is None);
        let longer = scan.with(answer);
        if count + 1 == scan.blocks.len() {
            reveal_with_fuel(SourceView::reading, 2);
            assert(source.reading(branch, 0).0 == source);
            assert(source.comes_to(delivered, branch, 1));
        } else {
            assert(is_of_branch(sent, branch, count + 1));
            assert(longer.identifies(count + 1));
            let above = (height + 1) as u32;
            assert(next.verifier == verifier.begun(above));
            assert(next.verifier.nears(above, branch, start));
            authentic_checks_end(next, sent, branch, start);
            let rest = choose|reads: nat| #[trigger] next.comes_to(delivered, branch, reads);
            a_first_read_leads_on(source, delivered, branch, rest);
        }
    }
}

/// Honest ranges are delivered: where a branch is authentic up to the last block of a range, and
/// every block of the range is the one of the branch at its height, the check of the range comes to
/// its end after some reads from the branch, and delivers the range as it was sent.
pub proof fn authentic_ranges_are_delivered(
    source: SourceView,
    sent: ScanView,
    branch: spec_fn(u32) -> BlockView,
    start: u32,
)
    requires
        source.verifier.is_sound(),
        sent.answers.len() == 0,
        sent.blocks.len() > 0,
        sent.start + sent.blocks.len() <= u32::MAX,
        source.verifier.run.schedule.heights[Upgrade::Nu6_3] <= sent.start + 1,
        sent.start < source.verifier.run.start ==> source.verifier.run.schedule.is_start(
            sent.start,
            start,
        ),
        sent.start >= source.verifier.run.start ==> start == source.verifier.run.start,
        can_be_told_apart(source.verifier, branch),
        is_authentic(
            source.verifier.run.schedule,
            branch,
            start,
            (sent.start + sent.blocks.len() - 1) as u32,
        ),
        forall|i: int| 0 <= i < sent.blocks.len() ==> #[trigger] is_of_branch(sent, branch, i),
    ensures
        source.scanning(sent).1 is Read,
        exists|reads: nat| #[trigger]
            source.scanning(sent).0.comes_to(
                (SourceOutcome::Blocks { blocks: sent.blocks }),
                branch,
                reads,
            ),
{
    assert(is_of_branch(sent, branch, 0));
    assert(sent.identifies(0));
    a_question_begins_on_the_branch(source.verifier, sent.start, branch, start);
    authentic_checks_end(source.scanning(sent).0, sent, branch, start);
}

/// Honest tree states are accepted: where a branch is authentic up to a height, and a tree state of
/// that height can be parsed and has the hash and the three roots of the block of the branch there,
/// the work on it ends, after some reads from the branch, with the chain state that it spells.
pub proof fn authentic_tree_states_are_accepted(
    source: SourceView,
    tree: TreeStateView,
    chain: ChainView,
    height: u32,
    branch: spec_fn(u32) -> BlockView,
    start: u32,
)
    requires
        source.verifier.is_sound(),
        tree.is_sound(),
        spelled_chain_state(tree) == Ok::<ChainView, Seq<char>>(chain),
        source.verifier.run.schedule.heights[Upgrade::Nu6_3] <= height + 1,
        height < source.verifier.run.start ==> source.verifier.run.schedule.is_start(
            height,
            start,
        ),
        height >= source.verifier.run.start ==> start == source.verifier.run.start,
        can_be_told_apart(source.verifier, branch),
        is_authentic(source.verifier.run.schedule, branch, start, height),
        chain.hash == branch(height).hash(),
        sapling_root(chain.trees.sapling) == branch(height).roots().sapling_root,
        orchard_root(chain.trees.orchard) == branch(height).roots().orchard_root,
        orchard_root(chain.trees.ironwood) == branch(height).roots().ironwood_root,
    ensures
        source.asking((TaskView::Tree { tree }), height).1 is Read,
        exists|reads: nat| #[trigger]
            source.asking((TaskView::Tree { tree }), height).0.comes_to(
                (SourceOutcome::Chain { chain }),
                branch,
                reads,
            ),
{
    a_question_begins_on_the_branch(source.verifier, height, branch, start);
    let begun = source.asking(TaskView::Tree { tree }, height).0;
    authentic_work_ends(begun, tree, chain, height, branch, start);
}

proof fn authentic_work_ends(
    source: SourceView,
    tree: TreeStateView,
    chain: ChainView,
    height: u32,
    branch: spec_fn(u32) -> BlockView,
    start: u32,
)
    requires
        source.task == Some((TaskView::Tree { tree })),
        source.verifier.nears(height, branch, start),
        tree.is_sound(),
        spelled_chain_state(tree) == Ok::<ChainView, Seq<char>>(chain),
        is_authentic(source.verifier.run.schedule, branch, start, height),
        frontier_fault(chain, branch(height).hash(), branch(height).roots()) is None,
    ensures
        exists|reads: nat| #[trigger]
            source.comes_to((SourceOutcome::Chain { chain }), branch, reads),
    decreases source.verifier.distance(height, start),
{
    let block = branch(source.verifier.asked());
    an_authentic_read_helps(source.verifier, height, branch, start);
    assert(source.takes(block));
    let next = source.supplied(block).0;
    let accepted = SourceOutcome::Chain { chain };
    if source.verifier.supplied(block).1 is Read {
        authentic_work_ends(next, tree, chain, height, branch, start);
        let rest = choose|reads: nat| #[trigger] next.comes_to(accepted, branch, reads);
        a_first_read_leads_on(source, accepted, branch, rest);
    } else {
        reveal_with_fuel(SourceView::reading, 2);
        assert(source.reading(branch, 0).0 == source);
        assert(source.comes_to(accepted, branch, 1));
    }
}

/// A step reports the outcome that it shows, and no other: the height that is read, the chain
/// state, and every block of a range in its order.
pub proof fn source_steps_report_what_they_show(
    outcome: SourceOutcome,
    step: Result<SourceStep, Error>,
)
    ensures
        ({
            let reported = outcome.is_reported_by(step);
            match step {
                Ok(SourceStep::Read { height }) => reported <==> outcome == (SourceOutcome::Read {
                    height,
                }),
                Ok(SourceStep::Chain { chain }) => reported <==> outcome == (SourceOutcome::Chain {
                    chain: chain@,
                }),
                Ok(SourceStep::Blocks { blocks }) => reported <==> {
                    &&& outcome is Blocks
                    &&& outcome->blocks.len() == blocks@.len()
                    &&& forall|i: int|
                        0 <= i < blocks@.len() ==> (#[trigger] blocks@[i])@ == outcome->blocks[i]
                },
                Err(error) => reported <==> match outcome {
                    SourceOutcome::Failed { error: failed } => failed == error,
                    SourceOutcome::Malformed { detail } => error matches Error::TreeStateInvalid {
                        detail: told,
                    } && told@ == detail,
                    SourceOutcome::Refused { refusal } => refusal.is_reported_by(error),
                    _ => false,
                },
            }
        }),
{
    if let Ok(SourceStep::Blocks { blocks }) = step {
        let views = blocks@.map_values(|block: CompactBlock| block@);
        if outcome is Blocks && outcome->blocks.len() == blocks@.len() && (forall|i: int|
            0 <= i < blocks@.len() ==> (#[trigger] blocks@[i])@ == outcome->blocks[i]) {
            assert forall|i: int| 0 <= i < views.len() implies views[i] == outcome->blocks[i] by {
                assert(blocks@[i]@ == outcome->blocks[i]);
            }
            assert(views =~= outcome->blocks);
        }
    }
}

/// The blocks of a range are checked in their order: the range is delivered once all of them are
/// answered, and before that the next one is asked for, if it is identified by its place.
pub proof fn ranges_are_checked_in_order(source: SourceView, scan: ScanView)
    requires
        source.verifier.is_sound(),
        scan.answers.len() <= scan.blocks.len(),
        scan.start + scan.blocks.len() <= u32::MAX + 1,
    ensures
        ({
            let (next, outcome) = source.scanning(scan);
            let place = scan.answers.len() as int;
            let height = scan.start + place;
            let block = scan.blocks[place];
            if place == scan.blocks.len() {
                outcome == (SourceOutcome::Blocks { blocks: scan.blocks }) && next.task is None
            } else if block.height != height || block.hash.len() != 32 || block.prev_hash.len()
                != 32 {
                outcome == (SourceOutcome::Failed { error: Error::BlockIdentity })
                    && next.task is None
            } else if height + 1 < source.verifier.run.schedule.heights[Upgrade::Nu6_3] {
                outcome == (SourceOutcome::Failed { error: Error::BirthdayBeforeIronwood })
                    && next.task is None
            } else {
                &&& outcome is Read
                &&& next.task == Some((TaskView::Blocks { scan }))
                &&& next.verifier.query matches Some(query) && query.height == height
            }
        }),
{
}

/// An answered block of a range that does not fit its answer ends the check with what is wrong. One
/// that fits is counted with its answer, and the check goes on as it does with all blocks so far
/// answered.
pub proof fn answered_blocks_are_counted(source: SourceView, block: BlockView)
    requires
        source.task is Some,
        source.task->Some_0 is Blocks,
        source.verifier.supplied(block).1 is Done,
    ensures
        ({
            let scan = source.task->Some_0->scan;
            let answer = AnswerView {
                hash: source.verifier.supplied(block).1->hash,
                roots: source.verifier.supplied(block).1->roots,
            };
            let after = SourceView { verifier: source.verifier.supplied(block).0, ..source };
            let (next, outcome) = source.supplied(block);
            match scan.fault(scan.answers.len() as int, answer) {
                Some(error) => outcome == (SourceOutcome::Failed { error }) && next.task is None,
                None => {
                    let longer = ScanView {
                        start: scan.start,
                        from: scan.from,
                        blocks: scan.blocks,
                        answers: scan.answers.push(answer),
                    };
                    outcome == after.scanning(longer).1 && next == after.scanning(longer).0
                },
            }
        }),
{
}

/// A synchronisation begins by asking whether the wallet has an account, and waits for that alone.
pub proof fn a_synchronisation_waits_for_the_account(event: SyncEvent)
    ensures
        SyncState::Initialized.expects(event) <==> event is Initialized,
        !SyncState::Done.expects(event),
{
}

} // verus!
