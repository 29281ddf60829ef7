//! Authenticates note-tree roots against the locally selected header chain.
use std::collections::BTreeMap;

use vstd::prelude::*;
use zakura_chain::parameters::Network;

use crate::bytes::same_hash;
use crate::chain::{
    orchard_root, root_of_orchard, root_of_sapling, sapling_root, spelled_chain_state, ChainState,
    ChainView, TreeState,
};
use crate::config::Upgrade;
use crate::error::Error;
use crate::network::history::{
    check_ironwood_count, check_ironwood_root, count_refusal, every_height_has_a_start,
    header_hash, history_extends, history_opens, root_refusal, schedule, successor_commits,
    upgrade_start, BlockData, BlockRoots, BlockView, History, RootsView, Schedule,
};
use crate::network::node::node_activation_height;

verus! {

/// What a block read is for.
pub enum PhaseView {
    /// Whether the last block is still selected.
    Pending,
    /// The block at which the run starts.
    Seed,
    /// The block after the last one.
    Successor,
    /// Whether the block after the last one is still selected.
    Recheck { successor: BlockView },
}

/// A question that waits for a block.
pub struct QueryView {
    pub height: u32,
    pub phase: PhaseView,
}

/// A run of blocks from the start of an upgrade on. Each block but the last is authenticated by
/// the header of the next.
pub struct RunView {
    pub schedule: Schedule,
    pub start: u32,
    pub trail: Seq<BlockView>,
}

/// What a verifier knows: a run of blocks, the Ironwood activation of its network, and a question
/// that it works on.
pub struct VerifierView {
    pub run: RunView,
    pub activation: u32,
    pub query: Option<QueryView>,
}

impl RunView {
    /// The height of the last block.
    pub open spec fn tip(self) -> u32 {
        self.trail.last().height()
    }

    /// Whether the run holds an authenticated block at a height.
    pub open spec fn authenticates(self, height: u32) -> bool {
        self.start <= height && height - self.start < self.trail.len() - 1
    }

    /// The block at a height.
    pub open spec fn block(self, height: u32) -> BlockView {
        self.trail[height - self.start]
    }

    /// The chain history at the end of the run.
    pub open spec fn history(self) -> Seq<BlockView> {
        self.schedule.history(self.trail)
    }

    /// The run without its blocks.
    pub open spec fn cleared(self) -> RunView {
        RunView { trail: seq![], ..self }
    }

    /// The run with one more block.
    pub open spec fn grown(self, block: BlockView) -> RunView {
        RunView { trail: self.trail.push(block), ..self }
    }

    /// Whether a block of the run is where it belongs and has no Ironwood notes before Ironwood,
    /// whether it follows the block before it, and whether its header commits to the chain
    /// history at that block.
    pub open spec fn links(self, i: int) -> bool {
        &&& self.trail[i].is_regular()
        &&& self.trail[i].height() == self.start + i
        &&& self.schedule.keeps_ironwood_empty(self.trail[i])
        &&& i > 0 ==> {
            &&& self.trail[i].previous() == self.trail[i - 1].hash()
            &&& successor_commits(
                self.schedule,
                self.schedule.history(self.trail.take(i)),
                self.trail[i],
            ) is Ok
        }
    }

    /// Whether every block of the run is linked, and the run starts with an upgrade.
    pub open spec fn is_linked(self) -> bool {
        &&& forall|i: int| 0 <= i < self.trail.len() ==> #[trigger] self.links(i)
        &&& self.start < u32::MAX ==> self.schedule.points.contains_key(self.start)
    }

    /// Whether a block was checked as the one that follows the run.
    pub open spec fn admits(self, block: BlockView) -> bool {
        &&& self.trail.len() > 0
        &&& block.is_regular()
        &&& block.height() == self.tip() + 1
        &&& block.previous() == self.trail.last().hash()
        &&& self.schedule.keeps_ironwood_empty(block)
        &&& successor_commits(self.schedule, self.history(), block) is Ok
        &&& history_extends(self.schedule, self.history(), block) is Ok
    }
}

/// Whether the block at a height is authenticated to have a hash and roots: a linked run on the
/// schedule authenticates a block there that has them.
pub open spec fn is_authenticated(
    schedule: Schedule,
    height: u32,
    hash: Seq<u8>,
    roots: RootsView,
) -> bool {
    exists|run: RunView| #[trigger]
        run.authenticates(height) && run.is_linked() && run.schedule == schedule && run.block(
            height,
        ).hash() == hash && run.block(height).roots() == roots
}

/// Why a question is refused, with what the check says that refuses it.
pub enum Refusal {
    RootNotEmpty { detail: Seq<char> },
    CountNotZero { detail: Seq<char> },
    History { detail: Seq<char> },
    Branch,
    Commitment { height: u32, detail: Seq<char> },
}

impl Refusal {
    /// Whether an error reports the refusal.
    pub open spec fn is_reported_by(self, error: Error) -> bool {
        match self {
            Refusal::RootNotEmpty { detail } => error matches Error::IronwoodRootNotEmpty {
                detail: told,
            } && told@ == detail,
            Refusal::CountNotZero { detail } => error matches Error::IronwoodCountNotZero {
                detail: told,
            } && told@ == detail,
            Refusal::History { detail } => error matches Error::HistoryRejected { detail: told }
                && told@ == detail,
            Refusal::Branch => error is BranchChanged,
            Refusal::Commitment { height, detail } => error matches Error::CommitmentRejected {
                height: refused,
                detail: told,
            } && refused == height && told@ == detail,
        }
    }
}

/// How a question goes on.
pub enum Outcome {
    Read { height: u32 },
    Done { hash: Seq<u8>, roots: RootsView },
    Refused { refusal: Refusal },
}

impl VerifierView {
    /// The height that a waiting question asks to be read.
    pub open spec fn asked(self) -> u32 {
        match self.query->Some_0.phase {
            PhaseView::Pending => self.run.tip(),
            PhaseView::Seed => self.run.start,
            PhaseView::Successor => (self.run.tip() + 1) as u32,
            PhaseView::Recheck { successor } => successor.height(),
        }
    }

    /// The verifier with a question that waits for a block.
    pub open spec fn asking(self, height: u32, phase: PhaseView) -> (VerifierView, Outcome) {
        let next = VerifierView { query: Some(QueryView { height, phase }), ..self };
        (next, Outcome::Read { height: next.asked() })
    }

    /// The verifier with its question refused.
    pub open spec fn refusing(self, refusal: Refusal) -> (VerifierView, Outcome) {
        (VerifierView { query: None, ..self }, Outcome::Refused { refusal })
    }

    /// The verifier with its question answered by a block.
    pub open spec fn answering(self, block: BlockView) -> (VerifierView, Outcome) {
        (
            VerifierView { query: None, ..self },
            Outcome::Done { hash: block.hash(), roots: block.roots() },
        )
    }

    /// The verifier with another run.
    pub open spec fn with(self, run: RunView) -> VerifierView {
        VerifierView { run, ..self }
    }

    /// How a question goes on once the last block is known to be selected.
    pub open spec fn resumed(self, height: u32) -> (VerifierView, Outcome) {
        if self.run.authenticates(height) {
            self.answering(self.run.block(height))
        } else if self.run.trail.len() == 0 {
            self.asking(height, PhaseView::Seed)
        } else {
            self.asking(height, PhaseView::Successor)
        }
    }

    /// The verifier with a run that can hold a height.
    pub open spec fn reaching(self, height: u32) -> VerifierView {
        if height < self.run.start {
            self.with(RunView { start: self.run.schedule.start(height), ..self.run.cleared() })
        } else {
            self
        }
    }

    /// Whether a height is too low to be asked for: the roots are authenticated from the block
    /// before the Ironwood activation on.
    pub open spec fn refuses(self, height: u32) -> bool {
        height + 1 < self.activation
    }

    /// The verifier with the question for the roots at a height begun.
    pub open spec fn begun(self, height: u32) -> VerifierView {
        if self.refuses(height) {
            VerifierView { query: None, ..self }
        } else if self.reaching(height).run.trail.len() == 0 {
            self.reaching(height).asking(height, PhaseView::Seed).0
        } else {
            self.reaching(height).asking(height, PhaseView::Pending).0
        }
    }

    /// Whether a block keeps the Ironwood pool empty before Ironwood, or what it does instead.
    pub open spec fn pinned(self, block: BlockView) -> Option<Refusal> {
        let inactive = !self.run.schedule.active(Upgrade::Nu6_3, block.height());
        if inactive && block.roots().ironwood_root != orchard_root(Seq::<u8>::empty()) {
            Some(Refusal::RootNotEmpty { detail: root_refusal(block.roots().ironwood_root) })
        } else if inactive && block.roots().ironwood_tx != 0 {
            Some(Refusal::CountNotZero { detail: count_refusal(block.roots().ironwood_tx) })
        } else {
            None
        }
    }

    /// How a question goes on after the block that starts the run was read.
    pub open spec fn seeded(self, height: u32, block: BlockView) -> (VerifierView, Outcome) {
        match self.pinned(block) {
            Some(refusal) => self.refusing(refusal),
            None => match history_opens(self.run.schedule, block) {
                Err(detail) => self.refusing(Refusal::History { detail }),
                Ok(_) => self.with(self.run.grown(block)).asking(height, PhaseView::Successor),
            },
        }
    }

    /// Whether a block names the last one of the run, and its header commits to the history.
    pub open spec fn linked(self, block: BlockView) -> Option<Refusal> {
        if block.previous() != self.run.trail.last().hash() {
            Some(Refusal::Branch)
        } else {
            match successor_commits(self.run.schedule, self.run.history(), block) {
                Err(detail) => Some(Refusal::Commitment { height: block.height(), detail }),
                Ok(_) => None,
            }
        }
    }

    /// How a question goes on after the block that follows the run was read.
    pub open spec fn followed(self, height: u32, block: BlockView) -> (VerifierView, Outcome) {
        match self.linked(block) {
            Some(refusal) => self.refusing(refusal),
            None => match history_extends(self.run.schedule, self.run.history(), block) {
                Err(detail) => self.refusing(Refusal::History { detail }),
                Ok(_) => self.asking(height, PhaseView::Recheck { successor: block }),
            },
        }
    }

    /// Whether the waiting question can go on with the block that it asks for: where it would add
    /// the block to the chain history, the history can add it up.
    pub open spec fn takes(self, block: BlockView) -> bool {
        match self.query->Some_0.phase {
            PhaseView::Seed => self.pinned(block) is None ==> self.run.schedule.adds_up(
                seq![],
                block,
            ),
            PhaseView::Successor => self.linked(block) is None ==> self.run.schedule.adds_up(
                self.run.history(),
                block,
            ),
            _ => true,
        }
    }

    /// How a question goes on after the block that follows the run was read again.
    pub open spec fn confirmed(
        self,
        height: u32,
        successor: BlockView,
        block: BlockView,
    ) -> (VerifierView, Outcome) {
        if block.hash() != successor.hash() {
            self.refusing(Refusal::Branch)
        } else if self.run.tip() == height {
            self.with(self.run.grown(successor)).answering(self.run.trail.last())
        } else {
            self.with(self.run.grown(successor)).asking(height, PhaseView::Successor)
        }
    }

    /// How the waiting question goes on when the block that it asks for is read.
    pub open spec fn supplied(self, block: BlockView) -> (VerifierView, Outcome) {
        let height = self.query->Some_0.height;
        match self.query->Some_0.phase {
            PhaseView::Pending => if block.hash() == self.run.trail.last().hash() {
                self.resumed(height)
            } else {
                self.with(self.run.cleared()).resumed(height)
            },
            PhaseView::Seed => self.seeded(height, block),
            PhaseView::Successor => self.followed(height, block),
            PhaseView::Recheck { successor } => self.confirmed(height, successor, block),
        }
    }

    /// How the waiting question goes on with a number of reads from a branch of blocks, unless it
    /// comes to an end before.
    pub open spec fn reading(self, branch: spec_fn(u32) -> BlockView, reads: nat) -> (
        VerifierView,
        Outcome,
    )
        decreases reads,
    {
        if reads == 0 {
            (self, Outcome::Read { height: self.asked() })
        } else {
            let (state, outcome) = self.reading(branch, (reads - 1) as nat);
            if outcome is Read {
                state.supplied(branch(state.asked()))
            } else {
                (state, outcome)
            }
        }
    }

    /// Whether, from a height on, a question works on blocks of a branch alone.
    spec fn follows(self, height: u32, branch: spec_fn(u32) -> BlockView) -> bool {
        &&& self.run.start <= height
        &&& forall|i: int|
            0 <= i < self.run.trail.len() ==> (#[trigger] self.run.trail[i]).height()
                == self.run.start + i
        &&& self.query matches Some(query) && query.height == height && match query.phase {
            PhaseView::Pending => {
                &&& self.run.trail.len() > 0
                &&& forall|i: int|
                    0 <= i < self.run.trail.len() && self.run.start + i >= height ==> (
                    #[trigger] self.run.trail[i]).hash() != branch(
                        (self.run.start + i) as u32,
                    ).hash()
            },
            PhaseView::Seed => self.run.trail.len() == 0,
            PhaseView::Successor => self.is_on(height, branch),
            PhaseView::Recheck { successor } => {
                &&& self.is_on(height, branch)
                &&& self.run.tip() < height ==> successor == branch((self.run.tip() + 1) as u32)
            },
        }
    }

    /// Whether the run ends at a height or before, and from that height on is one of a branch.
    spec fn is_on(self, height: u32, branch: spec_fn(u32) -> BlockView) -> bool {
        &&& self.run.trail.len() > 0
        &&& self.run.tip() <= height
        &&& self.run.tip() == height ==> self.run.trail.last() == branch(height)
    }

    /// Whether the state is one that a verifier can be in.
    pub open spec fn is_sound(self) -> bool {
        &&& self.run.is_linked()
        &&& self.run.schedule.is_known()
        &&& self.run.schedule.heights.contains_key(Upgrade::Nu6_3)
        &&& self.activation == self.run.schedule.heights[Upgrade::Nu6_3]
        &&& self.query matches Some(query) ==> query.height >= self.run.start && match query.phase {
            PhaseView::Pending => self.run.trail.len() > 0,
            PhaseView::Seed => self.run.trail.len() == 0,
            PhaseView::Successor => self.run.trail.len() > 0 && self.run.tip() <= query.height,
            PhaseView::Recheck { successor } => self.run.admits(successor) && self.run.tip()
                <= query.height,
        }
    }
}

/// The chain history at the end of a run ends with its last block from Heartwood on, and holds
/// nothing before.
proof fn history_follows_the_run(run: RunView)
    requires
        run.is_linked(),
    ensures
        run.trail.len() == 0 ==> run.history().len() == 0,
        run.trail.len() > 0 ==> (run.history().len() > 0 <==> run.schedule.active(
            Upgrade::Heartwood,
            run.tip(),
        )),
        run.history().len() > 0 ==> run.history().last() == run.trail.last(),
    decreases run.trail.len(),
{
    if run.trail.len() > 0 {
        let shorter = RunView { trail: run.trail.drop_last(), ..run };
        assert forall|i: int| 0 <= i < shorter.trail.len() implies #[trigger] shorter.links(i) by {
            assert(run.links(i));
            assert(shorter.trail.take(i) =~= run.trail.take(i));
        }
        assert(run.links(run.trail.len() - 1));
        if run.trail.len() > 1 {
            assert(run.links(run.trail.len() - 2));
        }
        history_follows_the_run(shorter);
    }
}

/// A run stays linked when a block follows it that was checked against its history.
proof fn run_grows(run: RunView, block: BlockView)
    requires
        run.is_linked(),
        run.trail.len() > 0 ==> run.admits(block),
        run.trail.len() == 0 ==> block.is_regular() && block.height() == run.start
            && run.schedule.keeps_ironwood_empty(block),
    ensures
        run.grown(block).is_linked(),
        run.grown(block).history() == run.schedule.pushed(run.history(), block),
{
    let longer = run.grown(block);
    assert(longer.trail.drop_last() =~= run.trail);
    if run.trail.len() > 0 {
        assert(run.links(run.trail.len() - 1));
    }
    assert forall|i: int| 0 <= i < longer.trail.len() implies #[trigger] longer.links(i) by {
        if i < run.trail.len() {
            assert(run.links(i));
            assert(longer.trail.take(i) =~= run.trail.take(i));
        } else {
            assert(longer.trail.take(i) =~= run.trail);
        }
    }
}

/// How a question for authenticated roots goes on.
pub enum RootsStep {
    /// The block at a height is to be read and supplied.
    Read { height: u32 },
    /// The question is answered.
    Done { hash: [u8; 32], roots: BlockRoots },
}

impl Outcome {
    /// Whether a step reports the outcome.
    pub open spec fn is_reported_by(self, step: Result<RootsStep, Error>) -> bool {
        match self {
            Outcome::Read { height } => step matches Ok(RootsStep::Read { height: read }) && read
                == height,
            Outcome::Done { hash, roots } => step matches Ok(
                RootsStep::Done { hash: found, roots: known },
            ) && found@ == hash && known@ == roots,
            Outcome::Refused { refusal } => step matches Err(error) && refusal.is_reported_by(
                error,
            ),
        }
    }
}

/// A block hash and its authenticated roots.
#[derive(Clone, Copy)]
struct Authenticated {
    hash: [u8; 32],
    roots: BlockRoots,
}

enum Phase {
    Pending,
    Seed,
    Successor,
    Recheck { successor: BlockData, history: History },
}

struct Query {
    height: u32,
    phase: Phase,
}

impl Phase {
    spec fn view(self) -> PhaseView {
        match self {
            Phase::Pending => PhaseView::Pending,
            Phase::Seed => PhaseView::Seed,
            Phase::Successor => PhaseView::Successor,
            Phase::Recheck { successor, history } => PhaseView::Recheck { successor: successor@ },
        }
    }
}

/// Authenticates note-tree roots against the headers that the node has selected.
pub struct RootVerifier {
    network: Network,
    activation: u32,
    start: u32,
    pending: Option<(BlockData, History)>,
    verified: BTreeMap<u32, Authenticated>,
    query: Option<Query>,
    trail: Ghost<Seq<BlockView>>,
}

impl View for RootVerifier {
    type V = VerifierView;

    closed spec fn view(&self) -> VerifierView {
        VerifierView {
            run: RunView {
                schedule: schedule(self.network),
                start: self.start,
                trail: self.trail@,
            },
            activation: self.activation,
            query: match self.query {
                None => None,
                Some(query) => Some(QueryView { height: query.height, phase: query.phase@ }),
            },
        }
    }
}

impl RootVerifier {
    spec fn holds_trail(self) -> bool {
        &&& match self.pending {
            None => self.trail@.len() == 0,
            Some((block, history)) => {
                &&& self.trail@.len() > 0
                &&& block.wf()
                &&& block@ == self.trail@.last()
                &&& history.blocks() == self@.run.history()
                &&& history.wf(self.network)
            },
        }
        &&& forall|height: u32| #[trigger]
            self.verified@.contains_key(height) <==> self@.run.authenticates(height)
        &&& forall|height: u32| #[trigger]
            self.verified@.contains_key(height) ==> {
                &&& self.verified@[height].hash@ == self@.run.block(height).hash()
                &&& self.verified@[height].roots@ == self@.run.block(height).roots()
            }
    }

    /// Whether the verifier holds what its state says, and the state is sound.
    pub closed spec fn wf(self) -> bool {
        &&& self@.is_sound()
        &&& self.holds_trail()
        &&& self.query matches Some(query) ==> (query.phase matches Phase::Recheck {
            successor,
            history,
        } ==> {
            &&& successor.wf()
            &&& history.blocks() == schedule(self.network).pushed(
                self@.run.history(),
                successor@,
            )
            &&& history.wf(self.network)
        })
    }

    /// What the invariant of a verifier says of its state.
    pub proof fn wf_is_sound(self)
        requires
            self.wf(),
        ensures
            self@.is_sound(),
    {
    }

    /// A verifier for a network. There is none where the network has no Ironwood activation.
    pub fn new(network: Network) -> (verifier: Result<RootVerifier, Error>)
        requires
            schedule(network).is_known(),
        ensures
            match verifier {
                Ok(verifier) => {
                    &&& verifier.wf()
                    &&& schedule(network).heights.contains_key(Upgrade::Nu6_3)
                    &&& verifier@ == (VerifierView {
                        run: RunView {
                            schedule: schedule(network),
                            start: u32::MAX,
                            trail: seq![],
                        },
                        activation: schedule(network).heights[Upgrade::Nu6_3],
                        query: None,
                    })
                },
                Err(error) => error is IronwoodNotActivated && !schedule(
                    network,
                ).heights.contains_key(Upgrade::Nu6_3),
            },
    {
        let activation: u32 = match node_activation_height(&network, Upgrade::Nu6_3) {
            Some(activation) => activation,
            None => return Err(Error::IronwoodNotActivated),
        };
        Ok(
            RootVerifier {
                network,
                activation,
                start: u32::MAX,
                pending: None,
                verified: BTreeMap::new(),
                query: None,
                trail: Ghost(Seq::empty()),
            },
        )
    }

    fn forget(&mut self)
        requires
            old(self)@.is_sound(),
            old(self)@.query is None,
        ensures
            final(self).wf(),
            final(self)@ == old(self)@.with(old(self)@.run.cleared()),
    {
        self.pending = None;
        self.verified.clear();
        self.trail = Ghost(Seq::empty());
    }

    fn ask_successor(&mut self, height: u32) -> (step: Result<RootsStep, Error>)
        requires
            old(self).wf(),
            old(self)@.query is None,
            old(self)@.run.trail.len() > 0,
            old(self)@.run.start <= height,
            old(self)@.run.tip() <= height,
        ensures
            final(self).wf(),
            final(self)@ == old(self)@.asking(height, PhaseView::Successor).0,
            old(self)@.asking(height, PhaseView::Successor).1.is_reported_by(step),
    {
        let tip: u32 = match &self.pending {
            Some((block, _)) => {
                proof {
                    block.wf_is_regular();
                }
                block.height()
            },
            None => 0,
        };
        self.query = Some(Query { height, phase: Phase::Successor });
        Ok(RootsStep::Read { height: tip + 1 })
    }

    fn resume(&mut self, height: u32) -> (step: Result<RootsStep, Error>)
        requires
            old(self).wf(),
            old(self)@.query is None,
            old(self)@.run.start <= height,
        ensures
            final(self).wf(),
            final(self)@ == old(self)@.resumed(height).0,
            old(self)@.resumed(height).1.is_reported_by(step),
    {
        match self.verified.get(&height) {
            Some(known) => return Ok(RootsStep::Done { hash: known.hash, roots: known.roots }),
            None => {},
        }
        if self.pending.is_none() {
            self.query = Some(Query { height, phase: Phase::Seed });
            Ok(RootsStep::Read { height: self.start })
        } else {
            assert(self@.run.links(self@.run.trail.len() - 1));
            self.ask_successor(height)
        }
    }

    /// Asks for the roots at a height, and returns the height of the block to be supplied first.
    pub fn roots(&mut self, height: u32) -> (read: Result<u32, Error>)
        requires
            old(self).wf(),
        ensures
            final(self).wf(),
            final(self)@ == old(self)@.begun(height),
            if old(self)@.refuses(height) {
                read == Err::<u32, Error>(Error::BirthdayBeforeIronwood)
            } else {
                read == Ok::<u32, Error>(final(self)@.asked())
            },
    {
        self.query = None;
        if height < self.activation.saturating_sub(1) {
            return Err(Error::BirthdayBeforeIronwood);
        }
        if height < self.start {
            let start: u32 = upgrade_start(&self.network, height);
            proof {
                let chosen = self@.run.schedule.start(height);
                assert(self@.run.schedule.is_start(height, start));
                assert(self@.run.schedule.is_start(height, chosen));
                assert(chosen == start);
            }
            self.forget();
            self.start = start;
        }
        match &self.pending {
            Some((block, _)) => {
                let tip: u32 = block.height();
                self.query = Some(Query { height, phase: Phase::Pending });
                Ok(tip)
            },
            None => {
                self.query = Some(Query { height, phase: Phase::Seed });
                Ok(self.start)
            },
        }
    }

    fn seed(&mut self, height: u32, data: BlockData) -> (step: Result<RootsStep, Error>)
        requires
            old(self).wf(),
            old(self)@.query is None,
            old(self)@.run.trail.len() == 0,
            old(self)@.run.start <= height,
            data.wf(),
            data@.height() == old(self)@.run.start,
            old(self)@.pinned(data@) is None ==> old(self)@.run.schedule.adds_up(seq![], data@),
        ensures
            final(self).wf(),
            final(self)@ == old(self)@.seeded(height, data@).0,
            old(self)@.seeded(height, data@).1.is_reported_by(step),
    {
        match check_ironwood_root(&self.network, &data) {
            Ok(()) => {},
            Err(detail) => return Err(Error::IronwoodRootNotEmpty { detail }),
        }
        match check_ironwood_count(&self.network, &data) {
            Ok(()) => {},
            Err(detail) => return Err(Error::IronwoodCountNotZero { detail }),
        }
        let history = match History::open(&self.network, &data) {
            Ok(history) => history,
            Err(detail) => return Err(Error::HistoryRejected { detail }),
        };
        proof {
            data.wf_is_regular();
            run_grows(self@.run, data@);
        }
        self.trail = Ghost(self.trail@.push(data@));
        self.pending = Some((data, history));
        self.ask_successor(height)
    }

    fn follow(&mut self, height: u32, data: BlockData) -> (step: Result<RootsStep, Error>)
        requires
            old(self).wf(),
            old(self)@.query is None,
            old(self)@.run.trail.len() > 0,
            old(self)@.run.start <= height,
            old(self)@.run.tip() <= height,
            data.wf(),
            data@.height() == old(self)@.run.tip() + 1,
            old(self)@.linked(data@) is None ==> old(self)@.run.schedule.adds_up(
                old(self)@.run.history(),
                data@,
            ),
        ensures
            final(self).wf(),
            final(self)@ == old(self)@.followed(height, data@).0,
            old(self)@.followed(height, data@).1.is_reported_by(step),
    {
        let read: u32 = data.height();
        let history = match &self.pending {
            None => return Err(Error::BranchChanged),
            Some((block, history)) => {
                if !same_hash(&data.previous(), &block.hash()) {
                    return Err(Error::BranchChanged);
                }
                match history.check_successor(&self.network, &data) {
                    Ok(()) => {},
                    Err(detail) => return Err(Error::CommitmentRejected { height: read, detail }),
                }
                proof {
                    history_follows_the_run(self@.run);
                    data.wf_is_regular();
                }
                match history.extended(&self.network, &data) {
                    Ok(history) => history,
                    Err(detail) => return Err(Error::HistoryRejected { detail }),
                }
            },
        };
        self.query = Some(Query { height, phase: Phase::Recheck { successor: data, history } });
        Ok(RootsStep::Read { height: read })
    }

    fn confirm(
        &mut self,
        height: u32,
        successor: BlockData,
        history: History,
        data: BlockData,
    ) -> (step: Result<RootsStep, Error>)
        requires
            old(self).wf(),
            old(self)@.query is None,
            old(self)@.run.admits(successor@),
            old(self)@.run.start <= height,
            old(self)@.run.tip() <= height,
            successor.wf(),
            history.blocks() == old(self)@.run.schedule.pushed(
                old(self)@.run.history(),
                successor@,
            ),
            history.wf(old(self).network),
            data.wf(),
        ensures
            final(self).wf(),
            final(self)@ == old(self)@.confirmed(height, successor@, data@).0,
            old(self)@.confirmed(height, successor@, data@).1.is_reported_by(step),
    {
        if !same_hash(&data.hash(), &successor.hash()) {
            return Err(Error::BranchChanged);
        }
        let (confirmed_height, confirmed) = match &self.pending {
            None => return Err(Error::BranchChanged),
            Some((block, _)) => (
                block.height(),
                Authenticated { hash: block.hash(), roots: block.roots() },
            ),
        };
        proof {
            run_grows(self@.run, successor@);
            assert(self@.run.links(self@.run.trail.len() - 1));
        }
        self.verified.insert(confirmed_height, confirmed);
        self.trail = Ghost(self.trail@.push(successor@));
        self.pending = Some((successor, history));
        if confirmed_height == height {
            Ok(RootsStep::Done { hash: confirmed.hash, roots: confirmed.roots })
        } else {
            self.ask_successor(height)
        }
    }

    /// Whether the waiting question can go on with the block that it asks for.
    pub fn takes(&self, data: &BlockData) -> (takes: bool)
        requires
            self.wf(),
            self@.query is Some,
            data.wf(),
        ensures
            takes == self@.takes(data@),
    {
        match &self.query {
            Some(Query { phase: Phase::Seed, .. }) => {
                History::starts(&self.network, data) || check_ironwood_root(
                    &self.network,
                    data,
                ).is_err() || check_ironwood_count(&self.network, data).is_err()
            },
            Some(Query { phase: Phase::Successor, .. }) => match &self.pending {
                None => true,
                Some((block, history)) => {
                    history.continues(&self.network, data) || !same_hash(
                        &data.previous(),
                        &block.hash(),
                    ) || history.check_successor(&self.network, data).is_err()
                },
            },
            _ => true,
        }
    }

    /// Whether the waiting question is answered with the block that it asks for.
    pub fn answers(&self, data: &BlockData) -> (answers: bool)
        requires
            self.wf(),
            self@.query is Some,
            data.wf(),
            self@.takes(data@),
        ensures
            answers == (self@.supplied(data@).1 is Done),
    {
        match (&self.query, &self.pending) {
            (Some(Query { height, phase: Phase::Pending }), Some((block, _))) => {
                same_hash(&data.hash(), &block.hash()) && self.verified.contains_key(height)
            },
            (Some(Query { height, phase: Phase::Recheck { successor, .. } }), Some((block, _))) => {
                same_hash(&data.hash(), &successor.hash()) && block.height() == *height
            },
            _ => false,
        }
    }

    /// Supplies the block that the waiting question asks for.
    pub fn supply(&mut self, data: BlockData) -> (step: Result<RootsStep, Error>)
        requires
            old(self).wf(),
            old(self)@.query is Some,
            data.wf(),
            data@.height() == old(self)@.asked(),
            old(self)@.takes(data@),
        ensures
            final(self).wf(),
            final(self)@ == old(self)@.supplied(data@).0,
            old(self)@.supplied(data@).1.is_reported_by(step),
    {
        let query = match self.query.take() {
            Some(query) => query,
            None => return Err(Error::BranchChanged),
        };
        assert(self.wf());
        proof {
            data.wf_is_regular();
            if self@.run.trail.len() > 0 {
                assert(self@.run.links(self@.run.trail.len() - 1));
            }
        }
        match query.phase {
            Phase::Pending => {
                let selected = match &self.pending {
                    Some((block, _)) => same_hash(&data.hash(), &block.hash()),
                    None => false,
                };
                if !selected {
                    self.forget();
                }
                self.resume(query.height)
            },
            Phase::Seed => self.seed(query.height, data),
            Phase::Successor => self.follow(query.height, data),
            Phase::Recheck { successor, history } => {
                self.confirm(query.height, successor, history, data)
            },
        }
    }

    /// Asks for the roots at the height of a provider's tree state. Its frontiers are then
    /// checked by [`authenticated_chain_state`].
    pub fn tree_state(&mut self, tree: &TreeState) -> (read: Result<u32, Error>)
        requires
            old(self).wf(),
        ensures
            final(self).wf(),
            if tree.height > u32::MAX {
                final(self)@ == old(self)@ && read == Err::<u32, Error>(Error::TreeHeight)
            } else {
                &&& final(self)@ == old(self)@.begun(tree.height as u32)
                &&& if old(self)@.refuses(tree.height as u32) {
                    read == Err::<u32, Error>(Error::BirthdayBeforeIronwood)
                } else {
                    read == Ok::<u32, Error>(final(self)@.asked())
                }
            },
    {
        if tree.height > 0xffff_ffff {
            return Err(Error::TreeHeight);
        }
        self.roots(tree.height as u32)
    }
}

/// Why a chain state does not belong to a block with given roots, if it does not.
pub open spec fn frontier_fault(chain: ChainView, hash: Seq<u8>, roots: RootsView) -> Option<
    Error,
> {
    if chain.hash != hash {
        Some(Error::TreeStateHash)
    } else if sapling_root(chain.trees.sapling) != roots.sapling_root {
        Some(Error::SaplingFrontier)
    } else if orchard_root(chain.trees.orchard) != roots.orchard_root {
        Some(Error::OrchardFrontier)
    } else if orchard_root(chain.trees.ironwood) != roots.ironwood_root {
        Some(Error::IronwoodFrontier)
    } else {
        None
    }
}

/// Checks a chain state against a block and its roots.
pub fn check_frontiers(chain: &ChainState, hash: &[u8; 32], roots: &BlockRoots) -> (checked: Result<
    (),
    Error,
>)
    ensures
        match frontier_fault(chain@, hash@, roots@) {
            Some(fault) => checked == Err::<(), Error>(fault),
            None => checked is Ok,
        },
{
    if !same_hash(&chain.hash, hash) {
        return Err(Error::TreeStateHash);
    }
    if !same_hash(&root_of_sapling(&chain.sapling), &roots.sapling_root) {
        return Err(Error::SaplingFrontier);
    }
    if !same_hash(&root_of_orchard(&chain.orchard), &roots.orchard_root) {
        return Err(Error::OrchardFrontier);
    }
    if !same_hash(&root_of_orchard(&chain.ironwood), &roots.ironwood_root) {
        return Err(Error::IronwoodFrontier);
    }
    Ok(())
}

/// Parses a provider's tree state and checks it against the authenticated roots of its block.
pub fn authenticated_chain_state(tree: &TreeState, hash: &[u8; 32], roots: &BlockRoots) -> (chain:
    Result<ChainState, Error>)
    requires
        tree@.is_sound(),
    ensures
        match spelled_chain_state(tree@) {
            Err(detail) => chain matches Err(Error::TreeStateInvalid { detail: told }) && told@
                == detail,
            Ok(spelled) => match frontier_fault(spelled, hash@, roots@) {
                Some(fault) => chain matches Err(error) && error == fault,
                None => chain matches Ok(chain) && chain@ == spelled && chain.height
                    == tree.height,
            },
        },
{
    match tree.to_chain_state() {
        Err(error) => Err(error),
        Ok(chain) => match check_frontiers(&chain, hash, roots) {
            Ok(()) => Ok(chain),
            Err(error) => Err(error),
        },
    }
}

/// A question is answered only with the block of the run at the asked height, which is then
/// authenticated.
pub proof fn answers_are_authenticated(state: VerifierView, block: BlockView)
    requires
        state.is_sound(),
        state.query is Some,
        state.supplied(block).1 is Done,
    ensures
        ({
            let height = state.query->Some_0.height;
            let (next, outcome) = state.supplied(block);
            &&& next.run.is_linked()
            &&& next.run.schedule == state.run.schedule
            &&& next.run.authenticates(height)
            &&& outcome->hash == next.run.block(height).hash()
            &&& outcome->roots == next.run.block(height).roots()
            &&& is_authenticated(state.run.schedule, height, outcome->hash, outcome->roots)
        }),
{
    if state.run.trail.len() > 0 {
        assert(state.run.links(state.run.trail.len() - 1));
    }
    if let PhaseView::Recheck { successor } = state.query->Some_0.phase {
        run_grows(state.run, successor);
    }
    assert(state.supplied(block).0.run.authenticates(state.query->Some_0.height));
}

/// A block that a run authenticates is at its height, the header of the next block names it and
/// commits to the chain history that ends with it, and before Ironwood it has no Ironwood notes.
pub proof fn authenticated_blocks_are_committed_to(run: RunView, height: u32)
    requires
        run.is_linked(),
        run.authenticates(height),
    ensures
        run.block(height).height() == height,
        run.block((height + 1) as u32).height() == height + 1,
        run.block((height + 1) as u32).previous() == run.block(height).hash(),
        successor_commits(
            run.schedule,
            run.schedule.history(run.trail.take(height - run.start + 1)),
            run.block((height + 1) as u32),
        ) is Ok,
        run.trail.take(height - run.start + 1).last() == run.block(height),
        run.schedule.keeps_ironwood_empty(run.block(height)),
{
    assert(run.links(height - run.start));
    assert(run.links(height - run.start + 1));
}

/// A question comes to an end: each block that is confirmed without answering it brings the run one
/// block closer to the asked height, and never beyond.
pub proof fn confirmed_blocks_bring_the_answer_closer(state: VerifierView, block: BlockView)
    requires
        state.is_sound(),
        state.query matches Some(query) && query.phase is Recheck,
        state.supplied(block).1 is Read,
    ensures
        state.supplied(block).0.run.tip() == state.run.tip() + 1,
        state.supplied(block).0.run.tip() <= state.query->Some_0.height,
{
}

/// Roots that are known already are answered as soon as the last block of the run is seen to be
/// selected still.
pub proof fn known_roots_are_answered_after_one_read(
    state: VerifierView,
    height: u32,
    block: BlockView,
)
    requires
        state.is_sound(),
        !state.refuses(height),
        state.run.authenticates(height),
        block.hash() == state.run.trail.last().hash(),
    ensures
        state.begun(height).asked() == state.run.tip(),
        state.begun(height).supplied(block).1 == (Outcome::Done {
            hash: state.run.block(height).hash(),
            roots: state.run.block(height).roots(),
        }),
        state.begun(height).supplied(block).0.run == state.run,
{
}

/// A verifier keeps to its network.
pub proof fn the_network_is_kept(state: VerifierView, block: BlockView, height: u32)
    ensures
        state.begun(height).run.schedule == state.run.schedule,
        state.begun(height).activation == state.activation,
        state.query is Some ==> state.supplied(block).0.run.schedule == state.run.schedule,
        state.query is Some ==> state.supplied(block).0.activation == state.activation,
{
}

/// A refused question leaves the run of blocks as it was.
pub proof fn refusals_keep_the_run(state: VerifierView, block: BlockView, height: u32)
    ensures
        state.query is Some && state.supplied(block).1 is Refused ==> state.supplied(block).0.run
            == state.run,
        state.refuses(height) ==> state.begun(height).run == state.run,
{
}

/// Where the last block of a run is no longer selected, the whole run is given up before the
/// question goes on.
pub proof fn a_changed_tip_discards_the_run(state: VerifierView, block: BlockView)
    requires
        state.query matches Some(query) && query.phase is Pending,
        block.hash() != state.run.trail.last().hash(),
    ensures
        state.supplied(block).0.run.trail.len() == 0,
        state.supplied(block).1 is Read,
{
}

/// A question goes on with blocks of a branch alone.
proof fn a_read_stays_on_the_branch(
    state: VerifierView,
    height: u32,
    branch: spec_fn(u32) -> BlockView,
)
    requires
        state.follows(height, branch),
        forall|at: u32| (#[trigger] branch(at)).height() == at,
    ensures
        ({
            let (next, outcome) = state.supplied(branch(state.asked()));
            &&& outcome is Read ==> next.follows(height, branch)
            &&& outcome matches Outcome::Done { hash, roots } ==> hash == branch(height).hash()
                && roots == branch(height).roots()
        }),
{
    let block = branch(state.asked());
    let trail = state.run.trail;
    if trail.len() > 0 {
        assert(trail[trail.len() - 1].height() == state.run.start + trail.len() - 1);
    }
}

/// A branch that was left is not answered from: once the selected branch has another block than the
/// run at the asked height and at every height above, a question that only reads blocks of the
/// selected branch is answered, if at all, with the block of that branch.
pub proof fn answers_come_from_the_selected_branch(
    state: VerifierView,
    height: u32,
    branch: spec_fn(u32) -> BlockView,
    reads: nat,
)
    requires
        state.is_sound(),
        !state.refuses(height),
        forall|at: u32| (#[trigger] branch(at)).height() == at,
        forall|i: int|
            0 <= i < state.run.trail.len() && state.run.start + i >= height ==> (
            #[trigger] state.run.trail[i]).hash() != branch((state.run.start + i) as u32).hash(),
    ensures
        state.begun(height).reading(branch, reads).1 matches Outcome::Done { hash, roots } ==> hash
            == branch(height).hash() && roots == branch(height).roots(),
{
    every_height_has_a_start(state.run.schedule, height);
    assert forall|i: int| 0 <= i < state.run.trail.len() implies (
    #[trigger] state.run.trail[i]).height() == state.run.start + i by {
        assert(state.run.links(i));
    }
    reads_stay_on_the_branch(state.begun(height), height, branch, reads);
}

/// A question works on blocks of a branch alone as long as it reads those.
proof fn reads_stay_on_the_branch(
    state: VerifierView,
    height: u32,
    branch: spec_fn(u32) -> BlockView,
    reads: nat,
)
    requires
        state.follows(height, branch),
        forall|at: u32| (#[trigger] branch(at)).height() == at,
    ensures
        ({
            let (next, outcome) = state.reading(branch, reads);
            &&& outcome is Read ==> next.follows(height, branch)
            &&& outcome matches Outcome::Done { hash, roots } ==> hash == branch(height).hash()
                && roots == branch(height).roots()
        }),
    decreases reads,
{
    if reads > 0 {
        reads_stay_on_the_branch(state, height, branch, (reads - 1) as nat);
        let (last, outcome) = state.reading(branch, (reads - 1) as nat);
        if outcome is Read {
            a_read_stays_on_the_branch(last, height, branch);
        }
    }
}

/// A matching block hash is not enough: a chain state with another root in any of its three trees
/// is refused.
pub proof fn a_matching_hash_is_not_enough(chain: ChainView, hash: Seq<u8>, roots: RootsView)
    requires
        frontier_fault(chain, hash, roots) is None,
    ensures
        chain.hash == hash,
        sapling_root(chain.trees.sapling) == roots.sapling_root,
        orchard_root(chain.trees.orchard) == roots.orchard_root,
        orchard_root(chain.trees.ironwood) == roots.ironwood_root,
{
}

/// The blocks of a branch from a height on and before another one.
pub open spec fn stretch(branch: spec_fn(u32) -> BlockView, start: u32, end: int) -> Seq<
    BlockView,
> {
    Seq::new((end - start) as nat, |i: int| branch((start + i) as u32))
}

/// Whether a block of a branch, or the first one from `start` on, is where it belongs and can be
/// added up with those before it.
pub open spec fn is_in_place(
    schedule: Schedule,
    branch: spec_fn(u32) -> BlockView,
    start: u32,
    at: u32,
) -> bool {
    &&& branch(at).is_regular()
    &&& branch(at).height() == at
    &&& schedule.adds_up(schedule.history(stretch(branch, start, at as int)), branch(at))
}

/// Whether a block of a branch names the one before it, its header commits to the chain history
/// from `start` up to there, and the history can take it.
pub open spec fn is_committed(
    schedule: Schedule,
    branch: spec_fn(u32) -> BlockView,
    start: u32,
    at: u32,
) -> bool {
    let history = schedule.history(stretch(branch, start, at as int));
    &&& branch(at).previous() == branch((at - 1) as u32).hash()
    &&& successor_commits(schedule, history, branch(at)) is Ok
    &&& history_extends(schedule, history, branch(at)) is Ok
}

/// Whether a branch is authentic from the start of an upgrade to a height: a chain history opens
/// with its first block, which has no Ironwood notes before Ironwood, and every later one, up to
/// the one after the height, follows and commits to those before it.
pub open spec fn is_authentic(
    schedule: Schedule,
    branch: spec_fn(u32) -> BlockView,
    start: u32,
    height: u32,
) -> bool {
    &&& start <= height < u32::MAX
    &&& history_opens(schedule, branch(start)) is Ok
    &&& schedule.heights[Upgrade::Nu6_3] <= start || {
        &&& branch(start).roots().ironwood_root == orchard_root(Seq::<u8>::empty())
        &&& branch(start).roots().ironwood_tx == 0
    }
    &&& forall|at: u32|
        start <= at <= height + 1 ==> #[trigger] is_in_place(schedule, branch, start, at)
    &&& forall|at: u32|
        start < at <= height + 1 ==> #[trigger] is_committed(schedule, branch, start, at)
}

impl VerifierView {
    /// Whether a question for a height works on a branch from `start` on.
    pub(crate) open spec fn nears(
        self,
        height: u32,
        branch: spec_fn(u32) -> BlockView,
        start: u32,
    ) -> bool {
        let trail = self.run.trail;
        let known = trail == stretch(branch, start, start + trail.len());
        &&& self.run.start == start
        &&& self.run.schedule.heights.contains_key(Upgrade::Nu6_3)
        &&& self.query matches Some(query) && query.height == height && match query.phase {
            PhaseView::Pending => {
                &&& trail.len() > 0
                &&& trail.last().height() == start + trail.len() - 1
                &&& start + trail.len() - 1 <= u32::MAX
                &&& known || trail.last().hash() != branch(
                    (start + trail.len() - 1) as u32,
                ).hash()
            },
            PhaseView::Seed => trail.len() == 0,
            PhaseView::Successor => {
                &&& trail.len() > 0
                &&& start + trail.len() - 1 <= height
                &&& known
            },
            PhaseView::Recheck { successor } => {
                &&& trail.len() > 0
                &&& start + trail.len() - 1 <= height
                &&& known
                &&& successor == branch((start + trail.len()) as u32)
            },
        }
    }

    /// Whether the run is one of a branch from `start` on.
    pub(crate) open spec fn keeps_to(self, branch: spec_fn(u32) -> BlockView, start: u32) -> bool {
        let trail = self.run.trail;
        &&& self.run.start == start
        &&& self.run.schedule.heights.contains_key(Upgrade::Nu6_3)
        &&& trail.len() > 0
        &&& trail == stretch(branch, start, start + trail.len())
        &&& trail.last().height() == start + trail.len() - 1
        &&& start + trail.len() - 1 <= u32::MAX
    }

    /// The number of reads that a question takes at most that works on an authentic branch.
    pub(crate) open spec fn distance(self, height: u32, start: u32) -> int {
        let left = 2 * (height - start - self.run.trail.len());
        match self.query->Some_0.phase {
            PhaseView::Pending => 2 * (height - start) + 4,
            PhaseView::Seed => 2 * (height - start) + 3,
            PhaseView::Successor => left + 4,
            PhaseView::Recheck { .. } => left + 3,
        }
    }

    /// Whether a question ends with the block of a branch at a height after some reads, all of
    /// which it can go on with.
    pub open spec fn is_answered_from(
        self,
        height: u32,
        branch: spec_fn(u32) -> BlockView,
        reads: nat,
    ) -> bool {
        &&& self.reading(branch, reads).1 == (Outcome::Done {
            hash: branch(height).hash(),
            roots: branch(height).roots(),
        })
        &&& forall|i: nat|
            i < reads ==> {
                let state = #[trigger] self.reading(branch, i).0;
                state.takes(branch(state.asked()))
            }
    }
}

/// A read that does not end a question can be counted as the first one.
proof fn a_first_read_counts(
    state: VerifierView,
    branch: spec_fn(u32) -> BlockView,
    reads: nat,
)
    requires
        state.supplied(branch(state.asked())).1 == (Outcome::Read {
            height: state.supplied(branch(state.asked())).0.asked(),
        }),
    ensures
        state.reading(branch, reads + 1) == state.supplied(branch(state.asked())).0.reading(
            branch,
            reads,
        ),
    decreases reads,
{
    reveal_with_fuel(VerifierView::reading, 2);
    if reads > 0 {
        a_first_read_counts(state, branch, (reads - 1) as nat);
    }
}

/// One read from an authentic branch answers a question or brings the answer closer.
pub(crate) proof fn an_authentic_read_helps(
    state: VerifierView,
    height: u32,
    branch: spec_fn(u32) -> BlockView,
    start: u32,
)
    requires
        state.nears(height, branch, start),
        is_authentic(state.run.schedule, branch, start, height),
    ensures
        ({
            let block = branch(state.asked());
            let (next, outcome) = state.supplied(block);
            &&& state.takes(block)
            &&& outcome is Read ==> {
                &&& outcome == (Outcome::Read { height: next.asked() })
                &&& next.nears(height, branch, start)
                &&& next.run.schedule == state.run.schedule
                &&& 0 <= next.distance(height, start) < state.distance(height, start)
            }
            &&& outcome !is Read ==> {
                &&& outcome == (Outcome::Done {
                    hash: branch(height).hash(),
                    roots: branch(height).roots(),
                })
                &&& next.keeps_to(branch, start)
                &&& next.run.schedule == state.run.schedule
            }
            &&& next.activation == state.activation
        }),
{
    let schedule = state.run.schedule;
    let trail = state.run.trail;
    let next = (start + trail.len()) as u32;
    match state.query->Some_0.phase {
        PhaseView::Pending => {},
        PhaseView::Seed => {
            assert(is_in_place(schedule, branch, start, start));
            assert(stretch(branch, start, start as int) =~= seq![]);
            assert(seq![branch(start)] =~= stretch(branch, start, start + 1));
            assert(trail.push(branch(start)) =~= stretch(branch, start, start + 1));
        },
        PhaseView::Successor => {
            assert(is_in_place(schedule, branch, start, (next - 1) as u32));
            assert(is_in_place(schedule, branch, start, next));
            assert(is_committed(schedule, branch, start, next));
        },
        PhaseView::Recheck { successor } => {
            assert(is_in_place(schedule, branch, start, (next - 1) as u32));
            assert(is_in_place(schedule, branch, start, next));
            assert(trail.push(branch(next)) =~= stretch(branch, start, start + trail.len() + 1));
        },
    }
}

/// A branch that is authentic up to a height is so up to every lower one.
pub(crate) proof fn authentic_branches_can_be_cut(
    schedule: Schedule,
    branch: spec_fn(u32) -> BlockView,
    start: u32,
    height: u32,
    lower: u32,
)
    requires
        is_authentic(schedule, branch, start, height),
        start <= lower <= height,
    ensures
        is_authentic(schedule, branch, start, lower),
{
}

/// A question that works on an authentic branch is answered.
proof fn authentic_reads_end(
    state: VerifierView,
    height: u32,
    branch: spec_fn(u32) -> BlockView,
    start: u32,
)
    requires
        state.nears(height, branch, start),
        is_authentic(state.run.schedule, branch, start, height),
    ensures
        exists|reads: nat| #[trigger] state.is_answered_from(height, branch, reads),
    decreases state.distance(height, start),
{
    an_authentic_read_helps(state, height, branch, start);
    let (next, outcome) = state.supplied(branch(state.asked()));
    reveal_with_fuel(VerifierView::reading, 2);
    if outcome is Read {
        authentic_reads_end(next, height, branch, start);
        let rest = choose|reads: nat| #[trigger] next.is_answered_from(height, branch, reads);
        a_first_read_counts(state, branch, rest);
        assert forall|i: nat| i < rest + 1 implies {
            let at = #[trigger] state.reading(branch, i).0;
            at.takes(branch(at.asked()))
        } by {
            if i > 0 {
                a_first_read_counts(state, branch, (i - 1) as nat);
            }
        }
        assert(state.is_answered_from(height, branch, rest + 1));
    } else {
        assert(state.reading(branch, 0).0 == state);
        assert(state.is_answered_from(height, branch, 1));
    }
}

/// Whether the run of a verifier is empty, is one of a branch, or ends with another block than the
/// branch has there.
pub open spec fn can_be_told_apart(state: VerifierView, branch: spec_fn(u32) -> BlockView) -> bool {
    let trail = state.run.trail;
    ||| trail.len() == 0
    ||| trail.last().hash() != branch(trail.last().height()).hash()
    ||| forall|i: int|
        0 <= i < trail.len() ==> #[trigger] trail[i] == branch((state.run.start + i) as u32)
}

/// A question begins on a branch that the run is one of or can be told apart from.
pub(crate) proof fn a_question_begins_on_the_branch(
    state: VerifierView,
    height: u32,
    branch: spec_fn(u32) -> BlockView,
    start: u32,
)
    requires
        state.is_sound(),
        height + 1 >= state.run.schedule.heights[Upgrade::Nu6_3],
        height < state.run.start ==> state.run.schedule.is_start(height, start),
        height >= state.run.start ==> start == state.run.start,
        can_be_told_apart(state, branch),
    ensures
        state.begun(height).nears(height, branch, start),
        state.begun(height).run.schedule == state.run.schedule,
        state.begun(height).activation == state.activation,
{
    every_height_has_a_start(state.run.schedule, height);
    let trail = state.run.trail;
    if trail.len() > 0 {
        assert(state.run.links(trail.len() - 1));
        if trail.last().hash() == branch(trail.last().height()).hash() {
            assert(trail =~= stretch(branch, state.run.start, state.run.start + trail.len()));
        }
    }
}

/// What is authentic is authenticated: on a branch that is authentic from the start of the run to
/// a height, and where the run so far is of that branch or its last block is not, a question for
/// the height is answered after some reads, with the hash and the roots of the block of the branch
/// at that height.
pub proof fn authentic_blocks_are_authenticated(
    state: VerifierView,
    height: u32,
    branch: spec_fn(u32) -> BlockView,
    start: u32,
)
    requires
        state.is_sound(),
        height + 1 >= state.run.schedule.heights[Upgrade::Nu6_3],
        height < state.run.start ==> state.run.schedule.is_start(height, start),
        height >= state.run.start ==> start == state.run.start,
        is_authentic(state.run.schedule, branch, start, height),
        can_be_told_apart(state, branch),
    ensures
        exists|reads: nat| #[trigger]
            state.begun(height).is_answered_from(height, branch, reads),
{
    a_question_begins_on_the_branch(state, height, branch, start);
    authentic_reads_end(state.begun(height), height, branch, start);
}

/// A question is refused at a read successor only where the successor does not name the last
/// block, its header does not commit to the chain history, or the history cannot take it, and then
/// for the first of these reasons. Otherwise the successor is read again.
pub proof fn successors_are_refused_for_a_reason(state: VerifierView, block: BlockView)
    requires
        state.query matches Some(query) && query.phase is Successor,
    ensures
        ({
            let schedule = state.run.schedule;
            let history = schedule.history(state.run.trail);
            let names = block.header.subrange(4, 36) == header_hash(
                state.run.trail.last().header,
            );
            let (next, outcome) = state.supplied(block);
            match (
                successor_commits(schedule, history, block),
                history_extends(schedule, history, block),
            ) {
                _ if !names => outcome == (Outcome::Refused { refusal: Refusal::Branch }),
                (Err(detail), _) => outcome == (Outcome::Refused {
                    refusal: Refusal::Commitment { height: block.height(), detail },
                }),
                (Ok(_), Err(detail)) => outcome == (Outcome::Refused {
                    refusal: Refusal::History { detail },
                }),
                (Ok(_), Ok(_)) => {
                    &&& outcome == (Outcome::Read { height: block.height() })
                    &&& next.run == state.run
                    &&& next.query->Some_0.height == state.query->Some_0.height
                    &&& next.query->Some_0.phase == (PhaseView::Recheck { successor: block })
                },
            }
        }),
{
}

/// A question is refused at the block that starts the run only where that block has Ironwood notes
/// before Ironwood, or no chain history opens with it. Otherwise it starts the run, and the block
/// after it is read.
pub proof fn first_blocks_are_refused_for_a_reason(state: VerifierView, block: BlockView)
    requires
        state.is_sound(),
        state.query matches Some(query) && query.phase is Seed,
        block.height() == state.run.start,
        block.is_regular(),
    ensures
        ({
            let before = block.height() < state.run.schedule.heights[Upgrade::Nu6_3];
            let empty = block.roots().ironwood_root == orchard_root(Seq::<u8>::empty());
            let (next, outcome) = state.supplied(block);
            if before && !empty {
                outcome matches Outcome::Refused { refusal } && refusal is RootNotEmpty
            } else if before && block.roots().ironwood_tx > 0 {
                outcome matches Outcome::Refused { refusal } && refusal is CountNotZero
            } else {
                match history_opens(state.run.schedule, block) {
                    Err(detail) => outcome == (Outcome::Refused {
                        refusal: Refusal::History { detail },
                    }),
                    Ok(_) => {
                        &&& outcome == (Outcome::Read { height: (block.height() + 1) as u32 })
                        &&& next.run.start == state.run.start
                        &&& next.run.trail == seq![block]
                        &&& next.query->Some_0.height == state.query->Some_0.height
                        &&& next.query->Some_0.phase is Successor
                    },
                }
            }
        }),
{
    assert(state.run.trail.push(block) =~= seq![block]);
}

/// A successor that is read again is refused only where it has another hash by then. Otherwise it
/// joins the run: the block before it answers the question for its height, and a question for a
/// higher one goes on with the next block.
pub proof fn confirmed_successors_join_the_run(state: VerifierView, block: BlockView)
    requires
        state.is_sound(),
        state.query matches Some(query) && query.phase is Recheck,
    ensures
        ({
            let successor = state.query->Some_0.phase->successor;
            let last = state.run.trail.last();
            let height = state.query->Some_0.height;
            let (next, outcome) = state.supplied(block);
            if header_hash(block.header) != header_hash(successor.header) {
                outcome == (Outcome::Refused { refusal: Refusal::Branch }) && next.run == state.run
            } else {
                &&& next.run.trail == state.run.trail.push(successor)
                &&& if last.height() == height {
                    outcome == (Outcome::Done { hash: last.hash(), roots: last.roots() })
                } else {
                    outcome == (Outcome::Read { height: (last.height() + 2) as u32 })
                }
            }
        }),
{
}

/// A question that begins with the last block of the run is never refused there: while that block
/// is selected it is answered or goes on where the run ends, and otherwise the run is read anew.
pub proof fn a_begun_question_is_not_refused(state: VerifierView, block: BlockView)
    requires
        state.is_sound(),
        state.query matches Some(query) && query.phase is Pending,
    ensures
        ({
            let height = state.query->Some_0.height;
            let trail = state.run.trail;
            let (next, outcome) = state.supplied(block);
            if header_hash(block.header) != header_hash(trail.last().header) {
                &&& next.run.trail == Seq::<BlockView>::empty()
                &&& outcome == (Outcome::Read { height: state.run.start })
            } else if height < trail.last().height() {
                let known = trail[height - state.run.start];
                &&& known.height() == height
                &&& outcome == (Outcome::Done { hash: known.hash(), roots: known.roots() })
                &&& next.run == state.run
            } else {
                &&& outcome == (Outcome::Read { height: (trail.last().height() + 1) as u32 })
                &&& next.run == state.run
            }
        }),
{
    let trail = state.run.trail;
    let height = state.query->Some_0.height;
    assert(state.run.links(trail.len() - 1));
    if height < trail.last().height() {
        assert(state.run.links(height - state.run.start));
    }
}

/// A question is asked for every height from the block before the Ironwood activation on, and for
/// no lower one. It begins with the last block of the run, or with the block that starts the last
/// upgrade up to the height where the run is empty or starts above it.
pub proof fn questions_are_asked_from_ironwood_on(state: VerifierView, height: u32)
    requires
        state.is_sound(),
    ensures
        ({
            let begun = state.begun(height);
            if height + 1 < state.run.schedule.heights[Upgrade::Nu6_3] {
                begun.query is None && begun.run == state.run
            } else {
                &&& begun.query matches Some(query) && query.height == height
                &&& if height < state.run.start {
                    &&& begun.run.trail == Seq::<BlockView>::empty()
                    &&& state.run.schedule.is_start(height, begun.asked())
                    &&& begun.run.start == begun.asked()
                } else {
                    &&& begun.run == state.run
                    &&& begun.asked() == if state.run.trail.len() == 0 {
                        state.run.start
                    } else {
                        state.run.trail.last().height()
                    }
                }
            }
        }),
{
    every_height_has_a_start(state.run.schedule, height);
}

/// The start of an upgrade is the last height up to the asked one that the activation list holds,
/// and there is only one.
pub proof fn there_is_one_start(schedule: Schedule, height: u32, start: u32)
    requires
        schedule.is_known(),
    ensures
        schedule.start(height) == start <==> schedule.points.contains_key(start) && start <= height
            && forall|point: u32|
            start < point <= height ==> !#[trigger] schedule.points.contains_key(point),
{
    every_height_has_a_start(schedule, height);
    if schedule.is_start(height, start) {
        assert(start == schedule.start(height));
    }
}

/// A chain state is accepted where its hash and the roots of its three trees are those of a block,
/// and otherwise refused for the first of them that is not.
pub proof fn matching_frontiers_are_accepted(chain: ChainView, hash: Seq<u8>, roots: RootsView)
    ensures
        ({
            let same = (
                chain.hash == hash,
                sapling_root(chain.trees.sapling) == roots.sapling_root,
                orchard_root(chain.trees.orchard) == roots.orchard_root,
                orchard_root(chain.trees.ironwood) == roots.ironwood_root,
            );
            frontier_fault(chain, hash, roots) == match same {
                (true, true, true, true) => None,
                (false, _, _, _) => Some(Error::TreeStateHash),
                (true, false, _, _) => Some(Error::SaplingFrontier),
                (true, true, false, _) => Some(Error::OrchardFrontier),
                (true, true, true, false) => Some(Error::IronwoodFrontier),
            }
        }),
{
}

/// A refusal is reported by the error of its own kind, with what the check said.
pub proof fn refusals_are_reported_as_they_are(refusal: Refusal, error: Error)
    ensures
        refusal.is_reported_by(error) <==> match error {
            Error::IronwoodRootNotEmpty { detail } => refusal == (Refusal::RootNotEmpty {
                detail: detail@,
            }),
            Error::IronwoodCountNotZero { detail } => refusal == (Refusal::CountNotZero {
                detail: detail@,
            }),
            Error::HistoryRejected { detail } => refusal == (Refusal::History { detail: detail@ }),
            Error::BranchChanged => refusal == Refusal::Branch,
            Error::CommitmentRejected { height, detail } => refusal == (Refusal::Commitment {
                height,
                detail: detail@,
            }),
            _ => false,
        },
{
}

/// A step reports the outcome that it shows, and no other.
pub proof fn steps_report_what_they_show(outcome: Outcome, step: Result<RootsStep, Error>)
    ensures
        outcome.is_reported_by(step) <==> match step {
            Ok(RootsStep::Read { height }) => outcome == (Outcome::Read { height }),
            Ok(RootsStep::Done { hash, roots }) => outcome == (Outcome::Done {
                hash: hash@,
                roots: roots@,
            }),
            Err(error) => outcome matches Outcome::Refused { refusal } && refusal.is_reported_by(
                error,
            ),
        },
{
}

} // verus!
