//! Sequential, bounded requests to a provider of compact blocks.
use vstd::prelude::*;
use vstd::slice::slice_subrange;
use vstd::string::*;

use crate::bytes::{copy_bytes, same_bytes, views};
use crate::error::Error;
use crate::text::{signed_decimal, signed_text};

verus! {

/// The largest size of the responses to one request.
pub const MAX_RESPONSE_BYTES: usize = 0x200_0000;

/// The largest number of responses that one request may ask for.
pub const MAX_RESPONSES: usize = 1000;

/// The number of bytes that a frame takes besides its payload.
pub const FRAME_OVERHEAD: usize = 8;

/// A kind of request to a provider.
#[derive(Clone, Copy, Debug, PartialEq, Eq, Structural)]
pub enum Message {
    GetLatestBlockRequest,
    GetTreeStateRequest,
    GetTransactionRequest,
    GetBlockRangeRequest,
    GetBlockRangeNullifiersRequest,
    GetSubtreeRootsRequest,
}

impl Message {
    /// Whether a request of the kind is answered by any number of responses and a terminator.
    pub open spec fn streams(self) -> bool {
        self is GetBlockRangeRequest || self is GetBlockRangeNullifiersRequest
            || self is GetSubtreeRootsRequest
    }
}

/// A provider's error status.
#[derive(Clone, Debug, PartialEq, Eq)]
pub struct ProviderError {
    pub code: i32,
    pub message: String,
}

impl ProviderError {
    /// The text that is shown for the status.
    pub open spec fn text(self) -> Seq<char> {
        "ztreamer error "@ + signed_text(self.code as int) + ": "@ + self.message@
    }

    /// The text that is shown for the status.
    pub fn message(&self) -> (message: String)
        ensures
            message@ == self.text(),
    {
        "ztreamer error ".to_owned().concat(signed_decimal(self.code).as_str()).concat(": ").concat(
            self.message.as_str(),
        )
    }
}

/// A request to a provider: its kind, its encoding, and how many responses it may get.
pub struct Request {
    pub kind: Message,
    pub payload: Vec<u8>,
    pub limit: usize,
}

/// Makes requests of a provider, and takes its responses.
pub struct CompactClient;

impl CompactClient {
    /// A request, where its limit and its size are in range. A provider takes requests of up to
    /// `max_size` bytes.
    pub fn request(kind: Message, payload: Vec<u8>, limit: usize, max_size: usize) -> (request:
        Result<Request, Error>)
        ensures
            match request {
                Ok(request) => {
                    &&& 1 <= limit <= MAX_RESPONSES
                    &&& payload@.len() <= max_size
                    &&& request.kind == kind
                    &&& request.payload@ == payload@
                    &&& request.limit == limit
                },
                Err(error) => if limit == 0 || limit > MAX_RESPONSES {
                    error is ResponseLimit
                } else {
                    error is RequestTooLarge && payload@.len() > max_size
                },
            },
    {
        if limit == 0 || limit > MAX_RESPONSES {
            return Err(Error::ResponseLimit);
        }
        if payload.len() > max_size {
            return Err(Error::RequestTooLarge);
        }
        Ok(Request { kind, payload, limit })
    }

    /// The one response to a request that has only one.
    pub fn unary(responses: Vec<Vec<u8>>) -> (response: Result<Vec<u8>, Error>)
        ensures
            match response {
                Ok(response) => responses@.len() == 1 && response@ == responses@[0]@,
                Err(error) => error is ResponseCount && responses@.len() != 1,
            },
    {
        let mut responses = responses;
        if responses.len() != 1 {
            return Err(Error::ResponseCount);
        }
        Ok(responses.remove(0))
    }
}

/// A piece of a message on the wire.
pub struct Frame {
    pub message_type: u16,
    pub flags: u16,
    pub payload: Vec<u8>,
}

/// A frame, with its payload as a byte string.
pub struct FrameView {
    pub message_type: u16,
    pub flags: u16,
    pub payload: Seq<u8>,
}

impl View for Frame {
    type V = FrameView;

    open spec fn view(&self) -> FrameView {
        FrameView {
            message_type: self.message_type,
            flags: self.flags,
            payload: self.payload@,
        }
    }
}

/// The frames of a message, none with more than `size` bytes: all but the last are full, and say
/// with a flag that another one follows.
pub open spec fn framed(message_type: u16, more: u16, payload: Seq<u8>, size: nat) -> Seq<FrameView>
    decreases payload.len(),
{
    if payload.len() <= size || size == 0 {
        seq![FrameView { message_type, flags: 0, payload }]
    } else {
        seq![FrameView { message_type, flags: more, payload: payload.take(size as int) }] + framed(
            message_type,
            more,
            payload.skip(size as int),
            size,
        )
    }
}

/// The payloads of frames, one after the other.
pub open spec fn joined(frames: Seq<FrameView>) -> Seq<u8>
    decreases frames.len(),
{
    if frames.len() == 0 {
        seq![]
    } else {
        frames[0].payload + joined(frames.skip(1))
    }
}

/// The frames of a message hold its bytes in order, all but the last are full and say that another
/// one follows, the last is not empty unless the message is, and there are no more than it takes.
pub proof fn frames_carry_the_message(message_type: u16, more: u16, payload: Seq<u8>, size: nat)
    requires
        size > 0,
    ensures
        joined(framed(message_type, more, payload, size)) == payload,
        framed(message_type, more, payload, size).len() >= 1,
        payload.len() <= framed(message_type, more, payload, size).len() * size,
        framed(message_type, more, payload, size).len() > 1 ==> payload.len() > (framed(
            message_type,
            more,
            payload,
            size,
        ).len() - 1) * size,
        forall|i: int|
            #![trigger framed(message_type, more, payload, size)[i]]
            0 <= i < framed(message_type, more, payload, size).len() ==> {
                let frame = framed(message_type, more, payload, size)[i];
                let last = i + 1 == framed(message_type, more, payload, size).len();
                &&& frame.message_type == message_type
                &&& !last ==> frame.flags == more && frame.payload.len() == size
                &&& last ==> frame.flags == 0 && frame.payload.len() <= size
                &&& last && payload.len() > 0 ==> frame.payload.len() > 0
            },
    decreases payload.len(),
{
    let frames = framed(message_type, more, payload, size);
    if payload.len() <= size {
        reveal_with_fuel(joined, 2);
        assert(joined(frames) =~= payload);
        assert(frames.len() * size == size) by (nonlinear_arith)
            requires
                frames.len() == 1,
        ;
    } else {
        let rest = framed(message_type, more, payload.skip(size as int), size);
        frames_carry_the_message(message_type, more, payload.skip(size as int), size);
        assert(frames.skip(1) =~= rest);
        assert(joined(frames) =~= payload);
        assert(frames.len() * size == rest.len() * size + size) by (nonlinear_arith)
            requires
                frames.len() == rest.len() + 1,
        ;
        assert((frames.len() - 1) * size == (rest.len() - 1) * size + size) by (nonlinear_arith)
            requires
                frames.len() == rest.len() + 1,
        ;
        assert(rest.len() == 1 ==> (rest.len() - 1) * size == 0) by (nonlinear_arith);
        assert forall|i: int| #![trigger frames[i]] 0 <= i < frames.len() implies {
            let last = i + 1 == frames.len();
            &&& frames[i].message_type == message_type
            &&& !last ==> frames[i].flags == more && frames[i].payload.len() == size
            &&& last ==> frames[i].flags == 0 && frames[i].payload.len() <= size
            &&& last && payload.len() > 0 ==> frames[i].payload.len() > 0
        } by {
            if i > 0 {
                assert(frames[i] == rest[i - 1]);
            }
        }
    }
}

/// Splits a request into frames that a connection can carry. The number of its kind on the wire
/// and the flag of a frame that another one follows are given.
pub fn frames(request: &Request, message_type: u16, more: u16, frame_cap: usize) -> (frames: Vec<
    Frame,
>)
    requires
        frame_cap > FRAME_OVERHEAD,
    ensures
        frames@.map_values(|frame: Frame| frame@) == framed(
            message_type,
            more,
            request.payload@,
            (frame_cap - FRAME_OVERHEAD) as nat,
        ),
{
    let size: usize = frame_cap - FRAME_OVERHEAD;
    let len: usize = request.payload.len();
    let mut frames: Vec<Frame> = Vec::new();
    let mut start: usize = 0;
    let ghost all = framed(message_type, more, request.payload@, size as nat);
    proof {
        assert(request.payload@.skip(0) =~= request.payload@);
        assert(Seq::<FrameView>::empty() + all =~= all);
        assert(frames@.map_values(|frame: Frame| frame@) =~= Seq::empty());
    }
    while len - start > size
        invariant
            size > 0,
            len == request.payload@.len(),
            start <= len,
            all == frames@.map_values(|frame: Frame| frame@) + framed(
                message_type,
                more,
                request.payload@.skip(start as int),
                size as nat,
            ),
        decreases len - start,
    {
        let ghost rest = request.payload@.skip(start as int);
        let ghost before = frames@.map_values(|frame: Frame| frame@);
        let payload = copy_bytes(
            slice_subrange(request.payload.as_slice(), start, start + size),
        );
        let frame = Frame { message_type, flags: more, payload };
        proof {
            assert(frame@.payload =~= rest.take(size as int));
            assert(rest.skip(size as int) =~= request.payload@.skip(start + size));
            assert(frames@.push(frame).map_values(|frame: Frame| frame@) =~= before.push(frame@));
            assert(all =~= before.push(frame@) + framed(
                message_type,
                more,
                rest.skip(size as int),
                size as nat,
            ));
        }
        frames.push(frame);
        start = start + size;
    }
    let ghost before = frames@.map_values(|frame: Frame| frame@);
    let payload = copy_bytes(slice_subrange(request.payload.as_slice(), start, len));
    let frame = Frame { message_type, flags: 0, payload };
    proof {
        assert(frame@.payload =~= request.payload@.skip(start as int));
        assert(frames@.push(frame).map_values(|frame: Frame| frame@) =~= before.push(frame@));
        assert(all =~= before.push(frame@));
    }
    frames.push(frame);
    frames
}

/// The number of bytes in all responses together.
pub open spec fn total(responses: Seq<Seq<u8>>) -> nat
    decreases responses.len(),
{
    if responses.len() == 0 {
        0
    } else {
        total(responses.drop_last()) + responses.last().len()
    }
}

/// What an exchange has come to: the request, the numbers on the wire of the kind that answers it
/// and of a terminator, and the responses so far.
pub struct ExchangeView {
    pub kind: Message,
    pub expected: u16,
    pub terminator: u16,
    pub limit: usize,
    pub responses: Seq<Seq<u8>>,
}

/// What a provider sends: an error status, or any other message, with the number of its kind on
/// the wire and the name of the kind.
pub enum Reply {
    Status { status: ProviderError },
    Message { message_type: u16, name: String, payload: Vec<u8> },
}

/// How an exchange goes on.
pub enum ExchangeStep {
    /// More is to be received.
    More { exchange: Exchange },
    /// All responses have arrived.
    Done { responses: Vec<Vec<u8>> },
}

impl ExchangeView {
    /// Whether an exchange of this request can be under way.
    pub open spec fn is_sound(self) -> bool {
        &&& self.responses.len() <= self.limit
        &&& !self.kind.streams() ==> self.responses.len() == 0
        &&& total(self.responses) <= MAX_RESPONSE_BYTES
    }

    /// Whether a message ends the responses.
    pub open spec fn ends(self, message_type: u16) -> bool {
        self.kind.streams() && message_type == self.terminator
    }

    /// Why a message fails the exchange, if it does.
    pub open spec fn fault(self, message_type: u16, name: Seq<char>, payload: Seq<u8>) -> Option<
        Seq<char>,
    > {
        if self.ends(message_type) {
            if payload.len() == 0 {
                None
            } else {
                Some(Error::StreamTerminator.text())
            }
        } else if message_type != self.expected {
            Some("unexpected ztreamer response "@ + name)
        } else if total(self.responses) + payload.len() > usize::MAX {
            Some(Error::ResponseSizeOverflow.text())
        } else if self.responses.len() >= self.limit || total(self.responses) + payload.len()
            > MAX_RESPONSE_BYTES {
            Some(Error::ResponseBounds.text())
        } else {
            None
        }
    }

    /// The exchange with one more response.
    pub open spec fn with(self, payload: Seq<u8>) -> ExchangeView {
        ExchangeView { responses: self.responses.push(payload), ..self }
    }

    /// How the exchange goes on after a message that does not fail it.
    pub open spec fn goes_on(
        self,
        message_type: u16,
        payload: Seq<u8>,
        step: ExchangeStep,
    ) -> bool {
        if self.ends(message_type) {
            step matches ExchangeStep::Done { responses } && views(responses) == self.responses
        } else if self.kind.streams() {
            step matches ExchangeStep::More { exchange } && exchange@ == self.with(payload)
                && exchange.wf()
        } else {
            step matches ExchangeStep::Done { responses } && views(responses) == seq![payload]
        }
    }
}

/// A request that was sent, and the responses to it so far.
pub struct Exchange {
    kind: Message,
    expected: u16,
    terminator: u16,
    limit: usize,
    responses: Vec<Vec<u8>>,
    bytes: usize,
}

impl View for Exchange {
    type V = ExchangeView;

    closed spec fn view(&self) -> ExchangeView {
        ExchangeView {
            kind: self.kind,
            expected: self.expected,
            terminator: self.terminator,
            limit: self.limit,
            responses: views(self.responses),
        }
    }
}

impl Exchange {
    /// Whether the exchange holds what its state says.
    pub closed spec fn wf(self) -> bool {
        &&& self@.is_sound()
        &&& self.bytes == total(self@.responses)
    }

    /// What the invariant of an exchange says of its state.
    pub proof fn wf_is_sound(self)
        requires
            self.wf(),
        ensures
            self@.is_sound(),
    {
    }

    /// Awaits the responses to a request. The numbers on the wire of the kind that answers it and
    /// of a terminator are given. There are no responses where no kind answers it.
    pub fn new(kind: Message, limit: usize, expected: Option<u16>, terminator: u16) -> (exchange:
        Result<Exchange, Error>)
        ensures
            match (exchange, expected) {
                (Ok(exchange), Some(expected)) => {
                    &&& exchange.wf()
                    &&& exchange@ == (ExchangeView {
                        kind,
                        expected,
                        terminator,
                        limit,
                        responses: seq![],
                    })
                },
                (Err(error), None) => error is RequestKind,
                _ => false,
            },
    {
        match expected {
            None => Err(Error::RequestKind),
            Some(expected) => {
                let responses: Vec<Vec<u8>> = Vec::new();
                assert(views(responses) =~= seq![]);
                Ok(Exchange { kind, expected, terminator, limit, responses, bytes: 0 })
            },
        }
    }

    fn is_streaming(&self) -> (streaming: bool)
        ensures
            streaming == self@.kind.streams(),
    {
        match self.kind {
            Message::GetBlockRangeRequest => true,
            Message::GetBlockRangeNullifiersRequest => true,
            Message::GetSubtreeRootsRequest => true,
            _ => false,
        }
    }

    /// Takes what the provider sent next.
    pub fn receive(self, reply: Reply) -> (step: Result<ExchangeStep, Error>)
        requires
            self.wf(),
        ensures
            match reply {
                Reply::Status { status } => step matches Err(error) && error == (Error::Provider {
                    status,
                }),
                Reply::Message { message_type, name, payload } => match self@.fault(
                    message_type,
                    name@,
                    payload@,
                ) {
                    Some(text) => step matches Err(error) && error.text() == text,
                    None => step matches Ok(step) && self@.goes_on(message_type, payload@, step),
                },
            },
    {
        let (message_type, name, payload) = match reply {
            Reply::Status { status } => return Err(Error::Provider { status }),
            Reply::Message { message_type, name, payload } => (message_type, name, payload),
        };
        let streaming = self.is_streaming();
        if streaming && message_type == self.terminator {
            if payload.len() > 0 {
                return Err(Error::StreamTerminator);
            }
            return Ok(ExchangeStep::Done { responses: self.responses });
        }
        if message_type != self.expected {
            return Err(Error::ResponseKind { kind: name });
        }
        let bytes: usize = match self.bytes.checked_add(payload.len()) {
            Some(bytes) => bytes,
            None => return Err(Error::ResponseSizeOverflow),
        };
        if self.responses.len() >= self.limit || bytes > MAX_RESPONSE_BYTES {
            return Err(Error::ResponseBounds);
        }
        let ghost before = self@;
        let ghost view = payload@;
        let mut exchange = self;
        exchange.bytes = bytes;
        exchange.responses.push(payload);
        proof {
            assert(views(exchange.responses) =~= before.responses.push(view));
            assert(before.responses.push(view).drop_last() =~= before.responses);
        }
        if streaming {
            Ok(ExchangeStep::More { exchange })
        } else {
            assert(views(exchange.responses) =~= seq![view]);
            Ok(ExchangeStep::Done { responses: exchange.responses })
        }
    }
}

/// A request that asks for one response gets exactly one or fails: no message leaves the
/// exchange open.
pub proof fn single_responses_end_the_exchange(
    exchange: ExchangeView,
    message_type: u16,
    payload: Seq<u8>,
    step: ExchangeStep,
)
    requires
        exchange.is_sound(),
        !exchange.kind.streams(),
        exchange.goes_on(message_type, payload, step),
    ensures
        step matches ExchangeStep::Done { responses } && views(responses) == seq![payload],
{
}

/// An exchange never hands on more responses or more bytes than were asked for.
pub proof fn responses_are_bounded(
    exchange: ExchangeView,
    message_type: u16,
    name: Seq<char>,
    payload: Seq<u8>,
    step: ExchangeStep,
)
    requires
        exchange.is_sound(),
        exchange.fault(message_type, name, payload) is None,
        exchange.goes_on(message_type, payload, step),
    ensures
        step matches ExchangeStep::Done { responses } ==> {
            &&& views(responses).len() <= exchange.limit
            &&& total(views(responses)) <= MAX_RESPONSE_BYTES
        },
        step matches ExchangeStep::More { exchange: next } ==> next@.is_sound(),
{
    reveal_with_fuel(total, 2);
    assert(seq![payload].drop_last() =~= seq![]);
    if let ExchangeStep::More { exchange: next } = step {
        next.wf_is_sound();
    }
}

/// A peer's connection.
pub struct Connection {
    pub peer: Vec<u8>,
    pub id: u64,
}

/// The connection that the wallet has its provider on, if any.
pub struct CompactService {
    generation: Option<Connection>,
}

impl View for CompactService {
    type V = Option<(Seq<u8>, u64)>;

    closed spec fn view(&self) -> Option<(Seq<u8>, u64)> {
        match self.generation {
            None => None,
            Some(connection) => Some((connection.peer@, connection.id)),
        }
    }
}

impl CompactService {
    /// A service without a provider.
    pub fn new() -> (service: CompactService)
        ensures
            service@ is None,
    {
        CompactService { generation: None }
    }

    /// Whether a connection is the provider's.
    pub fn owns_connection_for_peer(&self, peer: &[u8], id: u64) -> (owns: bool)
        ensures
            owns == (self@ == Some((peer@, id))),
    {
        match &self.generation {
            None => false,
            Some(connection) => connection.id == id && same_bytes(connection.peer.as_slice(), peer),
        }
    }

    /// Takes a connection as the provider's, and returns whether it did. One provider is had at
    /// a time.
    pub fn add_peer(&mut self, peer: Vec<u8>, id: u64) -> (added: bool)
        ensures
            added == (old(self)@ is None),
            final(self)@ == (match old(self)@ {
                None => Some((peer@, id)),
                Some(owner) => Some(owner),
            }),
    {
        if self.generation.is_some() {
            return false;
        }
        self.generation = Some(Connection { peer, id });
        true
    }

    /// Gives the provider up where the connection is its own, and returns whether it did.
    pub fn remove_peer(&mut self, peer: &[u8], id: u64) -> (removed: bool)
        ensures
            removed == (old(self)@ == Some((peer@, id))),
            final(self)@ == (if removed {
                None
            } else {
                old(self)@
            }),
    {
        if !self.owns_connection_for_peer(peer, id) {
            return false;
        }
        self.generation = None;
        true
    }
}

/// What happens to the session with a provider.
pub enum SessionEvent {
    /// The connection or the service was cancelled.
    Cancelled,
    /// There is nobody left to make a request.
    Closed,
    /// A request was made.
    Requested,
    /// The exchange for a request has ended, and was answered for, well or not.
    Exchanged { failed: bool },
}

/// What is to be done in the session with a provider.
pub enum SessionAction {
    /// Wait for a request.
    Await,
    /// Exchange the request for its responses.
    Exchange,
    /// Cancel the connection, and end the session.
    Cancel,
    /// End the session.
    End,
}

/// Decides what is done next in the session with a provider. Requests are exchanged one after the
/// other, and after a failed exchange the connection is given up.
pub fn session(event: SessionEvent) -> (action: SessionAction)
    ensures
        match event {
            SessionEvent::Cancelled => action is End,
            SessionEvent::Closed => action is End,
            SessionEvent::Requested => action is Exchange,
            SessionEvent::Exchanged { failed } => if failed {
                action is Cancel
            } else {
                action is Await
            },
        },
{
    match event {
        SessionEvent::Cancelled => SessionAction::End,
        SessionEvent::Closed => SessionAction::End,
        SessionEvent::Requested => SessionAction::Exchange,
        SessionEvent::Exchanged { failed } => if failed {
            SessionAction::Cancel
        } else {
            SessionAction::Await
        },
    }
}

/// The frames of a message hold its bytes: put together they are the message.
pub proof fn frames_put_together_are_the_message(
    message_type: u16,
    more: u16,
    payload: Seq<u8>,
    size: nat,
)
    requires
        size > 0,
    ensures
        framed(message_type, more, payload, size).map_values(
            |frame: FrameView| frame.payload,
        ).flatten() == payload,
    decreases payload.len(),
{
    let frames = framed(message_type, more, payload, size);
    let payloads = frames.map_values(|frame: FrameView| frame.payload);
    if payload.len() <= size {
        payloads.lemma_flatten_one_element();
        assert(payloads.first() == payload);
    } else {
        let rest = framed(message_type, more, payload.skip(size as int), size);
        frames_put_together_are_the_message(message_type, more, payload.skip(size as int), size);
        assert(payloads.drop_first() =~= rest.map_values(|frame: FrameView| frame.payload));
        assert(payload.take(size as int) + payload.skip(size as int) =~= payload);
    }
}

/// The sizes of responses are added up over all of them.
pub proof fn sizes_are_added_up(first: Seq<Seq<u8>>, second: Seq<Seq<u8>>)
    ensures
        total(seq![]) == 0,
        forall|response: Seq<u8>| total(#[trigger] seq![response]) == response.len(),
        total(first + second) == total(first) + total(second),
    decreases second.len(),
{
    reveal_with_fuel(total, 2);
    assert forall|response: Seq<u8>| total(#[trigger] seq![response]) == response.len() by {
        assert(seq![response].drop_last() =~= seq![]);
    }
    if second.len() == 0 {
        assert(first + second =~= first);
    } else {
        sizes_are_added_up(first, second.drop_last());
        assert((first + second).drop_last() =~= first + second.drop_last());
    }
}

/// Whether a kind of request is answered by any number of responses.
pub open spec fn has_many_responses(kind: Message) -> bool {
    match kind {
        Message::GetLatestBlockRequest => false,
        Message::GetTreeStateRequest => false,
        Message::GetTransactionRequest => false,
        Message::GetBlockRangeRequest => true,
        Message::GetBlockRangeNullifiersRequest => true,
        Message::GetSubtreeRootsRequest => true,
    }
}

/// A response of the expected kind is taken while the limit and the size leave room. It is kept
/// behind those before it where more may follow, and otherwise it is the one response.
pub proof fn expected_responses_are_taken(
    exchange: ExchangeView,
    message_type: u16,
    name: Seq<char>,
    payload: Seq<u8>,
    step: ExchangeStep,
)
    requires
        message_type == exchange.expected,
        has_many_responses(exchange.kind) ==> message_type != exchange.terminator,
        exchange.responses.len() < exchange.limit,
        total(exchange.responses) + payload.len() <= 32 * 1024 * 1024,
    ensures
        exchange.fault(message_type, name, payload) is None,
        exchange.goes_on(message_type, payload, step) <==> if has_many_responses(exchange.kind) {
            step matches ExchangeStep::More { exchange: next } && {
                &&& next@.responses == exchange.responses.push(payload)
                &&& next@.kind == exchange.kind
                &&& next@.expected == exchange.expected
                &&& next@.terminator == exchange.terminator
                &&& next@.limit == exchange.limit
                &&& next.wf()
            }
        } else {
            step matches ExchangeStep::Done { responses } && views(responses) == seq![payload]
        },
{
}

/// An empty terminator ends a request with many responses, and hands on all that were taken, in
/// their order.
pub proof fn terminators_hand_on_all_responses(
    exchange: ExchangeView,
    name: Seq<char>,
    step: ExchangeStep,
)
    requires
        has_many_responses(exchange.kind),
    ensures
        exchange.fault(exchange.terminator, name, seq![]) is None,
        exchange.goes_on(exchange.terminator, seq![], step) <==> (step matches ExchangeStep::Done {
            responses,
        } && views(responses) == exchange.responses),
{
}

/// A message is refused only where it is a terminator with a payload, is not of the expected kind,
/// or leaves no room in the limit or the size, and each with its own text.
pub proof fn unexpected_messages_are_refused(
    exchange: ExchangeView,
    message_type: u16,
    name: Seq<char>,
    payload: Seq<u8>,
)
    requires
        exchange.is_sound(),
    ensures
        ({
            let fault = exchange.fault(message_type, name, payload);
            let ends = has_many_responses(exchange.kind) && message_type == exchange.terminator;
            if ends {
                (fault is None <==> payload.len() == 0) && (payload.len() > 0 ==> fault == Some(
                    Error::StreamTerminator.text(),
                ))
            } else if message_type != exchange.expected {
                fault == Some("unexpected ztreamer response "@ + name)
            } else if total(exchange.responses) + payload.len() > 32 * 1024 * 1024
                || exchange.responses.len() == exchange.limit {
                fault == Some(
                    if total(exchange.responses) + payload.len() > usize::MAX {
                        Error::ResponseSizeOverflow.text()
                    } else {
                        Error::ResponseBounds.text()
                    },
                )
            } else {
                fault is None
            }
        }),
{
}

} // verus!
