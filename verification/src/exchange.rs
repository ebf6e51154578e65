//! One request and the wait for its response, as a state machine.
//!
//! The machine never touches the transport. It says which action is pending; the
//! caller performs that action and reports what happened. A request is sent, the
//! line is left to settle, and then the transport is polled: up to five receive
//! calls, each followed by a pause, until a frame with the expected command byte
//! arrives.

use vstd::prelude::*;
use crate::packet::{encode, Frame, NiimbotPacket};
use crate::reassembler::{frames_in, frames_of, reassemble};
use crate::request::{Request, RequestModel};

verus! {

/// Pause after a frame has been sent, in milliseconds.
pub const SETTLE_MILLIS: u64 = 10;

/// Pause after a receive call that brought no response, in milliseconds.
pub const POLL_PAUSE_MILLIS: u64 = 200;

/// Receive calls made for one request before giving up.
pub const MAX_ATTEMPTS: u8 = 5;

/// Why an operation on the printer failed.
#[derive(Debug, Clone, Copy, PartialEq, Eq, Structural)]
pub enum SessionError {
    /// The transport refused the frame.
    TransportFailed,
    /// No frame with the expected command byte arrived in time.
    NoResponse,
    /// The response is too short for what it should carry.
    InvalidResponse,
}

impl SessionError {
    /// Human-readable description of the error.
    pub fn message(&self) -> (text: &'static str)
        ensures
            text@ == (match *self {
                SessionError::TransportFailed => "Transport failed"@,
                SessionError::NoResponse => "No response"@,
                SessionError::InvalidResponse => "Invalid response"@,
            }),
    {
        match self {
            SessionError::TransportFailed => "Transport failed",
            SessionError::NoResponse => "No response",
            SessionError::InvalidResponse => "Invalid response",
        }
    }
}

/// What the caller is asked to do next.
#[derive(Debug)]
pub enum Action {
    /// Write these bytes to the transport.
    Send(Vec<u8>),
    /// Sleep for this many milliseconds.
    Wait(u64),
    /// Make one receive call.
    Receive,
    /// Nothing more: the request is over, with the response if one was waited for.
    Finish(Result<Option<NiimbotPacket>, SessionError>),
}

/// Mathematical model of an action.
pub enum ActionModel {
    Send(Seq<u8>),
    Wait(u64),
    Receive,
    Finish(Result<Option<Frame>, SessionError>),
}

/// What happened when the caller performed the pending action.
#[derive(Debug)]
pub enum Event {
    /// The transport took the bytes.
    Sent,
    /// The transport refused the bytes.
    SendFailed,
    /// The sleep is over.
    Waited,
    /// The receive call returned these bytes.
    Received(Vec<u8>),
    /// The receive call failed.
    ReceiveFailed,
}

/// Mathematical model of an event.
pub enum EventModel {
    Sent,
    SendFailed,
    Waited,
    Received(Seq<u8>),
    ReceiveFailed,
}

/// Where an exchange stands.
pub enum PhaseModel {
    Sending,
    Settling,
    Receiving,
    Pausing,
    Answered(Frame),
    Posted,
    Failed(SessionError),
}

/// Mathematical model of an exchange.
pub struct ExchangeModel {
    pub request: RequestModel,
    pub phase: PhaseModel,
    pub attempts: nat,
}

impl View for Action {
    type V = ActionModel;

    open spec fn view(&self) -> ActionModel {
        match *self {
            Action::Send(bytes) => ActionModel::Send(bytes@),
            Action::Wait(millis) => ActionModel::Wait(millis),
            Action::Receive => ActionModel::Receive,
            Action::Finish(Ok(Some(packet))) => ActionModel::Finish(Ok(Some(packet@))),
            Action::Finish(Ok(None)) => ActionModel::Finish(Ok(None)),
            Action::Finish(Err(error)) => ActionModel::Finish(Err(error)),
        }
    }
}

impl View for Event {
    type V = EventModel;

    open spec fn view(&self) -> EventModel {
        match *self {
            Event::Sent => EventModel::Sent,
            Event::SendFailed => EventModel::SendFailed,
            Event::Waited => EventModel::Waited,
            Event::Received(bytes) => EventModel::Received(bytes@),
            Event::ReceiveFailed => EventModel::ReceiveFailed,
        }
    }
}

/// Whether a frame is the response to a request.
pub open spec fn answers(frame: Frame, request: RequestModel) -> bool {
    request.response_offset is Some && frame.command == request.code
        + request.response_offset->Some_0
}

/// The first of the frames that is the response to the request.
pub open spec fn first_answer(frames: Seq<Frame>, request: RequestModel) -> Option<Frame>
    decreases frames.len(),
{
    if frames.len() == 0 {
        None
    } else if answers(frames.first(), request) {
        Some(frames.first())
    } else {
        first_answer(frames.drop_first(), request)
    }
}

/// The exchange of a request at its start.
pub open spec fn fresh(request: RequestModel) -> ExchangeModel {
    ExchangeModel { request, phase: PhaseModel::Sending, attempts: 0 }
}

/// The action that an exchange waits for.
pub open spec fn pending_of(exchange: ExchangeModel) -> ActionModel {
    match exchange.phase {
        PhaseModel::Sending => ActionModel::Send(
            encode(Frame { command: exchange.request.code, payload: exchange.request.payload }),
        ),
        PhaseModel::Settling => ActionModel::Wait(SETTLE_MILLIS),
        PhaseModel::Receiving => ActionModel::Receive,
        PhaseModel::Pausing => ActionModel::Wait(POLL_PAUSE_MILLIS),
        PhaseModel::Answered(frame) => ActionModel::Finish(Ok(Some(frame))),
        PhaseModel::Posted => ActionModel::Finish(Ok(None)),
        PhaseModel::Failed(error) => ActionModel::Finish(Err(error)),
    }
}

/// The exchange after a receive call that brought no response.
pub open spec fn after_miss(exchange: ExchangeModel) -> ExchangeModel {
    ExchangeModel { phase: PhaseModel::Pausing, attempts: exchange.attempts + 1, ..exchange }
}

/// The exchange after an event. An event that does not report on the pending
/// action changes nothing.
pub open spec fn after(exchange: ExchangeModel, event: EventModel) -> ExchangeModel {
    match (exchange.phase, event) {
        (PhaseModel::Sending, EventModel::Sent) => ExchangeModel {
            phase: PhaseModel::Settling,
            ..exchange
        },
        (PhaseModel::Sending, EventModel::SendFailed) => ExchangeModel {
            phase: PhaseModel::Failed(SessionError::TransportFailed),
            ..exchange
        },
        (PhaseModel::Settling, EventModel::Waited) => if exchange.request.response_offset is None {
            ExchangeModel { phase: PhaseModel::Posted, ..exchange }
        } else {
            ExchangeModel { phase: PhaseModel::Receiving, ..exchange }
        },
        (PhaseModel::Receiving, EventModel::Received(bytes)) => match first_answer(
            frames_in(bytes),
            exchange.request,
        ) {
            Some(frame) => ExchangeModel { phase: PhaseModel::Answered(frame), ..exchange },
            None => after_miss(exchange),
        },
        (PhaseModel::Receiving, EventModel::ReceiveFailed) => after_miss(exchange),
        (PhaseModel::Pausing, EventModel::Waited) => if exchange.attempts < MAX_ATTEMPTS {
            ExchangeModel { phase: PhaseModel::Receiving, ..exchange }
        } else {
            ExchangeModel { phase: PhaseModel::Failed(SessionError::NoResponse), ..exchange }
        },
        _ => exchange,
    }
}

/// What holds of every exchange that started fresh: the count of receive calls
/// never passes the limit, a new receive call is pending only below the limit,
/// and the exchange gives up only at the limit.
pub open spec fn consistent(exchange: ExchangeModel) -> bool {
    &&& exchange.request.payload.len() <= crate::packet::MAX_PAYLOAD
    &&& exchange.attempts <= MAX_ATTEMPTS
    &&& exchange.phase is Receiving ==> exchange.attempts < MAX_ATTEMPTS
        && exchange.request.response_offset is Some
    &&& exchange.phase is Pausing ==> exchange.request.response_offset is Some
    &&& exchange.phase is Sending || exchange.phase is Settling ==> exchange.attempts == 0
    &&& exchange.phase == PhaseModel::Failed(SessionError::NoResponse) ==> exchange.attempts
        == MAX_ATTEMPTS
    &&& exchange.phase is Answered ==> answers(exchange.phase->Answered_0, exchange.request)
    &&& exchange.phase is Posted ==> exchange.request.response_offset is None
}

/// The first response among the packets, if there is one.
pub fn select_response(packets: &Vec<NiimbotPacket>, request: &Request) -> (found: Option<
    NiimbotPacket,
>)
    ensures
        found is Some <==> first_answer(frames_of(packets@), request@) is Some,
        found is Some ==> found->Some_0@ == first_answer(frames_of(packets@), request@)->Some_0,
{
    let offset: u8 = match request.response_offset {
        Some(offset) => offset,
        None => {
            proof {
                lemma_no_answer_without_offset(frames_of(packets@), request@);
            }
            return None;
        },
    };
    let expected: u16 = request.code as u16 + offset as u16;
    let mut i: usize = 0;
    proof {
        assert(frames_of(packets@).subrange(0, packets@.len() as int) =~= frames_of(packets@));
    }
    while i < packets.len()
        invariant
            i <= packets.len(),
            request.response_offset == Some(offset),
            expected == request.code + offset,
            first_answer(frames_of(packets@), request@) == first_answer(
                frames_of(packets@).subrange(i as int, packets@.len() as int),
                request@,
            ),
        decreases packets.len() - i,
    {
        let ghost rest = frames_of(packets@).subrange(i as int, packets@.len() as int);
        proof {
            assert(rest.first() == packets@[i as int]@);
            assert(rest.drop_first() =~= frames_of(packets@).subrange(
                i + 1,
                packets@.len() as int,
            ));
        }
        if packets[i].packet_type as u16 == expected {
            return Some(packets[i].clone());
        }
        i += 1;
    }
    None
}

/// Where an exchange stands.
#[derive(Debug)]
enum Phase {
    Sending,
    Settling,
    Receiving,
    Pausing,
    Answered(NiimbotPacket),
    Posted,
    Failed(SessionError),
}

impl View for Phase {
    type V = PhaseModel;

    closed spec fn view(&self) -> PhaseModel {
        match *self {
            Phase::Sending => PhaseModel::Sending,
            Phase::Settling => PhaseModel::Settling,
            Phase::Receiving => PhaseModel::Receiving,
            Phase::Pausing => PhaseModel::Pausing,
            Phase::Answered(packet) => PhaseModel::Answered(packet@),
            Phase::Posted => PhaseModel::Posted,
            Phase::Failed(error) => PhaseModel::Failed(error),
        }
    }
}

/// One request on its way: sent, settled, polled for, answered or given up.
#[derive(Debug)]
pub struct Exchange {
    request: Request,
    phase: Phase,
    attempts: u8,
}

impl View for Exchange {
    type V = ExchangeModel;

    closed spec fn view(&self) -> ExchangeModel {
        ExchangeModel {
            request: self.request@,
            phase: self.phase@,
            attempts: self.attempts as nat,
        }
    }
}

impl Exchange {
    #[verifier::type_invariant]
    spec fn well_formed(&self) -> bool {
        consistent(self@)
    }

    /// Starts the exchange of a request.
    pub fn new(request: Request) -> (exchange: Exchange)
        requires
            request.sendable(),
        ensures
            exchange@ == fresh(request@),
    {
        Exchange { request, phase: Phase::Sending, attempts: 0 }
    }

    /// How many receive calls have brought no response so far.
    pub fn attempts(&self) -> (attempts: u8)
        ensures
            attempts == self@.attempts,
            attempts <= MAX_ATTEMPTS,
    {
        proof {
            use_type_invariant(self);
        }
        self.attempts
    }

    /// The action that the caller is to perform next.
    pub fn pending(&self) -> (action: Action)
        ensures
            action@ == pending_of(self@),
            consistent(self@),
    {
        proof {
            use_type_invariant(self);
        }
        match &self.phase {
            Phase::Sending => Action::Send(self.request.to_packet().to_bytes()),
            Phase::Settling => Action::Wait(SETTLE_MILLIS),
            Phase::Receiving => Action::Receive,
            Phase::Pausing => Action::Wait(POLL_PAUSE_MILLIS),
            Phase::Answered(packet) => Action::Finish(Ok(Some(packet.clone()))),
            Phase::Posted => Action::Finish(Ok(None)),
            Phase::Failed(error) => Action::Finish(Err(*error)),
        }
    }

    /// Whether the exchange is over.
    pub fn finished(&self) -> (over: bool)
        ensures
            over == pending_of(self@) is Finish,
    {
        match &self.phase {
            Phase::Answered(_) | Phase::Posted | Phase::Failed(_) => true,
            _ => false,
        }
    }

    fn miss(&mut self)
        requires
            old(self).phase is Receiving,
            consistent(old(self)@),
        ensures
            final(self)@ == after_miss(old(self)@),
            consistent(final(self)@),
    {
        self.phase = Phase::Pausing;
        self.attempts = self.attempts + 1;
    }

    /// Takes note of what happened when the caller performed the pending action.
    pub fn observe(&mut self, event: Event)
        ensures
            final(self)@ == after(old(self)@, event@),
            consistent(final(self)@),
    {
        proof {
            use_type_invariant(&*self);
        }
        match event {
            Event::Sent => {
                if let Phase::Sending = self.phase {
                    self.phase = Phase::Settling;
                }
            },
            Event::SendFailed => {
                if let Phase::Sending = self.phase {
                    self.phase = Phase::Failed(SessionError::TransportFailed);
                }
            },
            Event::Waited => {
                if let Phase::Settling = self.phase {
                    if self.request.response_offset.is_none() {
                        self.phase = Phase::Posted;
                    } else {
                        self.phase = Phase::Receiving;
                    }
                } else if let Phase::Pausing = self.phase {
                    if self.attempts < MAX_ATTEMPTS {
                        self.phase = Phase::Receiving;
                    } else {
                        self.phase = Phase::Failed(SessionError::NoResponse);
                    }
                }
            },
            Event::Received(bytes) => {
                if let Phase::Receiving = self.phase {
                    let packets = reassemble(bytes.as_slice());
                    match select_response(&packets, &self.request) {
                        Some(packet) => {
                            proof {
                                lemma_first_answer_answers(frames_in(bytes@), self.request@);
                            }
                            self.phase = Phase::Answered(packet);
                        },
                        None => {
                            self.miss();
                        },
                    }
                }
            },
            Event::ReceiveFailed => {
                if let Phase::Receiving = self.phase {
                    self.miss();
                }
            },
        }
    }
}

/// The frame that `first_answer` picks is a response to the request.
pub proof fn lemma_first_answer_answers(frames: Seq<Frame>, request: RequestModel)
    requires
        first_answer(frames, request) is Some,
    ensures
        answers(first_answer(frames, request)->Some_0, request),
    decreases frames.len(),
{
    if frames.len() > 0 && !answers(frames.first(), request) {
        lemma_first_answer_answers(frames.drop_first(), request);
    }
}

/// The actions of the first `steps` steps of an exchange, from step `step` on, when
/// the caller answers the action of step `i` with `reply(i, action)`.
pub open spec fn trace(
    exchange: ExchangeModel,
    reply: spec_fn(nat, ActionModel) -> EventModel,
    step: nat,
    steps: nat,
) -> Seq<ActionModel>
    decreases steps,
{
    if steps == 0 {
        Seq::empty()
    } else {
        let action = pending_of(exchange);
        seq![action] + trace(
            after(exchange, reply(step, action)),
            reply,
            step + 1,
            (steps - 1) as nat,
        )
    }
}

/// The caller reports on a transport that takes every frame and never brings a
/// response to the request: each receive call fails or returns bytes, possibly
/// none, that hold no frame with the expected command byte.
pub open spec fn unanswered(
    reply: spec_fn(nat, ActionModel) -> EventModel,
    request: RequestModel,
) -> bool {
    forall|step: nat, action: ActionModel|
        match action {
            ActionModel::Send(_) => #[trigger] reply(step, action) == EventModel::Sent,
            ActionModel::Wait(_) => reply(step, action) == EventModel::Waited,
            ActionModel::Receive => reply(step, action) is ReceiveFailed || (reply(
                step,
                action,
            ) is Received && first_answer(
                frames_in(reply(step, action)->Received_0),
                request,
            ) is None),
            ActionModel::Finish(_) => true,
        }
}

/// What a request that is never answered makes the caller do.
pub open spec fn unanswered_trace(request: RequestModel) -> Seq<ActionModel> {
    seq![
        ActionModel::Send(encode(Frame { command: request.code, payload: request.payload })),
        ActionModel::Wait(SETTLE_MILLIS),
        ActionModel::Receive,
        ActionModel::Wait(POLL_PAUSE_MILLIS),
        ActionModel::Receive,
        ActionModel::Wait(POLL_PAUSE_MILLIS),
        ActionModel::Receive,
        ActionModel::Wait(POLL_PAUSE_MILLIS),
        ActionModel::Receive,
        ActionModel::Wait(POLL_PAUSE_MILLIS),
        ActionModel::Receive,
        ActionModel::Wait(POLL_PAUSE_MILLIS),
        ActionModel::Finish(Err(SessionError::NoResponse)),
    ]
}

/// Against a transport that never brings a response, a request that waits for one
/// ends with `NoResponse` after exactly five receive calls, each followed by a
/// pause of 200 ms: never fewer, never more.
pub proof fn lemma_unanswered_request_gives_up(
    request: RequestModel,
    reply: spec_fn(nat, ActionModel) -> EventModel,
)
    requires
        request.response_offset is Some,
        unanswered(reply, request),
    ensures
        trace(fresh(request), reply, 0, 13) == unanswered_trace(request),
{
    let e0 = fresh(request);
    let e1 = after(e0, reply(0, pending_of(e0)));
    let e2 = after(e1, reply(1, pending_of(e1)));
    let e3 = after(e2, reply(2, pending_of(e2)));
    let e4 = after(e3, reply(3, pending_of(e3)));
    let e5 = after(e4, reply(4, pending_of(e4)));
    let e6 = after(e5, reply(5, pending_of(e5)));
    let e7 = after(e6, reply(6, pending_of(e6)));
    let e8 = after(e7, reply(7, pending_of(e7)));
    let e9 = after(e8, reply(8, pending_of(e8)));
    let e10 = after(e9, reply(9, pending_of(e9)));
    let e11 = after(e10, reply(10, pending_of(e10)));
    let e12 = after(e11, reply(11, pending_of(e11)));
    assert(e1.phase is Settling);
    assert(e2.phase is Receiving && e2.attempts == 0);
    assert(e3.phase is Pausing && e3.attempts == 1);
    assert(e4.phase is Receiving && e4.attempts == 1);
    assert(e5.phase is Pausing && e5.attempts == 2);
    assert(e6.phase is Receiving && e6.attempts == 2);
    assert(e7.phase is Pausing && e7.attempts == 3);
    assert(e8.phase is Receiving && e8.attempts == 3);
    assert(e9.phase is Pausing && e9.attempts == 4);
    assert(e10.phase is Receiving && e10.attempts == 4);
    assert(e11.phase is Pausing && e11.attempts == 5);
    assert(e12.phase == PhaseModel::Failed(SessionError::NoResponse));
    reveal_with_fuel(trace, 14);
    assert(trace(fresh(request), reply, 0, 13) =~= unanswered_trace(request));
}

proof fn lemma_no_answer_without_offset(frames: Seq<Frame>, request: RequestModel)
    requires
        request.response_offset is None,
    ensures
        first_answer(frames, request) is None,
    decreases frames.len(),
{
    if frames.len() > 0 {
        lemma_no_answer_without_offset(frames.drop_first(), request);
    }
}

} // verus!
