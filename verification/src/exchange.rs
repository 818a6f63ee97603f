//! One request and its response, as a sequence of decisions.
//!
//! An exchange never touches the transport. It starts from a request packet
//! and is told what happened: whether the packet went out, what a read
//! brought, that a pause is over, and each time how long the wait for the
//! response has lasted. It answers with the next [`Step`]: read, pause, or
//! stop with the response or an error.

use crate::codec::cut;
use crate::layout::{
    blank, magic, overlay, FLAGS_OFFSET, MAGIC_0, MAGIC_1, MAGIC_2, MAGIC_3, NO_RESPONSE,
    OPCODE_OFFSET, PACKET_SIZE, RESPONSE_OPCODE, SPACE_OFFSET,
};
use vstd::prelude::*;

verus! {

/// The wait for a response ends once more than this many nanoseconds have
/// passed since the first read was about to start: five seconds.
pub const RESPONSE_DEADLINE_NS: u128 = 5_000_000_000;

/// How long to pause, in milliseconds, after a read that brought nothing
/// because the transport had nothing yet.
pub const RETRY_PAUSE_MS: u64 = 10;

/// Why an exchange brought no response.
#[derive(Clone, Copy, Debug, PartialEq, Eq)]
pub enum ExchangeError {
    /// The request could not be written or flushed.
    TransportWrite,
    /// A read failed for a reason other than having nothing yet.
    TransportRead,
    /// The transport was at its end before the first byte came.
    ConnectionClosed,
    /// The deadline passed before the first byte came.
    ReadTimeout,
    /// The response does not begin with the magic tag. `observed` holds
    /// its first four bytes.
    InvalidMagic { observed: [u8; 4] },
    /// The response begins with the magic tag and its opcode byte,
    /// `response`, does not mark a response. The other fields are those
    /// of the request.
    UnexpectedResponse { opcode: u8, space: u8, flags: u8, response: u8 },
}

/// What one read on the transport brought.
#[derive(Debug, PartialEq, Eq)]
pub enum ReadOutcome {
    /// These bytes, in this order. None at all means that the transport is
    /// at its end.
    Data(Vec<u8>),
    /// Nothing within the transport's own time limit.
    TimedOut,
    /// Nothing, and the transport would have had to wait.
    WouldBlock,
    /// Any other failure.
    Failed,
}

/// What to do next in an exchange.
#[derive(Clone, Copy, Debug, PartialEq, Eq)]
pub enum Step {
    /// Read once, at most `max` bytes, and report with
    /// [`Exchange::on_read`].
    Read { max: usize },
    /// Pause for `millis` milliseconds and report with
    /// [`Exchange::on_resumed`].
    Pause { millis: u64 },
    /// The exchange is over.
    Done(Result<[u8; 512], ExchangeError>),
}

/// A [`Step`] with the response as a sequence.
pub enum StepView {
    Read { max: usize },
    Pause { millis: u64 },
    Done(Result<Seq<u8>, ExchangeError>),
}

impl View for Step {
    type V = StepView;

    open spec fn view(&self) -> StepView {
        match *self {
            Step::Read { max } => StepView::Read { max },
            Step::Pause { millis } => StepView::Pause { millis },
            Step::Done(Ok(response)) => StepView::Done(Ok(response@)),
            Step::Done(Err(e)) => StepView::Done(Err(e)),
        }
    }
}

/// An exchange as contracts see it.
pub struct ExchangeView {
    /// The request packet.
    pub request: Seq<u8>,
    /// The bytes of the response that have come so far.
    pub received: Seq<u8>,
}

impl ExchangeView {
    /// The request is a whole packet and the response is no longer than one.
    pub open spec fn wf(self) -> bool {
        self.request.len() == PACKET_SIZE && self.received.len() <= PACKET_SIZE
    }
}

/// The request asks the device not to answer.
pub open spec fn no_response(request: Seq<u8>) -> bool {
    request[FLAGS_OFFSET as int] & NO_RESPONSE != 0
}

/// More time has passed than the wait for a response may take.
pub open spec fn deadline_passed(elapsed_ns: u128) -> bool {
    elapsed_ns > RESPONSE_DEADLINE_NS
}

/// The received bytes as a packet: what has not come is zero.
pub open spec fn padded(received: Seq<u8>) -> Seq<u8> {
    overlay(blank(), 0, received)
}

/// Whether `response` is accepted as the answer to `request`: it must begin
/// with the magic tag, and then its opcode byte must mark a response. The
/// tag is looked at first.
pub open spec fn check_response(request: Seq<u8>, response: Seq<u8>) -> Result<
    Seq<u8>,
    ExchangeError,
> {
    if response.subrange(0, 4) != magic() {
        Err(
            ExchangeError::InvalidMagic {
                observed: [response[0], response[1], response[2], response[3]],
            },
        )
    } else if response[OPCODE_OFFSET as int] != RESPONSE_OPCODE {
        Err(
            ExchangeError::UnexpectedResponse {
                opcode: request[OPCODE_OFFSET as int],
                space: request[SPACE_OFFSET as int],
                flags: request[FLAGS_OFFSET as int],
                response: response[OPCODE_OFFSET as int],
            },
        )
    } else {
        Ok(response)
    }
}

/// The end of the wait: what has come is padded and checked.
pub open spec fn settle(state: ExchangeView) -> StepView {
    StepView::Done(check_response(state.request, padded(state.received)))
}

/// The end of the wait by the deadline: without a single byte that is a
/// timeout, with some bytes they are taken as a short response.
pub open spec fn give_up(state: ExchangeView) -> StepView {
    if state.received.len() == 0 {
        StepView::Done(Err(ExchangeError::ReadTimeout))
    } else {
        settle(state)
    }
}

/// The decision before a read: a whole packet is settled; past the deadline
/// the wait is given up; else the rest is read.
pub open spec fn poll(state: ExchangeView, elapsed_ns: u128) -> StepView {
    if state.received.len() >= PACKET_SIZE {
        settle(state)
    } else if deadline_passed(elapsed_ns) {
        give_up(state)
    } else {
        StepView::Read { max: (PACKET_SIZE - state.received.len()) as usize }
    }
}

/// The decision after the request was handed to the transport.
pub open spec fn after_write(state: ExchangeView, written: bool, elapsed_ns: u128) -> StepView {
    if !written {
        StepView::Done(Err(ExchangeError::TransportWrite))
    } else if no_response(state.request) {
        StepView::Done(Ok(blank()))
    } else {
        poll(state, elapsed_ns)
    }
}

/// The exchange after a read brought `data`: the bytes that still fit
/// into the packet are added to those received.
pub open spec fn accept(state: ExchangeView, data: Seq<u8>) -> ExchangeView {
    ExchangeView {
        request: state.request,
        received: state.received + cut(data, PACKET_SIZE - state.received.len()),
    }
}

/// The exchange after a read.
pub open spec fn state_after_read(state: ExchangeView, outcome: ReadOutcome) -> ExchangeView {
    match outcome {
        ReadOutcome::Data(data) => accept(state, data@),
        _ => state,
    }
}

/// The decision after a read.
pub open spec fn after_read(state: ExchangeView, outcome: ReadOutcome, elapsed_ns: u128) -> StepView {
    match outcome {
        ReadOutcome::Data(data) => if data@.len() == 0 {
            if state.received.len() == 0 {
                StepView::Done(Err(ExchangeError::ConnectionClosed))
            } else {
                settle(state)
            }
        } else {
            poll(accept(state, data@), elapsed_ns)
        },
        ReadOutcome::TimedOut | ReadOutcome::WouldBlock => if deadline_passed(elapsed_ns) {
            give_up(state)
        } else {
            StepView::Pause { millis: RETRY_PAUSE_MS }
        },
        ReadOutcome::Failed => StepView::Done(Err(ExchangeError::TransportRead)),
    }
}

/// The packet begins with the magic tag.
pub open spec fn begins_with_magic(packet: Seq<u8>) -> bool {
    packet.subrange(0, 4) == magic()
}

/// A response that does not begin with the magic tag is refused for that,
/// whatever its opcode byte is and whatever the request was; and so is what
/// an exchange has received when its wait ends.
pub proof fn lemma_wrong_magic_is_rejected(state: ExchangeView, response: Seq<u8>)
    requires
        !begins_with_magic(response),
    ensures
        check_response(state.request, response) == Err::<Seq<u8>, ExchangeError>(
            ExchangeError::InvalidMagic {
                observed: [response[0], response[1], response[2], response[3]],
            },
        ),
        response == padded(state.received) ==> settle(state) == StepView::Done(
            Err(
                ExchangeError::InvalidMagic {
                    observed: [response[0], response[1], response[2], response[3]],
                },
            ),
        ),
{
}

/// A response handed out for a request that asks for one is a whole packet
/// that begins with the magic tag and is marked as a response, whatever the
/// exchange was told.
pub proof fn lemma_accepted_response_is_framed(
    state: ExchangeView,
    written: bool,
    outcome: ReadOutcome,
    elapsed_ns: u128,
    response: Seq<u8>,
)
    requires
        state.wf(),
        !no_response(state.request),
        after_write(state, written, elapsed_ns) == StepView::Done(Ok(response)) || after_read(
            state,
            outcome,
            elapsed_ns,
        ) == StepView::Done(Ok(response)) || poll(state, elapsed_ns) == StepView::Done(
            Ok(response),
        ),
    ensures
        response.len() == PACKET_SIZE,
        begins_with_magic(response),
        response[OPCODE_OFFSET as int] == RESPONSE_OPCODE,
{
}

/// A request with the flag `NO_RESPONSE` is over once it is written: the
/// exchange hands out a packet of zeros and asks for no read, however much
/// time has passed.
pub proof fn lemma_no_response_skips_read(state: ExchangeView, elapsed_ns: u128)
    requires
        no_response(state.request),
    ensures
        after_write(state, true, elapsed_ns) == StepView::Done(Ok(blank())),
        blank().len() == PACKET_SIZE,
        forall|i: int| 0 <= i < PACKET_SIZE ==> blank()[i] == 0,
{
}

/// Checks a response packet against the request that it answers.
pub fn validate_response(request: &[u8; 512], response: [u8; 512]) -> (checked: Result<
    [u8; 512],
    ExchangeError,
>)
    ensures
        match checked {
            Ok(packet) => check_response(request@, response@) == Ok::<Seq<u8>, ExchangeError>(
                packet@,
            ),
            Err(e) => check_response(request@, response@) == Err::<Seq<u8>, ExchangeError>(e),
        },
{
    if response[0] != MAGIC_0 || response[1] != MAGIC_1 || response[2] != MAGIC_2 || response[3]
        != MAGIC_3 {
        proof {
            let head = response@.subrange(0, 4);
            assert(head[0] == response[0] && head[1] == response[1] && head[2] == response[2]
                && head[3] == response[3]);
        }
        return Err(
            ExchangeError::InvalidMagic {
                observed: [response[0], response[1], response[2], response[3]],
            },
        );
    }
    assert(response@.subrange(0, 4) =~= magic());
    if response[OPCODE_OFFSET] != RESPONSE_OPCODE {
        return Err(
            ExchangeError::UnexpectedResponse {
                opcode: request[OPCODE_OFFSET],
                space: request[SPACE_OFFSET],
                flags: request[FLAGS_OFFSET],
                response: response[OPCODE_OFFSET],
            },
        );
    }
    Ok(response)
}

/// A request on its way and what has come of the response.
pub struct Exchange {
    request: [u8; 512],
    response: [u8; 512],
    received: usize,
}

impl View for Exchange {
    type V = ExchangeView;

    closed spec fn view(&self) -> ExchangeView {
        ExchangeView {
            request: self.request@,
            received: self.response@.take(self.received as int),
        }
    }
}

impl Exchange {
    #[verifier::type_invariant]
    spec fn inv(&self) -> bool {
        &&& self.received <= PACKET_SIZE
        &&& forall|i: int| self.received <= i < PACKET_SIZE ==> self.response@[i] == 0
    }

    /// Starts an exchange. The first thing to do is to write `request` to
    /// the transport and flush it, and to report with
    /// [`Exchange::on_written`].
    pub fn begin(request: [u8; 512]) -> (exchange: Exchange)
        ensures
            exchange@ == (ExchangeView { request: request@, received: Seq::empty() }),
            exchange@.wf(),
    {
        let exchange = Exchange { request, response: [0u8; 512], received: 0 };
        assert(exchange@.received =~= Seq::empty());
        exchange
    }

    /// The request packet.
    pub fn request(&self) -> (packet: &[u8; 512])
        ensures
            packet@ == self@.request,
            self@.wf(),
    {
        proof {
            use_type_invariant(self);
        }
        &self.request
    }

    /// How many bytes of the response have come.
    pub fn received(&self) -> (count: usize)
        ensures
            count == self@.received.len(),
            self@.wf(),
    {
        proof {
            use_type_invariant(self);
        }
        self.received
    }

    /// Pads what has come with zeros and checks it.
    fn settle(&self) -> (step: Step)
        ensures
            step@ == settle(self@),
    {
        proof {
            use_type_invariant(self);
            assert(self.response@ =~= padded(self@.received));
        }
        Step::Done(validate_response(&self.request, self.response))
    }

    /// Ends the wait by the deadline.
    fn give_up(&self) -> (step: Step)
        ensures
            step@ == give_up(self@),
    {
        proof {
            use_type_invariant(self);
        }
        if self.received == 0 {
            Step::Done(Err(ExchangeError::ReadTimeout))
        } else {
            self.settle()
        }
    }

    /// Decides before a read.
    fn poll(&self, elapsed_ns: u128) -> (step: Step)
        ensures
            step@ == poll(self@, elapsed_ns),
    {
        proof {
            use_type_invariant(self);
        }
        if self.received >= PACKET_SIZE {
            self.settle()
        } else if elapsed_ns > RESPONSE_DEADLINE_NS {
            self.give_up()
        } else {
            Step::Read { max: PACKET_SIZE - self.received }
        }
    }

    /// Reports that the request was written and flushed (`written`), or
    /// that one of the two failed. `elapsed_ns` is the time since the
    /// write ended, in nanoseconds.
    ///
    /// A request with the flag `NO_RESPONSE` ends here, with a packet of
    /// zeros that stands for no response of the device.
    pub fn on_written(&self, written: bool, elapsed_ns: u128) -> (step: Step)
        ensures
            step@ == after_write(self@, written, elapsed_ns),
    {
        if !written {
            Step::Done(Err(ExchangeError::TransportWrite))
        } else if self.request[FLAGS_OFFSET] & NO_RESPONSE != 0 {
            let zeros = [0u8; 512];
            assert(zeros@ =~= blank());
            Step::Done(Ok(zeros))
        } else {
            self.poll(elapsed_ns)
        }
    }

    /// Reports what the read brought that the last step asked for.
    /// `elapsed_ns` is the time since the write ended, in nanoseconds.
    pub fn on_read(&mut self, outcome: ReadOutcome, elapsed_ns: u128) -> (step: Step)
        ensures
            final(self)@ == state_after_read(old(self)@, outcome),
            final(self)@.wf(),
            step@ == after_read(old(self)@, outcome, elapsed_ns),
    {
        proof {
            use_type_invariant(&*self);
        }
        match outcome {
            ReadOutcome::Data(data) => {
                if data.len() == 0 {
                    assert(self@ == accept(self@, data@)) by {
                        assert(self@.received + cut(data@, PACKET_SIZE - self@.received.len())
                            =~= self@.received);
                    }
                    if self.received == 0 {
                        Step::Done(Err(ExchangeError::ConnectionClosed))
                    } else {
                        self.settle()
                    }
                } else {
                    self.store(&data);
                    self.poll(elapsed_ns)
                }
            },
            ReadOutcome::TimedOut | ReadOutcome::WouldBlock => {
                if elapsed_ns > RESPONSE_DEADLINE_NS {
                    self.give_up()
                } else {
                    Step::Pause { millis: RETRY_PAUSE_MS }
                }
            },
            ReadOutcome::Failed => Step::Done(Err(ExchangeError::TransportRead)),
        }
    }

    /// Adds to the response the bytes of `data` that still fit.
    fn store(&mut self, data: &Vec<u8>)
        ensures
            final(self)@ == accept(old(self)@, data@),
            final(self)@.wf(),
    {
        proof {
            use_type_invariant(&*self);
        }
        let room = PACKET_SIZE - self.received;
        let count = if data.len() <= room {
            data.len()
        } else {
            room
        };
        let start = self.received;
        let ghost before = self.response@;
        let ghost taken = cut(data@, room as int);
        let mut response = self.response;
        let mut i: usize = 0;
        while i < count
            invariant
                i <= count,
                count == taken.len(),
                count <= data@.len(),
                start + count <= PACKET_SIZE,
                forall|k: int| 0 <= k < count ==> taken[k] == data@[k],
                forall|k: int| 0 <= k < start ==> response@[k] == before[k],
                forall|k: int| 0 <= k < i ==> response@[start + k] == taken[k],
                forall|k: int| start + i <= k < PACKET_SIZE ==> response@[k] == 0,
            decreases count - i,
        {
            response[start + i] = data[i];
            i += 1;
        }
        let ghost old_view = self@;
        *self = Exchange { request: self.request, response, received: start + count };
        assert(self@.received =~= old_view.received + taken);
    }

    /// Reports that the pause is over that the last step asked for.
    /// `elapsed_ns` is the time since the write ended, in nanoseconds.
    pub fn on_resumed(&self, elapsed_ns: u128) -> (step: Step)
        ensures
            step@ == poll(self@, elapsed_ns),
    {
        self.poll(elapsed_ns)
    }
}

} // verus!
