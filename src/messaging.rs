//! One conversation over a socket: framing of requests, reading of whole
//! frames, and how transfer outcomes become command outcomes.

use crate::messages::{spec_request_type, Request};
use crate::transfer::{IoFailure, Transfer, TransferEvent, TransferStep, spec_step};
use crate::util::{failure, ExitValue, Failure};
use crate::wire::{
    be8, frame_bytes, header_of, lemma_be8_round_trip, lemma_frame_round_trip, read_meta,
    spec_decode_frame, Message, MessageHeader, HEADER_SIZE,
};
use vstd::prelude::*;
use vstd::utf8::encode_utf8;

verus! {

/// Largest number of bytes asked for by one receive call.
pub const MESSAGE_SIZE: usize = 1000;

/// The frame for `request`, given the JSON text of its payload.
pub fn request_frame(request: &Request, payload: String) -> (r: Message)
    requires
        encode_utf8(payload@).len() <= i64::MAX,
    ensures
        r.header.message_type == spec_request_type(*request),
        r.header.message_length == encode_utf8(payload@).len(),
        r.message_text@ == payload@,
{
    Message::new(request.type_id(), payload)
}

/// The outcome of sending a whole frame, from the step its transfer ended on.
pub open spec fn spec_send_outcome(step: TransferStep) -> Result<(), ExitValue> {
    match step {
        TransferStep::Complete => Ok(()),
        TransferStep::Failed(IoFailure::BrokenPipe) => Err(ExitValue::Shutdown),
        _ => Err(ExitValue::Code(1)),
    }
}

/// The outcome of a send: a peer that closed its end is a clean shutdown, any
/// other failure is an error.
pub fn send_outcome(step: TransferStep) -> (r: Result<(), Failure>)
    ensures
        match r {
            Ok(()) => spec_send_outcome(step) == Ok::<(), ExitValue>(()),
            Err(f) => spec_send_outcome(step) == Err::<(), ExitValue>(f.exit),
        },
{
    match step {
        TransferStep::Complete => Ok(()),
        TransferStep::Failed(IoFailure::BrokenPipe) => Err(
            Failure { exit: ExitValue::Shutdown, message: Some("Socket closed".to_owned()) },
        ),
        _ => Err(failure("Error attempting to send message to Paper server")),
    }
}

/// What a receive does after its transfer ended on some step.
#[derive(Debug)]
pub enum ReceiveDecision {
    /// The frame arrived.
    Proceed,
    /// Nothing arrived in time; wait again.
    Retry,
    /// Give up.
    Fail(Failure),
}

/// The receive's decision after step `step`; `keep_waiting` says whether an
/// ordinary timeout should be waited out again.
pub open spec fn spec_receive_decision(step: TransferStep, keep_waiting: bool) -> Option<
    Result<(), ExitValue>,
> {
    match step {
        TransferStep::Complete | TransferStep::Continue => Some(Ok(())),
        TransferStep::TimedOut => if keep_waiting {
            None
        } else {
            Some(Err(ExitValue::Code(1)))
        },
        TransferStep::PeerClosed => Some(Err(ExitValue::Shutdown)),
        _ => Some(Err(ExitValue::Code(1))),
    }
}

/// How a receive goes on after its transfer ended: a timeout with no data is
/// waited out while `keep_waiting`; a stall mid-message is fatal; a peer that
/// shut down in order is a clean shutdown.
pub fn receive_decision(step: TransferStep, keep_waiting: bool) -> (r: ReceiveDecision)
    ensures
        match r {
            ReceiveDecision::Proceed => spec_receive_decision(step, keep_waiting) == Some(
                Ok::<(), ExitValue>(()),
            ),
            ReceiveDecision::Retry => spec_receive_decision(step, keep_waiting) is None,
            ReceiveDecision::Fail(f) => spec_receive_decision(step, keep_waiting) == Some(
                Err::<(), ExitValue>(f.exit),
            ),
        },
{
    match step {
        TransferStep::Complete | TransferStep::Continue => ReceiveDecision::Proceed,
        TransferStep::TimedOut => {
            if keep_waiting {
                ReceiveDecision::Retry
            } else {
                ReceiveDecision::Fail(failure("Timed out waiting for a message from Paper server"))
            }
        },
        TransferStep::Stalled => ReceiveDecision::Fail(
            failure("Timeout occurred during the transfer of a message"),
        ),
        TransferStep::PeerClosed => ReceiveDecision::Fail(
            Failure {
                exit: ExitValue::Shutdown,
                message: Some("The Paper server closed the socket".to_owned()),
            },
        ),
        TransferStep::Failed(_) => ReceiveDecision::Fail(
            failure("Error attempting to receive message from Paper server"),
        ),
    }
}

/// The bytes `b` hold exactly one whole frame: a header and as many payload
/// bytes as it announces.
pub open spec fn frame_complete(b: Seq<u8>) -> bool {
    b.len() >= HEADER_SIZE && header_of(b).message_length >= 0 && b.len() == HEADER_SIZE
        + header_of(b).message_length
}

/// Read in pieces, a well-formed frame never looks malformed: every prefix
/// that holds the header announces a length the reader accepts, the prefix is a
/// whole frame only once every byte has arrived, and then it decodes to the
/// type id and text that were sent. With the contract of
/// [`FrameReader::on_received`], receiving a frame in chunks of any sizes up to
/// [`FrameReader::wanted`] therefore goes on until the last byte and then
/// yields exactly the message sent.
pub proof fn lemma_frame_prefixes(t: i64, text: Seq<char>, n: int)
    requires
        encode_utf8(text).len() <= i64::MAX,
        encode_utf8(text).len() <= usize::MAX,
        HEADER_SIZE <= n <= frame_bytes(t, text).len(),
    ensures
        0 <= header_of(frame_bytes(t, text).take(n)).message_length <= usize::MAX,
        frame_complete(frame_bytes(t, text).take(n)) <==> n == frame_bytes(t, text).len(),
        frame_complete(frame_bytes(t, text).take(n)) ==> spec_decode_frame(
            frame_bytes(t, text).take(n),
        ) == Some((t, text)),
{
    let f = frame_bytes(t, text);
    let p = f.take(n);
    let len = encode_utf8(text).len() as i64;
    assert(p.subrange(0, 8) =~= be8(t));
    assert(p.subrange(8, 16) =~= be8(len));
    lemma_be8_round_trip(t);
    lemma_be8_round_trip(len);
    assert(header_of(p).message_length == len);
    if n == f.len() {
        assert(p =~= f);
        lemma_frame_round_trip(t, text);
    }
}

/// What reading a frame does next.
#[derive(Debug, PartialEq, Eq)]
pub enum ReadStep {
    /// Receive more bytes.
    Continue,
    /// The whole frame arrived.
    Done(Message),
    /// The transfer ended without a frame.
    Ended(TransferStep),
    /// The bytes do not form a frame: a negative length, or a payload that is
    /// not UTF-8.
    Malformed,
}

/// Reads one frame: the sixteen header bytes, then as many payload bytes as the
/// header announces.
pub struct FrameReader {
    /// The header, once it has arrived.
    pub header: Option<MessageHeader>,
    /// Bytes of the current part (header or payload) received so far.
    pub buf: Vec<u8>,
    /// The transfer of the current part.
    pub transfer: Transfer,
    /// Every byte received so far.
    pub received: Ghost<Seq<u8>>,
}

impl FrameReader {
    /// The reader is consistent with the bytes it has received.
    pub open spec fn wf(&self) -> bool {
        &&& self.transfer.wf()
        &&& self.transfer.done == self.buf@.len()
        &&& match self.header {
            None => {
                &&& self.transfer.total == HEADER_SIZE
                &&& !self.transfer.in_message
                &&& self.buf@ == self.received@
            },
            Some(h) => {
                &&& self.received@.len() >= HEADER_SIZE
                &&& h == header_of(self.received@)
                &&& h.message_length == self.transfer.total
                &&& self.transfer.in_message
                &&& self.buf@ == self.received@.subrange(16, self.received@.len() as int)
            },
        }
    }

    /// A reader that has received nothing, at clock reading `now_ms`.
    pub fn new(now_ms: u64) -> (r: FrameReader)
        ensures
            r.wf(),
            r.received@ == Seq::<u8>::empty(),
            r.header is None,
            r.transfer == Transfer::new_spec(HEADER_SIZE, false, now_ms),
            !r.transfer.finished,
    {
        FrameReader {
            header: None,
            buf: Vec::new(),
            transfer: Transfer::new(HEADER_SIZE, false, now_ms),
            received: Ghost(Seq::empty()),
        }
    }

    /// How many bytes to ask for in the next receive call.
    pub fn wanted(&self) -> (r: usize)
        requires
            self.wf(),
        ensures
            r == if self.transfer.total - self.transfer.done < MESSAGE_SIZE {
                self.transfer.total - self.transfer.done
            } else {
                MESSAGE_SIZE as int
            },
    {
        let left = self.transfer.remaining();
        if left < MESSAGE_SIZE { left } else { MESSAGE_SIZE }
    }

    /// Completes the frame from the full payload in `buf`.
    fn finish(&mut self) -> (r: ReadStep)
        requires
            old(self).wf(),
            old(self).header is Some,
            old(self).transfer.done == old(self).transfer.total,
        ensures
            final(self).received == old(self).received,
            r matches ReadStep::Done(m) ==> spec_decode_frame(final(self).received@) == Some(
                (m.header.message_type, m.message_text@),
            ),
            r is Malformed ==> spec_decode_frame(final(self).received@) is None,
            r is Done || r is Malformed,
            frame_complete(final(self).received@),
    {
        let h = self.header.unwrap();
        let mut bytes: Vec<u8> = Vec::new();
        crate::wire::write_i64(&mut bytes, h.message_type);
        crate::wire::write_i64(&mut bytes, h.message_length);
        let mut i: usize = 0;
        let ghost start = bytes@;
        while i < self.buf.len()
            invariant
                i <= self.buf@.len(),
                bytes@ == start + self.buf@.take(i as int),
            decreases self.buf.len() - i,
        {
            bytes.push(self.buf[i]);
            i = i + 1;
            assert(bytes@ =~= start + self.buf@.take(i as int));
        }
        proof {
            assert(self.buf@.take(i as int) =~= self.buf@);
            let rec = self.received@;
            crate::wire::lemma_be8_round_trip(h.message_type);
            crate::wire::lemma_be8_round_trip(h.message_length);
            assert(bytes@.subrange(16, bytes@.len() as int) =~= self.buf@);
            assert(bytes@.subrange(0, 8) =~= crate::wire::be8(h.message_type));
            assert(bytes@.subrange(8, 16) =~= crate::wire::be8(h.message_length));
            assert(header_of(bytes@) == h);
            assert(rec.subrange(16, rec.len() as int) == self.buf@);
            assert(spec_decode_frame(bytes@) == spec_decode_frame(rec));
        }
        match Message::decode(&bytes) {
            Some(m) => ReadStep::Done(m),
            None => ReadStep::Malformed,
        }
    }

    /// Takes in the bytes `chunk` that one receive call returned at clock
    /// reading `now_ms`. Accepted bytes are added to what was received; when the
    /// frame is whole, it is the decoding of everything received.
    pub fn on_received(&mut self, chunk: &[u8], now_ms: u64) -> (r: ReadStep)
        requires
            old(self).wf(),
            !old(self).transfer.finished,
        ensures
            final(self).wf() || !(r is Continue),
            1 <= chunk@.len() <= old(self).transfer.total - old(self).transfer.done ==> !(r is Ended),
            chunk@.len() == 0 ==> r == ReadStep::Ended(TransferStep::PeerClosed),
            r is Malformed ==> final(self).received@.len() >= HEADER_SIZE,
            r is Continue ==> !final(self).transfer.finished && !frame_complete(final(self).received@),
            r is Done ==> frame_complete(final(self).received@),
            r is Continue || r is Done ==> final(self).received@ == old(self).received@ + chunk@,
            r matches ReadStep::Done(m) ==> spec_decode_frame(final(self).received@) == Some(
                (m.header.message_type, m.message_text@),
            ),
            r is Malformed ==> final(self).received@ == old(self).received@ + chunk@
                && spec_decode_frame(final(self).received@) is None && (header_of(
                final(self).received@,
            ).message_length < 0 || header_of(final(self).received@).message_length > usize::MAX
                || frame_complete(final(self).received@)),
            r matches ReadStep::Ended(step) ==> step == spec_step(
                old(self).transfer,
                TransferEvent::Moved { count: chunk@.len() as usize, now_ms },
            ).1,
    {
        let step = self.transfer.on_event(TransferEvent::Moved { count: chunk.len(), now_ms });
        match step {
            TransferStep::Continue | TransferStep::Complete => {},
            _ => {
                return ReadStep::Ended(step);
            },
        }
        let mut i: usize = 0;
        let ghost start = self.buf@;
        let ghost after = self.transfer;
        while i < chunk.len()
            invariant
                i <= chunk@.len(),
                self.buf@ == start + chunk@.take(i as int),
                self.header == old(self).header,
                self.received == old(self).received,
                self.transfer == after,
            decreases chunk.len() - i,
        {
            self.buf.push(chunk[i]);
            i = i + 1;
            assert(self.buf@ =~= start + chunk@.take(i as int));
        }
        assert(chunk@.take(i as int) =~= chunk@);
        let ghost old_received = self.received@;
        self.received = Ghost(self.received@ + chunk@);
        proof {
            if self.header is Some {
                let rec = self.received@;
                assert(rec.subrange(16, rec.len() as int) =~= old_received.subrange(
                    16,
                    old_received.len() as int,
                ) + chunk@);
                assert(rec.subrange(0, 16) =~= old_received.subrange(0, 16));
            }
        }
        if step == TransferStep::Continue {
            return ReadStep::Continue;
        }
        match self.header {
            Some(_) => self.finish(),
            None => {
                let h = read_meta(self.buf.as_slice());
                if h.message_length < 0 || h.message_length as u64 > usize::MAX as u64 {
                    proof {
                        assert(header_of(self.received@) == h);
                    }
                    return ReadStep::Malformed;
                }
                self.header = Some(h);
                self.buf = Vec::new();
                let now = self.transfer.since_ms;
                self.transfer = Transfer::new(h.message_length as usize, true, now);
                proof {
                    let rec = self.received@;
                    assert(rec.subrange(16, rec.len() as int) =~= Seq::<u8>::empty());
                }
                if h.message_length == 0 {
                    self.finish()
                } else {
                    ReadStep::Continue
                }
            },
        }
    }

    /// Takes in a receive call that found nothing yet, at clock reading `now_ms`.
    pub fn on_would_block(&mut self, now_ms: u64) -> (r: TransferStep)
        requires
            old(self).wf(),
            !old(self).transfer.finished,
        ensures
            final(self).wf(),
            final(self).received == old(self).received,
            final(self).header == old(self).header,
            final(self).buf@ == old(self).buf@,
            (final(self).transfer, r) == spec_step(old(self).transfer, TransferEvent::WouldBlock { now_ms }),
    {
        self.transfer.on_event(TransferEvent::WouldBlock { now_ms })
    }

    /// Takes in a failed receive call.
    pub fn on_failed(&mut self, f: IoFailure) -> (r: TransferStep)
        requires
            old(self).wf(),
            !old(self).transfer.finished,
        ensures
            final(self).wf(),
            final(self).received == old(self).received,
            final(self).transfer.finished,
            r == TransferStep::Failed(f),
    {
        self.transfer.on_event(TransferEvent::Failed(f))
    }
}

} // verus!
