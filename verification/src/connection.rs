//! The connection session: it owns the accumulation buffer, says when the
//! peer has to be read from, and forms the bytes of what is sent.
//!
//! The session does no I/O. Its caller reads when `next_frame` asks for it
//! and hands the outcome to `after_read`; it writes the bytes that the
//! `send_negotiation` and `request_*` functions return.

use crate::buffer::contents;
use crate::frame::{decoded, TelnetFrame, IAC, SB, SE};
use crate::frame_lemmas::{
    lemma_subnegotiation_ends_at_first_terminator, lemma_three_byte_command,
};
use crate::negotiation::{TelnetAction, TelnetOption};
use bytes::BytesMut;
use vstd::prelude::*;

verus! {

/// The room that a new session's buffer is made with.
pub const INITIAL_CAPACITY: usize = 4096;

/// The subcommand of a subnegotiation block that asks the peer to send its
/// value of the option.
pub const SEND: u8 = 1;

/// What the caller of `next_frame` has to do.
#[derive(Debug, PartialEq)]
pub enum Step {
    /// A frame was buffered whole: here it is, and the peer need not be read
    /// from.
    Deliver(TelnetFrame),
    /// No complete frame is buffered: read from the peer once, and hand the
    /// outcome to `after_read`.
    Read,
}

/// How one read from the peer ended.
#[derive(Debug, PartialEq)]
pub enum ReadOutcome {
    /// The read returned these bytes; none, where the peer has closed.
    Received(Vec<u8>),
    /// The read failed.
    Failed,
}

pub struct Connection {
    buffer: BytesMut,
}

impl View for Connection {
    type V = Seq<u8>;

    /// The bytes received and not yet taken as a frame, oldest first.
    closed spec fn view(&self) -> Seq<u8> {
        contents(self.buffer)
    }
}

/// The three bytes of the command that carries `action` and `option`.
pub open spec fn negotiation(action: TelnetAction, option: TelnetOption) -> Seq<u8> {
    seq![IAC, action.byte(), option.byte()]
}

/// The subnegotiation block that asks the peer for its value of `option`.
pub open spec fn value_request(option: TelnetOption) -> Seq<u8> {
    seq![IAC, SB, option.byte(), SEND, IAC, SE]
}

impl Connection {
    /// A session with nothing buffered.
    pub fn new() -> (connection: Self)
        ensures
            connection@ == Seq::<u8>::empty(),
    {
        Connection { buffer: BytesMut::with_capacity(INITIAL_CAPACITY) }
    }

    /// The number of bytes buffered.
    pub fn buffered(&self) -> (count: usize)
        ensures
            count == self@.len(),
    {
        self.buffer.len()
    }

    /// Makes one decoding attempt on what is buffered. A complete frame is
    /// delivered at once, and its bytes leave the head of the buffer; only
    /// where there is none is a read asked for, and the buffer is then as it
    /// was.
    pub fn next_frame(&mut self) -> (step: Step)
        ensures
            match decoded(old(self)@) {
                Some((view, consumed)) => step matches Step::Deliver(frame) && frame@ == view
                    && final(self)@ == old(self)@.skip(consumed as int),
                None => step is Read && final(self)@ == old(self)@,
            },
    {
        match TelnetFrame::decode(&mut self.buffer) {
            TelnetFrame::Next => Step::Read,
            frame => Step::Deliver(frame),
        }
    }

    /// Takes in the outcome of the read that `next_frame` asked for. Bytes
    /// received go behind those buffered, and `Next` tells the caller to ask
    /// for the next frame again. A read that returned no byte, or failed,
    /// ends the stream: `None`, and the buffer is as it was.
    pub fn after_read(&mut self, outcome: ReadOutcome) -> (frame: Option<TelnetFrame>)
        requires
            outcome matches ReadOutcome::Received(bytes) ==> old(self)@.len() + bytes@.len()
                <= usize::MAX,
        ensures
            match outcome {
                ReadOutcome::Received(bytes) => if bytes@.len() > 0 {
                    frame matches Some(TelnetFrame::Next) && final(self)@ == old(self)@ + bytes@
                } else {
                    frame is None && final(self)@ == old(self)@
                },
                ReadOutcome::Failed => frame is None && final(self)@ == old(self)@,
            },
    {
        match outcome {
            ReadOutcome::Received(bytes) => {
                if bytes.len() == 0 {
                    None
                } else {
                    self.buffer.extend_from_slice(bytes.as_slice());
                    Some(TelnetFrame::Next)
                }
            },
            ReadOutcome::Failed => None,
        }
    }

    /// The bytes to send for the command that carries `action` and `option`.
    pub fn send_negotiation(action: TelnetAction, option: TelnetOption) -> (bytes: Vec<u8>)
        ensures
            bytes@ == negotiation(action, option),
    {
        let bytes: Vec<u8> = vec![IAC, action.to_u8(), option.to_u8()];
        assert(bytes@ =~= negotiation(action, option));
        bytes
    }

    /// The two messages that ask the peer for its value of `option`, in the
    /// order in which they are sent: the command that requests the option,
    /// then the subnegotiation block that asks for the value.
    pub fn request_option_value(option: TelnetOption) -> (messages: (Vec<u8>, Vec<u8>))
        ensures
            messages.0@ == negotiation(TelnetAction::Do, option),
            messages.1@ == value_request(option),
    {
        let command = Connection::send_negotiation(TelnetAction::Do, option);
        let block: Vec<u8> = vec![IAC, SB, option.to_u8(), SEND, IAC, SE];
        assert(block@ =~= value_request(option));
        (command, block)
    }

    /// The two messages that ask the peer for its terminal type.
    pub fn request_terminal_type() -> (messages: (Vec<u8>, Vec<u8>))
        ensures
            messages.0@ == seq![0xFFu8, 253u8, 24u8],
            messages.1@ == seq![0xFFu8, 250u8, 24u8, 1u8, 0xFFu8, 240u8],
    {
        Connection::request_option_value(TelnetOption::TerminalType)
    }
}

/// What `send_negotiation` forms is, to the peer's decoder, one command,
/// whatever is sent behind it.
pub proof fn lemma_negotiation_is_one_command(
    action: TelnetAction,
    option: TelnetOption,
    rest: Seq<u8>,
)
    ensures
        decoded(negotiation(action, option) + rest) == Some(
            (crate::frame::FrameView::IAC(negotiation(action, option)), 3nat),
        ),
        (negotiation(action, option) + rest).skip(3) == rest,
{
    lemma_three_byte_command(action.byte(), option.byte(), rest);
}

/// The block that asks for an option's value is, to the peer's decoder, one
/// command, whatever is sent behind it.
pub proof fn lemma_value_request_is_one_command(option: TelnetOption, rest: Seq<u8>)
    ensures
        decoded(value_request(option) + rest) == Some(
            (crate::frame::FrameView::IAC(value_request(option)), 6nat),
        ),
        (value_request(option) + rest).skip(6) == rest,
{
    lemma_subnegotiation_ends_at_first_terminator(value_request(option), rest);
}

} // verus!
