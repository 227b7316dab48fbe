//! The transport task's decision core.  The byte stream itself (device
//! housekeeping, reads, the reset into programming mode) belongs to the
//! surrounding event loop; here stand the two decisions it delegates:
//! assembling raw bytes into newline-delimited lines, and turning one
//! complete line into an effect on the request channel.

use vstd::prelude::*;

use crate::channel::{RequestChannel, CHANNEL_CAPACITY};
use crate::command::{spec_parse, parse_command, Command, ServoMoveRequest};

verus! {

/// The line-feed byte that delimits a logical line.
pub const LINE_DELIMITER: u8 = 10;

/// Accumulates incoming bytes until a full, newline-terminated line is at
/// hand.  No partial line ever leaves the buffer.
pub struct LineBuffer {
    pending: Vec<u8>,
}

impl View for LineBuffer {
    type V = Seq<u8>;

    closed spec fn view(&self) -> Seq<u8> {
        self.pending@
    }
}

impl LineBuffer {
    /// An empty line buffer.
    pub fn new() -> (b: LineBuffer)
        ensures
            b@ == Seq::<u8>::empty(),
    {
        LineBuffer { pending: Vec::new() }
    }

    /// Takes one received byte.  A line-feed completes the pending line
    /// and empties the buffer; the delimiter itself is not part of the
    /// line.  Any other byte is appended and no line is produced.
    pub fn push_byte(&mut self, b: u8) -> (line: Option<Vec<u8>>)
        ensures
            b == LINE_DELIMITER ==> ({
                &&& line matches Some(l) && l@ == old(self)@
                &&& final(self)@ == Seq::<u8>::empty()
            }),
            b != LINE_DELIMITER ==> line is None && final(self)@ == old(self)@.push(b),
    {
        if b == LINE_DELIMITER {
            let mut taken: Vec<u8> = Vec::new();
            std::mem::swap(&mut taken, &mut self.pending);
            Some(taken)
        } else {
            self.pending.push(b);
            None
        }
    }
}

/// What handling one line did to the request channel.
#[derive(Clone, Copy, Debug, PartialEq, Eq, Structural)]
pub enum LineOutcome {
    /// The line was a move command and the request was enqueued.
    Enqueued,
    /// The line was a move command but the channel is full; the request
    /// comes back so the producer can retry once the consumer made room.
    ChannelFull(ServoMoveRequest),
    /// The line asks for a reset into programming mode; the caller must
    /// perform it.  Nothing is enqueued.
    Reset,
    /// The line meant nothing and was dropped silently.
    Ignored,
}

/// Handles one complete line: parses it and, when it is a move command,
/// enqueues the request.  The channel changes exactly when a move command
/// found room; every other outcome leaves it untouched.
pub fn process_line(channel: &mut RequestChannel, line: &[u8]) -> (o: LineOutcome)
    requires
        old(channel).wf(),
    ensures
        final(channel).wf(),
        ({
            match spec_parse(line@) {
                Command::Move(request) => {
                    if old(channel)@.len() < CHANNEL_CAPACITY {
                        o == LineOutcome::Enqueued && final(channel)@ == old(channel)@.push(
                            request,
                        )
                    } else {
                        o == LineOutcome::ChannelFull(request) && final(channel)@ == old(
                            channel,
                        )@
                    }
                },
                Command::Reset => o == LineOutcome::Reset && final(channel)@ == old(channel)@,
                Command::Ignore => o == LineOutcome::Ignored && final(channel)@ == old(channel)@,
            }
        }),
{
    match parse_command(line) {
        Command::Move(request) => match channel.try_send(request) {
            Ok(()) => LineOutcome::Enqueued,
            Err(back) => LineOutcome::ChannelFull(back),
        },
        Command::Reset => LineOutcome::Reset,
        Command::Ignore => LineOutcome::Ignored,
    }
}

} // verus!
