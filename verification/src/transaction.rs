//! One request and its response, as a machine that the caller drives.
//!
//! The machine never touches the channel. It says what to do next: write
//! the command, read a chunk, or stop with the outcome. The caller does it
//! and reports what happened. A transaction is one write and at most two
//! reads, in that order; nothing is retried.

use vstd::prelude::*;
use crate::error::{Error, FramingError, TransportError};

verus! {

/// The largest chunk that a read is asked for.
pub const READ_LIMIT: usize = 8192;

/// The status prefix of a response, interpreted: it must be two bytes, and
/// they say that the device accepts the command (`06 30`) or refuses it
/// (`15 32`).
pub open spec fn status_of(chunk: Seq<u8>) -> Result<(), Error> {
    if chunk.len() != 2 {
        Err(Error::Framing(FramingError::StatusLength(chunk.len() as usize)))
    } else if chunk[0] == 0x06 && chunk[1] == 0x30 {
        Ok(())
    } else if chunk[0] == 0x15 && chunk[1] == 0x32 {
        Err(Error::RequestRejected)
    } else {
        Err(Error::UnknownStatus(chunk[0], chunk[1]))
    }
}

/// Interprets the status prefix of a response.
pub fn check_status(chunk: &[u8]) -> (r: Result<(), Error>)
    ensures
        r == status_of(chunk@),
{
    if chunk.len() != 2 {
        return Err(Error::Framing(FramingError::StatusLength(chunk.len())));
    }
    let a: u8 = chunk[0];
    let b: u8 = chunk[1];
    if a == 0x06 && b == 0x30 {
        Ok(())
    } else if a == 0x15 && b == 0x32 {
        Err(Error::RequestRejected)
    } else {
        Err(Error::UnknownStatus(a, b))
    }
}

/// What the caller reports to the machine.
#[derive(Clone, Debug, PartialEq, Eq)]
pub enum Event {
    /// The write went through.
    Written,
    /// A read returned this chunk.
    Received(Vec<u8>),
    /// The channel failed.
    Failed(TransportError),
}

/// What the machine asks of the caller.
#[derive(Debug, PartialEq, Eq)]
pub enum Action {
    /// Write these bytes to the device.
    Write(Vec<u8>),
    /// Read one chunk from the device.
    Read,
    /// The transaction is over: this is the payload, or why there is none.
    Done(Result<Vec<u8>, Error>),
}

/// An event as plain values.
pub enum EventView {
    Written,
    Received(Seq<u8>),
    Failed(TransportError),
}

/// An action as plain values.
pub enum ActionView {
    Write(Seq<u8>),
    Read,
    Done(Result<Seq<u8>, Error>),
}

impl View for Event {
    type V = EventView;

    open spec fn view(&self) -> EventView {
        match self {
            Event::Written => EventView::Written,
            Event::Received(chunk) => EventView::Received(chunk@),
            Event::Failed(e) => EventView::Failed(*e),
        }
    }
}

impl View for Action {
    type V = ActionView;

    open spec fn view(&self) -> ActionView {
        match self {
            Action::Write(bytes) => ActionView::Write(bytes@),
            Action::Read => ActionView::Read,
            Action::Done(Ok(payload)) => ActionView::Done(Ok(payload@)),
            Action::Done(Err(e)) => ActionView::Done(Err(*e)),
        }
    }
}

/// Where a transaction stands.
#[derive(Clone, Copy, Debug, PartialEq, Eq, Structural)]
pub enum Transaction {
    /// The command is being written.
    Sending,
    /// The command is out; the status prefix is awaited.
    AwaitingStatus,
    /// The device accepted the command; the payload is awaited.
    AwaitingPayload,
    /// The outcome has been handed out.
    Finished,
}

impl Transaction {
    /// The state that follows `self` on `event`.
    pub open spec fn next(self, event: EventView) -> Transaction {
        match (self, event) {
            (Transaction::Sending, EventView::Written) => Transaction::AwaitingStatus,
            (Transaction::AwaitingStatus, EventView::Received(chunk)) => if status_of(chunk)
                is Ok {
                Transaction::AwaitingPayload
            } else {
                Transaction::Finished
            },
            _ => Transaction::Finished,
        }
    }

    /// What the machine asks for in state `self` on `event`. A failure of the
    /// channel ends the transaction with that failure. A status prefix other
    /// than the accepting one ends it with what `status_of` says. A report
    /// that does not answer what was asked for ends it as out of sequence.
    pub open spec fn reaction(self, event: EventView) -> ActionView {
        match (self, event) {
            (Transaction::Finished, _) => ActionView::Done(
                Err(Error::Framing(FramingError::OutOfSequence)),
            ),
            (_, EventView::Failed(e)) => ActionView::Done(Err(Error::Transport(e))),
            (Transaction::Sending, EventView::Written) => ActionView::Read,
            (Transaction::AwaitingStatus, EventView::Received(chunk)) => match status_of(chunk) {
                Ok(()) => ActionView::Read,
                Err(e) => ActionView::Done(Err(e)),
            },
            (Transaction::AwaitingPayload, EventView::Received(chunk)) => ActionView::Done(
                Ok(chunk),
            ),
            _ => ActionView::Done(Err(Error::Framing(FramingError::OutOfSequence))),
        }
    }

    /// Starts a transaction: the first thing to do is to write the command.
    pub fn begin(command: Vec<u8>) -> (r: (Transaction, Action))
        ensures
            r.0 == Transaction::Sending,
            r.1@ == ActionView::Write(command@),
    {
        (Transaction::Sending, Action::Write(command))
    }

    /// Takes the caller's report and says what to do next.
    pub fn step(self, event: Event) -> (r: (Transaction, Action))
        ensures
            r.0 == self.next(event@),
            r.1@ == self.reaction(event@),
    {
        let out_of_sequence = Error::Framing(FramingError::OutOfSequence);
        match self {
            Transaction::Finished => (Transaction::Finished, Action::Done(Err(out_of_sequence))),
            Transaction::Sending => match event {
                Event::Written => (Transaction::AwaitingStatus, Action::Read),
                Event::Failed(e) => (Transaction::Finished, Action::Done(Err(Error::Transport(e)))),
                Event::Received(_) => (Transaction::Finished, Action::Done(Err(out_of_sequence))),
            },
            Transaction::AwaitingStatus => match event {
                Event::Received(chunk) => match check_status(chunk.as_slice()) {
                    Ok(()) => (Transaction::AwaitingPayload, Action::Read),
                    Err(e) => (Transaction::Finished, Action::Done(Err(e))),
                },
                Event::Failed(e) => (Transaction::Finished, Action::Done(Err(Error::Transport(e)))),
                Event::Written => (Transaction::Finished, Action::Done(Err(out_of_sequence))),
            },
            Transaction::AwaitingPayload => match event {
                Event::Received(chunk) => (Transaction::Finished, Action::Done(Ok(chunk))),
                Event::Failed(e) => (Transaction::Finished, Action::Done(Err(Error::Transport(e)))),
                Event::Written => (Transaction::Finished, Action::Done(Err(out_of_sequence))),
            },
        }
    }
}

/// The outcome of a whole transaction on a channel that does not fail, from
/// the two chunks that the device sends: the payload where the status prefix
/// accepts, and no payload otherwise.
pub open spec fn outcome(status: Seq<u8>, payload: Seq<u8>) -> Result<Seq<u8>, Error> {
    match status_of(status) {
        Ok(()) => Ok(payload),
        Err(e) => Err(e),
    }
}

/// A transaction delivers a payload only behind an accepting status prefix:
/// driven by the write and the chunks that were read, the machine ends in
/// `outcome`, and where the prefix does not accept it ends before the payload
/// is read.
pub proof fn lemma_transaction(status: Seq<u8>, payload: Seq<u8>)
    ensures
        Transaction::Sending.reaction(EventView::Written) == ActionView::Read,
        ({
            let waiting = Transaction::Sending.next(EventView::Written);
            let got = EventView::Received(status);
            match status_of(status) {
                Ok(()) => {
                    &&& waiting.reaction(got) == ActionView::Read
                    &&& waiting.next(got).reaction(EventView::Received(payload))
                        == ActionView::Done(outcome(status, payload))
                },
                Err(e) => {
                    &&& waiting.reaction(got) == ActionView::Done(outcome(status, payload))
                    &&& waiting.next(got) == Transaction::Finished
                },
            }
        }),
        forall|event: EventView|
            !(#[trigger] Transaction::Finished.reaction(event) is Read) && !(
            Transaction::Finished.reaction(event) matches ActionView::Done(Ok(_))),
{
}

} // verus!
