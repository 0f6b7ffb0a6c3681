//! The bytes that wait to be sent to a player's terminal.

use vstd::prelude::*;

verus! {

/// The bytes of a terminal that were written and not sent yet.
#[derive(Debug, PartialEq, Eq)]
pub struct TerminalSink {
    pub bytes: Vec<u8>,
}

/// The other end of the connection takes no more bytes.
#[derive(Debug, Clone, Copy, PartialEq, Eq, Structural)]
pub struct BrokenPipe;

impl View for TerminalSink {
    type V = Seq<u8>;

    open spec fn view(&self) -> Seq<u8> {
        self.bytes@
    }
}

/// The bytes that wait after `data` was written.
pub open spec fn collected(waiting: Seq<u8>, data: Seq<u8>) -> Seq<u8> {
    waiting + data
}

/// The bytes that wait after all of them were handed over for sending.
pub open spec fn flushed(waiting: Seq<u8>, sent: bool) -> Seq<u8> {
    if sent {
        Seq::empty()
    } else {
        waiting
    }
}

impl TerminalSink {
    /// A sink without bytes.
    pub fn new() -> (sink: TerminalSink)
        ensures
            sink@ == Seq::<u8>::empty(),
    {
        TerminalSink { bytes: Vec::new() }
    }

    /// Takes all of the given bytes, and returns how many they are.
    pub fn write(&mut self, data: &[u8]) -> (taken: usize)
        ensures
            final(self)@ == collected(old(self)@, data@),
            taken == data@.len(),
    {
        self.bytes.extend_from_slice(data);
        proof {
            assert(self@ =~= old(self)@ + data@);
        }
        data.len()
    }

    /// The bytes to hand over for sending: all that wait.
    pub fn pending(&self) -> (data: Vec<u8>)
        ensures
            data@ == self@,
    {
        let data = self.bytes.clone();
        proof {
            assert(data@ =~= self@);
        }
        data
    }

    /// Ends a flush: the bytes that were sent are forgotten, and those that
    /// could not be sent are kept.
    pub fn settle(&mut self, sent: bool) -> (result: Result<(), BrokenPipe>)
        ensures
            final(self)@ == flushed(old(self)@, sent),
            result == (if sent {
                Ok(())
            } else {
                Err(BrokenPipe)
            }),
    {
        if !sent {
            return Err(BrokenPipe);
        }
        self.bytes.clear();
        Ok(())
    }
}

} // verus!
