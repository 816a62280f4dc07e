use vstd::prelude::*;

verus! {

/// The kinds of producer a host can create.
#[derive(Debug, Clone, Copy, PartialEq, Eq, Structural)]
pub enum SourceType {
    Oscillator,
    OpusPlayer,
}

/// An operation that arrived before the producer was ready, kept to be
/// replayed once it is.
#[derive(Debug, Clone, Copy, PartialEq, Eq, Structural)]
pub enum PendingOperation {
    Start,
    /// A new oscillator frequency, as the bit pattern of a 32-bit float.
    SetFrequency(u32),
}

/// The host side's view of a producer that is being initialized: operations
/// that arrive before it is ready are queued, and replayed in order once it
/// is.
pub struct CommandQueue {
    pub is_initialized: bool,
    pub pending_operations: Vec<PendingOperation>,
}

impl CommandQueue {
    /// Not yet initialized, nothing queued.
    pub fn new() -> (r: Self)
        ensures
            !r.is_initialized,
            r.pending_operations@.len() == 0,
    {
        CommandQueue { is_initialized: false, pending_operations: Vec::new() }
    }

    /// An operation arrives. Returns `true` when it should be sent now; before
    /// initialization it is queued instead and `false` is returned.
    pub fn request(&mut self, op: PendingOperation) -> (r: bool)
        ensures
            r == old(self).is_initialized,
            final(self).is_initialized == old(self).is_initialized,
            r ==> final(self).pending_operations@ == old(self).pending_operations@,
            !r ==> final(self).pending_operations@ == old(self).pending_operations@.push(op),
    {
        if self.is_initialized {
            true
        } else {
            self.pending_operations.push(op);
            false
        }
    }

    /// The producer reports it is ready. Returns the queued operations, in
    /// the order they arrived, to be sent now; the queue is left empty.
    pub fn mark_initialized(&mut self) -> (r: Vec<PendingOperation>)
        ensures
            final(self).is_initialized,
            final(self).pending_operations@.len() == 0,
            r@ == old(self).pending_operations@,
    {
        self.is_initialized = true;
        let mut replay: Vec<PendingOperation> = Vec::new();
        std::mem::swap(&mut replay, &mut self.pending_operations);
        replay
    }

    /// Operations that need a ready producer (loading files, reset) are
    /// refused before initialization.
    pub fn require_initialized(&self) -> (r: Result<(), ()>)
        ensures
            r is Ok <==> self.is_initialized,
    {
        if self.is_initialized {
            Ok(())
        } else {
            Err(())
        }
    }
}

} // verus!
