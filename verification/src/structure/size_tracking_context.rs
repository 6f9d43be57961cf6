use vstd::prelude::*;

verus! {

/// A deserialization context that tracks how much of the input buffer the
/// element being read may still consume. A Data submessage's length comes
/// from its enclosing header, and the payload at its tail has no length
/// marker of its own: it takes whatever budget is left.
pub trait SizeTrackingContext {
    spec fn spec_length_remaining(&self) -> usize;

    /// Record that `length` bytes of the remaining budget were consumed.
    fn subtract_from_remaining(&mut self, length: usize)
        requires
            length <= old(self).spec_length_remaining(),
        ensures
            final(self).spec_length_remaining() == old(self).spec_length_remaining() - length,
    ;

    /// How many bytes of input may still be consumed.
    fn length_remaining(&self) -> (r: usize)
        ensures
            r == self.spec_length_remaining(),
    ;
}

} // verus!
