use vstd::prelude::*;

verus! {

/// The capability that lets one logical value be read and mutated through
/// cloneable alias handles. Two families of implementations are intended:
/// a single-scheduler one (a non-atomic, reference-counted cell) and a
/// cross-thread one (a lock-guarded cell). Both live in the embedding
/// runtime; the verified core only manipulates plain values, so nothing in
/// this crate implements the trait, and nothing is assumed of it.
pub trait SharedState<T>: Sized + Clone {
    /// Wrap a fresh value.
    fn new(state: T) -> Self;

    /// Run `f` on a shared borrow of the value.
    fn call<R, F: Fn(&T) -> R>(&self, f: F) -> R;

    /// Run `f` on an exclusive borrow of the value.
    fn call_mut<R, F: FnOnce(&mut T) -> R>(&self, f: F) -> R;
}

} // verus!
