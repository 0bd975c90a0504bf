//! Single-assignment signal container: a holder of one value, scoped to a
//! single render pass, readable many times and writable at most once, with
//! the write required to happen before any read has been observed.

use vstd::prelude::*;

verus! {

/// Violation of the signal write/read ordering contract.
#[derive(Clone, Copy, PartialEq, Eq, Structural, Debug)]
pub enum SignalMisuseError {
    /// `set` was called after the value had already been observed by `get`.
    WriteAfterRead,
    /// `set` was called twice within the same render pass.
    WriteAfterWrite,
}

/// A single-writer, multi-reader holder of a value of type `T`, created
/// with an initial value and owned by exactly one render pass.
pub struct Signal<T: Copy> {
    value: T,
    written: bool,
    observed: bool,
}

impl<T: Copy> Signal<T> {
    /// The value currently held.
    pub closed spec fn spec_value(self) -> T {
        self.value
    }

    /// Whether `set` has succeeded on this signal in this pass.
    pub closed spec fn is_written(self) -> bool {
        self.written
    }

    /// Whether any `get` has been observed on this signal in this pass.
    pub closed spec fn is_observed(self) -> bool {
        self.observed
    }

    /// Creates a fresh signal holding `initial`, not yet written and not
    /// yet observed.
    pub fn create(initial: T) -> (s: Self)
        ensures
            s.spec_value() == initial,
            !s.is_written(),
            !s.is_observed(),
    {
        Signal { value: initial, written: false, observed: false }
    }

    /// Reads the current value and records the observation; the value and
    /// the written mark are unchanged.
    pub fn get(&mut self) -> (r: T)
        ensures
            r == old(self).spec_value(),
            final(self).spec_value() == old(self).spec_value(),
            final(self).is_written() == old(self).is_written(),
            final(self).is_observed(),
    {
        self.observed = true;
        self.value
    }

    /// Writes `v`, succeeding exactly when no `get` has been observed and
    /// no earlier `set` has succeeded in this pass; on failure the signal
    /// is unchanged.
    pub fn set(&mut self, v: T) -> (r: Result<(), SignalMisuseError>)
        ensures
            r is Ok <==> !old(self).is_observed() && !old(self).is_written(),
            old(self).is_observed() ==> r == Err::<(), SignalMisuseError>(
                SignalMisuseError::WriteAfterRead,
            ),
            !old(self).is_observed() && old(self).is_written() ==> r == Err::<
                (),
                SignalMisuseError,
            >(SignalMisuseError::WriteAfterWrite),
            r is Ok ==> final(self).spec_value() == v && final(self).is_written()
                && !final(self).is_observed(),
            r is Err ==> final(self).spec_value() == old(self).spec_value()
                && final(self).is_written() == old(self).is_written()
                && final(self).is_observed() == old(self).is_observed(),
    {
        if self.observed {
            Err(SignalMisuseError::WriteAfterRead)
        } else if self.written {
            Err(SignalMisuseError::WriteAfterWrite)
        } else {
            self.value = v;
            self.written = true;
            Ok(())
        }
    }
}

} // verus!
