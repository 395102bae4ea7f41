//! A session protocol engine: a client submits an instruction, receives a stream of clarifying
//! questions, answers them, and finally asks for a plan. The packets, their text form on the
//! wire, and the per-connection session state machine are verified here; the transport and the
//! text-generation service are driven from outside through plain values.

use vstd::prelude::*;

pub mod chars;
pub mod chat;
pub mod framing;
pub mod frontend;
pub mod protocol;
pub mod session;
pub mod stream;

verus! {

/// Yields the default value of `T`.
pub fn default<T: Default>() -> (r: T)
    ensures
        call_ensures(T::default, (), r),
{
    T::default()
}

} // verus!
