//! Input-field tokens: process-wide unique identifiers for registered
//! editable regions.
//!
//! Tokens are minted from a monotonically increasing 64-bit counter that
//! starts at 1; the value 0 is the reserved sentinel that never names a live
//! field, and a minted value is never reused.

use vstd::prelude::*;

verus! {

/// The monotonic source of token values. The session coordinator owns one;
/// its value only ever increases, so no two minted tokens are equal.
#[derive(Clone, Copy, PartialEq, Eq, Structural, Debug)]
pub struct TokenCounter {
    value: u64,
}

impl TokenCounter {
    /// The next value this counter will hand out.
    pub closed spec fn spec_value(&self) -> u64 {
        self.value
    }

    /// A fresh counter; the first token minted from it has value 1, so the
    /// sentinel value 0 is never handed out.
    pub fn new() -> (c: TokenCounter)
        ensures
            c.spec_value() == 1,
    {
        TokenCounter { value: 1 }
    }
}

/// A token that uniquely identifies a text input field inside a window.
#[derive(Clone, Copy, PartialEq, Eq, PartialOrd, Hash, Structural, Debug)]
pub struct TextInputToken(u64);

impl TextInputToken {
    /// The raw 64-bit value of the token.
    pub closed spec fn spec_raw(&self) -> u64 {
        self.0
    }

    /// A token that does not correspond to any text input.
    pub fn invalid() -> (t: TextInputToken)
        ensures
            t.spec_raw() == 0,
    {
        TextInputToken(0)
    }

    /// Create a new token: the counter's current value, after which the
    /// counter moves on, so the same value is never minted twice.
    pub fn next(counter: &mut TokenCounter) -> (t: TextInputToken)
        requires
            1 <= old(counter).spec_value() < u64::MAX,
        ensures
            t.spec_raw() == old(counter).spec_value(),
            final(counter).spec_value() == old(counter).spec_value() + 1,
            t.spec_raw() >= 1,
    {
        let value = counter.value;
        counter.value = value + 1;
        TextInputToken(value)
    }

    /// Create a new token from a raw value.
    pub fn from_raw(id: u64) -> (t: TextInputToken)
        ensures
            t.spec_raw() == id,
    {
        TextInputToken(id)
    }

    /// Get the raw value for a token.
    pub fn into_raw(self) -> (id: u64)
        ensures
            id == self.spec_raw(),
    {
        self.0
    }
}

} // verus!
