//! Token-usage accounting for LLM calls.

use vstd::prelude::*;

verus! {

/// Token counts produced by one LLM call, or a sum of several.
#[derive(Debug, Clone, Copy, Default, PartialEq, Eq)]
pub struct TokenUsage {
    pub input_tokens: u64,
    pub output_tokens: u64,
    pub cached_input_tokens: u64,
    pub total_tokens: u64,
}

impl TokenUsage {
    pub fn new(input: u64, output: u64, cached: u64) -> (r: Self)
        requires
            input + output <= u64::MAX,
        ensures
            r.input_tokens == input,
            r.output_tokens == output,
            r.cached_input_tokens == cached,
            r.total_tokens == input + output,
    {
        TokenUsage {
            input_tokens: input,
            output_tokens: output,
            cached_input_tokens: cached,
            total_tokens: input + output,
        }
    }

    /// Field-wise sum; a field that would pass `u64::MAX` stays there.
    pub open spec fn plus_spec(self, rhs: Self) -> Self {
        TokenUsage {
            input_tokens: sat_add(self.input_tokens, rhs.input_tokens),
            output_tokens: sat_add(self.output_tokens, rhs.output_tokens),
            cached_input_tokens: sat_add(self.cached_input_tokens, rhs.cached_input_tokens),
            total_tokens: sat_add(self.total_tokens, rhs.total_tokens),
        }
    }

    /// [`TokenUsage::plus_spec`], executable.
    pub fn plus(self, rhs: Self) -> (r: Self)
        ensures
            r == self.plus_spec(rhs),
    {
        TokenUsage {
            input_tokens: self.input_tokens.saturating_add(rhs.input_tokens),
            output_tokens: self.output_tokens.saturating_add(rhs.output_tokens),
            cached_input_tokens: self.cached_input_tokens.saturating_add(rhs.cached_input_tokens),
            total_tokens: self.total_tokens.saturating_add(rhs.total_tokens),
        }
    }
}

pub open spec fn sat_add(a: u64, b: u64) -> u64 {
    if a + b > u64::MAX {
        u64::MAX
    } else {
        (a + b) as u64
    }
}

impl core::ops::AddAssign for TokenUsage {
    fn add_assign(&mut self, rhs: Self)
        ensures
            final(self).input_tokens == sat_add(old(self).input_tokens, rhs.input_tokens),
            final(self).output_tokens == sat_add(old(self).output_tokens, rhs.output_tokens),
            final(self).cached_input_tokens == sat_add(
                old(self).cached_input_tokens,
                rhs.cached_input_tokens,
            ),
            final(self).total_tokens == sat_add(old(self).total_tokens, rhs.total_tokens),
    {
        *self = self.plus(rhs);
    }
}

} // verus!
