//! Token accounting for one provider turn.
//!
//! A provider reports per-turn token counts that may be missing; the
//! session keeps running totals. Accumulation treats a missing prior
//! total as zero and never lets a negative (pathological) turn count
//! reduce the running total.

use vstd::prelude::*;

verus! {

/// Token counts reported for a single provider call. Any of the three
/// counts may be absent when the provider does not report usage.
#[derive(Clone, Debug)]
pub struct Usage {
    pub input_tokens: Option<i32>,
    pub output_tokens: Option<i32>,
    pub total_tokens: Option<i32>,
}

/// A [`Usage`] together with the name of the model that produced it.
#[derive(Clone, Debug)]
pub struct ProviderUsage {
    pub model: String,
    pub usage: Usage,
}

/// Addition on `i32` that clips at `i32::MAX` instead of overflowing.
pub open spec fn spec_saturating_add_i32(a: int, b: int) -> int {
    if a + b > i32::MAX {
        i32::MAX as int
    } else {
        a + b
    }
}

/// What one accumulation step yields: a missing turn count leaves the
/// running total alone; a negative turn count is ignored; otherwise the
/// count is added to the prior total (a missing prior counts as zero),
/// clipping at `i32::MAX`.
pub open spec fn spec_accumulate(prior: Option<i32>, turn: Option<i32>) -> Option<i32> {
    match turn {
        Option::None => prior,
        Option::Some(d) => {
            if d < 0 {
                prior
            } else {
                let base = match prior {
                    Option::None => 0int,
                    Option::Some(p) => p as int,
                };
                Option::Some(spec_saturating_add_i32(base, d as int) as i32)
            }
        },
    }
}

/// Addition on `i32` clipped to the representable range.
pub open spec fn spec_clamped_add_i32(a: int, b: int) -> int {
    if a + b > i32::MAX {
        i32::MAX as int
    } else if a + b < i32::MIN {
        i32::MIN as int
    } else {
        a + b
    }
}

/// Token counts with the missing ones backfilled by estimates: counts
/// the provider reported are kept; a missing input or output count takes
/// its estimate; a missing total takes the sum of the resolved input and
/// output counts, clipped to the representable range.
pub open spec fn spec_ensure_tokens(u: Usage, estimated_input: i32, estimated_output: i32) -> Usage {
    let input = match u.input_tokens {
        Option::Some(v) => v,
        Option::None => estimated_input,
    };
    let output = match u.output_tokens {
        Option::Some(v) => v,
        Option::None => estimated_output,
    };
    Usage {
        input_tokens: Option::Some(input),
        output_tokens: Option::Some(output),
        total_tokens: match u.total_tokens {
            Option::Some(t) => Option::Some(t),
            Option::None => Option::Some(spec_clamped_add_i32(input as int, output as int) as i32),
        },
    }
}

/// Backfills missing token counts with estimates, so that a turn always
/// reports input, output and total counts.
pub fn ensure_tokens(usage: &mut Usage, estimated_input: i32, estimated_output: i32)
    requires
        estimated_input >= 0,
        estimated_output >= 0,
    ensures
        *final(usage) == spec_ensure_tokens(*old(usage), estimated_input, estimated_output),
{
    let input = match usage.input_tokens {
        Some(v) => v,
        None => estimated_input,
    };
    let output = match usage.output_tokens {
        Some(v) => v,
        None => estimated_output,
    };
    usage.input_tokens = Some(input);
    usage.output_tokens = Some(output);
    if usage.total_tokens.is_none() {
        let total = match input.checked_add(output) {
            Some(v) => v,
            None => {
                if input >= 0 {
                    i32::MAX
                } else {
                    i32::MIN
                }
            },
        };
        usage.total_tokens = Some(total);
    }
}

/// Crude token estimate for a piece of text: one token per four
/// characters, rounded up.
pub open spec fn spec_estimated_tokens(text: Seq<char>) -> int {
    text.len() / 4 + if text.len() % 4 > 0 {
        1int
    } else {
        0int
    }
}

/// Estimates the token count of a piece of text.
pub fn estimate_token_count(text: &str) -> (n: usize)
    ensures
        n == spec_estimated_tokens(text@),
{
    let len = text.unicode_len();
    len / 4 + if len % 4 > 0 {
        1
    } else {
        0
    }
}

/// Clips an unsigned count to a non-negative `i32`.
pub fn clamp_to_i32(n: usize) -> (r: i32)
    ensures
        r == if n > i32::MAX {
            i32::MAX as int
        } else {
            n as int
        },
        r >= 0,
{
    if n > i32::MAX as usize {
        i32::MAX
    } else {
        n as i32
    }
}

/// Accumulates one turn's token count into a running total.
///
/// Only positive-or-absent turn counts are accumulated: a negative count
/// never decreases the total, and a missing prior total is treated as
/// zero.
pub fn accumulate_tokens(prior: Option<i32>, turn: Option<i32>) -> (r: Option<i32>)
    ensures
        r == spec_accumulate(prior, turn),
{
    match turn {
        None => prior,
        Some(d) => {
            if d < 0 {
                prior
            } else {
                let base: i32 = match prior {
                    None => 0,
                    Some(p) => p,
                };
                let summed: i32 = match base.checked_add(d) {
                    Some(v) => v,
                    None => i32::MAX,
                };
                Some(summed)
            }
        },
    }
}

/// Accumulation never lowers a running total: whatever the turn
/// reports — even a pathological negative count — the total stays, and a
/// non-negative count adds exactly (clipping at `i32::MAX`).
pub proof fn lemma_accumulate_never_decreases(prior: i32, turn: Option<i32>)
    ensures
        ({
            let r = spec_accumulate(Option::Some(prior), turn);
            &&& r matches Option::Some(v)
            &&& v >= prior
            &&& (match turn {
                Option::Some(d) => if d >= 0 {
                    r == Option::Some(spec_saturating_add_i32(prior as int, d as int) as i32)
                } else {
                    r == Option::Some(prior)
                },
                Option::None => r == Option::Some(prior),
            })
        }),
{
}

} // verus!
