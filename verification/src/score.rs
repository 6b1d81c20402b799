//! The score of a position: what the model's tables say about breaking the
//! text just before it.
//!
//! The score of a position is the sum of the weights found for the windows
//! around the position, less half the sum of all weights in the model. All
//! scores are kept doubled, so that the half stays a whole number and every
//! comparison is exact.

use crate::model::{total_weight, Model, Weights};
use crate::table::{weight_of, FeatureTable};
use crate::text::window;
use vstd::prelude::*;

verus! {

/// What `table` contributes for the window of `len` codepoints that starts at
/// `start`: the weight of those codepoints where the whole window lies inside
/// `text`, and nothing where any part of it falls off either end.
pub open spec fn window_weight(
    table: Map<Seq<char>, i32>,
    text: Seq<char>,
    start: int,
    len: int,
) -> int {
    if 0 <= start && start + len <= text.len() {
        weight_of(table, text.subrange(start, start + len))
    } else {
        0
    }
}

/// The sum of the weights of all thirteen windows around position `i`.
pub open spec fn feature_sum(weights: Weights, text: Seq<char>, i: int) -> int {
    window_weight(weights.uw1, text, i - 3, 1) + window_weight(weights.uw2, text, i - 2, 1)
        + window_weight(weights.uw3, text, i - 1, 1) + window_weight(weights.uw4, text, i, 1)
        + window_weight(weights.uw5, text, i + 1, 1) + window_weight(weights.uw6, text, i + 2, 1)
        + window_weight(weights.bw1, text, i - 2, 2) + window_weight(weights.bw2, text, i - 1, 2)
        + window_weight(weights.bw3, text, i, 2) + window_weight(weights.tw1, text, i - 3, 3)
        + window_weight(weights.tw2, text, i - 2, 3) + window_weight(weights.tw3, text, i - 1, 3)
        + window_weight(weights.tw4, text, i, 3)
}

/// Twice the base score of a model: the negated sum of all its weights. It
/// depends on the model alone, not on any text.
pub open spec fn doubled_base_score(weights: Weights) -> int {
    -total_weight(weights)
}

/// Twice the score of position `i` of `text`.
pub open spec fn doubled_score(weights: Weights, text: Seq<char>, i: int) -> int {
    doubled_base_score(weights) + 2 * feature_sum(weights, text, i)
}

/// Whether a new chunk starts at position `i`: the score there is positive.
/// A score of exactly zero does not break.
pub open spec fn breaks_before(weights: Weights, text: Seq<char>, i: int) -> bool {
    doubled_score(weights, text, i) > 0
}

/// The contribution of one table for the window of `len` codepoints that
/// starts at `start`: zero where the window runs past the end of `chars`.
fn window_score(table: &FeatureTable, chars: &Vec<char>, start: usize, len: usize) -> (weight:
    i64)
    ensures
        weight == window_weight(table@, chars@, start as int, len as int),
        -0x8000_0000 <= weight <= 0x7fff_ffff,
{
    if len <= chars.len() && start <= chars.len() - len {
        let key = window(chars, start, len);
        table.weight(key.as_str()) as i64
    } else {
        0
    }
}

impl Model {
    /// The sum of the weights of all thirteen windows around position `i` of
    /// `chars`. A window that runs past either end of `chars` adds nothing.
    pub fn feature_sum(&self, chars: &Vec<char>, i: usize) -> (sum: i64)
        ensures
            sum == feature_sum(self@, chars@, i as int),
    {
        let mut sum: i64 = 0;
        if i >= 3 {
            sum = sum + window_score(&self.uw1, chars, i - 3, 1);
            sum = sum + window_score(&self.tw1, chars, i - 3, 3);
        }
        if i >= 2 {
            sum = sum + window_score(&self.uw2, chars, i - 2, 1);
            sum = sum + window_score(&self.bw1, chars, i - 2, 2);
            sum = sum + window_score(&self.tw2, chars, i - 2, 3);
        }
        if i >= 1 {
            sum = sum + window_score(&self.uw3, chars, i - 1, 1);
            sum = sum + window_score(&self.bw2, chars, i - 1, 2);
            sum = sum + window_score(&self.tw3, chars, i - 1, 3);
        }
        sum = sum + window_score(&self.uw4, chars, i, 1);
        sum = sum + window_score(&self.bw3, chars, i, 2);
        sum = sum + window_score(&self.tw4, chars, i, 3);
        if i < chars.len() {
            sum = sum + window_score(&self.uw5, chars, i + 1, 1);
            if i + 1 < chars.len() {
                sum = sum + window_score(&self.uw6, chars, i + 2, 1);
            }
        }
        sum
    }
}

} // verus!
