//! The weight model: thirteen feature tables, one for each window of
//! codepoints around a position.

use crate::table::{weight_sum, FeatureTable};
use vstd::prelude::*;

verus! {

/// A trained model. The unigram tables `uw1` to `uw6` are keyed by the single
/// codepoint at offsets -3 to +2 from a position, the bigram tables `bw1` to
/// `bw3` by the two codepoints that start at offsets -2 to 0, and the trigram
/// tables `tw1` to `tw4` by the three codepoints that start at offsets -3 to 0.
pub struct Model {
    /// Weights of the codepoint three places before the position.
    pub uw1: FeatureTable,
    /// Weights of the codepoint two places before the position.
    pub uw2: FeatureTable,
    /// Weights of the codepoint just before the position.
    pub uw3: FeatureTable,
    /// Weights of the codepoint at the position.
    pub uw4: FeatureTable,
    /// Weights of the codepoint just after the position.
    pub uw5: FeatureTable,
    /// Weights of the codepoint two places after the position.
    pub uw6: FeatureTable,
    /// Weights of the two codepoints before the position.
    pub bw1: FeatureTable,
    /// Weights of the two codepoints around the position.
    pub bw2: FeatureTable,
    /// Weights of the two codepoints from the position on.
    pub bw3: FeatureTable,
    /// Weights of the three codepoints before the position.
    pub tw1: FeatureTable,
    /// Weights of the two codepoints before the position and the one at it.
    pub tw2: FeatureTable,
    /// Weights of the codepoint before the position and the two from it on.
    pub tw3: FeatureTable,
    /// Weights of the three codepoints from the position on.
    pub tw4: FeatureTable,
}

/// What a [`Model`] stands for in specifications: its thirteen tables as
/// mathematical maps.
pub struct Weights {
    pub uw1: Map<Seq<char>, i32>,
    pub uw2: Map<Seq<char>, i32>,
    pub uw3: Map<Seq<char>, i32>,
    pub uw4: Map<Seq<char>, i32>,
    pub uw5: Map<Seq<char>, i32>,
    pub uw6: Map<Seq<char>, i32>,
    pub bw1: Map<Seq<char>, i32>,
    pub bw2: Map<Seq<char>, i32>,
    pub bw3: Map<Seq<char>, i32>,
    pub tw1: Map<Seq<char>, i32>,
    pub tw2: Map<Seq<char>, i32>,
    pub tw3: Map<Seq<char>, i32>,
    pub tw4: Map<Seq<char>, i32>,
}

impl View for Model {
    type V = Weights;

    open spec fn view(&self) -> Weights {
        Weights {
            uw1: self.uw1@,
            uw2: self.uw2@,
            uw3: self.uw3@,
            uw4: self.uw4@,
            uw5: self.uw5@,
            uw6: self.uw6@,
            bw1: self.bw1@,
            bw2: self.bw2@,
            bw3: self.bw3@,
            tw1: self.tw1@,
            tw2: self.tw2@,
            tw3: self.tw3@,
            tw4: self.tw4@,
        }
    }
}

/// The sum of every weight in every table of a model.
pub open spec fn total_weight(weights: Weights) -> int {
    weight_sum(weights.uw1) + weight_sum(weights.uw2) + weight_sum(weights.uw3)
        + weight_sum(weights.uw4) + weight_sum(weights.uw5) + weight_sum(weights.uw6)
        + weight_sum(weights.bw1) + weight_sum(weights.bw2) + weight_sum(weights.bw3)
        + weight_sum(weights.tw1) + weight_sum(weights.tw2) + weight_sum(weights.tw3)
        + weight_sum(weights.tw4)
}

/// A bound on the magnitude of the sum of a model's weights: thirteen times
/// the bound for one table.
pub const MODEL_SUM_LIMIT: i128 = 0x0006_8000_0000_0000_0000_0000_0000;

impl Model {
    /// The sum of every weight in every table.
    pub fn total_weight(&self) -> (sum: i128)
        ensures
            sum == total_weight(self@),
            -MODEL_SUM_LIMIT <= sum <= MODEL_SUM_LIMIT,
    {
        let unigrams: i128 = self.uw1.total() + self.uw2.total() + self.uw3.total()
            + self.uw4.total() + self.uw5.total() + self.uw6.total();
        let bigrams: i128 = self.bw1.total() + self.bw2.total() + self.bw3.total();
        let trigrams: i128 = self.tw1.total() + self.tw2.total() + self.tw3.total()
            + self.tw4.total();
        unigrams + bigrams + trigrams
    }
}

impl Clone for Model {
    /// A model with the same thirteen tables.
    fn clone(&self) -> (copy: Model)
        ensures
            copy@ == self@,
    {
        Model {
            uw1: self.uw1.clone(),
            uw2: self.uw2.clone(),
            uw3: self.uw3.clone(),
            uw4: self.uw4.clone(),
            uw5: self.uw5.clone(),
            uw6: self.uw6.clone(),
            bw1: self.bw1.clone(),
            bw2: self.bw2.clone(),
            bw3: self.bw3.clone(),
            tw1: self.tw1.clone(),
            tw2: self.tw2.clone(),
            tw3: self.tw3.clone(),
            tw4: self.tw4.clone(),
        }
    }
}

} // verus!
