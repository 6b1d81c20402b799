//! The segmenter: a model put to work on texts.

use crate::error::BudouXError;
use crate::model::{total_weight, Model, Weights, MODEL_SUM_LIMIT};
use crate::score::doubled_score;
use crate::segment::{
    chunk_starts_upto, lemma_chunk_starts_are_cuts, lemma_chunk_starts_step,
    lemma_chunks_not_empty, lemma_pieces_cut, lemma_pieces_extend, lemma_reconstruction,
    lemma_single_codepoint, pieces, segment,
};
use crate::text::{codepoints, texts};
use vstd::prelude::*;

verus! {

/// A segmenter. It owns its model and never changes it, so one parser can
/// serve any number of calls, from any number of threads.
pub struct Parser {
    model: Model,
    total: i128,
}

impl View for Parser {
    type V = Weights;

    closed spec fn view(&self) -> Weights {
        self.model@
    }
}

impl Parser {
    #[verifier::type_invariant]
    spec fn well_formed(self) -> bool {
        &&& self.total == total_weight(self.model@)
        &&& -MODEL_SUM_LIMIT <= self.total <= MODEL_SUM_LIMIT
    }

    /// A parser that segments by `model`. The sum of the model's weights,
    /// from which the base score of every position comes, is taken here, once.
    pub fn new(model: Model) -> (parser: Parser)
        ensures
            parser@ == model@,
    {
        let total = model.total_weight();
        Parser { model, total }
    }

    /// The model that this parser segments by.
    pub fn model(&self) -> (model: &Model)
        ensures
            model@ == self@,
    {
        &self.model
    }

    /// Twice the score of position `i` of `chars`: twice the sum of the
    /// weights found around the position, less the sum of all weights of the
    /// model.
    pub fn doubled_score(&self, chars: &Vec<char>, i: usize) -> (score: i128)
        ensures
            score == doubled_score(self@, chars@, i as int),
    {
        proof {
            use_type_invariant(self);
        }
        2 * (self.model.feature_sum(chars, i) as i128) - self.total
    }

    /// Cuts `sentence` into chunks: a new chunk starts at the first codepoint
    /// and at every later codepoint whose score is positive. The chunks are
    /// never empty and, read one after another, give back `sentence`.
    pub fn parse(&self, sentence: &str) -> (chunks: Vec<String>)
        ensures
            texts(chunks@) == segment(self@, sentence@),
            texts(chunks@).flatten() == sentence@,
            forall|k: int| 0 <= k < chunks.len() ==> (#[trigger] chunks[k])@.len() > 0,
            sentence@.len() == 0 <==> chunks.len() == 0,
            sentence@.len() == 1 ==> chunks.len() == 1 && chunks[0]@ == sentence@,
    {
        let chars = codepoints(sentence);
        let mut chunks: Vec<String> = Vec::new();
        proof {
            lemma_reconstruction(self@, sentence@);
            lemma_chunks_not_empty(self@, sentence@);
            lemma_chunk_starts_are_cuts(self@, sentence@, sentence@.len() as int);
            if sentence@.len() == 1 {
                lemma_single_codepoint(self@, sentence@);
            }
        }
        if chars.len() == 0 {
            return chunks;
        }
        let mut current = String::new();
        current.push(chars[0]);
        proof {
            lemma_chunk_starts_step(self@, chars@, 0);
            lemma_chunk_starts_are_cuts(self@, chars@, 0);
            assert(chars@.subrange(0, 1) =~= seq![chars@[0]]);
            assert(texts(chunks@).push(current@) =~= pieces(
                chars@,
                chunk_starts_upto(self@, chars@, 1),
                1,
            ));
        }
        let mut i: usize = 1;
        while i < chars.len()
            invariant
                1 <= i <= chars.len(),
                texts(chunks@).push(current@) == pieces(
                    chars@,
                    chunk_starts_upto(self@, chars@, i as int),
                    i as int,
                ),
            decreases chars.len() - i,
        {
            proof {
                lemma_chunk_starts_are_cuts(self@, chars@, i as int);
                lemma_chunk_starts_step(self@, chars@, i as int);
            }
            if self.doubled_score(&chars, i) > 0 {
                proof {
                    lemma_pieces_cut(chars@, chunk_starts_upto(self@, chars@, i as int), i as int);
                }
                chunks.push(current);
                current = String::new();
                current.push(chars[i]);
            } else {
                proof {
                    lemma_pieces_extend(
                        chars@,
                        chunk_starts_upto(self@, chars@, i as int),
                        i as int,
                    );
                }
                current.push(chars[i]);
            }
            i += 1;
        }
        chunks.push(current);
        assert(texts(chunks@) =~= segment(self@, sentence@));
        assert forall|k: int| 0 <= k < chunks.len() implies (#[trigger] chunks[k])@.len() > 0 by {
            assert(chunks[k]@ == texts(chunks@)[k]);
        }
        chunks
    }
}

impl Clone for Parser {
    /// A parser that segments by the same model.
    fn clone(&self) -> (copy: Parser)
        ensures
            copy@ == self@,
    {
        proof {
            use_type_invariant(self);
        }
        Parser { model: self.model.clone(), total: self.total }
    }
}

/// A parser with the default Japanese model. That model is one value, made
/// once when the program starts and lent to every call; the parser gets a
/// copy of it to keep.
pub fn load_default_japanese_parser(japanese_model: &Model) -> (parser: Parser)
    ensures
        parser@ == japanese_model@,
{
    Parser::new(japanese_model.clone())
}

/// Turns the outcome of loading a model into a parser. A model that was
/// loaded becomes the model of a new parser. A failure becomes a
/// [`BudouXError::ModelLoadError`] that carries the failure's description
/// unchanged; no parser is made, with an empty model or any other.
pub fn load_parser(loaded: Result<Model, String>) -> (outcome: Result<Parser, BudouXError>)
    ensures
        match loaded {
            Ok(model) => outcome matches Ok(parser) && parser@ == model@,
            Err(cause) => outcome matches Err(BudouXError::ModelLoadError(carried)) && carried
                == cause,
        },
{
    match loaded {
        Ok(model) => Ok(Parser::new(model)),
        Err(cause) => Err(BudouXError::ModelLoadError(cause)),
    }
}

} // verus!
