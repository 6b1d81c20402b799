//! What a segmentation is: the chunks of a text, cut at the positions whose
//! score is positive, and the laws that hold of them.

use crate::model::Weights;
use crate::score::{breaks_before, doubled_base_score, doubled_score, feature_sum};
use crate::table::weight_sum;
use crate::text::texts;
use vstd::prelude::*;
use vstd::utf8::encode_utf8;

verus! {

/// Whether a chunk starts at position `i`: at the first codepoint always, and
/// at a later one where the score is positive.
pub open spec fn starts_chunk(weights: Weights, text: Seq<char>, i: int) -> bool {
    i == 0 || breaks_before(weights, text, i)
}

/// [`starts_chunk`] as a test on positions.
pub open spec fn start_test(weights: Weights, text: Seq<char>) -> spec_fn(int) -> bool {
    |i: int| starts_chunk(weights, text, i)
}

/// The positions `0, 1, ..., n - 1`.
pub open spec fn positions(n: int) -> Seq<int> {
    Seq::new(n as nat, |i: int| i)
}

/// The positions below `n` at which a chunk starts, in ascending order.
pub open spec fn chunk_starts_upto(weights: Weights, text: Seq<char>, n: int) -> Seq<int> {
    positions(n).filter(start_test(weights, text))
}

/// All positions of `text` at which a chunk starts, in ascending order.
pub open spec fn chunk_starts(weights: Weights, text: Seq<char>) -> Seq<int> {
    chunk_starts_upto(weights, text, text.len() as int)
}

/// The pieces of the first `end` codepoints of `text` when it is cut at each
/// of `starts`: piece `k` runs from `starts[k]` up to the next start, the
/// last piece up to `end`.
pub open spec fn pieces(text: Seq<char>, starts: Seq<int>, end: int) -> Seq<Seq<char>> {
    Seq::new(
        starts.len(),
        |k: int|
            text.subrange(
                starts[k],
                if k + 1 < starts.len() {
                    starts[k + 1]
                } else {
                    end
                },
            ),
    )
}

/// The segmentation of `text` under a model: the text cut at every position
/// where a chunk starts.
pub open spec fn segment(weights: Weights, text: Seq<char>) -> Seq<Seq<char>> {
    pieces(text, chunk_starts(weights, text), text.len() as int)
}

/// The position in the concatenated text at which chunk `k` begins: the
/// combined length of the chunks before it.
pub open spec fn offset(chunks: Seq<Seq<char>>, k: int) -> int {
    chunks.take(k).flatten().len() as int
}

/// Cut positions that give well-formed pieces of the first `end` codepoints:
/// they ascend strictly, begin at zero and stay below `end`; there is none
/// only where `end` is zero.
pub open spec fn cuts(starts: Seq<int>, end: int) -> bool {
    &&& 0 <= end
    &&& starts.len() == 0 <==> end == 0
    &&& starts.len() > 0 ==> starts[0] == 0
    &&& forall|k: int| 0 <= k < starts.len() ==> 0 <= #[trigger] starts[k] < end
    &&& forall|j: int, k: int| 0 <= j < k < starts.len() ==> starts[j] < starts[k]
}

/// Looking one position further adds that position to the chunk starts
/// where a chunk starts there, and changes nothing otherwise.
pub proof fn lemma_chunk_starts_step(weights: Weights, text: Seq<char>, n: int)
    requires
        0 <= n,
    ensures
        chunk_starts_upto(weights, text, n + 1) == if starts_chunk(weights, text, n) {
            chunk_starts_upto(weights, text, n).push(n)
        } else {
            chunk_starts_upto(weights, text, n)
        },
{
    assert(positions(n + 1) =~= positions(n).push(n));
    positions(n).lemma_filter_push(n, start_test(weights, text));
}

/// The chunk starts below `n` are well-formed cuts of the first `n`
/// codepoints.
pub proof fn lemma_chunk_starts_are_cuts(weights: Weights, text: Seq<char>, n: int)
    requires
        0 <= n,
    ensures
        cuts(chunk_starts_upto(weights, text, n), n),
    decreases n,
{
    if n == 0 {
        reveal(Seq::filter);
    } else {
        lemma_chunk_starts_are_cuts(weights, text, n - 1);
        lemma_chunk_starts_step(weights, text, n - 1);
    }
}

/// A position below `n` is among the chunk starts exactly where a chunk
/// starts at it.
pub proof fn lemma_chunk_starts_contain(weights: Weights, text: Seq<char>, n: int, i: int)
    requires
        0 <= n,
    ensures
        chunk_starts_upto(weights, text, n).contains(i) <==> 0 <= i < n && starts_chunk(
            weights,
            text,
            i,
        ),
    decreases n,
{
    if n == 0 {
        reveal(Seq::filter);
    } else {
        let earlier = chunk_starts_upto(weights, text, n - 1);
        lemma_chunk_starts_contain(weights, text, n - 1, i);
        lemma_chunk_starts_step(weights, text, n - 1);
        if starts_chunk(weights, text, n - 1) {
            let now = earlier.push(n - 1);
            assert(now[earlier.len() as int] == n - 1);
            if earlier.contains(i) {
                let k = choose|k: int| 0 <= k < earlier.len() && earlier[k] == i;
                assert(now[k] == i);
            }
        }
    }
}

/// Moving the end one codepoint on, without a new cut, appends that
/// codepoint to the last piece.
pub proof fn lemma_pieces_extend(text: Seq<char>, starts: Seq<int>, end: int)
    requires
        cuts(starts, end),
        0 < end < text.len(),
    ensures
        pieces(text, starts, end + 1) == pieces(text, starts, end).drop_last().push(
            pieces(text, starts, end).last().push(text[end]),
        ),
{
    let before = pieces(text, starts, end);
    let last = starts.len() - 1;
    assert(before.last().push(text[end]) =~= text.subrange(starts[last], end + 1));
    assert(pieces(text, starts, end + 1) =~= before.drop_last().push(
        before.last().push(text[end]),
    ));
}

/// A new cut at the end, followed by one more codepoint, adds a piece that
/// holds just that codepoint.
pub proof fn lemma_pieces_cut(text: Seq<char>, starts: Seq<int>, end: int)
    requires
        cuts(starts, end),
        0 < end < text.len(),
    ensures
        pieces(text, starts.push(end), end + 1) == pieces(text, starts, end).push(
            seq![text[end]],
        ),
{
    assert(text.subrange(end, end + 1) =~= seq![text[end]]);
    assert(pieces(text, starts.push(end), end + 1) =~= pieces(text, starts, end).push(
        seq![text[end]],
    ));
}

/// Pieces put together again give back what was cut.
pub proof fn lemma_pieces_flatten(text: Seq<char>, starts: Seq<int>, end: int)
    requires
        cuts(starts, end),
        end <= text.len(),
    ensures
        pieces(text, starts, end).flatten() == text.take(end),
    decreases starts.len(),
{
    if starts.len() > 0 {
        let head = starts.drop_last();
        let last = starts.last();
        lemma_pieces_flatten(text, head, last);
        assert(pieces(text, starts, end) =~= pieces(text, head, last).push(
            text.subrange(last, end),
        ));
        pieces(text, head, last).lemma_flatten_push(text.subrange(last, end));
    }
}

/// Piece `k` begins, in the text put together again, at cut `k`.
pub proof fn lemma_pieces_offset(text: Seq<char>, starts: Seq<int>, end: int, k: int)
    requires
        cuts(starts, end),
        end <= text.len(),
        0 <= k < starts.len(),
    ensures
        offset(pieces(text, starts, end), k) == starts[k],
{
    let head = starts.take(k);
    assert(pieces(text, starts, end).take(k) =~= pieces(text, head, starts[k]));
    lemma_pieces_flatten(text, head, starts[k]);
}

/// Reconstruction: the chunks of a segmentation, concatenated in order, are
/// the text that was segmented.
pub proof fn lemma_reconstruction(weights: Weights, text: Seq<char>)
    ensures
        segment(weights, text).flatten() == text,
{
    lemma_chunk_starts_are_cuts(weights, text, text.len() as int);
    lemma_pieces_flatten(text, chunk_starts(weights, text), text.len() as int);
}

/// No chunk of a segmentation is empty.
pub proof fn lemma_chunks_not_empty(weights: Weights, text: Seq<char>)
    ensures
        forall|k: int|
            0 <= k < segment(weights, text).len() ==> (#[trigger] segment(weights, text)[k]).len()
                > 0,
{
    lemma_chunk_starts_are_cuts(weights, text, text.len() as int);
}

/// The segmentation of the empty text has no chunks.
pub proof fn lemma_empty_text(weights: Weights, text: Seq<char>)
    requires
        text.len() == 0,
    ensures
        segment(weights, text) == Seq::<Seq<char>>::empty(),
{
    lemma_chunk_starts_are_cuts(weights, text, 0);
}

/// A text in which no position has a positive score stays in one piece.
pub proof fn lemma_no_break_one_chunk(weights: Weights, text: Seq<char>)
    requires
        text.len() > 0,
        forall|i: int| 1 <= i < text.len() ==> !breaks_before(weights, text, i),
    ensures
        segment(weights, text) == seq![text],
{
    let starts = chunk_starts(weights, text);
    lemma_chunk_starts_are_cuts(weights, text, text.len() as int);
    if starts.len() > 1 {
        lemma_chunk_starts_contain(weights, text, text.len() as int, starts[1]);
    }
    assert(text.subrange(0, text.len() as int) =~= text);
}

/// The segmentation of a text of one codepoint is that text as its only
/// chunk.
pub proof fn lemma_single_codepoint(weights: Weights, text: Seq<char>)
    requires
        text.len() == 1,
    ensures
        segment(weights, text) == seq![text],
{
    lemma_no_break_one_chunk(weights, text);
}

/// The model whose thirteen tables are all empty.
pub open spec fn no_weights() -> Weights {
    Weights {
        uw1: Map::empty(),
        uw2: Map::empty(),
        uw3: Map::empty(),
        uw4: Map::empty(),
        uw5: Map::empty(),
        uw6: Map::empty(),
        bw1: Map::empty(),
        bw2: Map::empty(),
        bw3: Map::empty(),
        tw1: Map::empty(),
        tw2: Map::empty(),
        tw3: Map::empty(),
        tw4: Map::empty(),
    }
}

/// Under the model without weights the base score is zero and so is the
/// score of every position, and since a score of zero does not break, a text
/// that is not empty is its own single chunk.
pub proof fn lemma_no_weights_one_chunk(text: Seq<char>)
    ensures
        doubled_base_score(no_weights()) == 0,
        forall|i: int| doubled_score(no_weights(), text, i) == 0,
        text.len() > 0 ==> segment(no_weights(), text) == seq![text],
{
    if text.len() > 0 {
        lemma_no_break_one_chunk(no_weights(), text);
    }
}

/// A segmentation is determined by the tables of the model and the
/// codepoints of the text: two lists of chunks that were returned for the
/// same model and the same text agree in their length, in the codepoints of
/// each chunk and so in its bytes.
pub proof fn lemma_same_input_same_chunks(
    first: Seq<String>,
    second: Seq<String>,
    weights: Weights,
    text: Seq<char>,
)
    requires
        texts(first) == segment(weights, text),
        texts(second) == segment(weights, text),
    ensures
        first.len() == second.len(),
        forall|k: int|
            0 <= k < first.len() ==> (#[trigger] first[k])@ == second[k]@ && encode_utf8(
                first[k]@,
            ) == encode_utf8(second[k]@),
{
    assert(texts(second).len() == second.len());
    assert forall|k: int| 0 <= k < first.len() implies (#[trigger] first[k])@ == second[k]@ by {
        assert(texts(second)[k] == second[k]@);
    }
}

/// The chunks begin where the chunk starts are: chunk `k` of a segmentation
/// begins at the `k`-th chunk start.
pub proof fn lemma_chunk_offsets(weights: Weights, text: Seq<char>, k: int)
    requires
        0 <= k < segment(weights, text).len(),
    ensures
        offset(segment(weights, text), k) == chunk_starts(weights, text)[k],
{
    lemma_chunk_starts_are_cuts(weights, text, text.len() as int);
    lemma_pieces_offset(text, chunk_starts(weights, text), text.len() as int, k);
}

/// A position after the first begins a chunk of the segmentation exactly
/// where its score is positive; everywhere else the codepoint there belongs
/// to the chunk of the codepoint before it.
pub proof fn lemma_breaks_begin_chunks(weights: Weights, text: Seq<char>, i: int)
    requires
        1 <= i < text.len(),
    ensures
        breaks_before(weights, text, i) <==> exists|k: int|
            0 <= k < segment(weights, text).len() && #[trigger] offset(segment(weights, text), k)
                == i,
{
    let starts = chunk_starts(weights, text);
    let chunks = segment(weights, text);
    lemma_chunk_starts_contain(weights, text, text.len() as int, i);
    if breaks_before(weights, text, i) {
        let k = choose|k: int| 0 <= k < starts.len() && starts[k] == i;
        lemma_chunk_offsets(weights, text, k);
    }
    if exists|k: int| 0 <= k < chunks.len() && #[trigger] offset(chunks, k) == i {
        let k = choose|k: int| 0 <= k < chunks.len() && #[trigger] offset(chunks, k) == i;
        lemma_chunk_offsets(weights, text, k);
    }
}

} // verus!
