use vstd::prelude::*;
use crate::decimal::{decimal, push_decimal};

verus! {

/// Whether the single-precision float with IEEE-754 bit pattern `bits` is
/// `>= 0.0`: positive zero up to positive infinity, or negative zero. Negative
/// numbers and every NaN are not.
pub open spec fn is_non_negative(bits: u32) -> bool {
    bits <= 0x7f80_0000u32 || bits == 0x8000_0000u32
}

/// The token for component `index` of an embedding, by its sign class.
pub open spec fn token(index: nat, non_negative: bool) -> Seq<char> {
    (if non_negative { "embedding_one_"@ } else { "embedding_zero_"@ }) + decimal(index)
}

/// The tokens of an embedding given as the bit patterns of its components:
/// one token per component, in component order.
pub open spec fn binarized(bits: Seq<u32>) -> Seq<Seq<char>> {
    Seq::new(bits.len(), |i: int| token(i as nat, is_non_negative(bits[i])))
}

/// The sign class of each component.
pub open spec fn sign_pattern(bits: Seq<u32>) -> Seq<bool> {
    Seq::new(bits.len(), |i: int| is_non_negative(bits[i]))
}

fn non_negative(bits: u32) -> (r: bool)
    ensures
        r == is_non_negative(bits),
{
    bits <= 0x7f80_0000u32 || bits == 0x8000_0000u32
}

fn make_token(index: usize, non_negative: bool) -> (r: String)
    ensures
        r@ == token(index as nat, non_negative),
{
    proof {
        reveal_strlit("embedding_one_");
        reveal_strlit("embedding_zero_");
    }
    let mut r = if non_negative {
        String::from_str("embedding_one_")
    } else {
        String::from_str("embedding_zero_")
    };
    push_decimal(&mut r, index);
    r
}

/// Maps an embedding, each component given as the bit pattern of an `f32`
/// (`f32::to_bits`), to its tokens: component `i` gives `embedding_one_i` when
/// it is `>= 0.0` and `embedding_zero_i` otherwise.
pub fn binarize_embedding(bits: &[u32]) -> (r: Vec<String>)
    ensures
        r@.len() == bits@.len(),
        forall|i: int| 0 <= i < r@.len() ==> #[trigger] r@[i]@ == binarized(bits@)[i],
{
    let mut r: Vec<String> = Vec::new();
    let mut i: usize = 0;
    while i < bits.len()
        invariant
            i <= bits@.len(),
            r@.len() == i,
            forall|j: int| 0 <= j < i ==> #[trigger] r@[j]@ == binarized(bits@)[j],
        decreases bits@.len() - i,
    {
        let t = make_token(i, non_negative(bits[i]));
        r.push(t);
        i = i + 1;
    }
    r
}

/// The views of a list of strings.
pub open spec fn views(v: Seq<String>) -> Seq<Seq<char>> {
    v.map_values(|s: String| s@)
}

/// Binarization is a function of the sign pattern alone: two embeddings whose
/// components fall in the same sign classes, in particular the same embedding
/// binarized twice, give the same tokens.
pub proof fn lemma_binarize_deterministic(a: Seq<u32>, b: Seq<u32>)
    requires
        sign_pattern(a) == sign_pattern(b),
    ensures
        binarized(a) == binarized(b),
{
    assert(a.len() == sign_pattern(a).len());
    assert(b.len() == sign_pattern(b).len());
    assert forall|i: int| 0 <= i < a.len() implies binarized(a)[i] == binarized(b)[i] by {
        assert(sign_pattern(a)[i] == sign_pattern(b)[i]);
        assert(sign_pattern(a)[i] == is_non_negative(a[i]));
        assert(sign_pattern(b)[i] == is_non_negative(b[i]));
    }
    assert(binarized(a) =~= binarized(b));
}

/// The zero vector (all components `+0.0`, or `-0.0`) falls entirely in the
/// non-negative class: component `i` gives `embedding_one_i`, so a non-empty
/// zero vector gives a non-empty token sequence.
pub proof fn lemma_binarize_zero_vector(bits: Seq<u32>)
    requires
        forall|i: int| 0 <= i < bits.len() ==> bits[i] == 0u32 || bits[i] == 0x8000_0000u32,
    ensures
        binarized(bits).len() == bits.len(),
        forall|i: int| 0 <= i < bits.len() ==> #[trigger] binarized(bits)[i]
            == "embedding_one_"@ + decimal(i as nat),
{
}

} // verus!
