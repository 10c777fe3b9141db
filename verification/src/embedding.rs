//! Model input shaping for the SigLIP2 text and vision encoders.

use vstd::prelude::*;
use crate::text::{dec, push_decimal, push_str};

verus! {

/// Image side length expected by the vision model.
pub const IMAGE_SIZE: u32 = 256;

/// Token count of every text input.
pub const MAX_SEQ_LENGTH: usize = 64;

/// The token ids fed to the text model: the tokenizer's ids widened to `i64`,
/// cut to `MAX_SEQ_LENGTH`, then padded with the pad id 0 to that length.
pub open spec fn fitted_ids(ids: Seq<u32>) -> Seq<i64> {
    Seq::new(MAX_SEQ_LENGTH as nat, |i: int| if i < ids.len() { ids[i] as i64 } else { 0i64 })
}

/// Truncates or pads tokenizer ids to the model's fixed sequence length.
pub fn fit_token_ids(ids: &[u32]) -> (r: Vec<i64>)
    ensures
        r@ == fitted_ids(ids@),
{
    let mut out: Vec<i64> = Vec::new();
    let mut i: usize = 0;
    while i < MAX_SEQ_LENGTH
        invariant
            i <= MAX_SEQ_LENGTH,
            out@ == Seq::new(i as nat, |j: int| if j < ids@.len() { ids@[j] as i64 } else { 0i64 }),
        decreases MAX_SEQ_LENGTH - i,
    {
        if i < ids.len() {
            out.push(ids[i] as i64);
        } else {
            out.push(0);
        }
        assert(out@ =~= Seq::new((i + 1) as nat, |j: int| if j < ids@.len() { ids@[j] as i64 } else { 0i64 }));
        i = i + 1;
    }
    out
}

/// Where the `b`-th embedding of a batched output lies: `[b * dim, b * dim + dim)`,
/// or the message reported when the output is too short for it.
pub open spec fn batch_slot(b: nat, dim: nat, data_len: nat) -> Result<(usize, usize), Seq<char>> {
    let start = b * dim;
    let end = start + dim;
    if end <= data_len {
        Ok((start as usize, end as usize))
    } else {
        Err("Embedding index out of bounds: expected "@ + dec(start) + ".."@ + dec(end) + ", got len "@ + dec(data_len))
    }
}

/// Splits a batched model output of `data_len` values into `count` embeddings of
/// `dim` values each: the index range of every embedding, or an error for those
/// that the output is too short to hold.
pub fn batch_output_ranges(count: usize, dim: usize, data_len: usize) -> (r: Vec<Result<(usize, usize), String>>)
    requires
        count * dim + dim <= usize::MAX,
    ensures
        r@.len() == count,
        forall|b: int| 0 <= b < count ==> match (#[trigger] r@[b]) {
            Ok(range) => batch_slot(b as nat, dim as nat, data_len as nat) == Ok::<(usize, usize), Seq<char>>(range),
            Err(m) => batch_slot(b as nat, dim as nat, data_len as nat) == Err::<(usize, usize), Seq<char>>(m@),
        },
{
    let mut out: Vec<Result<(usize, usize), String>> = Vec::new();
    let mut b: usize = 0;
    while b < count
        invariant
            b <= count,
            count * dim + dim <= usize::MAX,
            out@.len() == b,
            forall|j: int| 0 <= j < b ==> match (#[trigger] out@[j]) {
                Ok(range) => batch_slot(j as nat, dim as nat, data_len as nat) == Ok::<(usize, usize), Seq<char>>(range),
                Err(m) => batch_slot(j as nat, dim as nat, data_len as nat) == Err::<(usize, usize), Seq<char>>(m@),
            },
        decreases count - b,
    {
        assert(b * dim + dim <= count * dim + dim) by (nonlinear_arith)
            requires b < count;
        let start = b * dim;
        let end = start + dim;
        if end <= data_len {
            out.push(Ok((start, end)));
        } else {
            let mut m = String::from_str("Embedding index out of bounds: expected ");
            push_decimal(&mut m, start as u64);
            push_str(&mut m, "..");
            push_decimal(&mut m, end as u64);
            push_str(&mut m, ", got len ");
            push_decimal(&mut m, data_len as u64);
            out.push(Err(m));
        }
        b = b + 1;
    }
    out
}

/// The result slots of a batch before inference: each image's preprocessing
/// error, or `Not processed` for images that preprocessed successfully.
pub fn initial_batch_results<E>(errors: &Vec<Option<String>>, count: usize) -> (r: Vec<Result<E, String>>)
    requires
        count <= errors@.len(),
    ensures
        r@.len() == count,
        forall|i: int| 0 <= i < count ==> match (#[trigger] r@[i]) {
            Ok(_) => false,
            Err(m) => match errors@[i] {
                Some(e) => m == e,
                None => m@ == "Not processed"@,
            },
        },
{
    let mut out: Vec<Result<E, String>> = Vec::new();
    let mut i: usize = 0;
    while i < count
        invariant
            i <= count,
            count <= errors@.len(),
            out@.len() == i,
            forall|j: int| 0 <= j < i ==> match (#[trigger] out@[j]) {
                Ok(_) => false,
                Err(m) => match errors@[j] {
                    Some(e) => m == e,
                    None => m@ == "Not processed"@,
                },
            },
        decreases count - i,
    {
        match &errors[i] {
            Some(e) => out.push(Err(e.clone())),
            None => out.push(Err(String::from_str("Not processed"))),
        }
        i = i + 1;
    }
    out
}

/// Marks every image of the batch that reached inference as failed with `err`.
pub fn fail_valid<E>(results: &mut Vec<Result<E, String>>, valid_indices: &Vec<usize>, err: &str)
    requires
        forall|k: int| 0 <= k < valid_indices@.len() ==> #[trigger] valid_indices@[k] < old(results)@.len(),
    ensures
        final(results)@.len() == old(results)@.len(),
        forall|i: int| 0 <= i < old(results)@.len() ==> if valid_indices@.contains(i as usize) {
            (#[trigger] final(results)@[i]) matches Err(m) && m@ == err@
        } else {
            final(results)@[i] == old(results)@[i]
        },
{
    let n = results.len();
    let mut k: usize = 0;
    while k < valid_indices.len()
        invariant
            k <= valid_indices@.len(),
            n == old(results)@.len(),
            results@.len() == old(results)@.len(),
            forall|j: int| 0 <= j < valid_indices@.len() ==> #[trigger] valid_indices@[j] < old(results)@.len(),
            forall|i: int| 0 <= i < old(results)@.len() ==> if valid_indices@.take(k as int).contains(i as usize) {
                (#[trigger] results@[i]) matches Err(m) && m@ == err@
            } else {
                results@[i] == old(results)@[i]
            },
        decreases valid_indices.len() - k,
    {
        let idx = valid_indices[k];
        let ghost prev = results@;
        results.set(idx, Err(String::from_str(err)));
        proof {
            assert(valid_indices@.take(k + 1) == valid_indices@.take(k as int).push(idx));
            assert forall|i: int| 0 <= i < old(results)@.len() implies if valid_indices@.take(k + 1).contains(i as usize) {
                (#[trigger] results@[i]) matches Err(m) && m@ == err@
            } else {
                results@[i] == old(results)@[i]
            } by {
                assert((i as usize) as int == i);
                crate::text::lemma_contains_push(valid_indices@.take(k as int), i as usize, idx);
                if i != idx as int {
                    assert(results@[i] == prev[i]);
                }
            }
        }
        k = k + 1;
    }
    assert(valid_indices@.take(valid_indices@.len() as int) == valid_indices@);
}

} // verus!
