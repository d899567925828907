use vstd::prelude::*;
use vstd::arithmetic::div_mod::{lemma_div_is_ordered, lemma_div_by_multiple, lemma_div_pos_is_pos};
use crate::errors::ChatError;

verus! {

/// Largest magnitude an embedding component may carry. Components are
/// fixed-point values; the bound keeps every similarity computation free
/// of overflow.
pub const MAX_COMPONENT: i64 = 1000000;

/// Largest embedding dimension the store accepts.
pub const MAX_DIM: usize = 65536;

/// A component sequence the store can score: bounded dimension and
/// bounded component magnitudes.
pub open spec fn valid_embedding(s: Seq<int>) -> bool {
    &&& s.len() <= MAX_DIM
    &&& forall|i: int|
        0 <= i < s.len() ==> -(MAX_COMPONENT as int) <= #[trigger] s[i] <= MAX_COMPONENT as int
}

/// A fixed-point embedding vector.
///
/// Every value of this type satisfies [`valid_embedding`]; the
/// constructors reject anything else, so similarity scoring never
/// overflows.
pub struct Embedding {
    components: Vec<i64>,
}

impl View for Embedding {
    type V = Seq<int>;

    closed spec fn view(&self) -> Seq<int> {
        self.components@.map_values(|x: i64| x as int)
    }
}

impl Embedding {
    /// Holds of every reachable embedding: the constructors refuse
    /// anything out of bounds.
    #[verifier::type_invariant]
    pub open spec fn inv(self) -> bool {
        valid_embedding(self@)
    }

    /// Wraps a component vector, rejecting one whose dimension or
    /// component magnitudes are out of range.
    pub fn new(components: Vec<i64>) -> (r: Option<Embedding>)
        ensures
            r is Some <==> valid_embedding(components@.map_values(|x: i64| x as int)),
            r is Some ==> r.unwrap()@ == components@.map_values(|x: i64| x as int),
    {
        if components.len() > MAX_DIM {
            proof {
                assert(!valid_embedding(components@.map_values(|x: i64| x as int)));
            }
            return None;
        }
        let mut i: usize = 0;
        while i < components.len()
            invariant
                i <= components@.len(),
                forall|j: int|
                    0 <= j < i ==> -MAX_COMPONENT <= #[trigger] components@[j] <= MAX_COMPONENT,
            decreases components@.len() - i,
        {
            let c = components[i];
            if c < -MAX_COMPONENT || c > MAX_COMPONENT {
                proof {
                    assert(components@.map_values(|x: i64| x as int)[i as int] == c as int);
                    assert(!valid_embedding(components@.map_values(|x: i64| x as int)));
                }
                return None;
            }
            i = i + 1;
        }
        proof {
            assert(valid_embedding(components@.map_values(|x: i64| x as int)));
        }
        Some(Embedding { components })
    }

    /// Number of components.
    pub fn len(&self) -> (n: usize)
        ensures
            n == self@.len(),
    {
        self.components.len()
    }

    /// Reads one component.
    pub fn component(&self, i: usize) -> (c: i64)
        requires
            i < self@.len(),
        ensures
            c as int == self@[i as int],
    {
        self.components[i]
    }

}

/// Sum of column `j` over the first `rows` rows of a row-major
/// `rows x h` matrix.
pub open spec fn col_sum(data: Seq<int>, h: int, j: int, rows: int) -> int
    decreases rows,
{
    if rows <= 0 {
        0
    } else {
        col_sum(data, h, j, rows - 1) + data[(rows - 1) * h + j]
    }
}

/// Magnitude-truncating division, the rounding the pooled mean uses.
pub open spec fn mean_val(sum: int, s: int) -> int {
    if sum >= 0 {
        sum / s
    } else {
        -((-sum) / s)
    }
}

/// Mean over the sequence dimension of a row-major `s x h` hidden-state
/// matrix: one pooled value per hidden column.
pub open spec fn mean_pool_spec(data: Seq<int>, s: int, h: int) -> Seq<int> {
    Seq::new(h as nat, |j: int| mean_val(col_sum(data, h, j, s), s))
}

/// Whether a flat buffer has the `[1, seq_len, hidden]` shape the
/// embedding graph promises and the store can hold.
pub open spec fn pool_shape_ok(len: nat, seq_len: nat, hidden: nat) -> bool {
    &&& len == seq_len * hidden
    &&& seq_len >= 1
    &&& hidden <= MAX_DIM
}

/// Pools token-level hidden states into one embedding by a plain
/// (unmasked) mean over the sequence dimension. A shape that does not
/// match `[seq_len, hidden]` is an inference-contract violation.
pub fn mean_pool(values: &Vec<i64>, seq_len: usize, hidden: usize) -> (r: Result<
    Embedding,
    ChatError,
>)
    requires
        forall|i: int|
            0 <= i < values@.len() ==> -MAX_COMPONENT <= #[trigger] values@[i] <= MAX_COMPONENT,
    ensures
        match r {
            Ok(e) => pool_shape_ok(values@.len(), seq_len as nat, hidden as nat) && e@
                == mean_pool_spec(
                values@.map_values(|x: i64| x as int),
                seq_len as int,
                hidden as int,
            ),
            Err(e) => e == ChatError::Inference && !pool_shape_ok(
                values@.len(),
                seq_len as nat,
                hidden as nat,
            ),
        },
{
    let ghost data = values@.map_values(|x: i64| x as int);
    if seq_len == 0 || hidden > MAX_DIM {
        return Err(ChatError::Inference);
    }
    proof {
        assert((seq_len as int) * (hidden as int) < 0x100000000000000000000000000000000)
            by (nonlinear_arith)
            requires
                0 <= seq_len as int,
                (seq_len as int) < 0x10000000000000000,
                0 <= hidden as int,
                (hidden as int) < 0x10000000000000000,
        ;
    }
    if (seq_len as u128) * (hidden as u128) != values.len() as u128 {
        proof {
            assert(seq_len * hidden != values@.len());
        }
        return Err(ChatError::Inference);
    }
    proof {
        assert(values@.len() == seq_len * hidden);
    }
    let total: usize = values.len();
    let mut comps: Vec<i64> = Vec::new();
    let mut j: usize = 0;
    while j < hidden
        invariant
            j <= hidden,
            seq_len >= 1,
            hidden <= MAX_DIM,
            total == values@.len(),
            values@.len() == seq_len * hidden,
            data == values@.map_values(|x: i64| x as int),
            data.len() == values@.len(),
            forall|i: int|
                0 <= i < values@.len() ==> -MAX_COMPONENT <= #[trigger] values@[i]
                    <= MAX_COMPONENT,
            comps@.len() == j,
            forall|jj: int|
                0 <= jj < j ==> #[trigger] comps@[jj] as int == mean_val(
                    col_sum(data, hidden as int, jj, seq_len as int),
                    seq_len as int,
                ),
            forall|jj: int| 0 <= jj < j ==> -MAX_COMPONENT <= #[trigger] comps@[jj]
                <= MAX_COMPONENT,
        decreases hidden - j,
    {
        let mut sum: i128 = 0;
        let mut i: usize = 0;
        while i < seq_len
            invariant
                i <= seq_len,
                j < hidden,
                seq_len >= 1,
                total == values@.len(),
                values@.len() == seq_len * hidden,
                data == values@.map_values(|x: i64| x as int),
                data.len() == values@.len(),
                forall|ii: int|
                    0 <= ii < values@.len() ==> -MAX_COMPONENT <= #[trigger] values@[ii]
                        <= MAX_COMPONENT,
                sum as int == col_sum(data, hidden as int, j as int, i as int),
                -(i as int) * (MAX_COMPONENT as int) <= sum as int <= (i as int) * (
                MAX_COMPONENT as int),
            decreases seq_len - i,
        {
            proof {
                assert((i as int) * (hidden as int) + (j as int) < (seq_len as int) * (
                hidden as int)) by (nonlinear_arith)
                    requires
                        (i as int) < (seq_len as int),
                        (j as int) < (hidden as int),
                        0 <= i as int,
                        0 <= j as int,
                ;
                assert((i as int) * (hidden as int) >= 0) by (nonlinear_arith)
                    requires
                        0 <= i as int,
                        0 <= hidden as int,
                ;
            }
            let idx: usize = i * hidden + j;
            let v = values[idx];
            sum = sum + v as i128;
            i = i + 1;
            proof {
                assert(data[(i - 1) * (hidden as int) + j] == v as int);
                assert(sum as int == col_sum(data, hidden as int, j as int, i as int));
            }
        }
        let neg = sum < 0;
        let mag: u128 = if neg {
            (-sum) as u128
        } else {
            sum as u128
        };
        let q: u128 = mag / (seq_len as u128);
        proof {
            lemma_div_is_ordered(
                mag as int,
                (seq_len as int) * (MAX_COMPONENT as int),
                seq_len as int,
            );
            lemma_div_by_multiple(MAX_COMPONENT as int, seq_len as int);
            lemma_div_pos_is_pos(mag as int, seq_len as int);
        }
        let m: i64 = if neg {
            -(q as i64)
        } else {
            q as i64
        };
        comps.push(m);
        proof {
            assert(m as int == mean_val(
                col_sum(data, hidden as int, j as int, seq_len as int),
                seq_len as int,
            ));
        }
        j = j + 1;
    }
    proof {
        assert(valid_embedding(comps@.map_values(|x: i64| x as int)));
    }
    let e = Embedding { components: comps };
    proof {
        assert(e@ =~= mean_pool_spec(data, seq_len as int, hidden as int));
    }
    Ok(e)
}

} // verus!
