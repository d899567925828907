use vstd::prelude::*;
use vstd::arithmetic::div_mod::lemma_div_nonincreasing;
use crate::embedding::{Embedding, valid_embedding, MAX_COMPONENT};

verus! {

/// Fixed-point scale of similarity scores: two identical nonzero vectors
/// score close to this value.
pub const SIM_SCALE: i64 = 1000;

/// Largest product of two in-bounds components.
pub const COMPONENT_SQ_BOUND: i64 = 1000000000000;

/// Inner product, aligned from the back; zero when either side is empty.
pub open spec fn dot(a: Seq<int>, b: Seq<int>) -> int
    decreases a.len(),
{
    if a.len() == 0 || b.len() == 0 {
        0
    } else {
        dot(a.drop_last(), b.drop_last()) + a.last() * b.last()
    }
}

/// Squared Euclidean norm.
pub open spec fn norm_sq(a: Seq<int>) -> int {
    dot(a, a)
}

/// Integer square root: the largest `r` with `r * r <= n`.
pub open spec fn isqrt_spec(n: nat) -> nat
    decreases n,
{
    if n == 0 {
        0
    } else {
        let r = isqrt_spec((n - 1) as nat);
        if (r + 1) * (r + 1) <= n {
            r + 1
        } else {
            r
        }
    }
}

pub proof fn lemma_isqrt_bracket(n: nat)
    ensures
        isqrt_spec(n) * isqrt_spec(n) <= n,
        n < (isqrt_spec(n) + 1) * (isqrt_spec(n) + 1),
    decreases n,
{
    if n == 0 {
        let z = isqrt_spec(0);
        assert(z == 0);
        assert((z + 1) * (z + 1) == 1) by (nonlinear_arith)
            requires
                z == 0,
        ;
    } else {
        lemma_isqrt_bracket((n - 1) as nat);
        let r = isqrt_spec((n - 1) as nat);
        if (r + 1) * (r + 1) <= n {
            assert(isqrt_spec(n) == r + 1);
            assert(n <= (r + 1) * (r + 1));
            assert((r + 1) * (r + 1) < (r + 2) * (r + 2)) by (nonlinear_arith)
                requires
                    r >= 0,
            ;
            assert(n < (r + 2) * (r + 2));
        } else {
            assert(isqrt_spec(n) == r);
            assert(n < (r + 1) * (r + 1));
        }
    }
}

pub proof fn lemma_isqrt_unique(n: nat, r: nat)
    requires
        r * r <= n,
        n < (r + 1) * (r + 1),
    ensures
        r == isqrt_spec(n),
{
    lemma_isqrt_bracket(n);
    let s = isqrt_spec(n);
    assert(r == s) by (nonlinear_arith)
        requires
            r * r <= n,
            n < (r + 1) * (r + 1),
            s * s <= n,
            n < (s + 1) * (s + 1),
            r >= 0,
            s >= 0,
    ;
}

/// Binary-search integer square root.
fn isqrt64(n: u64) -> (r: u64)
    ensures
        r as nat == isqrt_spec(n as nat),
{
    let mut lo: u64 = 0;
    let mut hi: u64 = 4294967296;
    proof {
        assert((4294967296 as int) * (4294967296 as int) == 0x10000000000000000);
    }
    while lo + 1 < hi
        invariant
            lo < hi,
            hi <= 4294967296,
            (lo as int) * (lo as int) <= n as int,
            (n as int) < (hi as int) * (hi as int),
        decreases hi - lo,
    {
        let mid: u64 = lo + (hi - lo) / 2;
        proof {
            assert((mid as int) * (mid as int) <= 0x10000000000000000) by (nonlinear_arith)
                requires
                    0 <= mid as int,
                    mid as int <= 0x100000000,
            ;
        }
        let sq: u128 = (mid as u128) * (mid as u128);
        if sq <= n as u128 {
            lo = mid;
        } else {
            hi = mid;
        }
    }
    proof {
        lemma_isqrt_unique(n as nat, lo as nat);
    }
    lo
}

/// Cosine similarity on the fixed-point scale, total by definition:
/// mismatched or empty dimensions score 0, and a zero-norm side scores 0
/// rather than being undefined.
pub open spec fn cosine_spec(a: Seq<int>, b: Seq<int>) -> int {
    if a.len() != b.len() || a.len() == 0 {
        0
    } else {
        let na = isqrt_spec(norm_sq(a) as nat);
        let nb = isqrt_spec(norm_sq(b) as nat);
        if na == 0 || nb == 0 {
            0
        } else {
            let d = dot(a, b);
            if d >= 0 {
                (d * (SIM_SCALE as int)) / ((na * nb) as int)
            } else {
                -(((-d) * (SIM_SCALE as int)) / ((na * nb) as int))
            }
        }
    }
}

/// Directional alignment of two embeddings on the fixed-point scale:
/// the dot product divided by the product of the integer-rounded norms.
pub fn cosine_similarity(a: &Embedding, b: &Embedding) -> (s: i128)
    ensures
        s == cosine_spec(a@, b@),
{
    proof {
        use_type_invariant(a);
        use_type_invariant(b);
    }
    let n = a.len();
    if n != b.len() || n == 0 {
        return 0;
    }
    let mut i: usize = 0;
    let mut d: i64 = 0;
    let mut na_sq: i64 = 0;
    let mut nb_sq: i64 = 0;
    while i < n
        invariant
            valid_embedding(a@),
            valid_embedding(b@),
            n == a@.len(),
            n == b@.len(),
            i <= n,
            d as int == dot(a@.take(i as int), b@.take(i as int)),
            na_sq as int == norm_sq(a@.take(i as int)),
            nb_sq as int == norm_sq(b@.take(i as int)),
            -(i as int) * (COMPONENT_SQ_BOUND as int) <= d as int,
            d as int <= (i as int) * (COMPONENT_SQ_BOUND as int),
            0 <= na_sq as int <= (i as int) * (COMPONENT_SQ_BOUND as int),
            0 <= nb_sq as int <= (i as int) * (COMPONENT_SQ_BOUND as int),
        decreases n - i,
    {
        let x = a.component(i);
        let y = b.component(i);
        proof {
            assert(-(COMPONENT_SQ_BOUND as int) <= (x as int) * (y as int)
                <= COMPONENT_SQ_BOUND as int) by (nonlinear_arith)
                requires
                    -(MAX_COMPONENT as int) <= x as int <= MAX_COMPONENT as int,
                    -(MAX_COMPONENT as int) <= y as int <= MAX_COMPONENT as int,
            ;
            assert(0 <= (x as int) * (x as int) <= COMPONENT_SQ_BOUND as int)
                by (nonlinear_arith)
                requires
                    -(MAX_COMPONENT as int) <= x as int <= MAX_COMPONENT as int,
            ;
            assert(0 <= (y as int) * (y as int) <= COMPONENT_SQ_BOUND as int)
                by (nonlinear_arith)
                requires
                    -(MAX_COMPONENT as int) <= y as int <= MAX_COMPONENT as int,
            ;
        }
        d = d + x * y;
        na_sq = na_sq + x * x;
        nb_sq = nb_sq + y * y;
        i = i + 1;
        proof {
            assert(a@.take(i as int).drop_last() =~= a@.take(i - 1));
            assert(b@.take(i as int).drop_last() =~= b@.take(i - 1));
            assert(a@.take(i as int).last() == a@[i - 1]);
            assert(b@.take(i as int).last() == b@[i - 1]);
        }
    }
    proof {
        assert(a@.take(n as int) =~= a@);
        assert(b@.take(n as int) =~= b@);
    }
    let na = isqrt64(na_sq as u64);
    let nb = isqrt64(nb_sq as u64);
    if na == 0 || nb == 0 {
        return 0;
    }
    proof {
        assert((na as int) * (nb as int) < 0x100000000000000000000000000000000)
            by (nonlinear_arith)
            requires
                0 <= na as int,
                (na as int) < 0x10000000000000000,
                0 <= nb as int,
                (nb as int) < 0x10000000000000000,
        ;
    }
    let denom: u128 = (na as u128) * (nb as u128);
    proof {
        lemma_isqrt_bracket(na_sq as nat);
        lemma_isqrt_bracket(nb_sq as nat);
        assert((na as int) * (nb as int) >= 1) by (nonlinear_arith)
            requires
                na as int >= 1,
                nb as int >= 1,
        ;
    }
    let neg = d < 0;
    let mag: u128 = if neg {
        (-(d as i128)) as u128
    } else {
        d as u128
    };
    let scaled: u128 = mag * (SIM_SCALE as u128);
    let q: u128 = scaled / denom;
    proof {
        lemma_div_nonincreasing(scaled as int, denom as int);
    }
    if neg {
        -(q as i128)
    } else {
        q as i128
    }
}

/// A vector of zeros has a zero norm.
pub proof fn lemma_norm_sq_zero(z: Seq<int>)
    requires
        forall|i: int| 0 <= i < z.len() ==> z[i] == 0,
    ensures
        norm_sq(z) == 0,
    decreases z.len(),
{
    if z.len() > 0 {
        lemma_norm_sq_zero(z.drop_last());
        assert(z.last() * z.last() == 0) by (nonlinear_arith)
            requires
                z.last() == 0,
        ;
    }
}

/// Law: similarity between any vector and a zero vector is zero, on
/// either side; it is defined, not an error.
pub proof fn lemma_cosine_zero_vector(a: Seq<int>, z: Seq<int>)
    requires
        forall|i: int| 0 <= i < z.len() ==> z[i] == 0,
    ensures
        cosine_spec(a, z) == 0,
        cosine_spec(z, a) == 0,
{
    lemma_norm_sq_zero(z);
    assert(isqrt_spec(0) == 0);
}

/// Law: similarity between vectors of different dimensions is zero; it
/// is defined, not an error.
pub proof fn lemma_cosine_mismatched(a: Seq<int>, b: Seq<int>)
    requires
        a.len() != b.len(),
    ensures
        cosine_spec(a, b) == 0,
{
}

/// An immutable stored pair of source text and its embedding.
pub struct MemoryEntry {
    pub text: String,
    pub embedding: Embedding,
}

/// Scores of every entry against one query.
pub open spec fn scores_of(entries: Seq<MemoryEntry>, q: Seq<int>) -> Seq<int> {
    entries.map_values(|e: MemoryEntry| cosine_spec(e.embedding@, q))
}

/// First index of the maximal score among indices below `upto` that are
/// not yet used; ties go to the smaller index.
pub open spec fn best_upto(scores: Seq<int>, used: Seq<bool>, upto: int) -> Option<int>
    decreases upto,
{
    if upto <= 0 {
        None
    } else {
        let prev = best_upto(scores, used, upto - 1);
        let i = upto - 1;
        if used[i] {
            prev
        } else {
            match prev {
                None => Some(i),
                Some(b) => if scores[i] > scores[b] {
                    Some(i)
                } else {
                    Some(b)
                },
            }
        }
    }
}

/// Indices of the `k` highest-scoring unused entries, best first; a tie
/// keeps the earlier index first.
pub open spec fn select_ranked(scores: Seq<int>, used: Seq<bool>, k: nat) -> Seq<int>
    decreases k,
{
    if k == 0 {
        Seq::empty()
    } else {
        match best_upto(scores, used, scores.len() as int) {
            None => Seq::empty(),
            Some(b) => seq![b] + select_ranked(scores, used.update(b, true), (k - 1) as nat),
        }
    }
}

/// What a search returns: the texts of the ranked selection.
pub open spec fn search_spec(entries: Seq<MemoryEntry>, q: Seq<int>, k: nat) -> Seq<Seq<char>> {
    select_ranked(
        scores_of(entries, q),
        Seq::new(entries.len(), |i: int| false),
        k,
    ).map_values(|i: int| entries[i].text@)
}

pub proof fn lemma_best_upto_char(scores: Seq<int>, used: Seq<bool>, upto: int)
    requires
        used.len() == scores.len(),
        0 <= upto <= scores.len(),
    ensures
        match best_upto(scores, used, upto) {
            None => forall|j: int| 0 <= j < upto ==> used[j],
            Some(b) => 0 <= b < upto && !used[b] && (forall|j: int|
                0 <= j < upto && !used[j] ==> scores[j] <= scores[b]) && (forall|j: int|
                0 <= j < b && !used[j] ==> scores[j] < scores[b]),
        },
    decreases upto,
{
    if upto > 0 {
        lemma_best_upto_char(scores, used, upto - 1);
    }
}

/// Ranked selection is sound: every selected index is a distinct, valid,
/// previously unused entry; scores weakly decrease along the selection;
/// and a tie between neighbours keeps the earlier index first.
pub proof fn lemma_select_ranked_props(scores: Seq<int>, used: Seq<bool>, k: nat)
    requires
        used.len() == scores.len(),
    ensures
        ({
            let sel = select_ranked(scores, used, k);
            &&& sel.len() <= k
            &&& forall|t: int|
                0 <= t < sel.len() ==> 0 <= #[trigger] sel[t] < scores.len() && !used[sel[t]]
            &&& forall|t1: int, t2: int|
                0 <= t1 < t2 < sel.len() ==> sel[t1] != sel[t2]
            &&& forall|t: int|
                0 <= t < sel.len() - 1 ==> scores[#[trigger] sel[t]] > scores[sel[t + 1]] || (
                scores[sel[t]] == scores[sel[t + 1]] && sel[t] < sel[t + 1])
        }),
    decreases k,
{
    if k > 0 {
        lemma_best_upto_char(scores, used, scores.len() as int);
        match best_upto(scores, used, scores.len() as int) {
            None => {},
            Some(b) => {
                let used1 = used.update(b, true);
                lemma_select_ranked_props(scores, used1, (k - 1) as nat);
                let sel1 = select_ranked(scores, used1, (k - 1) as nat);
                let sel = select_ranked(scores, used, k);
                assert(sel == seq![b] + sel1);
                assert(sel[0] == b);
                assert(forall|t: int| 0 <= t < sel1.len() ==> sel[t + 1] == sel1[t]);
                assert(forall|t: int|
                    0 <= t < sel1.len() ==> #[trigger] sel1[t] != b && !used[sel1[t]]);
                if sel1.len() > 0 {
                    let x = sel1[0];
                    assert(!used[x] && x != b);
                    assert(scores[x] <= scores[b]);
                    if scores[x] == scores[b] {
                        assert(!(x < b)) by {
                            if x < b {
                                assert(scores[x] < scores[b]);
                            }
                        }
                    }
                }
            },
        }
    }
}

/// Number of indices still unused.
pub open spec fn count_false(used: Seq<bool>) -> nat
    decreases used.len(),
{
    if used.len() == 0 {
        0
    } else {
        (if used[0] {
            0nat
        } else {
            1nat
        }) + count_false(used.drop_first())
    }
}

proof fn lemma_count_false_update(used: Seq<bool>, b: int)
    requires
        0 <= b < used.len(),
        !used[b],
    ensures
        count_false(used) >= 1,
        count_false(used.update(b, true)) == count_false(used) - 1,
    decreases used.len(),
{
    if b == 0 {
        assert(used.update(0, true).drop_first() =~= used.drop_first());
    } else {
        assert(used.update(b, true).drop_first() =~= used.drop_first().update(b - 1, true));
        lemma_count_false_update(used.drop_first(), b - 1);
    }
}

proof fn lemma_count_false_all_used(used: Seq<bool>)
    requires
        forall|j: int| 0 <= j < used.len() ==> used[j],
    ensures
        count_false(used) == 0,
    decreases used.len(),
{
    if used.len() > 0 {
        lemma_count_false_all_used(used.drop_first());
    }
}

/// Ranked selection exhausts the store: it yields `k` indices, or every
/// still-unused index when fewer than `k` remain.
pub proof fn lemma_select_ranked_len(scores: Seq<int>, used: Seq<bool>, k: nat)
    requires
        used.len() == scores.len(),
    ensures
        select_ranked(scores, used, k).len() == if k <= count_false(used) {
            k
        } else {
            count_false(used)
        },
    decreases k,
{
    if k > 0 {
        lemma_best_upto_char(scores, used, scores.len() as int);
        match best_upto(scores, used, scores.len() as int) {
            None => {
                lemma_count_false_all_used(used);
            },
            Some(b) => {
                lemma_count_false_update(used, b);
                lemma_select_ranked_len(scores, used.update(b, true), (k - 1) as nat);
            },
        }
    }
}

proof fn lemma_count_false_fresh(n: nat)
    ensures
        count_false(Seq::new(n, |i: int| false)) == n,
    decreases n,
{
    if n > 0 {
        assert(Seq::new(n, |i: int| false).drop_first() =~= Seq::new(
            (n - 1) as nat,
            |i: int| false,
        ));
        lemma_count_false_fresh((n - 1) as nat);
    }
}

/// Law: a search returns `k` texts, or the whole store when `k` exceeds
/// the store size.
pub proof fn lemma_search_len(entries: Seq<MemoryEntry>, q: Seq<int>, k: nat)
    ensures
        search_spec(entries, q, k).len() == if k <= entries.len() {
            k
        } else {
            entries.len()
        },
{
    lemma_count_false_fresh(entries.len());
    lemma_select_ranked_len(
        scores_of(entries, q),
        Seq::new(entries.len(), |i: int| false),
        k,
    );
}

/// Law: `search` ranks deterministically — the selected entries come in
/// descending similarity order, a tie in score preserves insertion
/// order, and no entry is returned twice.
pub proof fn lemma_search_ordered(entries: Seq<MemoryEntry>, q: Seq<int>, k: nat)
    ensures
        ({
            let sel = select_ranked(
                scores_of(entries, q),
                Seq::new(entries.len(), |i: int| false),
                k,
            );
            let sc = scores_of(entries, q);
            &&& search_spec(entries, q, k) == sel.map_values(|i: int| entries[i].text@)
            &&& forall|t: int| 0 <= t < sel.len() ==> 0 <= #[trigger] sel[t] < entries.len()
            &&& forall|t1: int, t2: int| 0 <= t1 < t2 < sel.len() ==> sel[t1] != sel[t2]
            &&& forall|t: int|
                0 <= t < sel.len() - 1 ==> sc[#[trigger] sel[t]] > sc[sel[t + 1]] || (sc[sel[t]]
                    == sc[sel[t + 1]] && sel[t] < sel[t + 1])
        }),
{
    lemma_select_ranked_props(
        scores_of(entries, q),
        Seq::new(entries.len(), |i: int| false),
        k,
    );
}

/// Law: a search over an empty store returns an empty sequence for
/// every `k`.
pub proof fn lemma_search_empty(q: Seq<int>, k: nat)
    ensures
        search_spec(Seq::<MemoryEntry>::empty(), q, k) == Seq::<Seq<char>>::empty(),
{
    let sc = scores_of(Seq::<MemoryEntry>::empty(), q);
    assert(sc.len() == 0);
    if k > 0 {
        assert(best_upto(sc, Seq::new(0, |i: int| false), 0) is None);
    }
    assert(search_spec(Seq::<MemoryEntry>::empty(), q, k) =~= Seq::<Seq<char>>::empty());
}

/// Append-only store of (text, embedding) pairs with full-scan
/// cosine-similarity retrieval.
pub struct VectorMemory {
    pub entries: Vec<MemoryEntry>,
}

impl VectorMemory {
    /// An empty store.
    pub fn new() -> (m: VectorMemory)
        ensures
            m.entries@ == Seq::<MemoryEntry>::empty(),
    {
        VectorMemory { entries: Vec::new() }
    }

    /// Appends one entry; nothing is ever updated or removed.
    pub fn add(&mut self, text: String, embedding: Embedding)
        ensures
            final(self).entries@.len() == old(self).entries@.len() + 1,
            final(self).entries@.subrange(0, old(self).entries@.len() as int) == old(
                self,
            ).entries@,
            final(self).entries@.last().text@ == text@,
            final(self).entries@.last().embedding@ == embedding@,
    {
        self.entries.push(MemoryEntry { text, embedding });
        proof {
            assert(final(self).entries@.subrange(0, old(self).entries@.len() as int)
                =~= old(self).entries@);
        }
    }

    /// Number of stored entries.
    pub fn len(&self) -> (n: usize)
        ensures
            n == self.entries@.len(),
    {
        self.entries.len()
    }

    /// Full-scan retrieval: the texts of the `top_k` entries most similar
    /// to the query, highest similarity first, ties in insertion order.
    /// An empty store yields an empty result; a `top_k` beyond the store
    /// size yields every entry.
    pub fn search(&self, query: &Embedding, top_k: usize) -> (r: Vec<String>)
        ensures
            r@.map_values(|s: String| s@) == search_spec(self.entries@, query@, top_k as nat),
    {
        let n = self.entries.len();
        let ghost sc = scores_of(self.entries@, query@);
        let ghost used0 = Seq::new(self.entries@.len(), |i: int| false);
        let mut scores: Vec<i128> = Vec::new();
        let mut used: Vec<bool> = Vec::new();
        let mut i: usize = 0;
        while i < n
            invariant
                n == self.entries@.len(),
                sc == scores_of(self.entries@, query@),
                used0 == Seq::new(self.entries@.len(), |ii: int| false),
                i <= n,
                scores@.len() == i,
                used@.len() == i,
                forall|j: int| 0 <= j < i ==> #[trigger] scores@[j] as int == sc[j],
                forall|j: int| 0 <= j < i ==> #[trigger] used@[j] == false,
            decreases n - i,
        {
            let entry = &self.entries[i];
            let s = cosine_similarity(&entry.embedding, query);
            scores.push(s);
            used.push(false);
            i = i + 1;
        }
        proof {
            assert(used@ =~= used0);
        }
        let mut out: Vec<String> = Vec::new();
        let ghost mut picks: Seq<int> = Seq::empty();
        let mut taken: usize = 0;
        let mut done = false;
        while taken < top_k && !done
            invariant
                n == self.entries@.len(),
                sc == scores_of(self.entries@, query@),
                sc.len() == n,
                used0 == Seq::new(self.entries@.len(), |ii: int| false),
                scores@.len() == n,
                used@.len() == n,
                forall|j: int| 0 <= j < n ==> #[trigger] scores@[j] as int == sc[j],
                taken <= top_k,
                out@.len() == picks.len(),
                forall|t: int|
                    0 <= t < picks.len() ==> 0 <= #[trigger] picks[t] < n && out@[t]@
                        == self.entries@[picks[t]].text@,
                select_ranked(sc, used0, top_k as nat) == picks + select_ranked(
                    sc,
                    used@,
                    (top_k - taken) as nat,
                ),
                done ==> select_ranked(sc, used@, (top_k - taken) as nat)
                    == Seq::<int>::empty(),
            decreases top_k - taken, (if done { 0int } else { 1int }),
        {
            let mut best: usize = 0;
            let mut have_best = false;
            let mut j: usize = 0;
            while j < n
                invariant
                    n == scores@.len(),
                    n == used@.len(),
                    j <= n,
                    if have_best {
                        best_upto(scores@.map_values(|x: i128| x as int), used@, j as int)
                            == Some(best as int) && best < j && !used@[best as int]
                    } else {
                        best_upto(scores@.map_values(|x: i128| x as int), used@, j as int)
                            is None
                    },
                decreases n - j,
            {
                if !used[j] {
                    if !have_best {
                        best = j;
                        have_best = true;
                    } else if scores[j] > scores[best] {
                        best = j;
                    }
                }
                j = j + 1;
            }
            proof {
                assert(scores@.map_values(|x: i128| x as int) =~= sc);
            }
            if !have_best {
                done = true;
                proof {
                    assert(best_upto(sc, used@, n as int) is None);
                    assert(select_ranked(sc, used@, (top_k - taken) as nat)
                        == Seq::<int>::empty());
                }
            } else {
                let b = best;
                proof {
                    assert(best_upto(sc, used@, sc.len() as int) == Some(b as int));
                    assert(select_ranked(sc, used@, (top_k - taken) as nat) == seq![b as int]
                        + select_ranked(
                        sc,
                        used@.update(b as int, true),
                        (top_k - taken - 1) as nat,
                    ));
                }
                let entry = &self.entries[b];
                out.push(entry.text.clone());
                let ghost used_before = used@;
                let _ = used.remove(b);
                used.insert(b, true);
                proof {
                    assert(used@ =~= used_before.update(b as int, true));
                    picks = picks.push(b as int);
                    assert(picks + select_ranked(sc, used@, (top_k - taken - 1) as nat)
                        =~= (picks.drop_last() + (seq![b as int] + select_ranked(
                        sc,
                        used@,
                        (top_k - taken - 1) as nat,
                    ))));
                }
                taken = taken + 1;
            }
        }
        proof {
            if taken >= top_k {
                assert(select_ranked(sc, used@, (top_k - taken) as nat)
                    == Seq::<int>::empty());
            }
            assert(picks + Seq::<int>::empty() =~= picks);
            assert(select_ranked(sc, used0, top_k as nat) == picks);
            assert(out@.map_values(|s: String| s@) =~= search_spec(
                self.entries@,
                query@,
                top_k as nat,
            ));
        }
        out
    }
}

} // verus!
