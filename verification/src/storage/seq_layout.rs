//! Reordering rows between `[B, kv_h, S, D]` and `[B, S, kv_h, D]`.
//!
//! A store gathers its rows sequence-major, so that a later chunk follows an
//! earlier one in memory; everything outside of a store is head-major.
use vstd::arithmetic::div_mod::{
    lemma_fundamental_div_mod, lemma_fundamental_div_mod_converse,
};
use vstd::prelude::*;

verus! {

/// The position of an element of a `[_, m, n, d]` array in memory.
pub open spec fn flat(b: int, i: int, j: int, k: int, m: int, n: int, d: int) -> int {
    ((b * m + i) * n + j) * d + k
}

/// Where the element at `at` of a `[_, n, m, d]` array stands in a `[_, m, n, d]`
/// array that has the two middle axes the other way round.
pub open spec fn source(at: int, m: int, n: int, d: int) -> int {
    flat(at / d / m / n, (at / d) % m, (at / d / m) % n, at % d, m, n, d)
}

/// A `[_, m, n, d]` array with its two middle axes swapped.
pub open spec fn swapped<T>(data: Seq<T>, m: int, n: int, d: int) -> Seq<T> {
    Seq::new(data.len(), |at: int| data[source(at, m, n, d)])
}

/// Coordinates within their extents are found again in the position.
pub proof fn lemma_coordinates(b: int, i: int, j: int, k: int, m: int, n: int, d: int)
    requires
        0 <= i < m,
        0 <= j < n,
        0 <= k < d,
    ensures
        ({
            let at = flat(b, i, j, k, m, n, d);
            &&& at % d == k
            &&& at / d == (b * m + i) * n + j
            &&& (at / d) % n == j
            &&& at / d / n == b * m + i
            &&& (at / d / n) % m == i
            &&& at / d / n / m == b
        }),
{
    let at = flat(b, i, j, k, m, n, d);
    lemma_fundamental_div_mod_converse(at, d, (b * m + i) * n + j, k);
    lemma_fundamental_div_mod_converse((b * m + i) * n + j, n, b * m + i, j);
    lemma_fundamental_div_mod_converse(b * m + i, m, b, i);
}

/// A position is that of its coordinates.
pub proof fn lemma_position(at: int, m: int, n: int, d: int)
    requires
        m > 0,
        n > 0,
        d > 0,
    ensures
        at == flat(at / d / n / m, (at / d / n) % m, (at / d) % n, at % d, m, n, d),
        0 <= at % d < d,
        0 <= (at / d) % n < n,
        0 <= (at / d / n) % m < m,
{
    lemma_fundamental_div_mod(at, d);
    lemma_fundamental_div_mod(at / d, n);
    lemma_fundamental_div_mod(at / d / n, m);
    let b = at / d / n / m;
    let i = (at / d / n) % m;
    let j = (at / d) % n;
    let k = at % d;
    assert(at / d / n == b * m + i) by (nonlinear_arith)
        requires
            at / d / n == m * b + i,
    ;
    assert(at / d == (b * m + i) * n + j) by (nonlinear_arith)
        requires
            at / d == n * (at / d / n) + j,
            at / d / n == b * m + i,
    ;
    assert(at == flat(b, i, j, k, m, n, d)) by (nonlinear_arith)
        requires
            at == d * (at / d) + k,
            at / d == (b * m + i) * n + j,
    ;
}

/// Coordinates within their extents stay inside of an array of `b` parts.
proof fn lemma_inside(b: int, part: int, i: int, j: int, k: int, m: int, n: int, d: int)
    requires
        0 <= part < b,
        0 <= i < m,
        0 <= j < n,
        0 <= k < d,
    ensures
        0 <= flat(part, i, j, k, m, n, d) < b * m * n * d,
{
    let r1 = part * m + i;
    assert(0 <= r1 < b * m) by (nonlinear_arith)
        requires
            0 <= part < b,
            0 <= i < m,
            r1 == part * m + i,
    ;
    let r2 = r1 * n + j;
    assert(0 <= r2 < b * m * n) by (nonlinear_arith)
        requires
            0 <= r1 < b * m,
            0 <= j < n,
            r2 == r1 * n + j,
    ;
    assert(0 <= r2 * d + k < b * m * n * d) by (nonlinear_arith)
        requires
            0 <= r2 < b * m * n,
            0 <= k < d,
    ;
}

/// The part that a position lies in, and its coordinates with the middle axes
/// the other way round.
pub proof fn lemma_source(at: int, b: int, m: int, n: int, d: int)
    requires
        0 <= at < b * m * n * d,
        0 <= b,
        0 <= m,
        0 <= n,
        0 <= d,
    ensures
        0 < b,
        0 < m,
        0 < n,
        0 < d,
        0 <= at / d / m / n < b,
        0 <= (at / d) % m < m,
        0 <= (at / d / m) % n < n,
        0 <= at % d < d,
        at == flat(at / d / m / n, (at / d / m) % n, (at / d) % m, at % d, n, m, d),
        0 <= source(at, m, n, d) < b * m * n * d,
{
    assert(0 < b && 0 < m && 0 < n && 0 < d) by (nonlinear_arith)
        requires
            0 <= at < b * m * n * d,
            0 <= b,
            0 <= m,
            0 <= n,
            0 <= d,
    ;
    lemma_position(at, n, m, d);
    let part = at / d / m / n;
    let i = (at / d) % m;
    let j = (at / d / m) % n;
    let k = at % d;
    assert(0 <= part < b) by (nonlinear_arith)
        requires
            0 <= at < b * m * n * d,
            at == ((part * n + j) * m + i) * d + k,
            0 <= i < m,
            0 <= j < n,
            0 <= k < d,
            0 < m,
            0 < n,
            0 < d,
    ;
    lemma_inside(b, part, i, j, k, m, n, d);
}

/// Element by element: what stands at `(b, i, j, k)` stands at `(b, j, i, k)`
/// after the swap.
pub proof fn law_swap_exchanges_middle_axes<T>(
    data: Seq<T>,
    b: int,
    part: int,
    i: int,
    j: int,
    k: int,
    m: int,
    n: int,
    d: int,
)
    requires
        data.len() == b * m * n * d,
        0 <= part < b,
        0 <= i < m,
        0 <= j < n,
        0 <= k < d,
    ensures
        0 <= flat(part, j, i, k, n, m, d) < data.len(),
        0 <= flat(part, i, j, k, m, n, d) < data.len(),
        swapped(data, m, n, d)[flat(part, j, i, k, n, m, d)] == data[flat(
            part,
            i,
            j,
            k,
            m,
            n,
            d,
        )],
{
    lemma_inside(b, part, i, j, k, m, n, d);
    lemma_inside(b, part, j, i, k, n, m, d);
    assert(b * n * m * d == b * m * n * d) by (nonlinear_arith);
    lemma_coordinates(part, j, i, k, n, m, d);
}

/// Swapping twice gives back what was there.
pub proof fn law_swap_undoes_itself<T>(data: Seq<T>, b: int, m: int, n: int, d: int)
    requires
        data.len() == b * m * n * d,
        0 <= b,
        0 <= m,
        0 <= n,
        0 <= d,
    ensures
        swapped(swapped(data, m, n, d), n, m, d) == data,
{
    let once = swapped(data, m, n, d);
    let twice = swapped(once, n, m, d);
    assert forall|at: int| 0 <= at < data.len() implies twice[at] == data[at] by {
        assert(b * n * m * d == b * m * n * d) by (nonlinear_arith);
        lemma_source(at, b, n, m, d);
        let part = at / d / n / m;
        let j = (at / d) % n;
        let i = (at / d / n) % m;
        let k = at % d;
        assert(at == flat(part, i, j, k, m, n, d));
        assert(twice[at] == once[flat(part, j, i, k, n, m, d)]);
        law_swap_exchanges_middle_axes(data, b, part, i, j, k, m, n, d);
    }
    assert(twice =~= data);
}

/// An array whose rows of `d` elements are each put through `f`.
pub open spec fn by_rows<T>(f: spec_fn(Seq<T>) -> Seq<T>, data: Seq<T>, d: int) -> Seq<T> {
    Seq::new(data.len(), |at: int| f(data.subrange(at - at % d, at - at % d + d))[at % d])
}

/// What stands at coordinates of an array whose rows were put through `f`.
pub proof fn lemma_by_rows_at<T>(
    f: spec_fn(Seq<T>) -> Seq<T>,
    data: Seq<T>,
    b: int,
    part: int,
    i: int,
    j: int,
    k: int,
    m: int,
    n: int,
    d: int,
)
    requires
        data.len() == b * m * n * d,
        0 <= part < b,
        0 <= i < m,
        0 <= j < n,
        0 <= k < d,
    ensures
        0 <= flat(part, i, j, 0, m, n, d),
        flat(part, i, j, 0, m, n, d) + d <= data.len(),
        by_rows(f, data, d)[flat(part, i, j, k, m, n, d)] == f(
            data.subrange(flat(part, i, j, 0, m, n, d), flat(part, i, j, 0, m, n, d) + d),
        )[k],
{
    lemma_coordinates(part, i, j, k, m, n, d);
    lemma_inside(b, part, i, j, k, m, n, d);
    lemma_inside(b, part, i, j, 0, m, n, d);
    lemma_inside(b, part, i, j, d - 1, m, n, d);
}

/// Swapping the middle axes moves rows as a whole: what is done row by row may be
/// done before the swap or after it.
pub proof fn law_swap_keeps_rows_whole<T>(
    f: spec_fn(Seq<T>) -> Seq<T>,
    data: Seq<T>,
    b: int,
    m: int,
    n: int,
    d: int,
)
    requires
        data.len() == b * m * n * d,
        0 <= b,
        0 <= m,
        0 <= n,
        0 <= d,
    ensures
        swapped(by_rows(f, data, d), m, n, d) == by_rows(f, swapped(data, m, n, d), d),
{
    let moved = swapped(data, m, n, d);
    let before = swapped(by_rows(f, data, d), m, n, d);
    let after = by_rows(f, moved, d);
    assert(b * n * m * d == b * m * n * d) by (nonlinear_arith);
    assert forall|at: int| 0 <= at < data.len() implies before[at] == after[at] by {
        lemma_source(at, b, m, n, d);
        let part = at / d / m / n;
        let i = (at / d) % m;
        let j = (at / d / m) % n;
        let k = at % d;
        lemma_by_rows_at(f, data, b, part, i, j, k, m, n, d);
        lemma_by_rows_at(f, moved, b, part, j, i, k, n, m, d);
        let from = flat(part, i, j, 0, m, n, d);
        let to = flat(part, j, i, 0, n, m, d);
        let there = moved.subrange(to, to + d);
        let here = data.subrange(from, from + d);
        assert forall|q: int| 0 <= q < d implies there[q] == here[q] by {
            law_swap_exchanges_middle_axes(data, b, part, i, j, q, m, n, d);
        }
        assert(there =~= here);
    }
    assert(before =~= after);
}

/// Chunks of one request that were swapped one by one and laid end to end swap
/// back into the chunks joined along their sequence axis.
pub proof fn law_chunks_join_along_sequence<T>(
    first: Seq<T>,
    second: Seq<T>,
    heads: int,
    s1: int,
    s2: int,
    d: int,
    h: int,
    s: int,
    k: int,
)
    requires
        first.len() == heads * s1 * d,
        second.len() == heads * s2 * d,
        0 <= s1,
        0 <= s2,
        0 <= h < heads,
        0 <= s < s1 + s2,
        0 <= k < d,
    ensures
        swapped(
            swapped(first, heads, s1, d) + swapped(second, heads, s2, d),
            s1 + s2,
            heads,
            d,
        )[flat(0, h, s, k, heads, s1 + s2, d)] == if s < s1 {
            first[flat(0, h, s, k, heads, s1, d)]
        } else {
            second[flat(0, h, s - s1, k, heads, s2, d)]
        },
{
    let a = swapped(first, heads, s1, d);
    let b = swapped(second, heads, s2, d);
    let joined = a + b;
    assert(joined.len() == 1 * (s1 + s2) * heads * d) by (nonlinear_arith)
        requires
            joined.len() == heads * s1 * d + heads * s2 * d,
    ;
    law_swap_exchanges_middle_axes(joined, 1, 0, s, h, k, s1 + s2, heads, d);
    let at = flat(0, s, h, k, s1 + s2, heads, d);
    assert(at == (s * heads + h) * d + k) by (nonlinear_arith)
        requires
            at == ((0 * (s1 + s2) + s) * heads + h) * d + k,
    ;
    if s < s1 {
        assert(first.len() == 1 * heads * s1 * d) by (nonlinear_arith)
            requires
                first.len() == heads * s1 * d,
        ;
        law_swap_exchanges_middle_axes(first, 1, 0, h, s, k, heads, s1, d);
        assert(flat(0, s, h, k, s1, heads, d) == (s * heads + h) * d + k) by (nonlinear_arith);
        assert(joined[at] == a[at]);
    } else {
        let t = s - s1;
        assert(second.len() == 1 * heads * s2 * d) by (nonlinear_arith)
            requires
                second.len() == heads * s2 * d,
        ;
        law_swap_exchanges_middle_axes(second, 1, 0, h, t, k, heads, s2, d);
        assert(flat(0, t, h, k, s2, heads, d) == (t * heads + h) * d + k) by (nonlinear_arith);
        assert(at == heads * s1 * d + (t * heads + h) * d + k) by (nonlinear_arith)
            requires
                at == (s * heads + h) * d + k,
                s == t + s1,
        ;
        assert(joined[at] == b[at - a.len()]);
    }
}

/// Swaps the two middle axes of a `[b, m, n, d]` array.
fn swap_axes(data: &[u32], b: usize, m: usize, n: usize, d: usize) -> (r: Vec<u32>)
    requires
        data@.len() == b * m * n * d,
    ensures
        r@ == swapped(data@, m as int, n as int, d as int),
{
    let total: usize = data.len();
    let mut out: Vec<u32> = Vec::with_capacity(total);
    let mut at: usize = 0;
    while at < total
        invariant
            total == data@.len(),
            data@.len() == b * m * n * d,
            at <= total,
            out@.len() == at,
            forall|p: int|
                0 <= p < at ==> #[trigger] out@[p] == data@[source(
                    p,
                    m as int,
                    n as int,
                    d as int,
                )],
        decreases total - at,
    {
        proof {
            lemma_source(at as int, b as int, m as int, n as int, d as int);
            lemma_partial(at as int, b as int, m as int, n as int, d as int);
        }
        let k: usize = at % d;
        let i: usize = (at / d) % m;
        let j: usize = (at / d / m) % n;
        let part: usize = at / d / m / n;
        out.push(data[((part * m + i) * n + j) * d + k]);
        at = at + 1;
    }
    assert(out@ =~= swapped(data@, m as int, n as int, d as int));
    out
}

/// Every step towards the source of a position stays below the whole.
proof fn lemma_partial(at: int, b: int, m: int, n: int, d: int)
    requires
        0 <= at < b * m * n * d,
        0 <= b,
        0 <= m,
        0 <= n,
        0 <= d,
    ensures
        ({
            let part = at / d / m / n;
            let i = (at / d) % m;
            let j = (at / d / m) % n;
            &&& 0 <= part * m <= part * m + i
            &&& part * m + i <= (part * m + i) * n
            &&& (part * m + i) * n <= (part * m + i) * n + j
            &&& (part * m + i) * n + j <= ((part * m + i) * n + j) * d
            &&& ((part * m + i) * n + j) * d <= source(at, m, n, d)
        }),
{
    lemma_source(at, b, m, n, d);
    let part = at / d / m / n;
    let i = (at / d) % m;
    let j = (at / d / m) % n;
    let r1 = part * m + i;
    assert(0 <= part * m) by (nonlinear_arith)
        requires
            0 <= part,
            0 < m,
    ;
    assert(r1 <= r1 * n) by (nonlinear_arith)
        requires
            0 <= r1,
            1 <= n,
    ;
    let r2 = r1 * n + j;
    assert(r2 <= r2 * d) by (nonlinear_arith)
        requires
            0 <= r2,
            1 <= d,
    ;
}

/// `[B, kv_h, S, D]` to `[B, S, kv_h, D]`.
pub fn transpose_heads_seq(data: &[u32], b: usize, kv_h: usize, s: usize, d: usize) -> (r: Vec<u32>)
    requires
        data@.len() == b * kv_h * s * d,
    ensures
        r@ == swapped(data@, kv_h as int, s as int, d as int),
{
    swap_axes(data, b, kv_h, s, d)
}

/// `[B, S, kv_h, D]` to `[B, kv_h, S, D]`.
pub fn transpose_seq_heads(data: &[u32], b: usize, s: usize, kv_h: usize, d: usize) -> (r: Vec<u32>)
    requires
        data@.len() == b * s * kv_h * d,
    ensures
        r@ == swapped(data@, s as int, kv_h as int, d as int),
{
    swap_axes(data, b, s, kv_h, d)
}

} // verus!
