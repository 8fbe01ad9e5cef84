//! The frequency table of proportional rotary embeddings.
use vstd::prelude::*;

verus! {

/// One entry of the table.
#[derive(Clone, Copy, PartialEq, Eq, Structural, Debug)]
pub enum Freq {
    /// The base raised to `num / den`.
    Power { num: usize, den: usize },
    /// Infinity: the pair is left as it is.
    Unrotated,
}

/// The table: the rotated pairs first, whose exponents are taken over the whole
/// head and not over its rotated part, then the pairs that are left alone.
pub open spec fn proportional(global_head_dim: int, rotated_dims: int) -> Seq<Freq> {
    Seq::new(
        (rotated_dims / 2 + (global_head_dim - rotated_dims) / 2) as nat,
        |i: int|
            if i < rotated_dims / 2 {
                Freq::Power { num: (2 * i) as usize, den: global_head_dim as usize }
            } else {
                Freq::Unrotated
            },
    )
}

/// The table of a head of which `rotated_dims` elements are rotated.
pub fn build_proportional_rope_freqs(global_head_dim: usize, rotated_dims: usize) -> (r: Vec<Freq>)
    requires
        rotated_dims <= global_head_dim,
    ensures
        r@ == proportional(global_head_dim as int, rotated_dims as int),
{
    let half_rotated: usize = rotated_dims / 2;
    let half_unrotated: usize = (global_head_dim - rotated_dims) / 2;
    let mut freqs: Vec<Freq> = Vec::with_capacity(global_head_dim / 2);
    let mut i: usize = 0;
    while i < half_rotated
        invariant
            half_rotated == rotated_dims / 2,
            rotated_dims <= global_head_dim,
            i <= half_rotated,
            freqs@.len() == i,
            forall|p: int|
                0 <= p < i ==> #[trigger] freqs@[p] == (Freq::Power {
                    num: (2 * p) as usize,
                    den: global_head_dim,
                }),
        decreases half_rotated - i,
    {
        freqs.push(Freq::Power { num: 2 * i, den: global_head_dim });
        i = i + 1;
    }
    let mut j: usize = 0;
    while j < half_unrotated
        invariant
            half_rotated == rotated_dims / 2,
            rotated_dims <= global_head_dim,
            half_unrotated == (global_head_dim - rotated_dims) / 2,
            j <= half_unrotated,
            freqs@.len() == half_rotated + j,
            forall|p: int|
                0 <= p < half_rotated ==> #[trigger] freqs@[p] == (Freq::Power {
                    num: (2 * p) as usize,
                    den: global_head_dim,
                }),
            forall|p: int|
                half_rotated <= p < half_rotated + j ==> #[trigger] freqs@[p] == Freq::Unrotated,
        decreases half_unrotated - j,
    {
        freqs.push(Freq::Unrotated);
        j = j + 1;
    }
    assert(freqs@ =~= proportional(global_head_dim as int, rotated_dims as int));
    freqs
}

/// With even extents the table has one entry per pair of the head.
pub proof fn law_table_covers_the_head(global_head_dim: int, rotated_dims: int)
    requires
        0 <= rotated_dims <= global_head_dim,
        global_head_dim % 2 == 0,
        rotated_dims % 2 == 0,
    ensures
        proportional(global_head_dim, rotated_dims).len() == global_head_dim / 2,
{
}

/// Entry `i` of the table is the base raised to `2i` over the whole head as long as
/// the pair is rotated, and leaves the pair alone behind that. How much is rotated
/// decides how many entries turn, never by how much they do.
pub proof fn law_exponents_are_over_the_whole_head(
    global_head_dim: int,
    rotated_dims: int,
    other: int,
    i: int,
)
    requires
        0 <= rotated_dims <= global_head_dim <= usize::MAX,
        0 <= other <= global_head_dim,
        0 <= i < proportional(global_head_dim, rotated_dims).len(),
    ensures
        match proportional(global_head_dim, rotated_dims)[i] {
            Freq::Power { num, den } => 2 * i + 1 < rotated_dims && num == 2 * i && den
                == global_head_dim,
            Freq::Unrotated => rotated_dims <= 2 * i + 1,
        },
        i < rotated_dims / 2 && i < other / 2 ==> proportional(global_head_dim, rotated_dims)[i]
            == proportional(global_head_dim, other)[i],
        proportional(global_head_dim, rotated_dims).len() == rotated_dims / 2 + (global_head_dim
            - rotated_dims) / 2,
{
}

} // verus!
