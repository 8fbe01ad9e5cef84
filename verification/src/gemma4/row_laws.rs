//! What a pass reads off, for a runtime whose final norm, head and cap each work
//! row by row: one row for each position.
use vstd::prelude::*;

use crate::gemma4::model::{Gemma4Text, RunView, Tail};
use crate::gemma4::program::{Op, Weight};
use crate::gemma4::model;
use crate::tensor::Tensor;

verus! {

/// What the runtime makes of one row.
#[verifier::reject_recursive_types(R)]
pub struct RowWise<R> {
    pub norm: spec_fn(R) -> R,
    pub head: spec_fn(R) -> R,
    pub cap: spec_fn(R) -> R,
}

/// Rows put through a function one by one.
pub open spec fn each<R>(f: spec_fn(R) -> R, rows: Seq<R>) -> Seq<R> {
    Seq::new(rows.len(), |i: int| f(rows[i]))
}

/// The rows that an operation behind the last layer writes.
pub open spec fn wrote<R>(f: RowWise<R>, op: Op, regs: Seq<Seq<R>>) -> Seq<R> {
    match op {
        Op::Norm { weight: Weight::FinalNorm, x } => each(f.norm, regs[x as int]),
        Op::AsLinear { weight: Weight::EmbedTokens, x } => each(f.head, regs[x as int]),
        Op::Softcap { x, .. } => each(f.cap, regs[x as int]),
        Op::Positions { x, from, to, .. } => regs[x as int].subrange(from as int, to as int),
        Op::Reshape { x, .. } => regs[x as int],
        _ => Seq::empty(),
    }
}

/// The registers after the first `n` operations of a program on one input.
pub open spec fn registers<R>(f: RowWise<R>, ops: Seq<Op>, rows: Seq<R>, n: int) -> Seq<Seq<R>>
    decreases n,
{
    if n <= 0 {
        seq![rows]
    } else {
        let regs = registers(f, ops, rows, n - 1);
        regs.push(wrote(f, ops[n - 1], regs))
    }
}

/// What a program on one input comes to.
pub open spec fn read_off<R>(f: RowWise<R>, ops: Seq<Op>, rows: Seq<R>) -> Seq<R> {
    registers(f, ops, rows, ops.len() as int).last()
}

/// The logits of one row of the stream.
pub open spec fn logits_of<R>(f: RowWise<R>, row: R) -> R {
    (f.cap)((f.head)((f.norm)(row)))
}

/// The logits of every row of the stream.
pub open spec fn all_logits<R>(f: RowWise<R>, rows: Seq<R>) -> Seq<R> {
    Seq::new(rows.len(), |i: int| logits_of(f, rows[i]))
}

/// The last `k` rows.
pub open spec fn last_rows<R>(rows: Seq<R>, k: int) -> Seq<R> {
    rows.subrange(rows.len() - k, rows.len() as int)
}

/// The operations that read a pass off with a given tail.
pub open spec fn tail_ops(m: Gemma4Text, run: RunView, tail: Tail) -> Seq<Op> {
    model::tail_program(m, RunView { tail, ..run }).ops
}

proof fn lemma_cut_then_head<R>(f: RowWise<R>, m: Gemma4Text, seq: i32, k: i32, rows: Seq<R>)
    requires
        rows.len() == seq,
        1 <= k <= seq,
    ensures
        read_off(
            f,
            seq![model::final_norm()] + model::last_positions(m, seq, k, 1) + model::head_ops(m, 3),
            rows,
        ) == all_logits(f, last_rows(rows, k as int)),
{
    let ops = seq![model::final_norm()] + model::last_positions(m, seq, k, 1) + model::head_ops(
        m,
        3,
    );
    reveal_with_fuel(registers, 6);
    assert(ops.len() == 5);
    let normed = each(f.norm, rows);
    let cut = normed.subrange(seq - k, seq as int);
    assert(read_off(f, ops, rows) == each(f.cap, each(f.head, cut)));
    assert(each(f.cap, each(f.head, cut)) =~= all_logits(f, last_rows(rows, k as int)));
}

proof fn lemma_head<R>(f: RowWise<R>, m: Gemma4Text, rows: Seq<R>)
    ensures
        read_off(f, seq![model::final_norm()] + model::head_ops(m, 1), rows) == all_logits(f, rows),
{
    let ops = seq![model::final_norm()] + model::head_ops(m, 1);
    reveal_with_fuel(registers, 4);
    assert(ops.len() == 3);
    let normed = each(f.norm, rows);
    assert(read_off(f, ops, rows) == each(f.cap, each(f.head, normed)));
    assert(each(f.cap, each(f.head, normed)) =~= all_logits(f, rows));
}

/// What each tail reads off of the stream: the last rows as they are, or the
/// logits of the last rows, of the last row, or of every row.
pub proof fn law_tails_read_rows<R>(
    f: RowWise<R>,
    m: Gemma4Text,
    run: RunView,
    k: i32,
    rows: Seq<R>,
)
    requires
        rows.len() == run.seq,
        1 <= k <= run.seq,
    ensures
        read_off(f, tail_ops(m, run, Tail::Hidden { k }), rows) == last_rows(rows, k as int),
        read_off(f, tail_ops(m, run, Tail::SharedHidden { k }), rows) == last_rows(rows, k as int),
        read_off(f, tail_ops(m, run, Tail::LastKLogits { k }), rows) == all_logits(
            f,
            last_rows(rows, k as int),
        ),
        read_off(f, tail_ops(m, run, Tail::LastLogits), rows) == all_logits(
            f,
            last_rows(rows, 1),
        ),
        read_off(f, tail_ops(m, run, Tail::AllLogits), rows) == all_logits(f, rows),
{
    assert(read_off(f, model::last_positions(m, run.seq, k, 0), rows) == last_rows(
        rows,
        k as int,
    )) by {
        reveal_with_fuel(registers, 3);
    }
    lemma_cut_then_head(f, m, run.seq, k, rows);
    lemma_cut_then_head(f, m, run.seq, 1, rows);
    lemma_head(f, m, rows);
}

/// The head on the stream that a pass hands out gives the logits that a pass for
/// logits reads off itself: it does what the pass for the stream leaves off.
pub proof fn law_head_completes_the_stream<R>(
    f: RowWise<R>,
    m: Gemma4Text,
    run: RunView,
    hidden: Tensor,
    k: i32,
    rows: Seq<R>,
)
    requires
        rows.len() == run.seq,
        1 <= k <= run.seq,
    ensures
        read_off(
            f,
            model::head_program(m, hidden).ops,
            read_off(f, tail_ops(m, run, Tail::Hidden { k }), rows),
        ) == read_off(f, tail_ops(m, run, Tail::LastKLogits { k }), rows),
{
    law_tails_read_rows(f, m, run, k, rows);
    lemma_head(f, m, last_rows(rows, k as int));
}

/// Fewer rows are the end of more rows: of the stream, of the logits of the last
/// rows, and of the logits of all rows.
pub proof fn law_fewer_rows_are_the_end<R>(
    f: RowWise<R>,
    m: Gemma4Text,
    run: RunView,
    j: i32,
    k: i32,
    rows: Seq<R>,
)
    requires
        rows.len() == run.seq,
        1 <= j <= k <= run.seq,
    ensures
        read_off(f, tail_ops(m, run, Tail::Hidden { k: j }), rows) == last_rows(
            read_off(f, tail_ops(m, run, Tail::Hidden { k }), rows),
            j as int,
        ),
        read_off(f, tail_ops(m, run, Tail::LastKLogits { k: j }), rows) == last_rows(
            read_off(f, tail_ops(m, run, Tail::LastKLogits { k }), rows),
            j as int,
        ),
        read_off(f, tail_ops(m, run, Tail::LastLogits), rows) == last_rows(
            read_off(f, tail_ops(m, run, Tail::LastKLogits { k }), rows),
            1,
        ),
        read_off(f, tail_ops(m, run, Tail::LastKLogits { k }), rows) == last_rows(
            read_off(f, tail_ops(m, run, Tail::AllLogits), rows),
            k as int,
        ),
{
    law_tails_read_rows(f, m, run, j, rows);
    law_tails_read_rows(f, m, run, k, rows);
    assert(last_rows(rows, j as int) =~= last_rows(last_rows(rows, k as int), j as int));
    assert(all_logits(f, last_rows(rows, j as int)) =~= last_rows(
        all_logits(f, last_rows(rows, k as int)),
        j as int,
    ));
    assert(all_logits(f, last_rows(rows, 1)) =~= last_rows(
        all_logits(f, last_rows(rows, k as int)),
        1,
    ));
    assert(all_logits(f, last_rows(rows, k as int)) =~= last_rows(
        all_logits(f, rows),
        k as int,
    ));
}

/// An operation without its operands.
pub open spec fn unnumbered(op: Op) -> Op {
    match op {
        Op::Norm { weight, .. } => Op::Norm { weight, x: 0 },
        Op::AsLinear { weight, .. } => Op::AsLinear { weight, x: 0 },
        Op::Softcap { cap, .. } => Op::Softcap { x: 0, cap },
        Op::Positions { from, to, n, .. } => Op::Positions { x: 0, from, to, n },
        Op::Reshape { dims, .. } => Op::Reshape { x: 0, dims },
        _ => op,
    }
}

/// Whatever the runtime does with a row: the logits of the last positions are read
/// off by the final norm, then by what reads the stream off, then by the rest of
/// the head.
pub proof fn law_logits_tail_is_stream_tail_and_head(
    m: Gemma4Text,
    run: RunView,
    hidden: Tensor,
    k: i32,
)
    ensures
        ({
            let bare = |ops: Seq<Op>| Seq::new(ops.len(), |i: int| unnumbered(ops[i]));
            let head = bare(model::head_program(m, hidden).ops);
            bare(tail_ops(m, run, Tail::LastKLogits { k })) == head.take(1) + bare(
                tail_ops(m, run, Tail::Hidden { k }),
            ) + head.skip(1)
        }),
{
    let bare = |ops: Seq<Op>| Seq::new(ops.len(), |i: int| unnumbered(ops[i]));
    let head = bare(model::head_program(m, hidden).ops);
    assert(bare(tail_ops(m, run, Tail::LastKLogits { k })) =~= head.take(1) + bare(
        tail_ops(m, run, Tail::Hidden { k }),
    ) + head.skip(1));
}

/// Whatever the runtime does with a row: the cut for the last `j` positions stops
/// where the cut for the last `k` stops, and starts `k - j` positions later.
pub proof fn law_cuts_end_together(m: Gemma4Text, run: RunView, j: i32, k: i32)
    requires
        1 <= j <= k <= run.seq,
    ensures
        match (
            tail_ops(m, run, Tail::Hidden { k: j })[0],
            tail_ops(m, run, Tail::Hidden { k })[0],
        ) {
            (
                Op::Positions { x: x1, from: from1, to: to1, n: n1 },
                Op::Positions { x: x2, from: from2, to: to2, n: n2 },
            ) => {
                &&& x1 == x2
                &&& to1 == to2
                &&& to1 == run.seq
                &&& n1 == n2
                &&& from1 == from2 + (k - j)
                &&& from2 == run.seq - k
            },
            _ => false,
        },
{
}

} // verus!
