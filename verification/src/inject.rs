//! Splicing instructions into a function body.

use crate::cost::{mnemonic_of, CostTableView, InstructionCostTable};
use crate::model::{group_counts, LocalGroup, ValueKind};
use crate::metering::{
    injection_points, injections, lemma_injection_points_ordered, Op, OpKind,
};
use crate::plan::{
    grow_insertions, has_memory_grow, insertions_in_order, insertions_within,
    lemma_grow_insertions_ordered, lemma_metering_insertions_ordered, memory_grow_plan, memory_local_index, metering_insertions,
    metering_plan, Insertion, MeteringTargets,
};
use crate::wasm::{clone_instruction, emit, emitted_instruction, instruction_kind, kind_of};
use parity_wasm::elements::Instruction;
use vstd::prelude::*;

verus! {

/// The position of the insertion in front of the `k`-th one; 0 for the first.
pub open spec fn position_before(insertions: Seq<Insertion>, k: int) -> int {
    if k <= 0 {
        0
    } else {
        insertions[k - 1].position as int
    }
}

/// The new body up to and including the `k`-th inserted instruction: each
/// inserted instruction is preceded by the instructions of `code` that lie
/// between the insertion in front of it and its own position.
pub open spec fn spliced_prefix(code: Seq<Instruction>, insertions: Seq<Insertion>, k: int) -> Seq<
    Instruction,
>
    decreases k,
{
    if k <= 0 {
        Seq::empty()
    } else {
        spliced_prefix(code, insertions, k - 1) + code.subrange(
            position_before(insertions, k - 1),
            insertions[k - 1].position as int,
        ).push(emitted_instruction(insertions[k - 1].instruction))
    }
}

/// `code` with every insertion put in front of the instruction at its
/// position; the instructions of `code` keep their order.
pub open spec fn spliced(code: Seq<Instruction>, insertions: Seq<Insertion>) -> Seq<Instruction> {
    spliced_prefix(code, insertions, insertions.len() as int) + code.subrange(
        position_before(insertions, insertions.len() as int),
        code.len() as int,
    )
}

/// The kinds of the instructions of a body.
pub open spec fn kinds_of(code: Seq<Instruction>) -> Seq<OpKind> {
    Seq::new(code.len(), |i: int| instruction_kind(code[i]))
}

/// The instructions of a body as the scan sees them under a cost table.
pub open spec fn ops_of(code: Seq<Instruction>, table: CostTableView) -> Seq<Op> {
    Seq::new(
        code.len(),
        |i: int| Op { kind: instruction_kind(code[i]), cost: table.cost(mnemonic_of(code[i])) },
    )
}

/// A body with its metering code.
pub open spec fn metered(code: Seq<Instruction>, table: CostTableView, targets: MeteringTargets)
    -> Seq<Instruction> {
    let points = injection_points(ops_of(code, table));
    spliced(code, metering_insertions(points, targets, points.len() as int))
}

/// A body with the bookkeeping around every `memory.grow`, where `local` is
/// the local that holds the operand.
pub open spec fn with_memory_updates(code: Seq<Instruction>, local: u32) -> Seq<Instruction> {
    spliced(code, grow_insertions(kinds_of(code), local, code.len() as int))
}

fn append_range(out: &mut Vec<Instruction>, code: &Vec<Instruction>, from: usize, to: usize)
    requires
        from <= to <= code.len(),
    ensures
        final(out)@ == old(out)@ + code@.subrange(from as int, to as int),
{
    let mut i: usize = from;
    while i < to
        invariant
            from <= i <= to <= code.len(),
            out@ == old(out)@ + code@.subrange(from as int, i as int),
        decreases to - i,
    {
        out.push(clone_instruction(&code[i]));
        assert(out@ =~= old(out)@ + code@.subrange(from as int, i + 1));
        i += 1;
    }
}

/// Puts every insertion into `code`, in front of the instruction at its
/// position. The insertions are in order of position.
pub fn splice(code: &Vec<Instruction>, insertions: &Vec<Insertion>) -> (res: Vec<Instruction>)
    requires
        insertions_in_order(insertions@),
        insertions_within(insertions@, code.len() as int),
    ensures
        res@ == spliced(code@, insertions@),
{
    let mut out: Vec<Instruction> = Vec::new();
    let mut last: usize = 0;
    let mut k: usize = 0;
    while k < insertions.len()
        invariant
            k <= insertions.len(),
            last == position_before(insertions@, k as int),
            last <= code.len(),
            insertions_in_order(insertions@),
            insertions_within(insertions@, code.len() as int),
            out@ == spliced_prefix(code@, insertions@, k as int),
        decreases insertions.len() - k,
    {
        let insertion = insertions[k];
        assert(insertion.position <= code.len());
        assert(last <= insertion.position) by {
            if k > 0 {
                assert(insertions@[k - 1].position <= insertions@[k as int].position);
            }
        }
        append_range(&mut out, code, last, insertion.position);
        out.push(emit(insertion.instruction));
        assert(out@ =~= spliced_prefix(code@, insertions@, k + 1));
        last = insertion.position;
        k += 1;
    }
    append_range(&mut out, code, last, code.len());
    out
}

/// Reads the kind of every instruction of a body.
pub fn read_kinds(code: &Vec<Instruction>) -> (res: Vec<OpKind>)
    ensures
        res@ == kinds_of(code@),
{
    let mut kinds: Vec<OpKind> = Vec::new();
    let mut i: usize = 0;
    while i < code.len()
        invariant
            i <= code.len(),
            kinds@ == kinds_of(code@).take(i as int),
        decreases code.len() - i,
    {
        kinds.push(kind_of(&code[i]));
        assert(kinds@ =~= kinds_of(code@).take(i + 1));
        i += 1;
    }
    assert(kinds_of(code@).take(code.len() as int) =~= kinds_of(code@));
    kinds
}

/// Reads the kind and the cost of every instruction of a body.
pub fn read_ops(code: &Vec<Instruction>, table: &InstructionCostTable) -> (res: Vec<Op>)
    ensures
        res@ == ops_of(code@, table@),
{
    let mut ops: Vec<Op> = Vec::new();
    let mut i: usize = 0;
    while i < code.len()
        invariant
            i <= code.len(),
            ops@ == ops_of(code@, table@).take(i as int),
        decreases code.len() - i,
    {
        ops.push(Op { kind: kind_of(&code[i]), cost: table.cost(&code[i]) });
        assert(ops@ =~= ops_of(code@, table@).take(i + 1));
        i += 1;
    }
    assert(ops_of(code@, table@).take(code.len() as int) =~= ops_of(code@, table@));
    ops
}

/// Adds the metering code to a function body: at the start of every basic
/// block that costs anything the counter is charged with the cost of the
/// block; where the block can be entered again, the body itself or a loop,
/// it is charged whatever the cost and then checked; in front of every bulk
/// memory or table instruction the decrementing function is called.
pub fn inject_metering(
    code: &mut Vec<Instruction>,
    instruction_cost_table: &InstructionCostTable,
    targets: MeteringTargets,
)
    ensures
        final(code)@ == metered(old(code)@, instruction_cost_table@, targets),
{
    let ops = read_ops(code, instruction_cost_table);
    let points = injections(&ops);
    let insertions = metering_plan(&points, targets);
    proof {
        lemma_metering_insertions_ordered(
            points@,
            targets,
            points.len() as int,
            code.len() as int,
        );
    }
    let metered_code = splice(code, &insertions);
    *code = metered_code;
}

/// The sizes of the groups of locals.
pub fn counts_of(locals: &Vec<LocalGroup>) -> (res: Vec<u32>)
    ensures
        res@ == group_counts(locals@),
{
    let mut counts: Vec<u32> = Vec::new();
    let mut i: usize = 0;
    while i < locals.len()
        invariant
            i <= locals.len(),
            counts@ == group_counts(locals@).take(i as int),
        decreases locals.len() - i,
    {
        counts.push(locals[i].count);
        assert(counts@ =~= group_counts(locals@).take(i + 1));
        i += 1;
    }
    assert(group_counts(locals@).take(locals.len() as int) =~= group_counts(locals@));
    counts
}

/// The local that holds the operand of `memory.grow`: one `i32`.
pub open spec fn memory_local() -> LocalGroup {
    LocalGroup { count: 1, kind: ValueKind::I32 }
}

/// Adds the bookkeeping of memory growth to a function body with
/// `param_count` parameters, the locals `locals` and the code `code`.
///
/// Where the body holds no `memory.grow` it stays as it is. Otherwise one
/// `i32` local is declared behind the other locals, every `memory.grow` is
/// wrapped in code that uses that local, and the index of the local is
/// returned: it is the first index behind the parameters and the locals
/// that the body had.
pub fn inject_update_available_memory(
    locals: &mut Vec<LocalGroup>,
    code: &mut Vec<Instruction>,
    param_count: usize,
) -> (res: Option<u32>)
    ensures
        res is Some <==> has_memory_grow(kinds_of(old(code)@)),
        res is None ==> final(code)@ == old(code)@ && final(locals)@ == old(locals)@,
        res matches Some(local) ==> {
            &&& local == memory_local_index(param_count, group_counts(old(locals)@))
            &&& final(code)@ == with_memory_updates(old(code)@, local)
            &&& final(locals)@ == old(locals)@.push(memory_local())
        },
{
    let kinds = read_kinds(code);
    let counts = counts_of(locals);
    match memory_grow_plan(&kinds, param_count, &counts) {
        None => None,
        Some((local, insertions)) => {
            let updated = splice(code, &insertions);
            *code = updated;
            locals.push(LocalGroup { count: 1, kind: ValueKind::I32 });
            Some(local)
        },
    }
}


/// How many of the first `k` insertions stand at or in front of `position`.
pub open spec fn inserted_until(insertions: Seq<Insertion>, k: int, position: int) -> int
    decreases k,
{
    if k <= 0 {
        0
    } else if insertions[k - 1].position <= position {
        inserted_until(insertions, k - 1, position) + 1
    } else {
        inserted_until(insertions, k - 1, position)
    }
}

proof fn lemma_inserted_until_bounds(insertions: Seq<Insertion>, k: int, position: int)
    requires
        0 <= k <= insertions.len(),
    ensures
        0 <= inserted_until(insertions, k, position) <= k,
    decreases k,
{
    if k > 0 {
        lemma_inserted_until_bounds(insertions, k - 1, position);
    }
}

proof fn lemma_inserted_until_all(insertions: Seq<Insertion>, k: int, position: int)
    requires
        0 <= k <= insertions.len(),
        insertions_in_order(insertions),
        k > 0 ==> insertions[k - 1].position <= position,
    ensures
        inserted_until(insertions, k, position) == k,
    decreases k,
{
    if k > 0 {
        if k > 1 {
            assert(insertions[k - 2].position <= insertions[k - 1].position);
        }
        lemma_inserted_until_all(insertions, k - 1, position);
    }
}

proof fn lemma_spliced_prefix(code: Seq<Instruction>, insertions: Seq<Insertion>, k: int)
    requires
        0 <= k <= insertions.len(),
        insertions_in_order(insertions),
        insertions_within(insertions, code.len() as int),
    ensures
        spliced_prefix(code, insertions, k).len() == position_before(insertions, k) + k,
        0 <= position_before(insertions, k) <= code.len(),
        forall|i: int|
            0 <= i < position_before(insertions, k) ==> spliced_prefix(code, insertions, k)[i
                + inserted_until(insertions, k, i)] == code[i],
    decreases k,
{
    if k > 0 {
        lemma_spliced_prefix(code, insertions, k - 1);
        let before = spliced_prefix(code, insertions, k - 1);
        let from = position_before(insertions, k - 1);
        let to = insertions[k - 1].position as int;
        if k > 1 {
            assert(insertions[k - 2].position <= insertions[k - 1].position);
        }
        assert(insertions[k - 1].position <= code.len());
        let all = spliced_prefix(code, insertions, k);
        assert forall|i: int| 0 <= i < to implies all[i + inserted_until(insertions, k, i)]
            == code[i] by {
            lemma_inserted_until_bounds(insertions, k - 1, i);
            if i < from {
                assert(all[i + inserted_until(insertions, k - 1, i)] == before[i + inserted_until(
                    insertions,
                    k - 1,
                    i,
                )]);
            } else {
                lemma_inserted_until_all(insertions, k - 1, i);
                assert(all[i + (k - 1)] == code.subrange(from, to)[i - from]);
            }
        }
    }
}

/// Splicing keeps the instructions that were there, in their order: the
/// instruction that stood at `i` stands behind the insertions that were put
/// in at or in front of `i`; and nothing is added but the insertions.
pub proof fn lemma_spliced_keeps_code(code: Seq<Instruction>, insertions: Seq<Insertion>)
    requires
        insertions_in_order(insertions),
        insertions_within(insertions, code.len() as int),
    ensures
        spliced(code, insertions).len() == code.len() + insertions.len(),
        forall|i: int|
            0 <= i < code.len() ==> #[trigger] spliced(code, insertions)[i + inserted_until(
                insertions,
                insertions.len() as int,
                i,
            )] == code[i],
{
    let n = insertions.len() as int;
    lemma_spliced_prefix(code, insertions, n);
    let from = position_before(insertions, n);
    let prefix = spliced_prefix(code, insertions, n);
    assert forall|i: int| 0 <= i < code.len() implies #[trigger] spliced(code, insertions)[i
        + inserted_until(insertions, n, i)] == code[i] by {
        lemma_inserted_until_bounds(insertions, n, i);
        if i < from {
            assert(spliced(code, insertions)[i + inserted_until(insertions, n, i)] == prefix[i
                + inserted_until(insertions, n, i)]);
        } else {
            lemma_inserted_until_all(insertions, n, i);
            assert(spliced(code, insertions)[i + n] == code.subrange(from, code.len() as int)[i
                - from]);
        }
    }
}


/// The insertions that meter a body.
pub open spec fn metering_of(code: Seq<Instruction>, table: CostTableView, targets: MeteringTargets)
    -> Seq<Insertion> {
    let points = injection_points(ops_of(code, table));
    metering_insertions(points, targets, points.len() as int)
}

/// Metering keeps the instructions of a body, in their order, and adds
/// nothing but the metering code.
pub proof fn lemma_metered_keeps_code(
    code: Seq<Instruction>,
    table: CostTableView,
    targets: MeteringTargets,
)
    requires
        code.len() <= usize::MAX,
    ensures
        metered(code, table, targets).len() == code.len() + metering_of(
            code,
            table,
            targets,
        ).len(),
        forall|i: int|
            0 <= i < code.len() ==> #[trigger] metered(code, table, targets)[i + inserted_until(
                metering_of(code, table, targets),
                metering_of(code, table, targets).len() as int,
                i,
            )] == code[i],
{
    let points = injection_points(ops_of(code, table));
    lemma_injection_points_ordered(ops_of(code, table));
    lemma_metering_insertions_ordered(points, targets, points.len() as int, code.len() as int);
    lemma_spliced_keeps_code(code, metering_of(code, table, targets));
}

/// The bookkeeping of memory growth keeps the instructions of a body, in
/// their order, and adds three instructions for every `memory.grow`.
pub proof fn lemma_memory_updates_keep_code(code: Seq<Instruction>, local: u32)
    requires
        code.len() <= usize::MAX,
    ensures
        with_memory_updates(code, local).len() == code.len() + grow_insertions(
            kinds_of(code),
            local,
            code.len() as int,
        ).len(),
        forall|i: int|
            0 <= i < code.len() ==> #[trigger] with_memory_updates(code, local)[i + inserted_until(
                grow_insertions(kinds_of(code), local, code.len() as int),
                grow_insertions(kinds_of(code), local, code.len() as int).len() as int,
                i,
            )] == code[i],
{
    lemma_grow_insertions_ordered(kinds_of(code), local, code.len() as int);
    lemma_spliced_keeps_code(code, grow_insertions(kinds_of(code), local, code.len() as int));
}

proof fn lemma_spliced_prefix_grows(
    code: Seq<Instruction>,
    insertions: Seq<Insertion>,
    k: int,
    n: int,
    j: int,
)
    requires
        0 <= k <= n <= insertions.len(),
        insertions_in_order(insertions),
        insertions_within(insertions, code.len() as int),
        0 <= j < spliced_prefix(code, insertions, k).len(),
    ensures
        j < spliced_prefix(code, insertions, n).len(),
        spliced_prefix(code, insertions, n)[j] == spliced_prefix(code, insertions, k)[j],
    decreases n - k,
{
    if k < n {
        lemma_spliced_prefix_grows(code, insertions, k, n - 1, j);
    }
}

/// Splicing puts every insertion in its place: the `k`-th insertion stands
/// behind the instructions in front of its position and behind the `k`
/// insertions before it.
pub proof fn lemma_spliced_places_insertions(
    code: Seq<Instruction>,
    insertions: Seq<Insertion>,
    k: int,
)
    requires
        insertions_in_order(insertions),
        insertions_within(insertions, code.len() as int),
        0 <= k < insertions.len(),
    ensures
        insertions[k].position + k < spliced(code, insertions).len(),
        spliced(code, insertions)[insertions[k].position + k] == emitted_instruction(
            insertions[k].instruction,
        ),
{
    lemma_spliced_prefix(code, insertions, k);
    lemma_spliced_prefix(code, insertions, k + 1);
    let at = insertions[k].position + k;
    assert(spliced_prefix(code, insertions, k + 1)[at] == emitted_instruction(
        insertions[k].instruction,
    ));
    lemma_spliced_prefix_grows(code, insertions, k + 1, insertions.len() as int, at);
}

/// The metering code stands where its point is: the code of the `q`-th
/// injection point stands in the metered body in front of the instruction
/// at the position of the point, behind the code of the points before it.
pub proof fn lemma_metering_code_stands(
    code: Seq<Instruction>,
    table: CostTableView,
    targets: MeteringTargets,
    q: int,
    j: int,
)
    requires
        code.len() <= usize::MAX,
        0 <= q < injection_points(ops_of(code, table)).len(),
        0 <= j < crate::plan::point_code(injection_points(ops_of(code, table))[q], targets).len(),
    ensures
        ({
            let points = injection_points(ops_of(code, table));
            let at = points[q].position + metering_insertions(points, targets, q).len() + j;
            &&& at < metered(code, table, targets).len()
            &&& metered(code, table, targets)[at] == emitted_instruction(
                crate::plan::point_code(points[q], targets)[j],
            )
        }),
{
    let points = injection_points(ops_of(code, table));
    let n = points.len() as int;
    lemma_injection_points_ordered(ops_of(code, table));
    lemma_metering_insertions_ordered(points, targets, n, code.len() as int);
    crate::plan::lemma_point_insertions(points, targets, n, q, j);
    let k = metering_insertions(points, targets, q).len() + j;
    lemma_spliced_places_insertions(code, metering_of(code, table, targets), k);
}

proof fn lemma_inserted_until_split(insertions: Seq<Insertion>, k: int, n: int, position: int)
    requires
        0 <= k <= n <= insertions.len(),
        forall|i: int| 0 <= i < k ==> (#[trigger] insertions[i]).position <= position,
        forall|i: int| k <= i < n ==> (#[trigger] insertions[i]).position > position,
    ensures
        inserted_until(insertions, n, position) == k,
    decreases n,
{
    if n > 0 {
        if n > k {
            lemma_inserted_until_split(insertions, k, n - 1, position);
        } else {
            lemma_inserted_until_split(insertions, k - 1, n - 1, position);
        }
    }
}

/// Where control can come again the counter is charged and checked before
/// anything else: the charge and the check of a point that starts a block
/// that can be entered again stand in the metered body right in front of
/// the instruction at the position of the point, which is the first
/// instruction of the body or of a loop.
pub proof fn lemma_reentrant_code_stands(
    code: Seq<Instruction>,
    table: CostTableView,
    targets: MeteringTargets,
    q: int,
)
    requires
        code.len() <= usize::MAX,
        0 <= q < injection_points(ops_of(code, table)).len(),
        crate::metering::is_reentrant(injection_points(ops_of(code, table))[q]),
        injection_points(ops_of(code, table))[q].position < code.len(),
    ensures
        ({
            let points = injection_points(ops_of(code, table));
            let at = points[q].position + metering_insertions(points, targets, q).len();
            let charge_and_check = crate::plan::charge_code(
                targets,
                crate::metering::point_cost(points[q]) as u64,
            ) + crate::plan::check_code(targets);
            &&& at + 10 < metered(code, table, targets).len()
            &&& forall|j: int|
                0 <= j < 10 ==> #[trigger] metered(code, table, targets)[at + j]
                    == emitted_instruction(charge_and_check[j])
            &&& metered(code, table, targets)[at + 10] == code[points[q].position as int]
        }),
{
    let ops = ops_of(code, table);
    let points = injection_points(ops);
    let n = points.len() as int;
    let p = points[q].position as int;
    let insertions = metering_of(code, table, targets);
    let before = metering_insertions(points, targets, q).len() as int;
    crate::plan::lemma_kept_points_have_code(points[q], targets);
    assert(crate::plan::point_code(points[q], targets).len() == 10);
    assert forall|j: int| 0 <= j < 10 implies #[trigger] metered(code, table, targets)[p + before
        + j] == emitted_instruction(crate::plan::point_code(points[q], targets)[j]) by {
        lemma_metering_code_stands(code, table, targets, q, j);
    }
    lemma_injection_points_ordered(ops);
    lemma_metering_insertions_ordered(points, targets, n, code.len() as int);
    lemma_metering_insertions_ordered(points, targets, q + 1, code.len() as int);
    let k = metering_insertions(points, targets, q + 1).len() as int;
    assert(k == before + 10);
    assert forall|i: int| 0 <= i < insertions.len() implies if i < k {
        (#[trigger] insertions[i]).position <= p
    } else {
        insertions[i].position > p
    } by {
        crate::plan::lemma_later_insertions(points, targets, q + 1, n, i);
        if i >= k {
            let j = choose|j: int|
                q + 1 <= j < n && insertions[i].position == (#[trigger] points[j]).position;
            crate::metering::lemma_static_point_is_last_at_its_position(ops, q, j);
        } else {
            assert(metering_insertions(points, targets, q + 1)[i].position <= p);
        }
    }
    crate::plan::lemma_insertions_grow(points, targets, q + 1, n);
    lemma_inserted_until_split(insertions, k, insertions.len() as int, p);
    lemma_metered_keeps_code(code, table, targets);
    assert(metered(code, table, targets)[p + inserted_until(
        insertions,
        insertions.len() as int,
        p,
    )] == code[p]);
}

} // verus!
