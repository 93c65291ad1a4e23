//! What is spliced into a function body, as plain values: the instructions
//! that charge the counter at an injection point, and those that report a
//! `memory.grow` to the host.

use crate::metering::{InjectionPoint, InjectionPointCostDetail, OpKind, Scope};
use vstd::prelude::*;

verus! {

/// Index of the host function `update_available_memory`: it is the second
/// import of an instrumented module.
pub const UPDATE_AVAILABLE_MEMORY_FN: u32 = 1;

/// An instruction that the instrumentation writes.
#[derive(Clone, Copy, Debug, PartialEq, Eq, Structural)]
pub enum Emitted {
    GetGlobal(u32),
    SetGlobal(u32),
    GetLocal(u32),
    TeeLocal(u32),
    I64Const(i64),
    I64Sub,
    I64LtS,
    I64ExtendUI32,
    IfNoResult,
    Call(u32),
    End,
}

/// One instruction to splice in, in front of the instruction that stands at
/// `position` in the body as it is before anything is spliced in.
#[derive(Clone, Copy, Debug, PartialEq, Eq, Structural)]
pub struct Insertion {
    pub position: usize,
    pub instruction: Emitted,
}

/// Indices that the metering code refers to.
#[derive(Clone, Copy, Debug, PartialEq, Eq, Structural)]
pub struct MeteringTargets {
    /// The global that holds the instruction counter.
    pub counter_global: u32,
    /// The host function that is called when the counter is used up.
    pub out_of_instructions_fn: u32,
    /// The function that charges a size known at run time.
    pub decrement_fn: u32,
}

/// A point is kept if it starts a block that can be entered again, if it is
/// dynamic, or if its block costs anything.
pub open spec fn is_kept(point: InjectionPoint) -> bool {
    match point.cost_detail {
        InjectionPointCostDetail::StaticCost { scope, cost } => scope
            == Scope::ReentrantBlockStart || cost > 0,
        InjectionPointCostDetail::DynamicCost => true,
    }
}

/// `counter = counter - cost`
pub open spec fn charge_code(targets: MeteringTargets, cost: u64) -> Seq<Emitted> {
    seq![
        Emitted::GetGlobal(targets.counter_global),
        Emitted::I64Const(cost as i64),
        Emitted::I64Sub,
        Emitted::SetGlobal(targets.counter_global),
    ]
}

/// `if counter < 0 { out_of_instructions() }`
pub open spec fn check_code(targets: MeteringTargets) -> Seq<Emitted> {
    seq![
        Emitted::GetGlobal(targets.counter_global),
        Emitted::I64Const(0),
        Emitted::I64LtS,
        Emitted::IfNoResult,
        Emitted::Call(targets.out_of_instructions_fn),
        Emitted::End,
    ]
}

/// The instructions spliced in at one injection point: nothing where the
/// point is not kept; the charge at a static point, followed by the check
/// where the block can be entered again; a call of the decrementing function
/// at a dynamic point.
pub open spec fn point_code(point: InjectionPoint, targets: MeteringTargets) -> Seq<Emitted> {
    match point.cost_detail {
        InjectionPointCostDetail::StaticCost { scope, cost } => {
            if scope == Scope::ReentrantBlockStart {
                charge_code(targets, cost) + check_code(targets)
            } else if cost > 0 {
                charge_code(targets, cost)
            } else {
                Seq::empty()
            }
        },
        InjectionPointCostDetail::DynamicCost => seq![Emitted::Call(targets.decrement_fn)],
    }
}

/// `code`, each instruction to be put in at `position`.
pub open spec fn at_position(position: usize, code: Seq<Emitted>) -> Seq<Insertion> {
    Seq::new(code.len(), |i: int| Insertion { position, instruction: code[i] })
}

/// The insertions for the first `n` of `points`, in their order.
pub open spec fn metering_insertions(
    points: Seq<InjectionPoint>,
    targets: MeteringTargets,
    n: int,
) -> Seq<Insertion>
    decreases n,
{
    if n <= 0 {
        Seq::empty()
    } else {
        metering_insertions(points, targets, n - 1) + at_position(
            points[n - 1].position,
            point_code(points[n - 1], targets),
        )
    }
}

pub open spec fn insertions_in_order(insertions: Seq<Insertion>) -> bool {
    forall|i: int, j: int|
        0 <= i <= j < insertions.len() ==> insertions[i].position <= insertions[j].position
}

pub open spec fn insertions_within(insertions: Seq<Insertion>, limit: int) -> bool {
    forall|i: int| 0 <= i < insertions.len() ==> #[trigger] insertions[i].position <= limit
}

fn push_at(out: &mut Vec<Insertion>, position: usize, instruction: Emitted)
    ensures
        final(out)@ == old(out)@.push(Insertion { position, instruction }),
{
    out.push(Insertion { position, instruction });
}

fn push_charge(out: &mut Vec<Insertion>, position: usize, targets: MeteringTargets, cost: u64)
    ensures
        final(out)@ == old(out)@ + at_position(position, charge_code(targets, cost)),
{
    push_at(out, position, Emitted::GetGlobal(targets.counter_global));
    push_at(out, position, Emitted::I64Const(#[verifier::truncate] (cost as i64)));
    push_at(out, position, Emitted::I64Sub);
    push_at(out, position, Emitted::SetGlobal(targets.counter_global));
    assert(out@ =~= old(out)@ + at_position(position, charge_code(targets, cost)));
}

fn push_check(out: &mut Vec<Insertion>, position: usize, targets: MeteringTargets)
    ensures
        final(out)@ == old(out)@ + at_position(position, check_code(targets)),
{
    push_at(out, position, Emitted::GetGlobal(targets.counter_global));
    push_at(out, position, Emitted::I64Const(0));
    push_at(out, position, Emitted::I64LtS);
    push_at(out, position, Emitted::IfNoResult);
    push_at(out, position, Emitted::Call(targets.out_of_instructions_fn));
    push_at(out, position, Emitted::End);
    assert(out@ =~= old(out)@ + at_position(position, check_code(targets)));
}

/// The insertions keep the order and the bounds of the points.
pub proof fn lemma_metering_insertions_ordered(
    points: Seq<InjectionPoint>,
    targets: MeteringTargets,
    n: int,
    limit: int,
)
    requires
        0 <= n <= points.len(),
        crate::metering::in_position_order(points),
        crate::metering::positions_within(points, limit),
    ensures
        insertions_in_order(metering_insertions(points, targets, n)),
        insertions_within(metering_insertions(points, targets, n), limit),
        forall|i: int|
            0 <= i < metering_insertions(points, targets, n).len() && n > 0
                ==> #[trigger] metering_insertions(points, targets, n)[i].position <= points[n
                - 1].position,
    decreases n,
{
    if n > 0 {
        lemma_metering_insertions_ordered(points, targets, n - 1, limit);
        let before = metering_insertions(points, targets, n - 1);
        let here = at_position(points[n - 1].position, point_code(points[n - 1], targets));
        let all = metering_insertions(points, targets, n);
        assert(points[n - 1].position <= limit);
        assert forall|i: int| 0 <= i < all.len() implies #[trigger] all[i].position <= points[n
            - 1].position && all[i].position <= limit by {
            if i < before.len() {
                assert(all[i] == before[i]);
                assert(points[n - 2].position <= points[n - 1].position);
            } else {
                assert(all[i] == here[i - before.len()]);
            }
        }
        assert forall|i: int, j: int| 0 <= i <= j < all.len() implies all[i].position
            <= all[j].position by {
            if j < before.len() {
                assert(all[i] == before[i] && all[j] == before[j]);
            } else {
                assert(all[j] == here[j - before.len()]);
            }
        }
    }
}

/// Turns the injection points of a body, given in order of position, into
/// the instructions to splice in.
pub fn metering_plan(points: &Vec<InjectionPoint>, targets: MeteringTargets) -> (res: Vec<
    Insertion,
>)
    ensures
        res@ == metering_insertions(points@, targets, points.len() as int),
{
    let mut out: Vec<Insertion> = Vec::new();
    let mut i: usize = 0;
    while i < points.len()
        invariant
            i <= points.len(),
            out@ == metering_insertions(points@, targets, i as int),
        decreases points.len() - i,
    {
        let point = points[i];
        let ghost before = out@;
        match point.cost_detail {
            InjectionPointCostDetail::StaticCost { scope, cost } => {
                if scope == Scope::ReentrantBlockStart {
                    push_charge(&mut out, point.position, targets, cost);
                    push_check(&mut out, point.position, targets);
                    assert(out@ =~= before + at_position(
                        point.position,
                        charge_code(targets, cost) + check_code(targets),
                    ));
                } else if cost > 0 {
                    push_charge(&mut out, point.position, targets, cost);
                } else {
                    assert(out@ =~= before + at_position(point.position, Seq::empty()));
                }
            },
            InjectionPointCostDetail::DynamicCost => {
                push_at(&mut out, point.position, Emitted::Call(targets.decrement_fn));
                assert(out@ =~= before + at_position(
                    point.position,
                    seq![Emitted::Call(targets.decrement_fn)],
                ));
            },
        }
        i += 1;
    }
    out
}


/// The number of locals that a body declares, given the size of each group
/// of locals. Indices of locals are 32-bit numbers: the sum is taken modulo
/// 2^32.
pub open spec fn locals_total(counts: Seq<u32>) -> u32
    decreases counts.len(),
{
    if counts.len() == 0 {
        0
    } else {
        ((locals_total(counts.drop_last()) + counts.last()) % 0x1_0000_0000) as u32
    }
}

/// The index of the first local behind the parameters and the declared locals
/// of a function.
pub open spec fn memory_local_index(param_count: usize, counts: Seq<u32>) -> u32 {
    (((param_count as u32) + locals_total(counts)) % 0x1_0000_0000) as u32
}

/// One of the first `n` instructions is a `memory.grow`.
pub open spec fn grows_before(kinds: Seq<OpKind>, n: int) -> bool {
    exists|i: int| 0 <= i < n && #[trigger] kinds[i] is MemoryGrow
}

pub open spec fn has_memory_grow(kinds: Seq<OpKind>) -> bool {
    grows_before(kinds, kinds.len() as int)
}

/// What is spliced in around one `memory.grow` at `position`: in front of it
/// the operand is copied to the local; behind it the local is read back, and
/// the host is called with the operand and the result of the `memory.grow`.
pub open spec fn grow_code(position: int, local: u32) -> Seq<Insertion> {
    seq![
        Insertion { position: position as usize, instruction: Emitted::TeeLocal(local) },
        Insertion { position: (position + 1) as usize, instruction: Emitted::GetLocal(local) },
        Insertion {
            position: (position + 1) as usize,
            instruction: Emitted::Call(UPDATE_AVAILABLE_MEMORY_FN),
        },
    ]
}

/// The insertions for every `memory.grow` among the first `n` instructions.
pub open spec fn grow_insertions(kinds: Seq<OpKind>, local: u32, n: int) -> Seq<Insertion>
    decreases n,
{
    if n <= 0 {
        Seq::empty()
    } else if kinds[n - 1] is MemoryGrow {
        grow_insertions(kinds, local, n - 1) + grow_code(n - 1, local)
    } else {
        grow_insertions(kinds, local, n - 1)
    }
}

/// The insertions around `memory.grow` are in order, and none lies behind the
/// instructions read.
pub proof fn lemma_grow_insertions_ordered(kinds: Seq<OpKind>, local: u32, n: int)
    requires
        0 <= n <= kinds.len() <= usize::MAX,
    ensures
        insertions_in_order(grow_insertions(kinds, local, n)),
        insertions_within(grow_insertions(kinds, local, n), n),
        grow_insertions(kinds, local, n).len() > 0 <==> grows_before(kinds, n),
    decreases n,
{
    if n > 0 {
        lemma_grow_insertions_ordered(kinds, local, n - 1);
        let before = grow_insertions(kinds, local, n - 1);
        let all = grow_insertions(kinds, local, n);
        assert forall|i: int, j: int| 0 <= i <= j < all.len() implies all[i].position
            <= all[j].position by {
            if i < before.len() {
                assert(all[i] == before[i]);
                assert(before[i].position <= n - 1);
            }
            if j < before.len() {
                assert(all[j] == before[j]);
            }
        }
        assert forall|i: int| 0 <= i < all.len() implies #[trigger] all[i].position <= n by {
            if i < before.len() {
                assert(all[i] == before[i]);
                assert(before[i].position <= n - 1);
            }
        }
        if grows_before(kinds, n) && !(kinds[n - 1] is MemoryGrow) {
            let i = choose|i: int| 0 <= i < n && #[trigger] kinds[i] is MemoryGrow;
            assert(0 <= i < n - 1 && kinds[i] is MemoryGrow);
        }
        if grows_before(kinds, n - 1) {
            let i = choose|i: int| 0 <= i < n - 1 && #[trigger] kinds[i] is MemoryGrow;
            assert(0 <= i < n && kinds[i] is MemoryGrow);
        }
        if kinds[n - 1] is MemoryGrow {
            assert(0 <= n - 1 < n && kinds[n - 1] is MemoryGrow);
        }
    }
}

/// Plans the bookkeeping of memory growth for one function body. `kinds` are
/// the kinds of its instructions, `param_count` the number of parameters of
/// its type, `local_counts` the sizes of the groups of locals that it
/// declares.
///
/// Returns `None` where the body holds no `memory.grow`. Otherwise returns
/// the index of a new local, the first one behind the parameters and the
/// locals that the body declares, and the insertions that wrap every
/// `memory.grow`.
pub fn memory_grow_plan(kinds: &Vec<OpKind>, param_count: usize, local_counts: &Vec<u32>) -> (res:
    Option<(u32, Vec<Insertion>)>)
    ensures
        res is None <==> !has_memory_grow(kinds@),
        res matches Some((local, insertions)) ==> {
            &&& local == memory_local_index(param_count, local_counts@)
            &&& insertions@ == grow_insertions(kinds@, local, kinds.len() as int)
            &&& insertions_in_order(insertions@)
            &&& insertions_within(insertions@, kinds.len() as int)
        },
        local_counts.len() == 0 && param_count <= u32::MAX ==> memory_local_index(
            param_count,
            local_counts@,
        ) == param_count,
{
    let mut total: u32 = 0;
    let mut g: usize = 0;
    while g < local_counts.len()
        invariant
            g <= local_counts.len(),
            total == locals_total(local_counts@.take(g as int)),
        decreases local_counts.len() - g,
    {
        assert(local_counts@.take(g + 1).drop_last() =~= local_counts@.take(g as int));
        total = total.wrapping_add(local_counts[g]);
        g += 1;
    }
    assert(local_counts@.take(g as int) =~= local_counts@);
    let local: u32 = (#[verifier::truncate] (param_count as u32)).wrapping_add(total);
    let mut out: Vec<Insertion> = Vec::new();
    let mut i: usize = 0;
    while i < kinds.len()
        invariant
            i <= kinds.len(),
            out@ == grow_insertions(kinds@, local, i as int),
        decreases kinds.len() - i,
    {
        match kinds[i] {
            OpKind::MemoryGrow => {
                let ghost before = out@;
                out.push(Insertion { position: i, instruction: Emitted::TeeLocal(local) });
                out.push(Insertion { position: i + 1, instruction: Emitted::GetLocal(local) });
                out.push(
                    Insertion {
                        position: i + 1,
                        instruction: Emitted::Call(UPDATE_AVAILABLE_MEMORY_FN),
                    },
                );
                assert(out@ =~= before + grow_code(i as int, local));
            },
            _ => {},
        }
        i += 1;
    }
    proof {
        lemma_grow_insertions_ordered(kinds@, local, kinds.len() as int);
    }
    if out.len() == 0 {
        None
    } else {
        Some((local, out))
    }
}


/// A point is spliced in as code exactly if it is kept; and a point that
/// starts a block that can be entered again is always kept, charged, and
/// followed by the check of the counter.
pub proof fn lemma_kept_points_have_code(point: InjectionPoint, targets: MeteringTargets)
    ensures
        point_code(point, targets).len() > 0 <==> is_kept(point),
        crate::metering::is_reentrant(point) ==> is_kept(point) && point_code(point, targets)
            == charge_code(targets, crate::metering::point_cost(point) as u64) + check_code(
            targets,
        ),
{
}

/// The insertions of a point stand behind those of the points before it:
/// the `j`-th instruction of the code of the `q`-th point is the insertion
/// with the number `j` behind the insertions of the first `q` points, and it
/// has the position of the point.
pub proof fn lemma_point_insertions(
    points: Seq<InjectionPoint>,
    targets: MeteringTargets,
    n: int,
    q: int,
    j: int,
)
    requires
        0 <= q < n <= points.len(),
        0 <= j < point_code(points[q], targets).len(),
    ensures
        metering_insertions(points, targets, q).len() + j < metering_insertions(
            points,
            targets,
            n,
        ).len(),
        metering_insertions(points, targets, n)[metering_insertions(points, targets, q).len() + j]
            == (Insertion {
            position: points[q].position,
            instruction: point_code(points[q], targets)[j],
        }),
    decreases n,
{
    if q < n - 1 {
        lemma_point_insertions(points, targets, n - 1, q, j);
    }
}

/// The insertions of more points begin with the insertions of fewer, and
/// every further insertion has the position of one of the further points.
pub proof fn lemma_later_insertions(
    points: Seq<InjectionPoint>,
    targets: MeteringTargets,
    m: int,
    n: int,
    index: int,
)
    requires
        0 <= m <= n <= points.len(),
        0 <= index < metering_insertions(points, targets, n).len(),
    ensures
        metering_insertions(points, targets, m).len() <= metering_insertions(
            points,
            targets,
            n,
        ).len(),
        index < metering_insertions(points, targets, m).len() ==> metering_insertions(
            points,
            targets,
            n,
        )[index] == metering_insertions(points, targets, m)[index],
        index >= metering_insertions(points, targets, m).len() ==> exists|j: int|
            m <= j < n && metering_insertions(points, targets, n)[index].position
                == (#[trigger] points[j]).position,
    decreases n - m,
{
    if m < n {
        let before = metering_insertions(points, targets, n - 1);
        if index < before.len() {
            lemma_later_insertions(points, targets, m, n - 1, index);
            if index >= metering_insertions(points, targets, m).len() {
                let j = choose|j: int|
                    m <= j < n - 1 && before[index].position == (#[trigger] points[j]).position;
                assert(m <= j < n);
            }
        } else {
            if before.len() > 0 {
                lemma_later_insertions(points, targets, m, n - 1, 0);
            } else {
                lemma_insertions_grow(points, targets, m, n - 1);
            }
            assert(metering_insertions(points, targets, n)[index].position == points[n
                - 1].position);
        }
    }
}

/// More points have at least as many insertions.
pub proof fn lemma_insertions_grow(
    points: Seq<InjectionPoint>,
    targets: MeteringTargets,
    m: int,
    n: int,
)
    requires
        0 <= m <= n <= points.len(),
    ensures
        metering_insertions(points, targets, m).len() <= metering_insertions(
            points,
            targets,
            n,
        ).len(),
    decreases n - m,
{
    if m < n {
        lemma_insertions_grow(points, targets, m, n - 1);
    }
}

} // verus!
