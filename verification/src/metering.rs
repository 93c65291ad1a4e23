//! Where the instruction counter is charged inside a function body.
//!
//! A body is scanned once, front to back. Every basic block gets an injection
//! point that carries the summed cost of the block's instructions; every bulk
//! memory or table instruction gets a point of its own, because its cost is
//! only known when it runs.

use vstd::prelude::*;

verus! {

/// What the scan needs to know about one instruction.
#[derive(Clone, Copy, Debug, PartialEq, Eq, Structural)]
pub enum OpKind {
    Block,
    Loop,
    If,
    Else,
    End,
    Br,
    BrIf,
    BrTable,
    MemoryFill,
    MemoryCopy,
    MemoryInit,
    TableCopy,
    TableInit,
    MemoryGrow,
    Call(u32),
    I32Const(i32),
    Other,
}

impl OpKind {
    /// The instruction opens a block that control can enter again: a loop.
    pub open spec fn opens_reentrant(self) -> bool {
        self is Loop
    }

    /// The instruction opens a block that is entered once.
    pub open spec fn opens_plain(self) -> bool {
        self is If || self is Block
    }

    /// The instruction ends a basic block while its enclosing block goes on.
    pub open spec fn branches(self) -> bool {
        self is Else || self is Br || self is BrIf || self is BrTable
    }

    /// The instruction's cost depends on an operand that is known at run time.
    pub open spec fn is_dynamic(self) -> bool {
        self is MemoryFill || self is MemoryCopy || self is MemoryInit || self is TableCopy
            || self is TableInit
    }
}

/// One instruction as the scan sees it: its kind and its static cost.
#[derive(Clone, Copy, Debug, PartialEq, Eq, Structural)]
pub struct Op {
    pub kind: OpKind,
    pub cost: u64,
}

/// The context of a static injection point.
#[derive(Clone, Copy, Debug, PartialEq, Eq, Structural)]
pub enum Scope {
    ReentrantBlockStart,
    NonReentrantBlockStart,
    BlockEnd,
}

/// How the cost at an injection point is determined. A static point carries
/// the cost of the basic block that follows it. A dynamic point stands before
/// an instruction whose `i32` size operand is charged at run time.
#[derive(Clone, Copy, Debug, PartialEq, Eq, Structural)]
pub enum InjectionPointCostDetail {
    StaticCost { scope: Scope, cost: u64 },
    DynamicCost,
}

impl InjectionPointCostDetail {
    /// The detail after `additional_cost` has been charged to it. Costs are
    /// summed modulo 2^64.
    pub open spec fn charged(self, additional_cost: u64) -> Self {
        match self {
            Self::StaticCost { scope, cost } => Self::StaticCost {
                scope,
                cost: ((cost + additional_cost) % 0x1_0000_0000_0000_0000) as u64,
            },
            Self::DynamicCost => Self::DynamicCost,
        }
    }

    /// Adds `additional_cost` to a statically known cost; a dynamic cost stays
    /// as it is.
    pub fn increment_cost(&mut self, additional_cost: u64)
        ensures
            *final(self) == old(self).charged(additional_cost),
    {
        match *self {
            Self::StaticCost { scope, cost } => {
                *self = Self::StaticCost { scope, cost: cost.wrapping_add(additional_cost) };
            },
            Self::DynamicCost => {},
        }
    }
}

/// A place in a function body where metering code is spliced in, in front of
/// the instruction at `position`.
#[derive(Clone, Copy, Debug, PartialEq, Eq, Structural)]
pub struct InjectionPoint {
    pub cost_detail: InjectionPointCostDetail,
    pub position: usize,
}

impl InjectionPoint {
    pub open spec fn static_at(position: usize, scope: Scope) -> Self {
        InjectionPoint {
            cost_detail: InjectionPointCostDetail::StaticCost { scope, cost: 0 },
            position,
        }
    }

    pub open spec fn dynamic_at(position: usize) -> Self {
        InjectionPoint { cost_detail: InjectionPointCostDetail::DynamicCost, position }
    }

    pub open spec fn charged(self, additional_cost: u64) -> Self {
        InjectionPoint {
            cost_detail: self.cost_detail.charged(additional_cost),
            position: self.position,
        }
    }

    /// A static point with no cost charged yet.
    pub fn new_static_cost(position: usize, scope: Scope) -> (res: Self)
        ensures
            res == Self::static_at(position, scope),
    {
        InjectionPoint {
            cost_detail: InjectionPointCostDetail::StaticCost { scope, cost: 0 },
            position,
        }
    }

    /// A dynamic point.
    pub fn new_dynamic_cost(position: usize) -> (res: Self)
        ensures
            res == Self::dynamic_at(position),
    {
        InjectionPoint { cost_detail: InjectionPointCostDetail::DynamicCost, position }
    }
}

/// The scan's state between two instructions.
pub struct ScanState {
    /// Points of the blocks that have ended, in the order in which they ended.
    pub closed: Seq<InjectionPoint>,
    /// Points of the enclosing blocks, outermost first.
    pub open: Seq<InjectionPoint>,
    /// Point of the basic block that the scan is in.
    pub current: InjectionPoint,
    /// The `end` of the function body has been seen.
    pub finished: bool,
}

/// The state in front of the first instruction: the body itself is a block
/// that can be entered again.
pub open spec fn scan_start() -> ScanState {
    ScanState {
        closed: Seq::empty(),
        open: Seq::empty(),
        current: InjectionPoint::static_at(0, Scope::ReentrantBlockStart),
        finished: false,
    }
}

/// The state after the instruction `op` at `position`. Its cost is charged
/// to the current block first, whatever it is.
pub open spec fn scan_step(state: ScanState, position: int, op: Op) -> ScanState {
    let current = state.current.charged(op.cost);
    let next = (position + 1) as usize;
    if op.kind.opens_reentrant() {
        ScanState {
            open: state.open.push(current),
            current: InjectionPoint::static_at(next, Scope::ReentrantBlockStart),
            ..state
        }
    } else if op.kind.opens_plain() {
        ScanState {
            open: state.open.push(current),
            current: InjectionPoint::static_at(next, Scope::NonReentrantBlockStart),
            ..state
        }
    } else if op.kind.branches() {
        ScanState {
            closed: state.closed.push(current),
            current: InjectionPoint::static_at(next, Scope::BlockEnd),
            ..state
        }
    } else if op.kind is End {
        if state.open.len() == 0 {
            ScanState { closed: state.closed.push(current), current, finished: true, ..state }
        } else {
            ScanState {
                closed: state.closed.push(current),
                open: state.open.drop_last(),
                current: state.open.last(),
                ..state
            }
        }
    } else if op.kind.is_dynamic() {
        ScanState {
            closed: state.closed.push(InjectionPoint::dynamic_at(position as usize)),
            current,
            ..state
        }
    } else {
        ScanState { current, ..state }
    }
}

/// The state after the first `n` instructions of `ops`. Nothing is read
/// behind the `end` that closes the body.
pub open spec fn scan(ops: Seq<Op>, n: int) -> ScanState
    decreases n,
{
    if n <= 0 {
        scan_start()
    } else {
        let before = scan(ops, n - 1);
        if before.finished {
            before
        } else {
            scan_step(before, n - 1, ops[n - 1])
        }
    }
}

/// `sorted`, which is in order of position, with `point` put in behind every
/// point that is not after it.
pub open spec fn insert_by_position(sorted: Seq<InjectionPoint>, point: InjectionPoint) -> Seq<
    InjectionPoint,
>
    decreases sorted.len(),
{
    if sorted.len() == 0 {
        seq![point]
    } else if sorted.last().position <= point.position {
        sorted.push(point)
    } else {
        insert_by_position(sorted.drop_last(), point).push(sorted.last())
    }
}

/// `points` in order of position; points at one position keep their order.
pub open spec fn sorted_by_position(points: Seq<InjectionPoint>) -> Seq<InjectionPoint>
    decreases points.len(),
{
    if points.len() == 0 {
        Seq::empty()
    } else {
        insert_by_position(sorted_by_position(points.drop_last()), points.last())
    }
}

/// The injection points of a function body, in order of position.
pub open spec fn injection_points(ops: Seq<Op>) -> Seq<InjectionPoint> {
    sorted_by_position(scan(ops, ops.len() as int).closed)
}

pub open spec fn in_position_order(points: Seq<InjectionPoint>) -> bool {
    forall|i: int, j: int| 0 <= i <= j < points.len() ==> points[i].position <= points[j].position
}

pub open spec fn positions_within(points: Seq<InjectionPoint>, limit: int) -> bool {
    forall|i: int| 0 <= i < points.len() ==> #[trigger] points[i].position <= limit
}


/// Once the body's closing `end` has been seen the scan stands still.
pub proof fn lemma_scan_stays_finished(ops: Seq<Op>, n: int, m: int)
    requires
        0 <= n <= m,
        scan(ops, n).finished,
    ensures
        scan(ops, m) == scan(ops, n),
    decreases m - n,
{
    if n < m {
        lemma_scan_stays_finished(ops, n, m - 1);
    }
}

/// No point of the scan lies behind the instructions read so far.
pub proof fn lemma_scan_positions(ops: Seq<Op>, n: int)
    requires
        0 <= n <= ops.len(),
        ops.len() <= usize::MAX,
    ensures
        positions_within(scan(ops, n).closed, n),
        positions_within(scan(ops, n).open, n),
        scan(ops, n).current.position <= n,
    decreases n,
{
    if n > 0 {
        lemma_scan_positions(ops, n - 1);
        let before = scan(ops, n - 1);
        let after = scan(ops, n);
        assert forall|i: int| 0 <= i < after.closed.len() implies #[trigger] after.closed[i].position
            <= n by {
            if i < before.closed.len() {
                assert(after.closed[i] == before.closed[i]);
            }
        }
        assert forall|i: int| 0 <= i < after.open.len() implies #[trigger] after.open[i].position
            <= n by {
            if i < before.open.len() {
                assert(after.open[i] == before.open[i]);
            }
        }
    }
}

/// Putting a point into an ordered sequence keeps it ordered, and adds
/// nothing but the point.
pub proof fn lemma_insert_by_position(sorted: Seq<InjectionPoint>, point: InjectionPoint)
    requires
        in_position_order(sorted),
    ensures
        in_position_order(insert_by_position(sorted, point)),
        insert_by_position(sorted, point).len() == sorted.len() + 1,
        insert_by_position(sorted, point).to_multiset() == sorted.to_multiset().insert(point),
        forall|limit: int|
            positions_within(sorted, limit) && point.position <= limit ==> positions_within(
                insert_by_position(sorted, point),
                limit,
            ),
    decreases sorted.len(),
{
    broadcast use vstd::seq_lib::group_to_multiset_ensures;

    let out = insert_by_position(sorted, point);
    if sorted.len() == 0 {
        assert(out =~= Seq::empty().push(point));
    } else if sorted.last().position <= point.position {
    } else {
        let front = sorted.drop_last();
        let last = sorted.last();
        lemma_insert_by_position(front, point);
        let inner = insert_by_position(front, point);
        assert(sorted =~= front.push(last));
        assert(inner.to_multiset().insert(last) =~= sorted.to_multiset().insert(point));
        assert forall|i: int| 0 <= i < inner.len() implies #[trigger] inner[i].position
            <= last.position by {
            assert(inner.to_multiset().count(inner[i]) > 0);
            if inner[i] != point {
                assert(front.to_multiset().count(inner[i]) > 0);
                let k = choose|k: int| 0 <= k < front.len() && front[k] == inner[i];
                assert(sorted[k] == front[k]);
            }
        }
        assert forall|limit: int|
            positions_within(sorted, limit) && point.position <= limit implies positions_within(
            out,
            limit,
        ) by {
            assert forall|i: int| 0 <= i < front.len() implies #[trigger] front[i].position
                <= limit by {
                assert(front[i] == sorted[i]);
            }
            assert(sorted[sorted.len() - 1].position <= limit);
        }
    }
}

/// Ordering the points gives the same points, in order of position.
pub proof fn lemma_sorted_by_position(points: Seq<InjectionPoint>)
    ensures
        in_position_order(sorted_by_position(points)),
        sorted_by_position(points).len() == points.len(),
        sorted_by_position(points).to_multiset() == points.to_multiset(),
        forall|limit: int|
            positions_within(points, limit) ==> positions_within(sorted_by_position(points), limit),
    decreases points.len(),
{
    broadcast use vstd::seq_lib::group_to_multiset_ensures;

    if points.len() == 0 {
    } else {
        let front = points.drop_last();
        lemma_sorted_by_position(front);
        lemma_insert_by_position(sorted_by_position(front), points.last());
        assert(points =~= front.push(points.last()));
        assert forall|limit: int| positions_within(points, limit) implies positions_within(
            sorted_by_position(points),
            limit,
        ) by {
            assert forall|i: int| 0 <= i < front.len() implies #[trigger] front[i].position
                <= limit by {
                assert(front[i] == points[i]);
            }
            assert(points[points.len() - 1].position <= limit);
            assert(positions_within(front, limit));
            assert(positions_within(sorted_by_position(front), limit));
        }
    }
}

/// The injection points of a body are in order of position, and none lies
/// behind the body's last instruction.
pub proof fn lemma_injection_points_ordered(ops: Seq<Op>)
    requires
        ops.len() <= usize::MAX,
    ensures
        in_position_order(injection_points(ops)),
        positions_within(injection_points(ops), ops.len() as int),
{
    lemma_scan_positions(ops, ops.len() as int);
    lemma_sorted_by_position(scan(ops, ops.len() as int).closed);
}

/// Orders `points` by position with `slice::sort_by_key` of std, which is
/// documented to be a stable sort: the result is in order of the key, and
/// elements with equal keys keep their order. `sorted_by_position` is that
/// ordering.
#[verifier::external_body]
fn sort_by_position(points: &mut Vec<InjectionPoint>)
    ensures
        final(points)@ == sorted_by_position(old(points)@),
{
    points.sort_by_key(|point| point.position);
}

/// Scans a function body and returns its injection points in order of
/// position: one static point for every basic block that ends inside the
/// body, with the summed cost of the block's instructions, and one dynamic
/// point in front of every bulk memory or table instruction.
pub fn injections(ops: &Vec<Op>) -> (res: Vec<InjectionPoint>)
    ensures
        res@ == injection_points(ops@),
        in_position_order(res@),
        positions_within(res@, ops.len() as int),
{
    let mut res: Vec<InjectionPoint> = Vec::new();
    let mut stack: Vec<InjectionPoint> = Vec::new();
    let mut curr = InjectionPoint::new_static_cost(0, Scope::ReentrantBlockStart);
    let mut position: usize = 0;
    let mut finished = false;
    while position < ops.len() && !finished
        invariant
            position <= ops.len(),
            scan(ops@, position as int).closed == res@,
            scan(ops@, position as int).open == stack@,
            scan(ops@, position as int).current == curr,
            scan(ops@, position as int).finished == finished,
        decreases ops.len() - position,
    {
        let op = ops[position];
        curr.cost_detail.increment_cost(op.cost);
        match op.kind {
            OpKind::Loop => {
                stack.push(curr);
                curr = InjectionPoint::new_static_cost(position + 1, Scope::ReentrantBlockStart);
            },
            OpKind::If | OpKind::Block => {
                stack.push(curr);
                curr = InjectionPoint::new_static_cost(position + 1, Scope::NonReentrantBlockStart);
            },
            OpKind::Else | OpKind::Br | OpKind::BrIf | OpKind::BrTable => {
                res.push(curr);
                curr = InjectionPoint::new_static_cost(position + 1, Scope::BlockEnd);
            },
            OpKind::End => {
                res.push(curr);
                match stack.pop() {
                    Some(outer) => {
                        curr = outer;
                    },
                    None => {
                        finished = true;
                    },
                }
            },
            OpKind::MemoryFill
            | OpKind::MemoryCopy
            | OpKind::MemoryInit
            | OpKind::TableCopy
            | OpKind::TableInit => {
                res.push(InjectionPoint::new_dynamic_cost(position));
            },
            OpKind::MemoryGrow | OpKind::Call(_) | OpKind::I32Const(_) | OpKind::Other => {},
        }
        position += 1;
    }
    proof {
        if finished {
            lemma_scan_stays_finished(ops@, position as int, ops.len() as int);
        }
        lemma_injection_points_ordered(ops@);
    }
    sort_by_position(&mut res);
    res
}


/// The cost that a list of points charges: what its static points carry.
pub open spec fn charged(points: Seq<InjectionPoint>) -> int
    decreases points.len(),
{
    if points.len() == 0 {
        0
    } else {
        charged(points.drop_last()) + point_cost(points.last())
    }
}

/// The static cost of the first `n` instructions.
pub open spec fn total_cost(ops: Seq<Op>, n: int) -> int
    decreases n,
{
    if n <= 0 {
        0
    } else {
        total_cost(ops, n - 1) + ops[n - 1].cost
    }
}

proof fn lemma_charged_push(points: Seq<InjectionPoint>, point: InjectionPoint)
    ensures
        charged(points.push(point)) == charged(points) + point_cost(point),
        charged(points) >= 0,
    decreases points.len(),
{
    assert(points.push(point).drop_last() =~= points);
    if points.len() > 0 {
        lemma_charged_push(points.drop_last(), points.last());
    }
}

proof fn lemma_charged_insert(sorted: Seq<InjectionPoint>, point: InjectionPoint)
    ensures
        charged(insert_by_position(sorted, point)) == charged(sorted) + point_cost(point),
    decreases sorted.len(),
{
    lemma_charged_push(sorted, point);
    if sorted.len() > 0 && sorted.last().position > point.position {
        lemma_charged_insert(sorted.drop_last(), point);
        lemma_charged_push(insert_by_position(sorted.drop_last(), point), sorted.last());
    } else if sorted.len() == 0 {
        assert(sorted.push(point) =~= seq![point]);
    }
}

proof fn lemma_charged_sorted(points: Seq<InjectionPoint>)
    ensures
        charged(sorted_by_position(points)) == charged(points),
    decreases points.len(),
{
    if points.len() > 0 {
        lemma_charged_sorted(points.drop_last());
        lemma_charged_insert(sorted_by_position(points.drop_last()), points.last());
    }
}

/// The cost that one point carries.
pub open spec fn point_cost(point: InjectionPoint) -> int {
    match point.cost_detail {
        InjectionPointCostDetail::StaticCost { cost, .. } => cost as int,
        InjectionPointCostDetail::DynamicCost => 0,
    }
}

proof fn lemma_scan_charges(ops: Seq<Op>, n: int)
    requires
        0 <= n <= ops.len() <= usize::MAX,
        total_cost(ops, n) <= u64::MAX,
    ensures
        total_cost(ops, n) >= 0,
        !scan(ops, n).finished ==> charged(scan(ops, n).closed) + charged(scan(ops, n).open)
            + point_cost(scan(ops, n).current) == total_cost(ops, n),
        scan(ops, n).finished ==> exists|m: int|
            0 < m <= n && !scan(ops, m - 1).finished && scan(ops, m).finished && charged(
                scan(ops, n).closed,
            ) == total_cost(ops, m),
    decreases n,
{
    if n <= 0 {
    } else {
        lemma_scan_charges(ops, n - 1);
        let before = scan(ops, n - 1);
        let after = scan(ops, n);
        let op = ops[n - 1];
        if before.finished {
            let m = choose|m: int|
                0 < m <= n - 1 && !scan(ops, m - 1).finished && scan(ops, m).finished && charged(
                    before.closed,
                ) == total_cost(ops, m);
            assert(0 < m <= n);
        } else {
            let current = before.current.charged(op.cost);
            lemma_scan_current_is_static(ops, n - 1);
            lemma_charged_push(before.closed, before.current);
            lemma_charged_push(before.open, before.current);
            assert(point_cost(before.current) <= total_cost(ops, n - 1));
            assert(point_cost(current) == point_cost(before.current) + op.cost);
            lemma_charged_push(before.open, current);
            lemma_charged_push(before.closed, current);
            let dynamic = InjectionPoint::dynamic_at((n - 1) as usize);
            lemma_charged_push(before.closed, dynamic);
            if op.kind is End && before.open.len() > 0 {
                lemma_charged_push(before.open.drop_last(), before.open.last());
                assert(before.open.drop_last().push(before.open.last()) =~= before.open);
            }
            if after.finished {
                assert(before.open =~= Seq::<InjectionPoint>::empty());
                assert(0 < n <= n && !scan(ops, n - 1).finished && scan(ops, n).finished);
            }
        }
    }
}

proof fn lemma_scan_current_is_static(ops: Seq<Op>, n: int)
    requires
        0 <= n <= ops.len(),
    ensures
        scan(ops, n).current.cost_detail is StaticCost,
        forall|i: int|
            0 <= i < scan(ops, n).open.len() ==> (#[trigger] scan(ops, n).open[i]).cost_detail
                is StaticCost,
    decreases n,
{
    if n > 0 {
        lemma_scan_current_is_static(ops, n - 1);
        let before = scan(ops, n - 1);
        let after = scan(ops, n);
        assert forall|i: int| 0 <= i < after.open.len() implies (#[trigger] after.open[i]).cost_detail
            is StaticCost by {
            if i < before.open.len() {
                assert(after.open[i] == before.open[i]);
            }
        }
    }
}

/// Every instruction of a body is charged once: where a body ends with the
/// `end` that closes it and the costs of its instructions sum to less than
/// 2^64, the costs that its injection points carry sum to the same.
pub proof fn lemma_points_charge_every_instruction(ops: Seq<Op>)
    requires
        ops.len() <= usize::MAX,
        scan(ops, ops.len() as int).finished,
        !scan(ops, ops.len() - 1).finished,
        total_cost(ops, ops.len() as int) <= u64::MAX,
    ensures
        charged(injection_points(ops)) == total_cost(ops, ops.len() as int),
{
    let n = ops.len() as int;
    lemma_scan_charges(ops, n);
    lemma_charged_sorted(scan(ops, n).closed);
    let m = choose|m: int|
        0 < m <= n && !scan(ops, m - 1).finished && scan(ops, m).finished && charged(
            scan(ops, n).closed,
        ) == total_cost(ops, m);
    if m < n {
        lemma_scan_stays_finished(ops, m, n - 1);
    }
}


/// The point starts a block that can be entered again.
pub open spec fn is_reentrant(point: InjectionPoint) -> bool {
    match point.cost_detail {
        InjectionPointCostDetail::StaticCost { scope, .. } => scope == Scope::ReentrantBlockStart,
        InjectionPointCostDetail::DynamicCost => false,
    }
}

/// The points hold one that starts a block that can be entered again, in
/// front of the instruction at `position`.
pub open spec fn has_reentrant_at(points: Seq<InjectionPoint>, position: int) -> bool {
    exists|k: int|
        0 <= k < points.len() && (#[trigger] points[k]).position == position && is_reentrant(
            points[k],
        )
}

/// All points of a state of the scan.
pub open spec fn points_of(state: ScanState) -> Seq<InjectionPoint> {
    if state.finished {
        state.closed
    } else {
        (state.closed + state.open).push(state.current)
    }
}

proof fn lemma_scan_keeps_reentrant(ops: Seq<Op>, n: int, position: int)
    requires
        0 < n <= ops.len() <= usize::MAX,
        has_reentrant_at(points_of(scan(ops, n - 1)), position),
    ensures
        has_reentrant_at(points_of(scan(ops, n)), position),
{
    let before = scan(ops, n - 1);
    let after = scan(ops, n);
    let old_points = points_of(before);
    let new_points = points_of(after);
    if !before.finished {
        let k = choose|k: int|
            0 <= k < old_points.len() && (#[trigger] old_points[k]).position == position
                && is_reentrant(old_points[k]);
        let op = ops[n - 1];
        let current = before.current.charged(op.cost);
        let closed = before.closed.len() as int;
        let open = before.open.len() as int;
        // Where the point goes: points that were closed stay closed; the
        // current one is charged and is kept open, closed, or stays current.
        if k < closed {
            assert(new_points[k] == old_points[k]);
        } else if k < closed + open {
            if op.kind is End {
                if k == closed + open - 1 {
                    // The enclosing block becomes the current one again.
                    assert(after.current == before.open.last());
                    assert(new_points[new_points.len() - 1] == old_points[k]);
                } else {
                    assert(new_points[k + 1] == old_points[k]);
                }
            } else if op.kind.branches() || op.kind.is_dynamic() {
                assert(new_points[k + 1] == old_points[k]);
            } else {
                assert(new_points[k] == old_points[k]);
            }
        } else {
            assert(old_points[k] == before.current);
            assert(current.position == position);
            if op.kind.opens_reentrant() || op.kind.opens_plain() {
                assert(new_points[closed + open] == current);
            } else if op.kind.branches() {
                assert(new_points[closed] == current);
            } else if op.kind is End {
                assert(new_points[closed] == current);
            } else if op.kind.is_dynamic() {
                assert(new_points[new_points.len() - 1] == current);
            } else {
                assert(new_points[new_points.len() - 1] == current);
            }
        }
    }
}

proof fn lemma_scan_reentrant_stays(ops: Seq<Op>, from: int, to: int, position: int)
    requires
        0 <= from <= to <= ops.len() <= usize::MAX,
        has_reentrant_at(points_of(scan(ops, from)), position),
    ensures
        has_reentrant_at(points_of(scan(ops, to)), position),
    decreases to - from,
{
    if from < to {
        lemma_scan_reentrant_stays(ops, from, to - 1, position);
        lemma_scan_keeps_reentrant(ops, to, position);
    }
}

proof fn lemma_sorted_has_reentrant(points: Seq<InjectionPoint>, position: int)
    requires
        has_reentrant_at(points, position),
    ensures
        has_reentrant_at(sorted_by_position(points), position),
{
    broadcast use vstd::seq_lib::group_to_multiset_ensures;

    lemma_sorted_by_position(points);
    let k = choose|k: int|
        0 <= k < points.len() && (#[trigger] points[k]).position == position && is_reentrant(
            points[k],
        );
    let sorted = sorted_by_position(points);
    assert(points.to_multiset().count(points[k]) > 0);
    assert(sorted.to_multiset().count(points[k]) > 0);
    let j = choose|j: int| 0 <= j < sorted.len() && sorted[j] == points[k];
    assert(sorted[j].position == position);
}

/// The counter is checked wherever control can come again: where a body
/// ends with the `end` that closes it, its injection points hold one that
/// starts a block that can be entered again in front of the first
/// instruction, and one behind every `loop`.
pub proof fn lemma_reentrant_blocks_have_points(ops: Seq<Op>, i: int)
    requires
        ops.len() <= usize::MAX,
        scan(ops, ops.len() as int).finished,
        !scan(ops, ops.len() - 1).finished,
        0 <= i < ops.len(),
    ensures
        has_reentrant_at(injection_points(ops), 0),
        ops[i].kind is Loop ==> has_reentrant_at(injection_points(ops), i + 1),
{
    let n = ops.len() as int;
    let start = points_of(scan(ops, 0));
    assert(start[0] == scan_start().current);
    assert(has_reentrant_at(start, 0));
    lemma_scan_reentrant_stays(ops, 0, n, 0);
    lemma_sorted_has_reentrant(scan(ops, n).closed, 0);
    if ops[i].kind is Loop {
        if i + 1 < n {
            lemma_scan_stays_unfinished(ops, i + 1, n - 1);
        }
        let after = points_of(scan(ops, i + 1));
        assert(after[after.len() - 1] == scan(ops, i + 1).current);
        assert(has_reentrant_at(after, i + 1));
        lemma_scan_reentrant_stays(ops, i + 1, n, i + 1);
        lemma_sorted_has_reentrant(scan(ops, n).closed, i + 1);
    }
}

/// A scan that has not seen the closing `end` had not seen it before.
proof fn lemma_scan_stays_unfinished(ops: Seq<Op>, n: int, m: int)
    requires
        0 <= n <= m,
        !scan(ops, m).finished,
    ensures
        !scan(ops, n).finished,
    decreases m - n,
{
    if n < m {
        if scan(ops, n).finished {
            lemma_scan_stays_finished(ops, n, m);
        }
    }
}

/// The point carries a static cost.
pub open spec fn is_static(point: InjectionPoint) -> bool {
    point.cost_detail is StaticCost
}

/// No point stands behind a static point of the same position.
pub open spec fn static_is_last(points: Seq<InjectionPoint>) -> bool {
    forall|i: int, j: int|
        0 <= i < j < points.len() && is_static(#[trigger] points[i]) ==> points[i].position
            != (#[trigger] points[j]).position
}

/// The static points of a state of the scan lie at different positions.
pub open spec fn statics_apart(state: ScanState) -> bool {
    &&& is_static(state.current)
    &&& forall|k: int|
        0 <= k < state.open.len() ==> is_static(#[trigger] state.open[k]) && state.open[k].position
            != state.current.position
    &&& forall|k: int, l: int|
        0 <= k < l < state.open.len() ==> (#[trigger] state.open[k]).position
            != (#[trigger] state.open[l]).position
    &&& forall|k: int|
        0 <= k < state.closed.len() && is_static(#[trigger] state.closed[k])
            ==> state.closed[k].position != state.current.position
    &&& forall|k: int, l: int|
        0 <= k < state.closed.len() && 0 <= l < state.open.len() && is_static(
            #[trigger] state.closed[k],
        ) ==> state.closed[k].position != (#[trigger] state.open[l]).position
}

proof fn lemma_scan_order(ops: Seq<Op>, n: int)
    requires
        0 <= n <= ops.len() <= usize::MAX,
    ensures
        forall|k: int|
            0 <= k < scan(ops, n).closed.len() ==> (#[trigger] scan(ops, n).closed[k]).position
                < n,
        static_is_last(scan(ops, n).closed),
        !scan(ops, n).finished ==> statics_apart(scan(ops, n)),
    decreases n,
{
    if n > 0 {
        lemma_scan_order(ops, n - 1);
        lemma_scan_positions(ops, n - 1);
        let before = scan(ops, n - 1);
        let after = scan(ops, n);
        if !before.finished {
            let op = ops[n - 1];
            let current = before.current.charged(op.cost);
            assert(current.position == before.current.position && is_static(current));
            assert forall|k: int| 0 <= k < after.closed.len() implies (#[trigger] after.closed[k]).position
                < n by {
                if k < before.closed.len() {
                    assert(after.closed[k] == before.closed[k]);
                }
            }
            assert forall|i: int, j: int|
                0 <= i < j < after.closed.len() && is_static(
                    #[trigger] after.closed[i],
                ) implies after.closed[i].position != (#[trigger] after.closed[j]).position by {
                assert(after.closed[i] == before.closed[i]);
                if j < before.closed.len() {
                    assert(after.closed[j] == before.closed[j]);
                }
            }
            if !after.finished {
                assert forall|k: int| 0 <= k < after.open.len() implies is_static(
                    #[trigger] after.open[k],
                ) && after.open[k].position != after.current.position by {
                    if k < before.open.len() {
                        assert(after.open[k] == before.open[k]);
                    }
                    if op.kind is End {
                        assert(before.open[k].position != before.open[before.open.len()
                            - 1].position);
                    }
                }
                assert forall|k: int, l: int| 0 <= k < l < after.open.len() implies (
                #[trigger] after.open[k]).position != (#[trigger] after.open[l]).position by {
                    assert(after.open[k] == before.open[k]);
                    if l < before.open.len() {
                        assert(after.open[l] == before.open[l]);
                    }
                }
                assert forall|k: int|
                    0 <= k < after.closed.len() && is_static(
                        #[trigger] after.closed[k],
                    ) implies after.closed[k].position != after.current.position by {
                    if k < before.closed.len() {
                        assert(after.closed[k] == before.closed[k]);
                        if op.kind is End {
                            assert(before.closed[k].position != before.open[before.open.len()
                                - 1].position);
                        }
                    } else if op.kind is End {
                        assert(before.open[before.open.len() - 1].position
                            != before.current.position);
                    }
                }
                assert forall|k: int, l: int|
                    0 <= k < after.closed.len() && 0 <= l < after.open.len() && is_static(
                        #[trigger] after.closed[k],
                    ) implies after.closed[k].position != (#[trigger] after.open[l]).position by {
                    if l < before.open.len() {
                        assert(after.open[l] == before.open[l]);
                    }
                    if k < before.closed.len() {
                        assert(after.closed[k] == before.closed[k]);
                    }
                }
            }
        }
    }
}

proof fn lemma_insert_keeps_static_last(sorted: Seq<InjectionPoint>, point: InjectionPoint)
    requires
        in_position_order(sorted),
        static_is_last(sorted),
        forall|i: int|
            0 <= i < sorted.len() && is_static(#[trigger] sorted[i]) ==> sorted[i].position
                != point.position,
    ensures
        static_is_last(insert_by_position(sorted, point)),
    decreases sorted.len(),
{
    broadcast use vstd::seq_lib::group_to_multiset_ensures;

    let out = insert_by_position(sorted, point);
    if sorted.len() == 0 {
    } else if sorted.last().position <= point.position {
    } else {
        let front = sorted.drop_last();
        let last = sorted.last();
        assert forall|i: int| 0 <= i < front.len() implies front[i] == sorted[i] by {}
        lemma_insert_keeps_static_last(front, point);
        lemma_insert_by_position(front, point);
        let inner = insert_by_position(front, point);
        assert forall|i: int, j: int|
            0 <= i < j < out.len() && is_static(#[trigger] out[i]) implies out[i].position != (
        #[trigger] out[j]).position by {
            if j < inner.len() {
                assert(out[i] == inner[i] && out[j] == inner[j]);
            } else {
                assert(out[i] == inner[i]);
                assert(inner.to_multiset().count(inner[i]) > 0);
                if inner[i] != point {
                    assert(front.to_multiset().count(inner[i]) > 0);
                    let k = choose|k: int| 0 <= k < front.len() && front[k] == inner[i];
                    assert(sorted[k] == front[k]);
                    assert(sorted[k].position != sorted[sorted.len() - 1].position);
                }
            }
        }
    }
}

/// Ordering the points by position keeps a static point behind the other
/// points of its position.
pub proof fn lemma_sorted_keeps_static_last(points: Seq<InjectionPoint>)
    requires
        static_is_last(points),
    ensures
        static_is_last(sorted_by_position(points)),
    decreases points.len(),
{
    broadcast use vstd::seq_lib::group_to_multiset_ensures;

    if points.len() > 0 {
        let front = points.drop_last();
        assert forall|i: int| 0 <= i < front.len() implies front[i] == points[i] by {}
        lemma_sorted_keeps_static_last(front);
        lemma_sorted_by_position(front);
        let sorted = sorted_by_position(front);
        assert forall|i: int| 0 <= i < sorted.len() && is_static(#[trigger] sorted[i]) implies sorted[i].position
            != points.last().position by {
            assert(sorted.to_multiset().count(sorted[i]) > 0);
            assert(front.to_multiset().count(sorted[i]) > 0);
            let k = choose|k: int| 0 <= k < front.len() && front[k] == sorted[i];
            assert(points[k] == front[k]);
            assert(points[k].position != points[points.len() - 1].position);
        }
        lemma_insert_keeps_static_last(sorted, points.last());
    }
}

/// Among the injection points of a body, every point behind a static point
/// lies at a later position.
pub proof fn lemma_static_point_is_last_at_its_position(ops: Seq<Op>, q: int, j: int)
    requires
        ops.len() <= usize::MAX,
        0 <= q < j < injection_points(ops).len(),
        is_static(injection_points(ops)[q]),
    ensures
        injection_points(ops)[q].position < injection_points(ops)[j].position,
{
    lemma_scan_order(ops, ops.len() as int);
    lemma_sorted_keeps_static_last(scan(ops, ops.len() as int).closed);
    lemma_injection_points_ordered(ops);
}

} // verus!
