use canister_sandbox::metering::{
    injections, InjectionPoint, InjectionPointCostDetail, Op, OpKind, Scope,
};
use canister_sandbox::plan::{
    memory_grow_plan, metering_plan, Emitted, Insertion, MeteringTargets,
    UPDATE_AVAILABLE_MEMORY_FN,
};

fn op(kind: OpKind, cost: u64) -> Op {
    Op { kind, cost }
}

fn static_point(position: usize, scope: Scope, cost: u64) -> InjectionPoint {
    InjectionPoint { cost_detail: InjectionPointCostDetail::StaticCost { scope, cost }, position }
}

fn targets() -> MeteringTargets {
    MeteringTargets { counter_global: 5, out_of_instructions_fn: 0, decrement_fn: 9 }
}

#[test]
fn constant_function_has_one_point_with_the_cost_of_the_constant() {
    let ops = vec![op(OpKind::Other, 1), op(OpKind::End, 0)];
    assert_eq!(injections(&ops), vec![static_point(0, Scope::ReentrantBlockStart, 1)]);
}

#[test]
fn empty_body_has_no_point() {
    assert_eq!(injections(&Vec::new()), Vec::new());
}

#[test]
fn body_without_end_closes_no_block() {
    let ops = vec![op(OpKind::Other, 1), op(OpKind::Other, 1)];
    assert_eq!(injections(&ops), Vec::new());
}

#[test]
fn loop_body_is_a_reentrant_block() {
    // loop; local.get; br_if 0; end; end
    let ops = vec![
        op(OpKind::Loop, 0),
        op(OpKind::Other, 1),
        op(OpKind::BrIf, 1),
        op(OpKind::End, 0),
        op(OpKind::End, 0),
    ];
    assert_eq!(
        injections(&ops),
        vec![
            static_point(0, Scope::ReentrantBlockStart, 0),
            static_point(1, Scope::ReentrantBlockStart, 2),
            static_point(3, Scope::BlockEnd, 0),
        ]
    );
}

#[test]
fn points_come_out_in_order_of_position() {
    // block; block; nop; end; nop; end; end: the inner blocks end first.
    let ops = vec![
        op(OpKind::Block, 0),
        op(OpKind::Block, 0),
        op(OpKind::Other, 1),
        op(OpKind::End, 0),
        op(OpKind::Other, 1),
        op(OpKind::End, 0),
        op(OpKind::End, 0),
    ];
    assert_eq!(
        injections(&ops),
        vec![
            static_point(0, Scope::ReentrantBlockStart, 0),
            static_point(1, Scope::NonReentrantBlockStart, 1),
            static_point(2, Scope::NonReentrantBlockStart, 1),
        ]
    );
}

#[test]
fn if_else_splits_into_two_blocks() {
    // if; nop; nop; else; nop; end; end
    let ops = vec![
        op(OpKind::If, 3),
        op(OpKind::Other, 1),
        op(OpKind::Other, 1),
        op(OpKind::Else, 0),
        op(OpKind::Other, 4),
        op(OpKind::End, 0),
        op(OpKind::End, 0),
    ];
    assert_eq!(
        injections(&ops),
        vec![
            static_point(0, Scope::ReentrantBlockStart, 3),
            static_point(1, Scope::NonReentrantBlockStart, 2),
            static_point(4, Scope::BlockEnd, 4),
        ]
    );
}

#[test]
fn bulk_instruction_gets_a_dynamic_point_in_front_of_the_static_one() {
    // block; memory.fill; end; end
    let ops = vec![
        op(OpKind::Block, 0),
        op(OpKind::MemoryFill, 1),
        op(OpKind::End, 0),
        op(OpKind::End, 0),
    ];
    assert_eq!(
        injections(&ops),
        vec![
            static_point(0, Scope::ReentrantBlockStart, 0),
            InjectionPoint { cost_detail: InjectionPointCostDetail::DynamicCost, position: 1 },
            static_point(1, Scope::NonReentrantBlockStart, 1),
        ]
    );
}

#[test]
fn every_bulk_kind_is_dynamic() {
    for kind in [
        OpKind::MemoryFill,
        OpKind::MemoryCopy,
        OpKind::MemoryInit,
        OpKind::TableCopy,
        OpKind::TableInit,
    ] {
        let points = injections(&vec![op(kind, 1), op(OpKind::End, 0)]);
        assert_eq!(
            points,
            vec![
                InjectionPoint { cost_detail: InjectionPointCostDetail::DynamicCost, position: 0 },
                static_point(0, Scope::ReentrantBlockStart, 1),
            ]
        );
    }
}

#[test]
fn nothing_is_read_behind_the_end_of_the_body() {
    let ops = vec![op(OpKind::End, 0), op(OpKind::MemoryFill, 1), op(OpKind::End, 0)];
    assert_eq!(injections(&ops), vec![static_point(0, Scope::ReentrantBlockStart, 0)]);
}

#[test]
fn costs_are_summed_modulo_two_to_the_64() {
    let ops = vec![op(OpKind::Other, u64::MAX), op(OpKind::Other, 3), op(OpKind::End, 0)];
    assert_eq!(injections(&ops), vec![static_point(0, Scope::ReentrantBlockStart, 2)]);
}

#[test]
fn increment_cost_leaves_a_dynamic_cost_alone() {
    let mut dynamic = InjectionPointCostDetail::DynamicCost;
    dynamic.increment_cost(7);
    assert_eq!(dynamic, InjectionPointCostDetail::DynamicCost);
    let mut fixed = InjectionPointCostDetail::StaticCost { scope: Scope::BlockEnd, cost: 2 };
    fixed.increment_cost(7);
    assert_eq!(fixed, InjectionPointCostDetail::StaticCost { scope: Scope::BlockEnd, cost: 9 });
}

#[test]
fn new_points_cost_nothing() {
    assert_eq!(
        InjectionPoint::new_static_cost(4, Scope::BlockEnd),
        static_point(4, Scope::BlockEnd, 0)
    );
    assert_eq!(
        InjectionPoint::new_dynamic_cost(4),
        InjectionPoint { cost_detail: InjectionPointCostDetail::DynamicCost, position: 4 }
    );
}

fn at(position: usize, instructions: Vec<Emitted>) -> Vec<Insertion> {
    instructions.into_iter().map(|instruction| Insertion { position, instruction }).collect()
}

#[test]
fn reentrant_point_is_charged_and_checked() {
    let plan = metering_plan(&vec![static_point(3, Scope::ReentrantBlockStart, 8)], targets());
    assert_eq!(
        plan,
        at(
            3,
            vec![
                Emitted::GetGlobal(5),
                Emitted::I64Const(8),
                Emitted::I64Sub,
                Emitted::SetGlobal(5),
                Emitted::GetGlobal(5),
                Emitted::I64Const(0),
                Emitted::I64LtS,
                Emitted::IfNoResult,
                Emitted::Call(0),
                Emitted::End,
            ]
        )
    );
}

#[test]
fn reentrant_point_is_kept_when_it_costs_nothing() {
    let plan = metering_plan(&vec![static_point(0, Scope::ReentrantBlockStart, 0)], targets());
    assert_eq!(plan.len(), 10);
    assert_eq!(plan[1].instruction, Emitted::I64Const(0));
}

#[test]
fn plain_point_is_charged_only() {
    let plan = metering_plan(&vec![static_point(2, Scope::NonReentrantBlockStart, 2)], targets());
    assert_eq!(
        plan,
        at(
            2,
            vec![
                Emitted::GetGlobal(5),
                Emitted::I64Const(2),
                Emitted::I64Sub,
                Emitted::SetGlobal(5),
            ]
        )
    );
}

#[test]
fn plain_point_without_cost_is_dropped() {
    let points = vec![
        static_point(2, Scope::NonReentrantBlockStart, 0),
        static_point(4, Scope::BlockEnd, 0),
    ];
    assert_eq!(metering_plan(&points, targets()), Vec::new());
}

#[test]
fn dynamic_point_calls_the_decrementing_function() {
    let point = InjectionPoint { cost_detail: InjectionPointCostDetail::DynamicCost, position: 7 };
    assert_eq!(metering_plan(&vec![point], targets()), at(7, vec![Emitted::Call(9)]));
}

#[test]
fn cost_above_the_signed_range_wraps() {
    let plan = metering_plan(&vec![static_point(0, Scope::BlockEnd, u64::MAX)], targets());
    assert_eq!(plan[1].instruction, Emitted::I64Const(-1));
}

#[test]
fn memory_grow_with_no_prior_locals_uses_the_local_behind_the_parameters() {
    let kinds = vec![OpKind::Other, OpKind::MemoryGrow, OpKind::End];
    let (local, insertions) = memory_grow_plan(&kinds, 3, &Vec::new()).unwrap();
    assert_eq!(local, 3);
    assert_eq!(
        insertions,
        vec![
            Insertion { position: 1, instruction: Emitted::TeeLocal(3) },
            Insertion { position: 2, instruction: Emitted::GetLocal(3) },
            Insertion { position: 2, instruction: Emitted::Call(UPDATE_AVAILABLE_MEMORY_FN) },
        ]
    );
}

#[test]
fn memory_grow_local_lies_behind_the_declared_locals() {
    let kinds = vec![OpKind::MemoryGrow, OpKind::MemoryGrow, OpKind::End];
    let (local, insertions) = memory_grow_plan(&kinds, 2, &vec![3, 4]).unwrap();
    assert_eq!(local, 9);
    assert_eq!(insertions.len(), 6);
    assert_eq!(insertions[3], Insertion { position: 1, instruction: Emitted::TeeLocal(9) });
}

#[test]
fn body_without_memory_grow_has_no_plan() {
    assert_eq!(memory_grow_plan(&vec![OpKind::Other, OpKind::End], 1, &vec![2]), None);
}

#[test]
fn local_index_is_taken_modulo_two_to_the_32() {
    let kinds = vec![OpKind::MemoryGrow];
    let (local, _) = memory_grow_plan(&kinds, 1, &vec![u32::MAX, 2]).unwrap();
    assert_eq!(local, 2);
}

#[test]
fn the_points_of_a_closed_body_charge_every_instruction_once() {
    // block; nop; loop; nop; br_if; end; if; nop; else; nop; end; end; nop; end
    let ops = vec![
        op(OpKind::Block, 2),
        op(OpKind::Other, 3),
        op(OpKind::Loop, 5),
        op(OpKind::Other, 7),
        op(OpKind::BrIf, 11),
        op(OpKind::End, 13),
        op(OpKind::If, 17),
        op(OpKind::Other, 19),
        op(OpKind::Else, 23),
        op(OpKind::Other, 29),
        op(OpKind::End, 31),
        op(OpKind::End, 37),
        op(OpKind::Other, 41),
        op(OpKind::End, 43),
    ];
    let points = injections(&ops);
    let charged: u64 = points
        .iter()
        .map(|point| match point.cost_detail {
            InjectionPointCostDetail::StaticCost { cost, .. } => cost,
            InjectionPointCostDetail::DynamicCost => 0,
        })
        .sum();
    assert_eq!(charged, ops.iter().map(|op| op.cost).sum::<u64>());
    let reentrant: Vec<usize> = points
        .iter()
        .filter(|point| {
            matches!(
                point.cost_detail,
                InjectionPointCostDetail::StaticCost { scope: Scope::ReentrantBlockStart, .. }
            )
        })
        .map(|point| point.position)
        .collect();
    assert_eq!(reentrant, vec![0, 3]);
    let positions: Vec<usize> = points.iter().map(|point| point.position).collect();
    let mut sorted = positions.clone();
    sorted.sort();
    assert_eq!(positions, sorted);
}
