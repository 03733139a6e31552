//! What generated code holds, instruction kind by instruction kind: one
//! `ColumnDef` and `AddColumn` per column, each option of each column, one row
//! per `VALUES` row with each of its values, one `Project` per `SELECT` item,
//! the `LIMIT`, and one `Order` per `ORDER BY` item.

use vstd::prelude::*;

use crate::ast::{ColumnDef, OrderByExpr, Query, SelectItem, SetExpr, SqlExpr, Statement};
use crate::codegen::{
    add_value_step, add_value_steps, column_code, columns_code, insert_head, row_code, rows_steps,
};
use crate::codegen::{
    body_code, filter_code, from_code, group_by_step, group_by_steps, lemma_run_steps_take_next,
    limit_code, order_step, order_steps, project_step, project_steps, projection_code,
    query_code, reg, result_reg, run_steps, select_code, statement_code, CodeOutcome,
};
use crate::expr::Expr;
use crate::ic::Instruction;
use crate::value::Value;
use crate::vm::RegisterIndex;

verus! {

// ----------------------------------------------------------------------------
// Selecting the instructions of one kind.
// ----------------------------------------------------------------------------

/// `Order` instructions.
pub open spec fn is_order() -> spec_fn(Instruction) -> bool {
    |x: Instruction| x is Order
}

/// `Limit` instructions.
pub open spec fn is_limit() -> spec_fn(Instruction) -> bool {
    |x: Instruction| x is Limit
}

/// `Project` instructions.
pub open spec fn is_project() -> spec_fn(Instruction) -> bool {
    |x: Instruction| x is Project
}

/// Whether `p` holds of every instruction of `code`.
pub open spec fn all_are(code: Seq<Instruction>, p: spec_fn(Instruction) -> bool) -> bool {
    forall|j: int| 0 <= j < code.len() ==> #[trigger] p(code[j])
}

/// Keeping the instructions of `code` that `p` selects keeps all of them, when
/// `p` selects each.
pub proof fn lemma_filter_all(code: Seq<Instruction>, p: spec_fn(Instruction) -> bool)
    requires
        all_are(code, p),
    ensures
        code.filter(p) == code,
    decreases code.len(),
{
    reveal(Seq::filter);
    if code.len() > 0 {
        let init = code.drop_last();
        assert forall|j: int| 0 <= j < init.len() implies #[trigger] p(init[j]) by {
            assert(init[j] == code[j]);
        }
        lemma_filter_all(init, p);
        assert(p(code[code.len() - 1]));
        assert(init.push(code.last()) =~= code);
    }
}

/// Keeping the instructions of `code` that `p` selects keeps none, when `p`
/// selects none.
pub proof fn lemma_filter_none(code: Seq<Instruction>, p: spec_fn(Instruction) -> bool)
    requires
        forall|j: int| 0 <= j < code.len() ==> !#[trigger] p(code[j]),
    ensures
        code.filter(p) == Seq::<Instruction>::empty(),
    decreases code.len(),
{
    reveal(Seq::filter);
    if code.len() > 0 {
        let init = code.drop_last();
        assert forall|j: int| 0 <= j < init.len() implies !#[trigger] p(init[j]) by {
            assert(init[j] == code[j]);
        }
        lemma_filter_none(init, p);
        assert(!p(code[code.len() - 1]));
    }
    assert(code.filter(p) =~= Seq::<Instruction>::empty());
}

/// Keeping the instructions that `p` selects, over a concatenation.
pub proof fn lemma_filter_concat(a: Seq<Instruction>, b: Seq<Instruction>, p: spec_fn(Instruction) -> bool)
    ensures
        (a + b).filter(p) == a.filter(p) + b.filter(p),
{
    Seq::filter_distributes_over_add(a, b, p);
}

// ----------------------------------------------------------------------------
// Running steps.
// ----------------------------------------------------------------------------

/// Every step of a successful run succeeds.
pub proof fn lemma_run_steps_each_ok(steps: Seq<CodeOutcome>)
    ensures
        run_steps(steps) is Ok ==> forall|k: int| 0 <= k < steps.len() ==> #[trigger] steps[k] is Ok,
    decreases steps.len(),
{
    if steps.len() > 0 {
        let init = steps.drop_last();
        lemma_run_steps_each_ok(init);
        if run_steps(steps) is Ok {
            assert forall|k: int| 0 <= k < steps.len() implies #[trigger] steps[k] is Ok by {
                if k < init.len() {
                    assert(init[k] == steps[k]);
                } else {
                    assert(steps[k] == steps.last());
                }
            }
        }
    }
}

/// A successful run of steps that each give one instruction gives those
/// instructions in order.
pub proof fn lemma_run_steps_singletons(steps: Seq<CodeOutcome>, expected: Seq<Instruction>)
    requires
        steps.len() == expected.len(),
        forall|k: int| 0 <= k < steps.len() && #[trigger] steps[k] is Ok ==> steps[k] == Ok::<
            Seq<Instruction>,
            crate::codegen::CodegenError,
        >(seq![expected[k]]),
    ensures
        run_steps(steps) is Ok ==> run_steps(steps) == Ok::<Seq<Instruction>, crate::codegen::CodegenError>(expected),
    decreases steps.len(),
{
    lemma_run_steps_each_ok(steps);
    if steps.len() > 0 && run_steps(steps) is Ok {
        let init = steps.drop_last();
        let init_expected = expected.drop_last();
        assert forall|k: int| 0 <= k < init.len() && #[trigger] init[k] is Ok implies init[k] == Ok::<
            Seq<Instruction>,
            crate::codegen::CodegenError,
        >(seq![init_expected[k]]) by {
            assert(init[k] == steps[k]);
        }
        lemma_run_steps_singletons(init, init_expected);
        let last = steps.len() - 1;
        assert(steps[last] is Ok);
        assert(steps[last] == steps.last());
        assert(init_expected + seq![expected[last]] =~= expected);
    } else if steps.len() == 0 {
        assert(expected =~= Seq::<Instruction>::empty());
    }
}

/// A successful run of steps whose code is all of one kind gives code of that kind.
pub proof fn lemma_run_steps_all_are(steps: Seq<CodeOutcome>, p: spec_fn(Instruction) -> bool)
    requires
        forall|k: int| 0 <= k < steps.len() ==> (#[trigger] steps[k] matches Ok(c) ==> all_are(c, p)),
    ensures
        run_steps(steps) matches Ok(code) ==> all_are(code, p),
    decreases steps.len(),
{
    if steps.len() > 0 {
        let init = steps.drop_last();
        assert forall|k: int| 0 <= k < init.len() implies (#[trigger] init[k] matches Ok(c) ==> all_are(c, p)) by {
            assert(init[k] == steps[k]);
        }
        lemma_run_steps_all_are(init, p);
        if let Ok(code) = run_steps(steps) {
            let a = run_steps(init)->Ok_0;
            let b = steps.last()->Ok_0;
            assert(steps[steps.len() - 1] == steps.last());
            assert(code == a + b);
            assert forall|j: int| 0 <= j < code.len() implies #[trigger] p(code[j]) by {
                if j < a.len() {
                    assert(code[j] == a[j]);
                } else {
                    assert(code[j] == b[j - a.len()]);
                }
            }
        }
    }
}

// ----------------------------------------------------------------------------
// Queries.
// ----------------------------------------------------------------------------

/// The register that holds a query's result: the projected table (register 1)
/// for a `SELECT` with a projection list, else the table read (register 0).
pub open spec fn returned_register(q: Query) -> RegisterIndex {
    match q.body {
        SetExpr::Select(s) => if s.projection@.len() > 0 {
            RegisterIndex(1)
        } else {
            RegisterIndex(0)
        },
        _ => RegisterIndex(0),
    }
}

/// `GroupBy` instructions.
pub open spec fn is_group_by() -> spec_fn(Instruction) -> bool {
    |x: Instruction| x is GroupBy
}

/// The instructions that a query's body may hold.
pub open spec fn is_body_instruction() -> spec_fn(Instruction) -> bool {
    |x: Instruction|
        x is Source || x is Filter || x is GroupBy || x is Empty || x is Project || x is Expr
}

/// The expression that a `SELECT` item projects.
pub open spec fn projected_expr(item: SelectItem) -> Expr {
    match item {
        SelectItem::UnnamedExpr(e) => e.lowered->Ok_0,
        SelectItem::ExprWithAlias { expr, .. } => expr.lowered->Ok_0,
        _ => Expr::Wildcard,
    }
}

/// The name that a `SELECT` item gives its column.
pub open spec fn projected_alias(item: SelectItem) -> Option<String> {
    match item {
        SelectItem::ExprWithAlias { alias, .. } => Some(alias),
        _ => None,
    }
}

/// Whether a `SELECT` item's expression lowers.
pub open spec fn item_lowers(item: SelectItem) -> bool {
    match item {
        SelectItem::UnnamedExpr(e) => e.lowered is Ok,
        SelectItem::ExprWithAlias { expr, .. } => expr.lowered is Ok,
        SelectItem::QualifiedWildcard(_) => false,
        SelectItem::Wildcard => true,
    }
}

/// One `Project` per item of `items`, in order, from register 0 into register 1.
pub open spec fn projections_of(items: Seq<SelectItem>) -> Seq<Instruction> {
    Seq::new(
        items.len(),
        |k: int|
            Instruction::Project {
                input: RegisterIndex(0),
                output: RegisterIndex(1),
                expr: projected_expr(items[k]),
                alias: projected_alias(items[k]),
            },
    )
}

/// One `Order` per `ORDER BY` item, in order, on register `out`: by the item's
/// lowered expression, descending only where `DESC` is written.
pub open spec fn orders_of(out: RegisterIndex, items: Seq<OrderByExpr>) -> Seq<Instruction> {
    Seq::new(
        items.len(),
        |k: int|
            Instruction::Order {
                index: out,
                expr: items[k].expr.lowered->Ok_0,
                ascending: items[k].asc != Some(false),
            },
    )
}

proof fn lemma_result_reg(q: Query)
    ensures
        result_reg(q) == returned_register(q),
{
}

proof fn lemma_order_code(out: RegisterIndex, items: Seq<OrderByExpr>)
    ensures
        run_steps(order_steps(out, items)) matches Ok(code) ==> code == orders_of(out, items)
            && forall|k: int| 0 <= k < items.len() ==> (#[trigger] items[k]).expr.lowered is Ok,
{
    let steps = order_steps(out, items);
    let expected = orders_of(out, items);
    assert forall|k: int| 0 <= k < steps.len() && #[trigger] steps[k] is Ok implies steps[k] == Ok::<
        Seq<Instruction>,
        crate::codegen::CodegenError,
    >(seq![expected[k]]) by {
        assert(steps[k] == order_step(out, items[k]));
    }
    lemma_run_steps_singletons(steps, expected);
    lemma_run_steps_each_ok(steps);
    if run_steps(steps) is Ok {
        assert forall|k: int| 0 <= k < items.len() implies (#[trigger] items[k]).expr.lowered is Ok by {
            assert(steps[k] is Ok);
            assert(steps[k] == order_step(out, items[k]));
        }
    }
}

proof fn lemma_projection_items(items: Seq<SelectItem>)
    ensures
        run_steps(project_steps(items)) matches Ok(code) ==> code == projections_of(items)
            && forall|k: int| 0 <= k < items.len() ==> item_lowers(#[trigger] items[k]),
{
    let steps = project_steps(items);
    let expected = projections_of(items);
    assert forall|k: int| 0 <= k < steps.len() && #[trigger] steps[k] is Ok implies steps[k] == Ok::<
        Seq<Instruction>,
        crate::codegen::CodegenError,
    >(seq![expected[k]]) by {
        assert(steps[k] == project_step(items[k]));
    }
    lemma_run_steps_singletons(steps, expected);
    lemma_run_steps_each_ok(steps);
    if run_steps(steps) is Ok {
        assert forall|k: int| 0 <= k < items.len() implies item_lowers(#[trigger] items[k]) by {
            assert(steps[k] is Ok);
            assert(steps[k] == project_step(items[k]));
        }
    }
}

/// The table, `WHERE`, `GROUP BY` and `HAVING` of a `SELECT`: body
/// instructions, none a `Project`.
proof fn lemma_select_prefix(s: crate::ast::Select, before: Seq<Instruction>)
    requires
        from_code(s) is Ok,
        filter_code(s.selection) is Ok,
        run_steps(group_by_steps(s.group_by@)) is Ok,
        filter_code(s.having) is Ok,
        before == from_code(s)->Ok_0 + filter_code(s.selection)->Ok_0 + run_steps(
            group_by_steps(s.group_by@),
        )->Ok_0 + filter_code(s.having)->Ok_0,
    ensures
        all_are(before, is_body_instruction()),
        before.filter(is_project()) == Seq::<Instruction>::empty(),
{
    let from = from_code(s)->Ok_0;
    let selection = filter_code(s.selection)->Ok_0;
    let group_steps = group_by_steps(s.group_by@);
    let group_by = run_steps(group_steps)->Ok_0;
    let having = filter_code(s.having)->Ok_0;
    assert forall|k: int| 0 <= k < group_steps.len() implies (#[trigger] group_steps[k] matches Ok(c)
        ==> all_are(c, is_group_by())) by {
        assert(group_steps[k] == group_by_step(s.group_by@[k]));
    }
    lemma_run_steps_all_are(group_steps, is_group_by());
    assert(from.len() == 1 && from[0] is Source);
    assert(selection.len() == 0 || (selection.len() == 1 && selection[0] is Filter));
    assert(having.len() == 0 || (having.len() == 1 && having[0] is Filter));
    assert forall|j: int| 0 <= j < before.len() implies #[trigger] before[j] is Source || before[j] is Filter
        || before[j] is GroupBy by {
        if j < from.len() {
            assert(before[j] == from[j]);
        } else if j < from.len() + selection.len() {
            assert(before[j] == selection[j - from.len()]);
        } else if j < from.len() + selection.len() + group_by.len() {
            assert(before[j] == group_by[j - from.len() - selection.len()]);
            assert(is_group_by()(group_by[j - from.len() - selection.len()]));
        } else {
            assert(before[j] == having[j - from.len() - selection.len() - group_by.len()]);
        }
    }
    assert forall|j: int| 0 <= j < before.len() implies #[trigger] is_body_instruction()(before[j]) by {
        assert(before[j] is Source || before[j] is Filter || before[j] is GroupBy);
    }
    assert forall|j: int| 0 <= j < before.len() implies !#[trigger] is_project()(before[j]) by {
        assert(before[j] is Source || before[j] is Filter || before[j] is GroupBy);
    }
    lemma_filter_none(before, is_project());
}

/// The projection of a `SELECT`: body instructions, with one `Project` per item.
proof fn lemma_projection_holds(s: crate::ast::Select)
    ensures
        projection_code(s) matches Ok(code) ==> all_are(code, is_body_instruction()) && if s.projection@.len() > 0 {
            code.filter(is_project()) == projections_of(s.projection@)
                && forall|k: int| 0 <= k < s.projection@.len() ==> item_lowers(#[trigger] s.projection@[k])
        } else {
            code.filter(is_project()) == Seq::<Instruction>::empty()
        },
{
    if let Ok(code) = projection_code(s) {
        lemma_projection_items(s.projection@);
        if s.projection@.len() > 0 {
            let head = seq![Instruction::Empty { index: reg(1) }];
            let items = run_steps(project_steps(s.projection@))->Ok_0;
            assert(code =~= head + items);
            assert forall|j: int| 0 <= j < head.len() implies !#[trigger] is_project()(head[j]) by {}
            lemma_filter_none(head, is_project());
            assert forall|j: int| 0 <= j < items.len() implies #[trigger] is_project()(items[j]) by {}
            lemma_filter_all(items, is_project());
            lemma_filter_concat(head, items, is_project());
            assert(code.filter(is_project()) =~= items);
            assert forall|j: int| 0 <= j < code.len() implies #[trigger] is_body_instruction()(code[j]) by {
                if j >= 1 {
                    assert(code[j] == items[j - 1]);
                }
            }
        } else {
            assert(code.len() == 0);
            lemma_filter_none(code, is_project());
        }
    }
}

/// What a query's body holds.
proof fn lemma_body_holds(q: Query)
    ensures
        body_code(q) matches Ok(code) ==> all_are(code, is_body_instruction()) && match q.body {
            SetExpr::Select(s) => if s.projection@.len() > 0 {
                code.filter(is_project()) == projections_of(s.projection@)
                    && forall|k: int| 0 <= k < s.projection@.len() ==> item_lowers(#[trigger] s.projection@[k])
            } else {
                code.filter(is_project()) == Seq::<Instruction>::empty()
            },
            _ => true,
        },
{
    if let Ok(code) = body_code(q) {
        match q.body {
            SetExpr::Select(s) => {
                let s = *s;
                let before = from_code(s)->Ok_0 + filter_code(s.selection)->Ok_0 + run_steps(
                    group_by_steps(s.group_by@),
                )->Ok_0 + filter_code(s.having)->Ok_0;
                let projection = projection_code(s)->Ok_0;
                lemma_select_prefix(s, before);
                lemma_projection_holds(s);
                assert(code == before + projection);
                lemma_filter_concat(before, projection, is_project());
                assert(code.filter(is_project()) =~= projection.filter(is_project()));
                assert forall|j: int| 0 <= j < code.len() implies #[trigger] is_body_instruction()(code[j]) by {
                    if j < before.len() {
                        assert(code[j] == before[j]);
                    } else {
                        assert(code[j] == projection[j - before.len()]);
                    }
                }
            },
            _ => {
                assert(code.len() == 1);
            },
        }
    }
}

proof fn lemma_limit_holds(out: RegisterIndex, limit: Option<SqlExpr>)
    ensures
        limit_code(out, limit) matches Ok(code) ==> match limit {
            None => code.len() == 0,
            Some(e) => e.literal matches Some(Ok(Value::Int64(n))) && code == seq![
                Instruction::Limit { index: out, limit: n as u64 },
            ],
        },
{
}

/// Keeping the instructions that `p` selects, over four parts.
proof fn lemma_filter4(
    a: Seq<Instruction>,
    b: Seq<Instruction>,
    c: Seq<Instruction>,
    d: Seq<Instruction>,
    p: spec_fn(Instruction) -> bool,
)
    ensures
        (a + b + c + d).filter(p) == a.filter(p) + b.filter(p) + c.filter(p) + d.filter(p),
{
    lemma_filter_concat(a, b, p);
    lemma_filter_concat(a + b, c, p);
    lemma_filter_concat(a + b + c, d, p);
}

/// A query's code: its body, `LIMIT`, `ORDER BY`, then `Return`.
proof fn lemma_query_parts(q: Query) -> (parts: (Seq<Instruction>, Seq<Instruction>, Seq<Instruction>, Seq<Instruction>))
    requires
        query_code(q) is Ok,
    ensures
        query_code(q)->Ok_0 == parts.0 + parts.1 + parts.2 + parts.3,
        body_code(q) == Ok::<Seq<Instruction>, crate::codegen::CodegenError>(parts.0),
        all_are(parts.0, is_body_instruction()),
        limit_code(returned_register(q), q.limit) == Ok::<Seq<Instruction>, crate::codegen::CodegenError>(parts.1),
        parts.1.len() == 0 || (parts.1.len() == 1 && parts.1[0] is Limit),
        parts.2 == orders_of(returned_register(q), q.order_by@),
        forall|k: int| 0 <= k < q.order_by@.len() ==> (#[trigger] q.order_by@[k]).expr.lowered is Ok,
        parts.3 == seq![Instruction::Return { index: returned_register(q) }],
{
    lemma_result_reg(q);
    let out = result_reg(q);
    let body = body_code(q)->Ok_0;
    let limit = limit_code(out, q.limit)->Ok_0;
    let orders = run_steps(order_steps(out, q.order_by@))->Ok_0;
    let tail = seq![Instruction::Return { index: out }];
    lemma_body_holds(q);
    lemma_limit_holds(out, q.limit);
    lemma_order_code(out, q.order_by@);
    (body, limit, orders, tail)
}

proof fn lemma_query_orders(q: Query)
    ensures
        query_code(q) matches Ok(code) ==> code.filter(is_order()) == orders_of(returned_register(q), q.order_by@)
            && forall|k: int| 0 <= k < q.order_by@.len() ==> (#[trigger] q.order_by@[k]).expr.lowered is Ok,
{
    if let Ok(code) = query_code(q) {
        let (body, limit, orders, tail) = lemma_query_parts(q);
        assert forall|j: int| 0 <= j < body.len() implies !#[trigger] is_order()(body[j]) by {
            assert(is_body_instruction()(body[j]));
        }
        lemma_filter_none(body, is_order());
        assert forall|j: int| 0 <= j < limit.len() implies !#[trigger] is_order()(limit[j]) by {}
        lemma_filter_none(limit, is_order());
        assert forall|j: int| 0 <= j < orders.len() implies #[trigger] is_order()(orders[j]) by {}
        lemma_filter_all(orders, is_order());
        assert forall|j: int| 0 <= j < tail.len() implies !#[trigger] is_order()(tail[j]) by {}
        lemma_filter_none(tail, is_order());
        lemma_filter4(body, limit, orders, tail, is_order());
        assert(code.filter(is_order()) =~= orders);
    }
}

proof fn lemma_query_limit(q: Query)
    ensures
        query_code(q) matches Ok(code) ==> match q.limit {
            None => code.filter(is_limit()) == Seq::<Instruction>::empty(),
            Some(e) => e.literal matches Some(Ok(Value::Int64(n))) && code.filter(is_limit())
                == seq![Instruction::Limit { index: returned_register(q), limit: n as u64 }],
        },
{
    if let Ok(code) = query_code(q) {
        let (body, limit, orders, tail) = lemma_query_parts(q);
        lemma_limit_holds(returned_register(q), q.limit);
        assert forall|j: int| 0 <= j < body.len() implies !#[trigger] is_limit()(body[j]) by {
            assert(is_body_instruction()(body[j]));
        }
        lemma_filter_none(body, is_limit());
        assert forall|j: int| 0 <= j < limit.len() implies #[trigger] is_limit()(limit[j]) by {}
        lemma_filter_all(limit, is_limit());
        assert forall|j: int| 0 <= j < orders.len() implies !#[trigger] is_limit()(orders[j]) by {}
        lemma_filter_none(orders, is_limit());
        assert forall|j: int| 0 <= j < tail.len() implies !#[trigger] is_limit()(tail[j]) by {}
        lemma_filter_none(tail, is_limit());
        lemma_filter4(body, limit, orders, tail, is_limit());
        assert(code.filter(is_limit()) =~= limit);
    }
}

proof fn lemma_query_projects(q: Query)
    ensures
        query_code(q) matches Ok(code) ==> (q.body matches SetExpr::Select(s) ==> {
            &&& forall|k: int| 0 <= k < s.projection@.len() ==> item_lowers(#[trigger] s.projection@[k])
            &&& code.filter(is_project()) == projections_of(s.projection@)
        }),
{
    if let Ok(code) = query_code(q) {
        let (body, limit, orders, tail) = lemma_query_parts(q);
        lemma_body_holds(q);
        assert forall|j: int| 0 <= j < limit.len() implies !#[trigger] is_project()(limit[j]) by {}
        lemma_filter_none(limit, is_project());
        assert forall|j: int| 0 <= j < orders.len() implies !#[trigger] is_project()(orders[j]) by {}
        lemma_filter_none(orders, is_project());
        assert forall|j: int| 0 <= j < tail.len() implies !#[trigger] is_project()(tail[j]) by {}
        lemma_filter_none(tail, is_project());
        lemma_filter4(body, limit, orders, tail, is_project());
        assert(code.filter(is_project()) =~= body.filter(is_project()));
        if let SetExpr::Select(s) = q.body {
            if s.projection@.len() == 0 {
                assert(projections_of(s.projection@) =~= Seq::<Instruction>::empty());
            }
        }
    }
}

// ----------------------------------------------------------------------------
// Laws.
// ----------------------------------------------------------------------------

/// A query sorts its result by every `ORDER BY` item, in order: its code holds
/// exactly one `Order` per item, the `k`-th on the result register, by the
/// `k`-th item's lowered expression, descending only where `DESC` is written.
pub proof fn law_one_order_per_order_by_item(ast: Statement)
    ensures
        ast matches Statement::Query(q) ==> (statement_code(ast) matches Ok(code) ==> {
            &&& forall|k: int| 0 <= k < q.order_by@.len() ==> (#[trigger] q.order_by@[k]).expr.lowered is Ok
            &&& code.filter(is_order()) == orders_of(returned_register(*q), q.order_by@)
        }),
{
    if let Statement::Query(q) = ast {
        lemma_query_orders(*q);
    }
}

/// A query keeps its `LIMIT`: with `LIMIT n` for an integer literal `n`, its
/// code holds exactly one `Limit`, of `n` (as an unsigned number) on the result
/// register; with no `LIMIT`, none.
pub proof fn law_limit_kept(ast: Statement)
    ensures
        ast matches Statement::Query(q) ==> (statement_code(ast) matches Ok(code) ==> match q.limit {
            None => code.filter(is_limit()) == Seq::<Instruction>::empty(),
            Some(e) => e.literal matches Some(Ok(Value::Int64(n))) && code.filter(is_limit())
                == seq![Instruction::Limit { index: returned_register(*q), limit: n as u64 }],
        }),
{
    if let Statement::Query(q) = ast {
        lemma_query_limit(*q);
    }
}

/// A `SELECT` projects every item of its list, in order: its code holds
/// exactly one `Project` per item, from register 0 into register 1, with the
/// item's lowered expression (`*` for a wildcard) and alias.
pub proof fn law_one_project_per_select_item(ast: Statement)
    ensures
        ast matches Statement::Query(q) ==> (statement_code(ast) matches Ok(code) ==> (
        q.body matches SetExpr::Select(s) ==> {
            &&& forall|k: int| 0 <= k < s.projection@.len() ==> item_lowers(#[trigger] s.projection@[k])
            &&& code.filter(is_project()) == projections_of(s.projection@)
        })),
{
    if let Statement::Query(q) = ast {
        lemma_query_projects(*q);
    }
}

// ----------------------------------------------------------------------------
// CREATE TABLE.
// ----------------------------------------------------------------------------

/// `ColumnDef` instructions.
pub open spec fn is_column_def() -> spec_fn(Instruction) -> bool {
    |x: Instruction| x is ColumnDef
}

/// `AddColumn` instructions.
pub open spec fn is_add_column() -> spec_fn(Instruction) -> bool {
    |x: Instruction| x is AddColumn
}

/// `AddColumnOption` instructions.
pub open spec fn is_add_column_option() -> spec_fn(Instruction) -> bool {
    |x: Instruction| x is AddColumnOption
}

/// One `ColumnDef` per column, in order, built in register 1.
pub open spec fn column_defs_of(cols: Seq<ColumnDef>) -> Seq<Instruction> {
    Seq::new(
        cols.len(),
        |k: int|
            Instruction::ColumnDef {
                index: RegisterIndex(1),
                name: cols[k].name,
                data_type: cols[k].data_type,
            },
    )
}

/// `n` times adding the column in register 1 to the table in register 0.
pub open spec fn add_columns_of(n: nat) -> Seq<Instruction> {
    Seq::new(
        n,
        |k: int| Instruction::AddColumn { table_reg_index: RegisterIndex(0), col_index: RegisterIndex(1) },
    )
}

/// The options of one column, each added to register 1.
pub open spec fn options_of(col: ColumnDef) -> Seq<Instruction> {
    Seq::new(
        col.options@.len(),
        |k: int| Instruction::AddColumnOption { index: RegisterIndex(1), option: col.options@[k] },
    )
}

/// The options of the columns, column after column.
pub open spec fn all_options_of(cols: Seq<ColumnDef>) -> Seq<Instruction> {
    cols.map_values(|c: ColumnDef| options_of(c)).flatten()
}

proof fn lemma_column_holds(col: ColumnDef)
    ensures
        column_code(col).filter(is_column_def()) == seq![
            Instruction::ColumnDef { index: RegisterIndex(1), name: col.name, data_type: col.data_type },
        ],
        column_code(col).filter(is_add_column()) == add_columns_of(1),
        column_code(col).filter(is_add_column_option()) == options_of(col),
{
    let head = seq![Instruction::ColumnDef { index: reg(1), name: col.name, data_type: col.data_type }];
    let opts = col.options@.map_values(|option| Instruction::AddColumnOption { index: reg(1), option: option });
    let tail = seq![Instruction::AddColumn { table_reg_index: reg(0), col_index: reg(1) }];
    assert(column_code(col) == head + opts + tail);
    assert(opts =~= options_of(col));
    lemma_filter_concat(head, opts, is_column_def());
    lemma_filter_concat(head + opts, tail, is_column_def());
    lemma_filter_concat(head, opts, is_add_column());
    lemma_filter_concat(head + opts, tail, is_add_column());
    lemma_filter_concat(head, opts, is_add_column_option());
    lemma_filter_concat(head + opts, tail, is_add_column_option());
    assert forall|j: int| 0 <= j < head.len() implies #[trigger] is_column_def()(head[j]) by {}
    lemma_filter_all(head, is_column_def());
    assert forall|j: int| 0 <= j < opts.len() implies !#[trigger] is_column_def()(opts[j]) by {}
    lemma_filter_none(opts, is_column_def());
    assert forall|j: int| 0 <= j < tail.len() implies !#[trigger] is_column_def()(tail[j]) by {}
    lemma_filter_none(tail, is_column_def());
    assert forall|j: int| 0 <= j < head.len() implies !#[trigger] is_add_column()(head[j]) by {}
    lemma_filter_none(head, is_add_column());
    assert forall|j: int| 0 <= j < opts.len() implies !#[trigger] is_add_column()(opts[j]) by {}
    lemma_filter_none(opts, is_add_column());
    assert forall|j: int| 0 <= j < tail.len() implies #[trigger] is_add_column()(tail[j]) by {}
    lemma_filter_all(tail, is_add_column());
    assert forall|j: int| 0 <= j < head.len() implies !#[trigger] is_add_column_option()(head[j]) by {}
    lemma_filter_none(head, is_add_column_option());
    assert forall|j: int| 0 <= j < opts.len() implies #[trigger] is_add_column_option()(opts[j]) by {}
    lemma_filter_all(opts, is_add_column_option());
    assert forall|j: int| 0 <= j < tail.len() implies !#[trigger] is_add_column_option()(tail[j]) by {}
    lemma_filter_none(tail, is_add_column_option());
    assert(column_code(col).filter(is_column_def()) =~= head);
    assert(column_code(col).filter(is_add_column()) =~= add_columns_of(1));
    assert(column_code(col).filter(is_add_column_option()) =~= opts);
}

#[verifier::rlimit(80)]
#[verifier::spinoff_prover]
proof fn lemma_columns_column_defs(cols: Seq<ColumnDef>)
    ensures
        columns_code(cols).filter(is_column_def()) == column_defs_of(cols),
    decreases cols.len(),
{
    if cols.len() == 0 {
        lemma_filter_none(columns_code(cols), is_column_def());
        assert(column_defs_of(cols) =~= Seq::<Instruction>::empty());
    } else {
        let init = cols.drop_last();
        let col = cols.last();
        lemma_columns_column_defs(init);
        lemma_column_holds(col);
        lemma_filter_concat(columns_code(init), column_code(col), is_column_def());
        assert(column_defs_of(cols) =~= column_defs_of(init) + seq![
            Instruction::ColumnDef { index: RegisterIndex(1), name: col.name, data_type: col.data_type },
        ]);
    }
}

#[verifier::rlimit(80)]
#[verifier::spinoff_prover]
proof fn lemma_columns_add_columns(cols: Seq<ColumnDef>)
    ensures
        columns_code(cols).filter(is_add_column()) == add_columns_of(cols.len()),
    decreases cols.len(),
{
    if cols.len() == 0 {
        lemma_filter_none(columns_code(cols), is_add_column());
        assert(add_columns_of(0) =~= Seq::<Instruction>::empty());
    } else {
        let init = cols.drop_last();
        let col = cols.last();
        lemma_columns_add_columns(init);
        lemma_column_holds(col);
        lemma_filter_concat(columns_code(init), column_code(col), is_add_column());
        assert(add_columns_of(cols.len()) =~= add_columns_of(init.len()) + add_columns_of(1));
    }
}

#[verifier::rlimit(80)]
#[verifier::spinoff_prover]
proof fn lemma_columns_options(cols: Seq<ColumnDef>)
    ensures
        columns_code(cols).filter(is_add_column_option()) == all_options_of(cols),
    decreases cols.len(),
{
    if cols.len() == 0 {
        lemma_filter_none(columns_code(cols), is_add_column_option());
        assert(cols.map_values(|c: ColumnDef| options_of(c)) =~= Seq::<Seq<Instruction>>::empty());
    } else {
        let init = cols.drop_last();
        let col = cols.last();
        lemma_columns_options(init);
        lemma_column_holds(col);
        lemma_filter_concat(columns_code(init), column_code(col), is_add_column_option());
        let f = |c: ColumnDef| options_of(c);
        assert(cols.map_values(f) =~= init.map_values(f).push(options_of(col)));
        init.map_values(f).lemma_flatten_push(options_of(col));
        assert(all_options_of(cols) =~= all_options_of(init) + options_of(col));
    }
}

// ----------------------------------------------------------------------------
// INSERT.
// ----------------------------------------------------------------------------

/// `RowDef` instructions.
pub open spec fn is_row_def() -> spec_fn(Instruction) -> bool {
    |x: Instruction| x is RowDef
}

/// `AddValue` instructions into register `r`.
pub open spec fn adds_value_to(r: RegisterIndex) -> spec_fn(Instruction) -> bool {
    |x: Instruction| x matches Instruction::AddValue { row_index, .. } && row_index == r
}

/// The register of the `i`-th row of an insertion.
pub open spec fn row_register(i: int) -> RegisterIndex {
    RegisterIndex((i + 2) as usize)
}

/// One row of the insertion in register 1 per `VALUES` row, the `i`-th in
/// register `i + 2`.
pub open spec fn row_defs_of(n: nat) -> Seq<Instruction> {
    Seq::new(
        n,
        |i: int| Instruction::RowDef { insert_index: RegisterIndex(1), row_index: row_register(i) },
    )
}

/// Adding each value of `row`, lowered, in order, to register `r`.
pub open spec fn values_of(r: RegisterIndex, row: Seq<SqlExpr>) -> Seq<Instruction> {
    Seq::new(row.len(), |k: int| Instruction::AddValue { row_index: r, expr: row[k].lowered->Ok_0 })
}

/// One row: its `RowDef`, then its values.
#[verifier::rlimit(50)]
#[verifier::spinoff_prover]
proof fn lemma_row_holds(i: int, row: Seq<SqlExpr>)
    requires
        0 <= i,
        i + 2 <= usize::MAX,
    ensures
        row_code(reg((i + 2) as nat), row) matches Ok(code) ==> {
            &&& code.filter(is_row_def()) == row_defs_of((i + 1) as nat).subrange(i, i + 1)
            &&& forall|m: int| 0 <= m && m + 2 <= usize::MAX ==> #[trigger] code.filter(adds_value_to(row_register(m)))
                == if m == i { values_of(row_register(i), row) } else { Seq::<Instruction>::empty() }
            &&& forall|k: int| 0 <= k < row.len() ==> (#[trigger] row[k]).lowered is Ok
        },
{
    let r = reg((i + 2) as nat);
    let steps = add_value_steps(r, row);
    let expected = values_of(r, row);
    assert forall|k: int| 0 <= k < steps.len() && #[trigger] steps[k] is Ok implies steps[k] == Ok::<
        Seq<Instruction>,
        crate::codegen::CodegenError,
    >(seq![expected[k]]) by {
        assert(steps[k] == add_value_step(r, row[k]));
    }
    lemma_run_steps_singletons(steps, expected);
    lemma_run_steps_each_ok(steps);
    if let Ok(code) = row_code(r, row) {
        assert forall|k: int| 0 <= k < row.len() implies (#[trigger] row[k]).lowered is Ok by {
            assert(steps[k] is Ok);
            assert(steps[k] == add_value_step(r, row[k]));
        }
        let head = seq![Instruction::RowDef { insert_index: reg(1), row_index: r }];
        assert(code == head + expected);
        lemma_filter_concat(head, expected, is_row_def());
        assert forall|j: int| 0 <= j < head.len() implies #[trigger] is_row_def()(head[j]) by {}
        lemma_filter_all(head, is_row_def());
        assert forall|j: int| 0 <= j < expected.len() implies !#[trigger] is_row_def()(expected[j]) by {}
        lemma_filter_none(expected, is_row_def());
        assert(code.filter(is_row_def()) =~= row_defs_of((i + 1) as nat).subrange(i, i + 1));
        assert forall|m: int| 0 <= m && m + 2 <= usize::MAX implies #[trigger] code.filter(adds_value_to(row_register(m)))
            == if m == i { values_of(row_register(i), row) } else { Seq::<Instruction>::empty() } by {
            let p = adds_value_to(row_register(m));
            lemma_filter_concat(head, expected, p);
            assert forall|j: int| 0 <= j < head.len() implies !#[trigger] p(head[j]) by {}
            lemma_filter_none(head, p);
            if m == i {
                assert forall|j: int| 0 <= j < expected.len() implies #[trigger] p(expected[j]) by {}
                lemma_filter_all(expected, p);
                assert(code.filter(p) =~= expected);
            } else {
                assert(row_register(m).0 != r.0);
                assert forall|j: int| 0 <= j < expected.len() implies !#[trigger] p(expected[j]) by {}
                lemma_filter_none(expected, p);
                assert(code.filter(p) =~= Seq::<Instruction>::empty());
            }
        }
    }
}

/// The first `m` rows of an insertion: their `RowDef`s and their values.
#[verifier::rlimit(50)]
#[verifier::spinoff_prover]
proof fn lemma_rows_hold(rows: Seq<Vec<SqlExpr>>, m: int)
    requires
        0 <= m <= rows.len(),
        rows.len() + 2 <= usize::MAX,
    ensures
        run_steps(rows_steps(rows).take(m)) matches Ok(code) ==> {
            &&& code.filter(is_row_def()) == row_defs_of(m as nat)
            &&& forall|i: int| 0 <= i < rows.len() ==> #[trigger] code.filter(adds_value_to(row_register(i)))
                == if i < m { values_of(row_register(i), rows[i]@) } else { Seq::<Instruction>::empty() }
            &&& forall|i: int, k: int| 0 <= i < m && 0 <= k < rows[i]@.len() ==> (#[trigger] rows[i]@[k]).lowered is Ok
        },
    decreases m,
{
    let steps = rows_steps(rows);
    if m == 0 {
        if let Ok(code) = run_steps(steps.take(m)) {
            assert(code.len() == 0);
            lemma_filter_none(code, is_row_def());
            assert(row_defs_of(0) =~= Seq::<Instruction>::empty());
            assert forall|i: int| 0 <= i < rows.len() implies #[trigger] code.filter(adds_value_to(row_register(i)))
                == Seq::<Instruction>::empty() by {
                lemma_filter_none(code, adds_value_to(row_register(i)));
            }
        }
    } else {
        lemma_rows_hold(rows, m - 1);
        lemma_run_steps_take_next(steps, m - 1);
        if let Ok(code) = run_steps(steps.take(m)) {
            let prev = run_steps(steps.take(m - 1))->Ok_0;
            let row = rows[m - 1]@;
            assert(steps[m - 1] == row_code(reg((m - 1 + 2) as nat), row));
            let this = steps[m - 1]->Ok_0;
            assert(code == prev + this);
            lemma_row_holds(m - 1, row);
            lemma_filter_concat(prev, this, is_row_def());
            assert(row_defs_of(m as nat) =~= row_defs_of((m - 1) as nat) + row_defs_of(m as nat).subrange(m - 1, m));
            assert forall|i: int| 0 <= i < rows.len() implies #[trigger] code.filter(adds_value_to(row_register(i)))
                == if i < m { values_of(row_register(i), rows[i]@) } else { Seq::<Instruction>::empty() } by {
                lemma_filter_concat(prev, this, adds_value_to(row_register(i)));
                assert(this.filter(adds_value_to(row_register(i))) == if i == m - 1 {
                    values_of(row_register(m - 1), row)
                } else {
                    Seq::<Instruction>::empty()
                });
                if i < m - 1 {
                    assert(code.filter(adds_value_to(row_register(i))) =~= values_of(row_register(i), rows[i]@));
                } else if i == m - 1 {
                    assert(code.filter(adds_value_to(row_register(i))) =~= values_of(row_register(i), rows[i]@));
                } else {
                    assert(code.filter(adds_value_to(row_register(i))) =~= Seq::<Instruction>::empty());
                }
            }
        }
    }
}

// ----------------------------------------------------------------------------
// Laws of CREATE TABLE and INSERT.
// ----------------------------------------------------------------------------

/// `CREATE TABLE` defines every column, in order, with every option: its code
/// holds exactly one `ColumnDef` per column (with the column's name and type)
/// and one `AddColumn` per column, and its `AddColumnOption`s are the options
/// of the columns, column after column, whatever options a column has.
#[verifier::spinoff_prover]
pub proof fn law_every_column_defined(ast: Statement)
    ensures
        ast matches Statement::CreateTable { columns, .. } ==> (statement_code(ast) matches Ok(code) ==> {
            &&& code.filter(is_column_def()) == column_defs_of(columns@)
            &&& code.filter(is_add_column()) == add_columns_of(columns@.len())
            &&& code.filter(is_add_column_option()) == all_options_of(columns@)
        }),
{
    if let Statement::CreateTable { if_not_exists, name, columns } = ast {
        if let Ok(code) = statement_code(ast) {
            let cols = columns@;
            let head = seq![Instruction::Empty { index: reg(0) }];
            let body = columns_code(cols);
            let tail = code.subrange((1 + body.len()) as int, code.len() as int);
            assert(code =~= head + body + tail);
            assert(tail.len() == 1 && tail[0] is NewTable);
            lemma_columns_column_defs(cols);
            lemma_columns_add_columns(cols);
            lemma_columns_options(cols);
            let ps = seq![is_column_def(), is_add_column(), is_add_column_option()];
            assert forall|n: int| 0 <= n < 3 implies #[trigger] code.filter(ps[n]) == body.filter(ps[n]) by {
                let p = ps[n];
                lemma_filter_concat(head, body, p);
                lemma_filter_concat(head + body, tail, p);
                assert forall|j: int| 0 <= j < head.len() implies !#[trigger] p(head[j]) by {}
                lemma_filter_none(head, p);
                assert forall|j: int| 0 <= j < tail.len() implies !#[trigger] p(tail[j]) by {}
                lemma_filter_none(tail, p);
                assert(code.filter(p) =~= body.filter(p));
            }
            assert(code.filter(ps[0]) == body.filter(ps[0]));
            assert(code.filter(ps[1]) == body.filter(ps[1]));
            assert(code.filter(ps[2]) == body.filter(ps[2]));
        }
    }
}

/// Keeping the instructions that `p` selects from code that has none of them
/// before and after `body`.
proof fn lemma_filter_middle(
    head: Seq<Instruction>,
    body: Seq<Instruction>,
    tail: Seq<Instruction>,
    p: spec_fn(Instruction) -> bool,
)
    requires
        forall|j: int| 0 <= j < head.len() ==> !#[trigger] p(head[j]),
        forall|j: int| 0 <= j < tail.len() ==> !#[trigger] p(tail[j]),
    ensures
        (head + body + tail).filter(p) == body.filter(p),
{
    lemma_filter_concat(head, body, p);
    lemma_filter_concat(head + body, tail, p);
    lemma_filter_none(head, p);
    lemma_filter_none(tail, p);
    assert((head + body + tail).filter(p) =~= body.filter(p));
}

/// Code without `AddValue` instructions adds no value to any register.
proof fn lemma_no_add_value(code: Seq<Instruction>, r: RegisterIndex)
    requires
        forall|j: int| 0 <= j < code.len() ==> !(#[trigger] code[j] is AddValue),
    ensures
        forall|j: int| 0 <= j < code.len() ==> !#[trigger] adds_value_to(r)(code[j]),
{
    assert forall|j: int| 0 <= j < code.len() implies !#[trigger] adds_value_to(r)(code[j]) by {
        assert(!(code[j] is AddValue));
    }
}

/// The head of an insertion holds no row and no value.
proof fn lemma_insert_head_kinds(t: crate::identifier::TableRef, columns: Seq<String>)
    ensures
        forall|j: int| 0 <= j < insert_head(t, columns).len() ==> !(#[trigger] insert_head(t, columns)[j] is AddValue)
            && !(insert_head(t, columns)[j] is RowDef),
{
    let head = insert_head(t, columns);
    assert forall|j: int| 0 <= j < head.len() implies !(#[trigger] head[j] is AddValue) && !(head[j] is RowDef) by {
        if j >= 2 {
            assert(head[j] == Instruction::ColumnInsertDef { insert_index: reg(1), col_name: columns[j - 2] });
        }
    }
}

/// `INSERT ... VALUES` inserts every row with every value: its code holds
/// exactly one `RowDef` per row, the `i`-th building the row in register
/// `i + 2`, and that row receives exactly the values of the `i`-th `VALUES`
/// row, lowered, in order, whatever they are.
pub proof fn law_every_row_and_value_inserted(ast: Statement)
    requires
        crate::codegen::registers_needed(ast) <= usize::MAX,
    ensures
        ast matches Statement::Insert { source, .. } ==> (statement_code(ast) matches Ok(code) ==> (
        source.body matches SetExpr::Values(values) ==> {
            &&& code.filter(is_row_def()) == row_defs_of(values.rows@.len())
            &&& forall|i: int| 0 <= i < values.rows@.len() ==> #[trigger] code.filter(
                adds_value_to(row_register(i)),
            ) == values_of(row_register(i), values.rows@[i]@)
            &&& forall|i: int, k: int| 0 <= i < values.rows@.len() && 0 <= k < values.rows@[i]@.len()
                ==> (#[trigger] values.rows@[i]@[k]).lowered is Ok
        })),
{
    if let Statement::Insert { table_name, columns, source, sql } = ast {
        if let Ok(code) = statement_code(ast) {
            if let SetExpr::Values(values) = source.body {
                let rows = values.rows@;
                let n = rows.len();
                let t = crate::codegen::table_name(table_name)->Ok_0;
                let head = insert_head(t, columns@);
                let steps = rows_steps(rows);
                let body = run_steps(steps)->Ok_0;
                let tail = seq![Instruction::Insert { index: reg(1) }];
                assert(code == head + body + tail);
                lemma_rows_hold(rows, n as int);
                assert(steps.take(n as int) =~= steps);
                lemma_insert_head_kinds(t, columns@);
                assert forall|j: int| 0 <= j < head.len() implies !#[trigger] is_row_def()(head[j]) by {}
                assert forall|j: int| 0 <= j < tail.len() implies !#[trigger] is_row_def()(tail[j]) by {}
                lemma_filter_middle(head, body, tail, is_row_def());
                assert forall|i: int| 0 <= i < n implies #[trigger] code.filter(adds_value_to(row_register(i)))
                    == values_of(row_register(i), rows[i]@) by {
                    lemma_no_add_value(head, row_register(i));
                    lemma_no_add_value(tail, row_register(i));
                    lemma_filter_middle(head, body, tail, adds_value_to(row_register(i)));
                }
            }
        }
    }
}

// ----------------------------------------------------------------------------
// The table, WHERE, GROUP BY and HAVING of a SELECT.
// ----------------------------------------------------------------------------

/// `Filter` instructions.
pub open spec fn is_filter() -> spec_fn(Instruction) -> bool {
    |x: Instruction| x is Filter
}

/// `Source` instructions.
pub open spec fn is_source() -> spec_fn(Instruction) -> bool {
    |x: Instruction| x is Source
}

/// A filter of the table in register 0 by `e`, lowered, where there is one.
pub open spec fn filter_of(e: Option<SqlExpr>) -> Seq<Instruction> {
    match e {
        None => Seq::empty(),
        Some(e) => seq![Instruction::Filter { index: RegisterIndex(0), expr: e.lowered->Ok_0 }],
    }
}

/// One `GroupBy` of the table in register 0 per expression, lowered, in order.
pub open spec fn group_bys_of(exprs: Seq<SqlExpr>) -> Seq<Instruction> {
    Seq::new(exprs.len(), |k: int| Instruction::GroupBy { index: RegisterIndex(0), expr: exprs[k].lowered->Ok_0 })
}

/// The instructions of the table, `WHERE`, `GROUP BY` and `HAVING` of a `SELECT`.
pub open spec fn is_select_clause() -> spec_fn(Instruction) -> bool {
    |x: Instruction| x is Source || x is Filter || x is GroupBy
}

proof fn lemma_group_by_holds(exprs: Seq<SqlExpr>)
    ensures
        run_steps(group_by_steps(exprs)) matches Ok(code) ==> code == group_bys_of(exprs),
{
    let steps = group_by_steps(exprs);
    let expected = group_bys_of(exprs);
    assert forall|k: int| 0 <= k < steps.len() && #[trigger] steps[k] is Ok implies steps[k] == Ok::<
        Seq<Instruction>,
        crate::codegen::CodegenError,
    >(seq![expected[k]]) by {
        assert(steps[k] == group_by_step(exprs[k]));
    }
    lemma_run_steps_singletons(steps, expected);
}

/// Keeping the instructions that `p` selects, over five parts.
proof fn lemma_filter5(
    a: Seq<Instruction>,
    b: Seq<Instruction>,
    c: Seq<Instruction>,
    d: Seq<Instruction>,
    e: Seq<Instruction>,
    p: spec_fn(Instruction) -> bool,
)
    ensures
        (a + b + c + d + e).filter(p) == a.filter(p) + b.filter(p) + c.filter(p) + d.filter(p) + e.filter(p),
{
    lemma_filter4(a, b, c, d, p);
    lemma_filter_concat(a + b + c + d, e, p);
}

/// Whether `p` selects no instruction of `code`.
pub open spec fn none_are(code: Seq<Instruction>, p: spec_fn(Instruction) -> bool) -> bool {
    forall|j: int| 0 <= j < code.len() ==> !#[trigger] p(code[j])
}

/// A successful `SELECT`: its table, `WHERE`, `GROUP BY`, `HAVING` and
/// projection, in order.
proof fn lemma_select_parts(s: crate::ast::Select) -> (parts: (
    Seq<Instruction>,
    Seq<Instruction>,
    Seq<Instruction>,
    Seq<Instruction>,
    Seq<Instruction>,
))
    requires
        select_code(s) is Ok,
    ensures
        select_code(s)->Ok_0 == parts.0 + parts.1 + parts.2 + parts.3 + parts.4,
        s.from@.len() == 1 && s.from@[0].joins@.len() == 0,
        s.from@[0].relation matches crate::ast::TableFactor::Table { name } && parts.0 == seq![
            Instruction::Source {
                index: RegisterIndex(0),
                name: crate::identifier::spec_table_ref(name)->Ok_0,
            },
        ],
        parts.1 == filter_of(s.selection),
        parts.2 == group_bys_of(s.group_by@),
        parts.3 == filter_of(s.having),
        none_are(parts.4, is_select_clause()),
{
    let from = from_code(s)->Ok_0;
    let selection = filter_code(s.selection)->Ok_0;
    let group_by = run_steps(group_by_steps(s.group_by@))->Ok_0;
    let having = filter_code(s.having)->Ok_0;
    let projection = projection_code(s)->Ok_0;
    lemma_group_by_holds(s.group_by@);
    lemma_projection_items(s.projection@);
    assert forall|j: int| 0 <= j < projection.len() implies !#[trigger] is_select_clause()(projection[j]) by {
        if s.projection@.len() > 0 {
            let items = run_steps(project_steps(s.projection@))->Ok_0;
            assert(projection =~= seq![Instruction::Empty { index: reg(1) }] + items);
            if j >= 1 {
                assert(projection[j] == items[j - 1]);
            }
        }
    }
    (from, selection, group_by, having, projection)
}

proof fn lemma_select_source(s: crate::ast::Select)
    ensures
        select_code(s) matches Ok(code) ==> s.from@.len() == 1 && s.from@[0].joins@.len() == 0 && (
        s.from@[0].relation matches crate::ast::TableFactor::Table { name } && code.filter(is_source())
            == seq![
            Instruction::Source {
                index: RegisterIndex(0),
                name: crate::identifier::spec_table_ref(name)->Ok_0,
            },
        ]),
{
    if let Ok(code) = select_code(s) {
        let (from, selection, group_by, having, projection) = lemma_select_parts(s);
        let p = is_source();
        lemma_filter5(from, selection, group_by, having, projection, p);
        lemma_filter_all(from, p);
        assert(none_are(selection, p));
        lemma_filter_none(selection, p);
        assert(none_are(group_by, p));
        lemma_filter_none(group_by, p);
        assert(none_are(having, p));
        lemma_filter_none(having, p);
        assert forall|j: int| 0 <= j < projection.len() implies !#[trigger] p(projection[j]) by {
            assert(!is_select_clause()(projection[j]));
        }
        lemma_filter_none(projection, p);
        assert(code.filter(p) =~= from);
    }
}

proof fn lemma_select_filters(s: crate::ast::Select)
    ensures
        select_code(s) matches Ok(code) ==> code.filter(is_filter()) == filter_of(s.selection) + filter_of(s.having),
{
    if let Ok(code) = select_code(s) {
        let (from, selection, group_by, having, projection) = lemma_select_parts(s);
        let p = is_filter();
        lemma_filter5(from, selection, group_by, having, projection, p);
        assert(none_are(from, p));
        lemma_filter_none(from, p);
        lemma_filter_all(selection, p);
        assert(none_are(group_by, p));
        lemma_filter_none(group_by, p);
        lemma_filter_all(having, p);
        assert forall|j: int| 0 <= j < projection.len() implies !#[trigger] p(projection[j]) by {
            assert(!is_select_clause()(projection[j]));
        }
        lemma_filter_none(projection, p);
        assert(code.filter(p) =~= selection + having);
    }
}

proof fn lemma_select_group_bys(s: crate::ast::Select)
    ensures
        select_code(s) matches Ok(code) ==> code.filter(is_group_by()) == group_bys_of(s.group_by@),
{
    if let Ok(code) = select_code(s) {
        let (from, selection, group_by, having, projection) = lemma_select_parts(s);
        let p = is_group_by();
        lemma_filter5(from, selection, group_by, having, projection, p);
        assert(none_are(from, p));
        lemma_filter_none(from, p);
        assert(none_are(selection, p));
        lemma_filter_none(selection, p);
        lemma_filter_all(group_by, p);
        assert(none_are(having, p));
        lemma_filter_none(having, p);
        assert forall|j: int| 0 <= j < projection.len() implies !#[trigger] p(projection[j]) by {
            assert(!is_select_clause()(projection[j]));
        }
        lemma_filter_none(projection, p);
        assert(code.filter(p) =~= group_by);
    }
}

/// The instructions of a query's table, `WHERE`, `GROUP BY` and `HAVING` are
/// those of its body.
proof fn lemma_query_select_kind(q: Query, p: spec_fn(Instruction) -> bool)
    requires
        query_code(q) is Ok,
        forall|x: Instruction| #[trigger] p(x) ==> is_select_clause()(x),
    ensures
        query_code(q)->Ok_0.filter(p) == body_code(q)->Ok_0.filter(p),
{
    let (body, limit, orders, tail) = lemma_query_parts(q);
    lemma_filter4(body, limit, orders, tail, p);
    assert forall|j: int| 0 <= j < limit.len() implies !#[trigger] p(limit[j]) by {
        if p(limit[j]) {
            assert(is_select_clause()(limit[j]));
        }
    }
    lemma_filter_none(limit, p);
    assert forall|j: int| 0 <= j < orders.len() implies !#[trigger] p(orders[j]) by {
        if p(orders[j]) {
            assert(is_select_clause()(orders[j]));
        }
    }
    lemma_filter_none(orders, p);
    assert forall|j: int| 0 <= j < tail.len() implies !#[trigger] p(tail[j]) by {
        if p(tail[j]) {
            assert(is_select_clause()(tail[j]));
        }
    }
    lemma_filter_none(tail, p);
    assert(query_code(q)->Ok_0.filter(p) =~= body.filter(p));
}

/// A `SELECT` reads its one table and keeps its `WHERE`, every `GROUP BY`
/// expression and its `HAVING`: its code holds exactly one `Source`, of the
/// named table into register 0; exactly the `WHERE` filter and then the
/// `HAVING` filter, each lowered, where written; and one `GroupBy` per
/// `GROUP BY` expression, lowered, in order.
pub proof fn law_select_clauses_kept(ast: Statement)
    ensures
        ast matches Statement::Query(q) ==> (statement_code(ast) matches Ok(code) ==> (
        q.body matches SetExpr::Select(s) ==> {
            &&& s.from@.len() == 1 && s.from@[0].joins@.len() == 0
            &&& s.from@[0].relation matches crate::ast::TableFactor::Table { name } && code.filter(is_source())
                == seq![
                Instruction::Source {
                    index: RegisterIndex(0),
                    name: crate::identifier::spec_table_ref(name)->Ok_0,
                },
            ]
            &&& code.filter(is_filter()) == filter_of(s.selection) + filter_of(s.having)
            &&& code.filter(is_group_by()) == group_bys_of(s.group_by@)
        })),
{
    if let Statement::Query(q) = ast {
        if let Ok(code) = statement_code(ast) {
            if let SetExpr::Select(s) = q.body {
                assert(body_code(*q) == select_code(*s));
                lemma_select_source(*s);
                lemma_select_filters(*s);
                lemma_select_group_bys(*s);
                lemma_query_select_kind(*q, is_source());
                lemma_query_select_kind(*q, is_filter());
                lemma_query_select_kind(*q, is_group_by());
            }
        }
    }
}

// ----------------------------------------------------------------------------
// The columns that an insertion names, and a single selected value.
// ----------------------------------------------------------------------------

/// `ColumnInsertDef` instructions.
pub open spec fn is_column_insert_def() -> spec_fn(Instruction) -> bool {
    |x: Instruction| x is ColumnInsertDef
}

/// The instructions of the rows of an insertion.
pub open spec fn is_row_part() -> spec_fn(Instruction) -> bool {
    |x: Instruction| x is RowDef || x is AddValue
}

/// `AddValue` instructions.
pub open spec fn is_add_value() -> spec_fn(Instruction) -> bool {
    |x: Instruction| x is AddValue
}

/// One `ColumnInsertDef` per named column, in order, for the insertion in register 1.
pub open spec fn column_inserts_of(columns: Seq<String>) -> Seq<Instruction> {
    Seq::new(
        columns.len(),
        |k: int| Instruction::ColumnInsertDef { insert_index: RegisterIndex(1), col_name: columns[k] },
    )
}

proof fn lemma_rows_kinds(rows: Seq<Vec<SqlExpr>>)
    ensures
        run_steps(rows_steps(rows)) matches Ok(code) ==> all_are(code, is_row_part()),
{
    let steps = rows_steps(rows);
    assert forall|i: int| 0 <= i < steps.len() implies (#[trigger] steps[i] matches Ok(c) ==> all_are(c, is_row_part())) by {
        let r = reg((i + 2) as nat);
        let row = rows[i]@;
        let value_steps = add_value_steps(r, row);
        assert forall|k: int| 0 <= k < value_steps.len() implies (#[trigger] value_steps[k] matches Ok(c)
            ==> all_are(c, is_add_value())) by {
            assert(value_steps[k] == add_value_step(r, row[k]));
        }
        lemma_run_steps_all_are(value_steps, is_add_value());
        if let Ok(c) = steps[i] {
            assert(steps[i] == row_code(r, row));
            let values = run_steps(value_steps)->Ok_0;
            assert(c == seq![Instruction::RowDef { insert_index: reg(1), row_index: r }] + values);
            assert forall|j: int| 0 <= j < c.len() implies #[trigger] is_row_part()(c[j]) by {
                if j >= 1 {
                    assert(c[j] == values[j - 1]);
                    assert(is_add_value()(values[j - 1]));
                }
            }
        }
    }
    lemma_run_steps_all_are(steps, is_row_part());
}

/// A successful `INSERT ... VALUES`: the table and the insertion, the named
/// columns, the rows, then `Insert`.
#[verifier::spinoff_prover]
proof fn lemma_insert_parts(ast: Statement) -> (parts: (
    Seq<Instruction>,
    Seq<Instruction>,
    Seq<Instruction>,
    Seq<Instruction>,
))
    requires
        ast is Insert,
        statement_code(ast) is Ok,
    ensures
        statement_code(ast)->Ok_0 == parts.0 + parts.1 + parts.2 + parts.3,
        ast matches Statement::Insert { table_name, columns, .. } && parts.0 == seq![
            Instruction::Source {
                index: RegisterIndex(0),
                name: crate::identifier::spec_table_ref(table_name)->Ok_0,
            },
            Instruction::InsertDef { table_reg_index: RegisterIndex(0), index: RegisterIndex(1) },
        ] && parts.1 == column_inserts_of(columns@),
        all_are(parts.2, is_row_part()),
        parts.3 == seq![Instruction::Insert { index: RegisterIndex(1) }],
{
    let empty = Seq::<Instruction>::empty();
    match ast {
        Statement::Insert { table_name, columns, source, sql } => match source.body {
            SetExpr::Values(values) => {
                let t = crate::codegen::table_name(table_name)->Ok_0;
                let head = insert_head(t, columns@);
                let body = run_steps(rows_steps(values.rows@))->Ok_0;
                let tail = seq![Instruction::Insert { index: reg(1) }];
                let pre = seq![
                    Instruction::Source { index: reg(0), name: t },
                    Instruction::InsertDef { table_reg_index: reg(0), index: reg(1) },
                ];
                let cols = columns@.map_values(
                    |c: String| Instruction::ColumnInsertDef { insert_index: reg(1), col_name: c },
                );
                assert(head == pre + cols);
                assert(cols =~= column_inserts_of(columns@));
                lemma_rows_kinds(values.rows@);
                (pre, cols, body, tail)
            },
            _ => (empty, empty, empty, empty),
        },
        _ => (empty, empty, empty, empty),
    }
}

/// `INSERT` names the table and every column it fills: its code starts the
/// insertion in register 1 on the named table, and holds exactly one
/// `ColumnInsertDef` per named column, in order.
pub proof fn law_insert_columns_named(ast: Statement)
    ensures
        ast matches Statement::Insert { table_name, columns, .. } ==> (statement_code(ast) matches Ok(code) ==> {
            &&& code.filter(is_column_insert_def()) == column_inserts_of(columns@)
            &&& code.len() >= 2 && code[0] == Instruction::Source {
                index: RegisterIndex(0),
                name: crate::identifier::spec_table_ref(table_name)->Ok_0,
            } && code[1] == Instruction::InsertDef { table_reg_index: RegisterIndex(0), index: RegisterIndex(1) }
        }),
{
    if ast is Insert && statement_code(ast) is Ok {
        let code = statement_code(ast)->Ok_0;
        let (pre, cols, body, tail) = lemma_insert_parts(ast);
        let p = is_column_insert_def();
        assert forall|j: int| 0 <= j < body.len() implies !#[trigger] p(body[j]) by {
            assert(is_row_part()(body[j]));
        }
        lemma_filter_none(body, p);
        assert forall|j: int| 0 <= j < pre.len() implies !#[trigger] p(pre[j]) by {}
        lemma_filter_none(pre, p);
        assert forall|j: int| 0 <= j < cols.len() implies #[trigger] p(cols[j]) by {}
        lemma_filter_all(cols, p);
        assert forall|j: int| 0 <= j < tail.len() implies !#[trigger] p(tail[j]) by {}
        lemma_filter_none(tail, p);
        lemma_filter4(pre, cols, body, tail, p);
        assert(code.filter(p) =~= cols);
        assert(code[0] == pre[0]);
        assert(code[1] == pre[1]);
    }
}

/// `SELECT` of a single value puts that value, lowered, in register 0.
pub proof fn law_single_value_selected(ast: Statement)
    ensures
        ast matches Statement::Query(q) ==> (statement_code(ast) matches Ok(code) ==> (
        q.body matches SetExpr::Values(values) ==> {
            &&& values.rows@.len() == 1 && values.rows@[0]@.len() == 1
            &&& code[0] == Instruction::Expr { index: RegisterIndex(0), expr: values.rows@[0]@[0].lowered->Ok_0 }
        })),
{
    if let Statement::Query(q) = ast {
        if let Ok(code) = statement_code(ast) {
            if let SetExpr::Values(values) = q.body {
                let (body, limit, orders, tail) = lemma_query_parts(*q);
                assert(code[0] == body[0]);
            }
        }
    }
}

// ----------------------------------------------------------------------------
// When generation succeeds.
// ----------------------------------------------------------------------------

/// Whether an expression lowers.
pub open spec fn lowers(e: SqlExpr) -> bool {
    e.lowered is Ok
}

/// Whether a name denotes a table: `table` or `schema.table`.
pub open spec fn names_table(name: crate::ast::ObjectName) -> bool {
    1 <= name.parts@.len() <= 2
}

/// Whether a `LIMIT` is absent or an integer literal.
pub open spec fn limit_supported(limit: Option<SqlExpr>) -> bool {
    match limit {
        None => true,
        Some(e) => e.literal matches Some(Ok(Value::Int64(_))),
    }
}

/// Whether a `SELECT` has a lowering: one named table without joins, lowering
/// `WHERE`, `GROUP BY` and `HAVING` expressions, a list of lowering items
/// without qualified wildcards, and no `DISTINCT` with a list.
pub open spec fn select_supported(s: crate::ast::Select) -> bool {
    &&& s.from@.len() == 1
    &&& s.from@[0].joins@.len() == 0
    &&& s.from@[0].relation matches crate::ast::TableFactor::Table { name } && names_table(name)
    &&& s.selection matches Some(e) ==> lowers(e)
    &&& forall|k: int| 0 <= k < s.group_by@.len() ==> lowers(#[trigger] s.group_by@[k])
    &&& s.having matches Some(e) ==> lowers(e)
    &&& forall|k: int| 0 <= k < s.projection@.len() ==> item_lowers(#[trigger] s.projection@[k])
    &&& s.projection@.len() > 0 ==> !s.distinct
}

/// Whether a query has a lowering: a supported `SELECT` or a single value
/// that lowers, a supported `LIMIT`, and lowering `ORDER BY` expressions.
pub open spec fn query_supported(q: Query) -> bool {
    &&& match q.body {
        SetExpr::Select(s) => select_supported(*s),
        SetExpr::Values(values) => values.rows@.len() == 1 && values.rows@[0]@.len() == 1 && lowers(
            values.rows@[0]@[0],
        ),
        _ => false,
    }
    &&& limit_supported(q.limit)
    &&& forall|k: int| 0 <= k < q.order_by@.len() ==> lowers(#[trigger] q.order_by@[k].expr)
}

/// Whether a statement has a lowering.
pub open spec fn statement_supported(ast: Statement) -> bool {
    match ast {
        Statement::CreateTable { name, .. } => names_table(name),
        Statement::Insert { table_name, source, .. } => names_table(table_name) && (
        source.body matches SetExpr::Values(values) && forall|i: int, k: int|
            0 <= i < values.rows@.len() && 0 <= k < values.rows@[i]@.len() ==> lowers(
            #[trigger] values.rows@[i]@[k],
        )),
        Statement::Query(q) => query_supported(*q),
        Statement::CreateSchema { schema_name, .. } => schema_name.parts@.len() == 1,
        Statement::Other { .. } => false,
    }
}

/// A run of steps succeeds exactly when each step does.
pub proof fn lemma_run_steps_ok_iff(steps: Seq<CodeOutcome>)
    ensures
        run_steps(steps) is Ok <==> forall|k: int| 0 <= k < steps.len() ==> #[trigger] steps[k] is Ok,
    decreases steps.len(),
{
    lemma_run_steps_each_ok(steps);
    if steps.len() > 0 {
        let init = steps.drop_last();
        lemma_run_steps_ok_iff(init);
        if forall|k: int| 0 <= k < steps.len() ==> #[trigger] steps[k] is Ok {
            assert forall|k: int| 0 <= k < init.len() implies #[trigger] init[k] is Ok by {
                assert(init[k] == steps[k]);
            }
            assert(steps[steps.len() - 1] is Ok);
            assert(steps[steps.len() - 1] == steps.last());
        }
    }
}

proof fn lemma_select_ok(s: crate::ast::Select)
    ensures
        select_code(s) is Ok <==> select_supported(s),
{
    let g = group_by_steps(s.group_by@);
    let p = project_steps(s.projection@);
    lemma_run_steps_ok_iff(g);
    lemma_run_steps_ok_iff(p);
    if forall|k: int| 0 <= k < g.len() ==> #[trigger] g[k] is Ok {
        assert forall|k: int| 0 <= k < s.group_by@.len() implies lowers(#[trigger] s.group_by@[k]) by {
            assert(g[k] is Ok);
            assert(g[k] == group_by_step(s.group_by@[k]));
        }
    }
    if forall|k: int| 0 <= k < s.group_by@.len() ==> lowers(#[trigger] s.group_by@[k]) {
        assert forall|k: int| 0 <= k < g.len() implies #[trigger] g[k] is Ok by {
            assert(lowers(s.group_by@[k]));
            assert(g[k] == group_by_step(s.group_by@[k]));
        }
    }
    if forall|k: int| 0 <= k < p.len() ==> #[trigger] p[k] is Ok {
        assert forall|k: int| 0 <= k < s.projection@.len() implies item_lowers(#[trigger] s.projection@[k]) by {
            assert(p[k] is Ok);
            assert(p[k] == project_step(s.projection@[k]));
        }
    }
    if forall|k: int| 0 <= k < s.projection@.len() ==> item_lowers(#[trigger] s.projection@[k]) {
        assert forall|k: int| 0 <= k < p.len() implies #[trigger] p[k] is Ok by {
            assert(item_lowers(s.projection@[k]));
            assert(p[k] == project_step(s.projection@[k]));
        }
    }
}

proof fn lemma_query_ok(q: Query)
    ensures
        query_code(q) is Ok <==> query_supported(q),
{
    lemma_result_reg(q);
    let o = order_steps(result_reg(q), q.order_by@);
    lemma_run_steps_ok_iff(o);
    if forall|k: int| 0 <= k < o.len() ==> #[trigger] o[k] is Ok {
        assert forall|k: int| 0 <= k < q.order_by@.len() implies lowers(#[trigger] q.order_by@[k].expr) by {
            assert(o[k] is Ok);
            assert(o[k] == order_step(result_reg(q), q.order_by@[k]));
        }
    }
    if forall|k: int| 0 <= k < q.order_by@.len() ==> lowers(#[trigger] q.order_by@[k].expr) {
        assert forall|k: int| 0 <= k < o.len() implies #[trigger] o[k] is Ok by {
            assert(lowers(q.order_by@[k].expr));
            assert(o[k] == order_step(result_reg(q), q.order_by@[k]));
        }
    }
    if let SetExpr::Select(s) = q.body {
        lemma_select_ok(*s);
    }
}

proof fn lemma_insert_ok(ast: Statement)
    requires
        ast is Insert,
    ensures
        statement_code(ast) is Ok <==> statement_supported(ast),
{
    if let Statement::Insert { table_name, columns, source, sql } = ast {
        if let SetExpr::Values(values) = source.body {
            let rows = values.rows@;
            let steps = rows_steps(rows);
            lemma_run_steps_ok_iff(steps);
            if statement_supported(ast) {
                assert forall|i: int| 0 <= i < steps.len() implies #[trigger] steps[i] is Ok by {
                    let r = reg((i + 2) as nat);
                    let v = add_value_steps(r, rows[i]@);
                    assert(steps[i] == row_code(r, rows[i]@));
                    lemma_run_steps_ok_iff(v);
                    assert forall|k: int| 0 <= k < v.len() implies #[trigger] v[k] is Ok by {
                        assert(lowers(rows[i]@[k]));
                        assert(v[k] == add_value_step(r, rows[i]@[k]));
                    }
                }
            }
            if statement_code(ast) is Ok {
                assert forall|i: int, k: int| 0 <= i < rows.len() && 0 <= k < rows[i]@.len() implies lowers(
                    #[trigger] rows[i]@[k],
                ) by {
                    let r = reg((i + 2) as nat);
                    let v = add_value_steps(r, rows[i]@);
                    assert(steps[i] is Ok);
                    assert(steps[i] == row_code(r, rows[i]@));
                    lemma_run_steps_ok_iff(v);
                    assert(v[k] is Ok);
                    assert(v[k] == add_value_step(r, rows[i]@[k]));
                }
            }
        }
    }
}

/// Generation succeeds exactly on the statements that have a lowering: a
/// `CREATE SCHEMA` of a one-part name; a `CREATE TABLE` of a table name; an
/// `INSERT` into a table name from `VALUES` whose every value lowers; a query
/// that is a supported `SELECT` or a single lowering value, with a supported
/// `LIMIT` and lowering `ORDER BY` expressions. Any other statement is refused
/// as unsupported, with its SQL text.
pub proof fn law_success_exactly_when_supported(ast: Statement)
    ensures
        statement_code(ast) is Ok <==> statement_supported(ast),
        ast matches Statement::Other { sql } ==> statement_code(ast) == Err::<
            Seq<Instruction>,
            crate::codegen::CodegenError,
        >(crate::codegen::CodegenError::UnsupportedStatement(sql)),
{
    match ast {
        Statement::Insert { .. } => lemma_insert_ok(ast),
        Statement::Query(q) => lemma_query_ok(*q),
        _ => {},
    }
}

} // verus!
