//! Laws of the evaluator: what is assigned is read back, a name declared
//! global shares the cell of the scope above, and a chain of operators is
//! computed from the right.
use super::model::{eval, ScopeModel};
use super::value::{binary_op, literal_value, RuntimeError, ValueModel};
use crate::ast::grammar::{parse_binary, tier_operator, Tier};
use crate::ast::laws::{is_chain, lemma_same_tier_groups_right, line_ends_at};
use crate::ast::node::{AstBinaryOp, ExprModel};
use crate::ast::source::SourceModel;
use vstd::prelude::*;

verus! {

/// A cell that a name refers to is a cell of the store.
pub proof fn lemma_lookup_in_store(scope: ScopeModel, depth: int, name: Seq<char>)
    requires
        scope.wf(),
    ensures
        scope.lookup_from(depth, name) matches Some(cell) ==> cell.0 < scope.cells.len(),
    decreases depth,
{
    if 0 <= depth < scope.frames.len() {
        if scope.frames[depth].variables.contains_key(name) {
        } else if depth > 0 {
            lemma_lookup_in_store(scope, depth - 1, name);
        }
    }
}

/// An assignment in the scope at `depth` leaves the scope in order, keeps
/// the chain of frames as long as it was, and makes the name refer, in that
/// scope, to the cell that it returns, which holds the value. Cells other
/// than that one keep their values, and names other than that one keep
/// their cells.
pub proof fn lemma_assign_from(scope: ScopeModel, depth: int, name: Seq<char>, value: ValueModel)
    requires
        scope.wf(),
        0 <= depth < scope.frames.len(),
        scope.cells.len() <= usize::MAX,
    ensures
        ({
            let (after, cell) = scope.assign_from(depth, name, value);
            &&& after.wf()
            &&& after.frames.len() == scope.frames.len()
            &&& after.lookup_from(depth, name) == Some(cell)
            &&& cell.0 < after.cells.len()
            &&& after.cells[cell.0 as int] == value
            &&& after.cells.len() >= scope.cells.len()
            &&& forall|other: int|
                0 <= other < scope.cells.len() && other != cell.0 ==> after.cells[other]
                    == scope.cells[other]
            &&& forall|d: int|
                depth < d < scope.frames.len() ==> after.frames[d] == scope.frames[d]
            &&& forall|d: int, other: Seq<char>|
                0 <= d < scope.frames.len() && other != name ==> (
                #[trigger] after.frames[d].variables.contains_key(other))
                    == scope.frames[d].variables.contains_key(other)
            &&& forall|d: int, other: Seq<char>|
                0 <= d < scope.frames.len() && other != name
                    && #[trigger] scope.frames[d].variables.contains_key(other)
                    ==> after.frames[d].variables[other] == scope.frames[d].variables[other]
        }),
    decreases depth,
{
    if !scope.frames[depth].variables.contains_key(name) && depth > 0
        && !scope.frames[depth].is_function {
        lemma_assign_from(scope, depth - 1, name, value);
    }
}

/// What was assigned is read back: after `name = value` in a scope, reading
/// `name` in that scope gives `value`. Reading a name that nothing binds
/// gives `nil`.
pub proof fn lemma_read_after_assign(scope: ScopeModel, name: Seq<char>, value: ValueModel)
    requires
        scope.wf(),
        scope.cells.len() <= usize::MAX,
    ensures
        scope.assign(name, value).0.wf(),
        scope.assign(name, value).0.read(name) == value,
        eval(scope.assign(name, value).0, ExprModel::Ident(name)) == Ok::<
            ValueModel,
            RuntimeError,
        >(value),
        forall|other: Seq<char>|
            scope.lookup(other).is_none() ==> #[trigger] eval(scope, ExprModel::Ident(other))
                == Ok::<ValueModel, RuntimeError>(ValueModel::Nil),
{
    lemma_assign_from(scope, scope.top(), name, value);
}

/// An assignment to one name changes the value of no name that refers to
/// another cell.
pub proof fn lemma_assign_keeps_others(
    scope: ScopeModel,
    name: Seq<char>,
    value: ValueModel,
    other: Seq<char>,
)
    requires
        scope.wf(),
        scope.cells.len() <= usize::MAX,
        other != name,
        scope.lookup(other) != Some(scope.assign(name, value).1),
    ensures
        scope.assign(name, value).0.read(other) == scope.read(other),
{
    lemma_assign_from(scope, scope.top(), name, value);
    let after = scope.assign(name, value).0;
    lemma_lookup_same(scope, after, scope.top(), other);
    lemma_lookup_in_store(scope, scope.top(), other);
}

/// Two chains of frames that bind `name` alike give the same cell for it.
proof fn lemma_lookup_same(before: ScopeModel, after: ScopeModel, depth: int, name: Seq<char>)
    requires
        before.frames.len() == after.frames.len(),
        forall|d: int|
            0 <= d < before.frames.len() ==> (#[trigger] after.frames[d].variables.contains_key(
                name,
            )) == before.frames[d].variables.contains_key(name),
        forall|d: int|
            0 <= d < before.frames.len() && #[trigger] before.frames[d].variables.contains_key(
                name,
            ) ==> after.frames[d].variables[name] == before.frames[d].variables[name],
    ensures
        after.lookup_from(depth, name) == before.lookup_from(depth, name),
    decreases depth,
{
    if 0 < depth < before.frames.len() && !before.frames[depth].variables.contains_key(name) {
        lemma_lookup_same(before, after, depth - 1, name);
    }
}

/// A name declared global shares the cell of the scope above.
///
/// In a scope that was opened below `scope`, function boundary or not, and
/// that declares `name` global, the name refers to the very cell that it
/// refers to in `scope` afterwards. So a value that the lower scope assigns
/// to the name is what `scope` reads under that name when the lower scope is
/// closed again.
pub proof fn lemma_global_shares_cell(
    scope: ScopeModel,
    is_function: bool,
    name: Seq<char>,
    value: ValueModel,
)
    requires
        scope.wf(),
        scope.cells.len() <= usize::MAX,
    ensures
        ({
            let declared = scope.child(is_function).declare_global(name);
            let (assigned, cell) = declared.assign(name, value);
            &&& declared.wf()
            &&& declared.lookup(name) == Some(cell)
            &&& declared.parent().lookup(name) == Some(cell)
            &&& assigned.wf()
            &&& assigned.read(name) == value
            &&& assigned.parent().lookup(name) == Some(cell)
            &&& assigned.parent().read(name) == value
        }),
{
    let child = scope.child(is_function);
    let top = child.top();
    let declared = child.declare_global(name);
    // The scope as it is before the name is bound in the new frame.
    let above = match child.lookup_from(top - 1, name) {
        Some(_) => {
            lemma_lookup_in_store(child, top - 1, name);
            child
        },
        None => {
            lemma_assign_from(child, top - 1, name, ValueModel::Nil);
            child.assign_from(top - 1, name, ValueModel::Nil).0
        },
    };
    lemma_frames_below(above, declared, top - 1, name);
    lemma_parent_lookup(declared, name);
    let assigned = declared.assign(name, value).0;
    lemma_frames_below(declared, assigned, top - 1, name);
    lemma_parent_lookup(assigned, name);
}

/// Chains of frames that agree up to `depth` give the same cell for a name
/// in the scope at `depth`.
proof fn lemma_frames_below(before: ScopeModel, after: ScopeModel, depth: int, name: Seq<char>)
    requires
        depth < before.frames.len(),
        depth < after.frames.len(),
        forall|d: int| 0 <= d <= depth ==> #[trigger] after.frames[d] == before.frames[d],
    ensures
        after.lookup_from(depth, name) == before.lookup_from(depth, name),
    decreases depth,
{
    if depth > 0 {
        lemma_frames_below(before, after, depth - 1, name);
    }
}

/// In the scope above, a name refers to what it refers to from the frame
/// below the current one.
proof fn lemma_parent_lookup(scope: ScopeModel, name: Seq<char>)
    requires
        scope.frames.len() >= 2,
    ensures
        scope.parent().lookup(name) == scope.lookup_from(scope.top() - 1, name),
        scope.parent().cells == scope.cells,
{
    lemma_frames_below(scope, scope.parent(), scope.top() - 1, name);
}

/// A function boundary keeps assignments local: in a scope that is a
/// function boundary and does not bind `name`, an assignment to the name
/// makes a new cell in that scope, and the name keeps, in the scope above,
/// the cell and the value that it had there.
pub proof fn lemma_function_boundary_shadows(scope: ScopeModel, name: Seq<char>, value: ValueModel)
    requires
        scope.wf(),
        scope.cells.len() <= usize::MAX,
    ensures
        ({
            let (assigned, cell) = scope.child(true).assign(name, value);
            &&& cell == scope.fresh()
            &&& assigned.read(name) == value
            &&& assigned.parent().lookup(name) == scope.lookup(name)
            &&& assigned.parent().read(name) == scope.read(name)
        }),
{
    let child = scope.child(true);
    let top = child.top();
    let assigned = child.assign(name, value).0;
    lemma_frames_below(scope, assigned, top - 1, name);
    lemma_parent_lookup(assigned, name);
    lemma_lookup_in_store(scope, scope.top(), name);
}

/// Operators of one tier are computed from the right: `a - b - c` is
/// `a - (b - c)`. The value of a line that is a chain of three literals with
/// two operators of one tier is the first operator applied to the first
/// literal and to what the second operator makes of the other two.
pub proof fn lemma_chain_is_computed_from_the_right(
    scope: ScopeModel,
    src: SourceModel,
    tier: Tier,
)
    requires
        src.tokens.len() >= 5,
        is_chain(src.tokens.take(5), tier),
        line_ends_at(src.tokens, 5),
        src.tokens[0].token is Literal,
        src.tokens[2].token is Literal,
        src.tokens[4].token is Literal,
    ensures
        ({
            let a = literal_value(src.tokens[0].token->Literal_0);
            let b = literal_value(src.tokens[2].token->Literal_0);
            let c = literal_value(src.tokens[4].token->Literal_0);
            let first = tier_operator(tier, src.tokens[1].token).unwrap();
            let second = tier_operator(tier, src.tokens[3].token).unwrap();
            &&& parse_binary(src, tier) matches Ok((tree, _))
            &&& eval(scope, tree) == match binary_op(second, b, c) {
                Ok(right) => binary_op(first, a, right),
                Err(e) => Err(e),
            }
        }),
{
    lemma_same_tier_groups_right(src, tier, 5);
    let chain = src.tokens.take(5);
    assert(chain[0] == src.tokens[0] && chain[1] == src.tokens[1] && chain[2] == src.tokens[2]
        && chain[3] == src.tokens[3] && chain[4] == src.tokens[4]);
    assert(chain.skip(2)[0] == chain[2] && chain.skip(2)[1] == chain[3]);
    assert(chain.skip(2).skip(2)[0] == chain[4]);
    reveal_with_fuel(crate::ast::laws::grouped_right, 3);
    reveal_with_fuel(eval, 3);
}

/// Division by zero is an error, whatever the dividend: no value stands for
/// its result.
pub proof fn lemma_division_by_zero(left: ValueModel, right: ValueModel)
    requires
        left.is_numeric(),
        right.is_numeric(),
        right.number() == 0,
    ensures
        binary_op(AstBinaryOp::Div, left, right) == Err::<ValueModel, RuntimeError>(
            RuntimeError::DivisionByZero,
        ),
{
}

} // verus!
