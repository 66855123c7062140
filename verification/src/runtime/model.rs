//! What a program means: scopes as mathematical values, and the value of an
//! expression and the effect of a statement on them.
//!
//! A scope tree is seen from one of its scopes: the chain of frames from the
//! root up to that scope, the last frame being the current one, and the store
//! of value cells that the names of the frames refer to. Two names that refer
//! to one cell share its value.
use super::value::{binary_op, literal_value, RuntimeError, RuntimeVariable, ValueModel};
use crate::ast::node::{AstUnaryOp, ExprModel, StatementModel};
use vstd::prelude::*;

verus! {

/// The names that one scope binds.
pub struct FrameModel {
    pub variables: Map<Seq<char>, RuntimeVariable>,
    /// Whether the scope is a function boundary: assignments do not look past
    /// it.
    pub is_function: bool,
}

/// A chain of scopes and the cells that their names refer to.
pub struct ScopeModel {
    /// The frames from the root to the current scope.
    pub frames: Seq<FrameModel>,
    /// The value of each cell.
    pub cells: Seq<ValueModel>,
}

impl FrameModel {
    /// A frame that binds nothing.
    pub open spec fn empty(is_function: bool) -> FrameModel {
        FrameModel { variables: Map::empty(), is_function }
    }

    /// The frame with `name` bound to `cell`.
    pub open spec fn bind(self, name: Seq<char>, cell: RuntimeVariable) -> FrameModel {
        FrameModel { variables: self.variables.insert(name, cell), is_function: self.is_function }
    }
}

impl ScopeModel {
    /// A root scope without variables.
    pub open spec fn root() -> ScopeModel {
        ScopeModel { frames: seq![FrameModel::empty(false)], cells: Seq::empty() }
    }

    /// There is a current scope, and every name refers to a cell of the store.
    pub open spec fn wf(self) -> bool {
        &&& self.frames.len() >= 1
        &&& forall|depth: int, name: Seq<char>|
            0 <= depth < self.frames.len() && #[trigger] self.frames[depth].variables.contains_key(
                name,
            ) ==> self.frames[depth].variables[name].0 < self.cells.len()
    }

    /// The index of the current scope's frame.
    pub open spec fn top(self) -> int {
        self.frames.len() - 1
    }

    /// A new scope below the current one.
    pub open spec fn child(self, is_function: bool) -> ScopeModel {
        ScopeModel { frames: self.frames.push(FrameModel::empty(is_function)), cells: self.cells }
    }

    /// The scope above the current one; the root is its own parent.
    pub open spec fn parent(self) -> ScopeModel {
        if self.frames.len() > 1 {
            ScopeModel { frames: self.frames.drop_last(), cells: self.cells }
        } else {
            self
        }
    }

    /// The cell that `name` refers to in the scope at `depth`: the binding of
    /// the nearest scope, from there towards the root, that binds the name.
    pub open spec fn lookup_from(self, depth: int, name: Seq<char>) -> Option<RuntimeVariable>
        decreases depth,
    {
        if depth < 0 || depth >= self.frames.len() {
            None
        } else if self.frames[depth].variables.contains_key(name) {
            Some(self.frames[depth].variables[name])
        } else if depth == 0 {
            None
        } else {
            self.lookup_from(depth - 1, name)
        }
    }

    /// The cell that `name` refers to in the current scope.
    pub open spec fn lookup(self, name: Seq<char>) -> Option<RuntimeVariable> {
        self.lookup_from(self.top(), name)
    }

    /// The value that reading `name` gives: `nil` where nothing binds it.
    pub open spec fn read(self, name: Seq<char>) -> ValueModel {
        match self.lookup(name) {
            Some(cell) => self.cells[cell.0 as int],
            None => ValueModel::Nil,
        }
    }

    /// The store with `value` in `cell`.
    pub open spec fn store(self, cell: RuntimeVariable, value: ValueModel) -> ScopeModel {
        ScopeModel { frames: self.frames, cells: self.cells.update(cell.0 as int, value) }
    }

    /// The cell that the store has no room for yet.
    pub open spec fn fresh(self) -> RuntimeVariable {
        RuntimeVariable(self.cells.len() as usize)
    }

    /// The scope with a new cell that holds `value`.
    pub open spec fn allocate(self, value: ValueModel) -> ScopeModel {
        ScopeModel { frames: self.frames, cells: self.cells.push(value) }
    }

    /// The scope in which the frame at `depth` binds `name` to `cell`.
    pub open spec fn bind(self, depth: int, name: Seq<char>, cell: RuntimeVariable) -> ScopeModel {
        ScopeModel {
            frames: self.frames.update(depth, self.frames[depth].bind(name, cell)),
            cells: self.cells,
        }
    }

    /// Assigns `value` to `name` in the scope at `depth`, and gives the cell
    /// that holds it afterwards.
    ///
    /// Where the scope binds the name, the value goes into that cell. Where
    /// it does not, the scope above is asked, unless the scope is the root or
    /// a function boundary: such a scope binds the name to a new cell.
    pub open spec fn assign_from(self, depth: int, name: Seq<char>, value: ValueModel) -> (
        ScopeModel,
        RuntimeVariable,
    )
        decreases depth,
    {
        if depth < 0 || depth >= self.frames.len() {
            (self, self.fresh())
        } else if self.frames[depth].variables.contains_key(name) {
            let cell = self.frames[depth].variables[name];
            (self.store(cell, value), cell)
        } else if depth > 0 && !self.frames[depth].is_function {
            self.assign_from(depth - 1, name, value)
        } else {
            (self.allocate(value).bind(depth, name, self.fresh()), self.fresh())
        }
    }

    /// Assigns `value` to `name` in the current scope.
    pub open spec fn assign(self, name: Seq<char>, value: ValueModel) -> (
        ScopeModel,
        RuntimeVariable,
    ) {
        self.assign_from(self.top(), name, value)
    }

    /// Declares `name` global in the current scope: the scope binds the name
    /// to the cell that the name refers to in the scope above, where it is
    /// first bound to a new cell holding `nil` if nothing binds it. The root
    /// has no scope above, and nothing happens there.
    pub open spec fn declare_global(self, name: Seq<char>) -> ScopeModel {
        if self.frames.len() < 2 {
            self
        } else {
            match self.lookup_from(self.top() - 1, name) {
                Some(cell) => self.bind(self.top(), name, cell),
                None => {
                    let (declared, cell) = self.assign_from(self.top() - 1, name, ValueModel::Nil);
                    declared.bind(self.top(), name, cell)
                },
            }
        }
    }

    /// Declares each of `names` global, in order.
    pub open spec fn declare_globals(self, names: Seq<Seq<char>>) -> ScopeModel
        decreases names.len(),
    {
        if names.len() == 0 {
            self
        } else {
            self.declare_global(names[0]).declare_globals(names.skip(1))
        }
    }
}

/// The value of `expr` in `scope`. The left operand of a binary operator is
/// evaluated before the right one.
pub open spec fn eval(scope: ScopeModel, expr: ExprModel) -> Result<ValueModel, RuntimeError>
    decreases expr,
{
    match expr {
        ExprModel::BinaryOp { op, left, right } => match eval(scope, *left) {
            Err(e) => Err(e),
            Ok(l) => match eval(scope, *right) {
                Err(e) => Err(e),
                Ok(r) => binary_op(op, l, r),
            },
        },
        ExprModel::Ident(name) => Ok(scope.read(name)),
        ExprModel::Literal(literal) => Ok(literal_value(literal)),
        ExprModel::UnaryOp { op: AstUnaryOp::Not, right } => match eval(scope, *right) {
            Err(e) => Err(e),
            Ok(value) => Ok(ValueModel::Bool(!value.truthy())),
        },
    }
}

/// The scope after `statement` ran in `scope`. The branches of a conditional
/// run in the scope of the conditional itself.
pub open spec fn exec_statement(scope: ScopeModel, statement: StatementModel) -> Result<
    ScopeModel,
    RuntimeError,
>
    decreases statement,
{
    match statement {
        StatementModel::VariableDeclaration(name, value) => match eval(scope, value) {
            Err(e) => Err(e),
            Ok(value) => Ok(scope.assign(name, value).0),
        },
        StatementModel::Expresion(value) => match eval(scope, value) {
            Err(e) => Err(e),
            Ok(_) => Ok(scope),
        },
        StatementModel::Global(names) => Ok(scope.declare_globals(names)),
        StatementModel::Conditional { test, body, otherwise } => match eval(scope, test) {
            Err(e) => Err(e),
            Ok(value) => if value.truthy() {
                exec_block(scope, body)
            } else {
                match otherwise {
                    Some(block) => exec_block(scope, block),
                    None => Ok(scope),
                }
            },
        },
    }
}

/// The scope after the statements of `block` ran in `scope`, one after the
/// other, up to the first error.
pub open spec fn exec_block(scope: ScopeModel, block: Seq<StatementModel>) -> Result<
    ScopeModel,
    RuntimeError,
>
    decreases block,
{
    if block.len() == 0 {
        Ok(scope)
    } else {
        match exec_statement(scope, block[0]) {
            Err(e) => Err(e),
            Ok(next) => exec_block(next, block.skip(1)),
        }
    }
}

} // verus!
