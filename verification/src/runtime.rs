//! The tree-walking evaluator and its scopes.
//!
//! A [`Scope`] owns the chain of frames from the root to the scope that the
//! program runs in, and the store of value cells. [`Scope::child`] opens a
//! scope below the current one and [`Scope::parent`] closes it again. Cells
//! are never copied when a name is declared global: the name gets the handle
//! of the cell, so a value assigned through one of the names is seen through
//! all of them.
pub mod laws;
pub mod model;
pub mod value;

use crate::ast::node::{
    names_model, AstBinaryOp, AstExpr, AstScope, AstStatement, AstUnaryOp, StatementModel,
};
use model::{eval, exec_block, exec_statement, FrameModel, ScopeModel};
use value::{AsBool, RuntimeError, RuntimeValue, RuntimeVariable};
use vstd::prelude::*;

verus! {

/// The names that one scope binds, each with the handle of its cell.
#[derive(Debug)]
struct Frame {
    names: Vec<String>,
    cells: Vec<RuntimeVariable>,
    is_function: bool,
}

impl Frame {
    /// Every name has one cell, and no name occurs twice.
    spec fn wf(&self) -> bool {
        &&& self.names.len() == self.cells.len()
        &&& forall|i: int, j: int|
            0 <= i < j < self.names.len() ==> self.names[i]@ != self.names[j]@
    }

    /// Whether `i` is the place of `name`.
    spec fn is_at(&self, name: Seq<char>, i: int) -> bool {
        0 <= i < self.names.len() && self.names[i]@ == name
    }

    /// The place of `name`.
    spec fn index_of(&self, name: Seq<char>) -> int {
        choose|i: int| self.is_at(name, i)
    }

    spec fn model(&self) -> FrameModel {
        FrameModel {
            variables: Map::new(
                |name: Seq<char>| exists|i: int| self.is_at(name, i),
                |name: Seq<char>| self.cells[self.index_of(name)],
            ),
            is_function: self.is_function,
        }
    }

    /// A name has one place only.
    proof fn lemma_place(&self, name: Seq<char>, i: int)
        requires
            self.wf(),
            self.is_at(name, i),
        ensures
            self.index_of(name) == i,
            self.model().variables.contains_key(name),
            self.model().variables[name] == self.cells[i],
    {
    }

    /// A name that the frame binds has a place.
    proof fn lemma_bound(&self, name: Seq<char>)
        requires
            self.wf(),
            self.model().variables.contains_key(name),
        ensures
            self.is_at(name, self.index_of(name)),
            self.model().variables[name] == self.cells[self.index_of(name)],
    {
    }

    fn new(is_function: bool) -> (r: Frame)
        ensures
            r.wf(),
            r.model() == FrameModel::empty(is_function),
    {
        let r = Frame { names: Vec::new(), cells: Vec::new(), is_function };
        assert(r.model().variables =~= Map::empty());
        r
    }

    /// The place of `name`, if the frame binds it.
    fn find(&self, name: &String) -> (r: Option<usize>)
        requires
            self.wf(),
        ensures
            match r {
                Some(i) => self.is_at(name@, i as int),
                None => !self.model().variables.contains_key(name@),
            },
    {
        let mut i: usize = 0;
        while i < self.names.len()
            invariant
                i <= self.names.len(),
                forall|j: int| 0 <= j < i ==> !self.is_at(name@, j),
            decreases self.names.len() - i,
        {
            if self.names[i] == *name {
                return Some(i);
            }
            i += 1;
        }
        None
    }

    /// The cell that `name` is bound to, if the frame binds it.
    fn get(&self, name: &String) -> (r: Option<RuntimeVariable>)
        requires
            self.wf(),
        ensures
            r == if self.model().variables.contains_key(name@) {
                Some(self.model().variables[name@])
            } else {
                None
            },
    {
        match self.find(name) {
            Some(i) => Some(self.cells[i]),
            None => None,
        }
    }

    /// Binds `name` to `cell`, in place of what it was bound to.
    fn insert(&mut self, name: String, cell: RuntimeVariable)
        requires
            old(self).wf(),
        ensures
            final(self).wf(),
            final(self).model() == old(self).model().bind(name@, cell),
    {
        let ghost goal = old(self).model().bind(name@, cell).variables;
        let ghost at: int;
        match self.find(&name) {
            Some(i) => {
                proof {
                    at = i as int;
                }
                self.cells.set(i, cell);
            },
            None => {
                proof {
                    at = self.names.len() as int;
                }
                self.names.push(name);
                self.cells.push(cell);
                assert forall|i: int, j: int| 0 <= i < j < self.names.len() implies self.names[i]@
                    != self.names[j]@ by {
                    if j == at {
                        assert(!old(self).is_at(name@, i));
                    }
                }
            },
        }
        proof {
            assert forall|other: Seq<char>| #[trigger]
                self.model().variables.contains_key(other) implies goal.contains_key(other)
                && self.model().variables[other] == goal[other] by {
                let j = self.index_of(other);
                if other == name@ {
                    self.lemma_place(other, at);
                } else {
                    old(self).lemma_place(other, j);
                }
            }
            assert forall|other: Seq<char>| goal.contains_key(other) implies #[trigger]
                self.model().variables.contains_key(other) by {
                if other == name@ {
                    self.lemma_place(other, at);
                } else {
                    old(self).lemma_bound(other);
                    let k = old(self).index_of(other);
                    assert(self.is_at(other, k));
                }
            }
            assert(self.model().variables =~= goal);
        }
    }
}

/// A scope of the running program, with the scopes above it and the store of
/// values.
#[derive(Debug)]
pub struct Scope {
    frames: Vec<Frame>,
    cells: Vec<RuntimeValue>,
}

impl View for Scope {
    type V = ScopeModel;

    closed spec fn view(&self) -> ScopeModel {
        ScopeModel {
            frames: Seq::new(self.frames.len() as nat, |i: int| self.frames[i].model()),
            cells: Seq::new(self.cells.len() as nat, |i: int| self.cells[i]@),
        }
    }
}

impl Scope {
    /// The scope is in order: it has a current frame, and every name refers
    /// to a cell of the store.
    pub closed spec fn wf(&self) -> bool {
        &&& forall|i: int| 0 <= i < self.frames.len() ==> (#[trigger] self.frames[i]).wf()
        &&& self@.wf()
    }

    /// A scope that is in order stands for a model that is in order and
    /// whose store fits the machine: what the laws of scopes ask for.
    pub proof fn lemma_wf(&self)
        requires
            self.wf(),
        ensures
            self@.wf(),
            self@.cells.len() <= usize::MAX,
    {
    }
}

impl Scope {
    /// A root scope without variables.
    pub fn new() -> (r: Scope)
        ensures
            r.wf(),
            r@ == ScopeModel::root(),
    {
        let mut frames: Vec<Frame> = Vec::new();
        frames.push(Frame::new(false));
        let r = Scope { frames, cells: Vec::new() };
        assert(r@.frames =~= ScopeModel::root().frames);
        assert(r@.cells =~= ScopeModel::root().cells);
        r
    }

    /// Opens a scope below the current one. It starts without variables of
    /// its own.
    pub fn child(self, is_function: bool) -> (r: Scope)
        requires
            self.wf(),
        ensures
            r.wf(),
            r@ == self@.child(is_function),
    {
        let mut scope = self;
        scope.frames.push(Frame::new(is_function));
        assert(scope@.frames =~= self@.child(is_function).frames);
        scope
    }

    /// Closes the current scope and goes back to the one above. The root
    /// stays as it is.
    pub fn parent(self) -> (r: Scope)
        requires
            self.wf(),
        ensures
            r.wf(),
            r@ == self@.parent(),
    {
        let mut scope = self;
        if scope.frames.len() > 1 {
            scope.frames.pop();
            assert(scope@.frames =~= self@.parent().frames);
        }
        scope
    }

    /// The value in the cell `cell`, if the store has such a cell.
    pub fn value(&self, cell: RuntimeVariable) -> (r: Option<RuntimeValue>)
        ensures
            match r {
                Some(value) => cell.0 < self@.cells.len() && value@ == self@.cells[cell.0 as int],
                None => cell.0 >= self@.cells.len(),
            },
    {
        if cell.0 < self.cells.len() {
            Some(self.cells[cell.0].clone())
        } else {
            None
        }
    }

    /// Puts `value` into a new cell.
    fn allocate(&mut self, value: RuntimeValue) -> (r: RuntimeVariable)
        requires
            old(self).wf(),
        ensures
            final(self).wf(),
            final(self)@ == old(self)@.allocate(value@),
            r == old(self)@.fresh(),
            final(self).frames.len() == old(self).frames.len(),
            final(self).cells.len() == old(self).cells.len() + 1,
            r.0 == old(self).cells.len(),
    {
        let r = RuntimeVariable(self.cells.len());
        self.cells.push(value);
        assert(self@.cells =~= old(self)@.cells.push(value@));
        r
    }

    /// Puts `value` into the cell `cell`.
    fn store(&mut self, cell: RuntimeVariable, value: RuntimeValue)
        requires
            old(self).wf(),
            cell.0 < old(self).cells.len(),
        ensures
            final(self).wf(),
            final(self)@ == old(self)@.store(cell, value@),
            final(self).frames.len() == old(self).frames.len(),
            final(self).cells.len() == old(self).cells.len(),
    {
        self.cells.set(cell.0, value);
        assert(self@.cells =~= old(self)@.cells.update(cell.0 as int, value@));
    }

    /// Binds `name` to `cell` in the frame at `depth`.
    fn bind(&mut self, depth: usize, name: String, cell: RuntimeVariable)
        requires
            old(self).wf(),
            depth < old(self).frames.len(),
            cell.0 < old(self).cells.len(),
        ensures
            final(self).wf(),
            final(self)@ == old(self)@.bind(depth as int, name@, cell),
            final(self).frames.len() == old(self).frames.len(),
            final(self).cells.len() == old(self).cells.len(),
    {
        self.frames[depth].insert(name, cell);
        assert(self@.frames =~= old(self)@.bind(depth as int, name@, cell).frames);
    }

    /// The cell that `name` refers to in the scope at `depth`.
    fn get_variable_from(&self, depth: usize, name: &String) -> (r: Option<RuntimeVariable>)
        requires
            self.wf(),
            depth < self.frames.len(),
        ensures
            r == self@.lookup_from(depth as int, name@),
            r matches Some(cell) ==> cell.0 < self.cells.len(),
    {
        let mut d = depth;
        loop
            invariant
                self.wf(),
                d <= depth < self.frames.len(),
                self@.lookup_from(depth as int, name@) == self@.lookup_from(d as int, name@),
            decreases d,
        {
            if let Some(cell) = self.frames[d].get(name) {
                return Some(cell);
            }
            if d == 0 {
                return None;
            }
            d -= 1;
        }
    }

    /// Assigns `value` to `name` in the scope at `depth`.
    fn set_variable_from(&mut self, depth: usize, name: String, value: RuntimeValue) -> (r:
        RuntimeVariable)
        requires
            old(self).wf(),
            depth < old(self).frames.len(),
        ensures
            final(self).wf(),
            (final(self)@, r) == old(self)@.assign_from(depth as int, name@, value@),
            final(self).frames.len() == old(self).frames.len(),
            r.0 < final(self).cells.len(),
    {
        let mut d = depth;
        loop
            invariant
                self.wf(),
                *self == *old(self),
                d <= depth < self.frames.len(),
                self@.assign_from(depth as int, name@, value@) == self@.assign_from(
                    d as int,
                    name@,
                    value@,
                ),
            decreases d,
        {
            if let Some(cell) = self.frames[d].get(&name) {
                self.store(cell, value);
                return cell;
            }
            if d == 0 || self.frames[d].is_function {
                let cell = self.allocate(value);
                self.bind(d, name, cell);
                return cell;
            }
            d -= 1;
        }
    }

    /// The cell that `name` refers to: the binding of the nearest scope,
    /// from the current one towards the root, that binds the name.
    pub fn get_variable(&self, name: &String) -> (r: Option<RuntimeVariable>)
        requires
            self.wf(),
        ensures
            r == self@.lookup(name@),
            r matches Some(cell) ==> cell.0 < self@.cells.len(),
    {
        self.get_variable_from(self.frames.len() - 1, name)
    }

    /// Assigns `value` to `name`, and returns the cell that holds it.
    ///
    /// A name that is bound in the current scope, or in a scope above it up
    /// to the nearest function boundary, keeps its cell. Another name gets a
    /// new cell, in the root or in the scope of the function boundary.
    pub fn set_variable(&mut self, name: String, value: RuntimeValue) -> (r: RuntimeVariable)
        requires
            old(self).wf(),
        ensures
            final(self).wf(),
            (final(self)@, r) == old(self)@.assign(name@, value@),
    {
        self.set_variable_from(self.frames.len() - 1, name, value)
    }

    /// Runs the statements of `ast` in order, up to the first error.
    pub fn run(&mut self, ast: &AstScope) -> (r: Result<(), RuntimeError>)
        requires
            old(self).wf(),
        ensures
            final(self).wf(),
            match exec_block(old(self)@, ast@) {
                Ok(scope) => r.is_ok() && final(self)@ == scope,
                Err(e) => r == Err::<(), RuntimeError>(e),
            },
        decreases ast,
    {
        let mut i: usize = 0;
        assert(ast@.skip(0) =~= ast@);
        while i < ast.0.len()
            invariant
                self.wf(),
                i <= ast.0.len(),
                exec_block(old(self)@, ast@) == exec_block(self@, ast@.skip(i as int)),
            decreases ast.0.len() - i,
        {
            proof {
                vstd::std_specs::vec::axiom_vec_index_decreases(ast.0, i as int);
                assert(ast@.skip(i as int).skip(1) =~= ast@.skip(i as int + 1));
            }
            self.visit_stmt(&ast.0[i])?;
            i += 1;
        }
        Ok(())
    }

    /// Runs one statement.
    pub fn visit_stmt(&mut self, stmt: &AstStatement) -> (r: Result<(), RuntimeError>)
        requires
            old(self).wf(),
        ensures
            final(self).wf(),
            match exec_statement(old(self)@, stmt@) {
                Ok(scope) => r.is_ok() && final(self)@ == scope,
                Err(e) => r == Err::<(), RuntimeError>(e),
            },
        decreases stmt, 1nat,
    {
        match stmt {
            AstStatement::Conditional { test, body, otherwise } => self.visit_conditional(
                test,
                body,
                otherwise,
            ),
            AstStatement::Expresion(expr) => {
                self.visit_expr(expr)?;
                Ok(())
            },
            AstStatement::Global(vars) => {
                self.visit_global(vars);
                Ok(())
            },
            AstStatement::VariableDeclaration(var, expr) => self.visit_var_decl(var, expr),
        }
    }

    /// Runs a conditional: the body if the test holds, the other branch, if
    /// there is one, if it does not. The branch runs in this scope.
    pub fn visit_conditional(
        &mut self,
        test: &AstExpr,
        body: &AstScope,
        otherwise: &Option<AstScope>,
    ) -> (r: Result<(), RuntimeError>)
        requires
            old(self).wf(),
        ensures
            final(self).wf(),
            match exec_statement(
                old(self)@,
                StatementModel::Conditional {
                    test: test@,
                    body: body@,
                    otherwise: match otherwise {
                        Some(block) => Some(block@),
                        None => None,
                    },
                },
            ) {
                Ok(scope) => r.is_ok() && final(self)@ == scope,
                Err(e) => r == Err::<(), RuntimeError>(e),
            },
        decreases
                (AstStatement::Conditional {
                    test: Box::new(*test),
                    body: *body,
                    otherwise: *otherwise,
                }),
                0nat,
    {
        proof {
            let whole = AstStatement::Conditional {
                test: Box::new(*test),
                body: *body,
                otherwise: *otherwise,
            };
            assert(decreases_to!(whole => whole->body));
            if otherwise.is_some() {
                assert(decreases_to!(whole->otherwise => whole->otherwise->Some_0));
            }
        }
        let test = self.visit_expr(test)?;
        if test.as_bool() {
            self.run(body)
        } else if let Some(otherwise) = otherwise {
            self.run(otherwise)
        } else {
            Ok(())
        }
    }

    /// The value of an expression. Reading a name that nothing binds gives
    /// `nil`.
    pub fn visit_expr(&self, expr: &AstExpr) -> (r: Result<RuntimeValue, RuntimeError>)
        requires
            self.wf(),
        ensures
            match eval(self@, expr@) {
                Ok(value) => r matches Ok(found) && found@ == value,
                Err(e) => r matches Err(error) && error == e,
            },
        decreases expr, 1nat,
    {
        match expr {
            AstExpr::BinaryOp { op, left, right } => self.visit_expr_binop(*op, left, right),
            AstExpr::Ident(var) => match self.get_variable(var) {
                Some(cell) => Ok(self.cells[cell.0].clone()),
                None => Ok(RuntimeValue::Nil),
            },
            AstExpr::Literal(literal) => Ok(RuntimeValue::from_literal(literal)),
            AstExpr::UnaryOp { op: AstUnaryOp::Not, right } => {
                let value = self.visit_expr(right)?;
                Ok(RuntimeValue::Bool(!value.as_bool()))
            },
        }
    }

    /// The value of a binary operation: the left operand, then the right
    /// one, then the operator on the two values.
    pub fn visit_expr_binop(&self, op: AstBinaryOp, left: &AstExpr, right: &AstExpr) -> (r: Result<
        RuntimeValue,
        RuntimeError,
    >)
        requires
            self.wf(),
        ensures
            match eval(
                self@,
                crate::ast::node::ExprModel::BinaryOp {
                    op,
                    left: Box::new(left@),
                    right: Box::new(right@),
                },
            ) {
                Ok(value) => r matches Ok(found) && found@ == value,
                Err(e) => r matches Err(error) && error == e,
            },
        decreases (AstExpr::BinaryOp { op, left: Box::new(*left), right: Box::new(*right) }), 0nat,
    {
        proof {
            let whole = AstExpr::BinaryOp { op, left: Box::new(*left), right: Box::new(*right) };
            assert(decreases_to!(whole => whole->left));
            assert(decreases_to!(whole => whole->BinaryOp_right));
        }
        let left = self.visit_expr(left)?;
        let right = self.visit_expr(right)?;
        RuntimeValue::binary_op(op, &left, &right)
    }

    /// Declares each of `vars` global in the current scope: the name is
    /// bound to the very cell that it refers to in the scope above. Nothing
    /// happens in the root.
    pub fn visit_global(&mut self, vars: &Vec<String>)
        requires
            old(self).wf(),
        ensures
            final(self).wf(),
            final(self)@ == old(self)@.declare_globals(names_model(vars@)),
    {
        let ghost names = names_model(vars@);
        let depth = self.frames.len();
        let mut i: usize = 0;
        assert(names.skip(0) =~= names);
        while i < vars.len()
            invariant
                self.wf(),
                i <= vars.len(),
                names == names_model(vars@),
                self.frames.len() == depth,
                old(self)@.declare_globals(names) == self@.declare_globals(names.skip(i as int)),
            decreases vars.len() - i,
        {
            proof {
                assert(names.skip(i as int).skip(1) =~= names.skip(i as int + 1));
            }
            if depth >= 2 {
                let var = &vars[i];
                let cell = match self.get_variable_from(depth - 2, var) {
                    Some(cell) => cell,
                    None => self.set_variable_from(depth - 2, var.clone(), RuntimeValue::Nil),
                };
                self.bind(depth - 1, var.clone(), cell);
            }
            i += 1;
        }
    }

    /// Evaluates `expr` and assigns its value to `var`.
    pub fn visit_var_decl(&mut self, var: &String, expr: &AstExpr) -> (r: Result<
        (),
        RuntimeError,
    >)
        requires
            old(self).wf(),
        ensures
            final(self).wf(),
            match exec_statement(
                old(self)@,
                StatementModel::VariableDeclaration(var@, expr@),
            ) {
                Ok(scope) => r.is_ok() && final(self)@ == scope,
                Err(e) => r == Err::<(), RuntimeError>(e),
            },
    {
        let value = self.visit_expr(expr)?;
        self.set_variable(var.clone(), value);
        Ok(())
    }
}

impl RuntimeValue {
    /// Puts the value into a new cell of the store of `scope`.
    pub fn wrap(self, scope: &mut Scope) -> (r: RuntimeVariable)
        requires
            old(scope).wf(),
        ensures
            final(scope).wf(),
            final(scope)@ == old(scope)@.allocate(self@),
            r == old(scope)@.fresh(),
    {
        scope.allocate(self)
    }
}

} // verus!
