//! Functions of the running program.

use std::rc::Rc;
use vstd::prelude::*;

use crate::stmt::FunctionStmt;
use crate::stmt::FunctionView;

verus! {

/// A function of the running program: its declaration, and the scope in
/// which it was declared. The scope is named by its number in the
/// interpreter's environment, so that every holder of the function sees
/// the same variables.
#[derive(Debug, PartialEq)]
pub struct LoxFunction {
    pub declaration: Rc<FunctionStmt>,
    pub closure: usize,
}

pub struct LoxFunctionView {
    pub declaration: FunctionView,
    pub closure: usize,
}

impl View for LoxFunction {
    type V = LoxFunctionView;

    open spec fn view(&self) -> LoxFunctionView {
        LoxFunctionView { declaration: (*self.declaration)@, closure: self.closure }
    }
}

impl LoxFunction {
    pub fn new(declaration: Rc<FunctionStmt>, closure: usize) -> (function: LoxFunction)
        ensures
            function == (LoxFunction { declaration, closure }),
    {
        Self { declaration, closure }
    }

    /// A copy of this function, over the same scope.
    pub fn duplicate(&self) -> (copy: LoxFunction)
        ensures
            copy@ == self@,
    {
        LoxFunction { declaration: Rc::new(self.declaration.duplicate()), closure: self.closure }
    }
}

} // verus!
