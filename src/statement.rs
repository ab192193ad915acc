//! Statements: the unit that one line, or one part of a block, is read as.
use vstd::prelude::*;

use crate::binding_def::{binding_def_view, BindingDef};
use crate::environment::Environment;
use crate::error::StatementError;
use crate::expression::{expression_view, Expression};
use crate::function_def::{function_def_view, FunctionDef};
use crate::grammar::{
    after_semicolon_of, pre_parse_of, statement_of, view_option, view_result, StmtV,
};
use crate::semantics::execute;
use crate::text::TrimmedStr;

verus! {

/// A binding definition, an expression, or a function definition.
#[derive(Debug, PartialEq, Eq)]
pub enum Statement {
    BindingDef(BindingDef),
    Expression(Expression),
    FunctionDef(FunctionDef),
}

/// The mathematical form of a statement.
pub open spec fn statement_view(s: &Statement) -> StmtV
    decreases s, 0nat,
{
    match s {
        Statement::BindingDef(d) => {
            let (name, e) = binding_def_view(d);
            StmtV::BindingDef(name, e)
        },
        Statement::Expression(e) => StmtV::Expression(expression_view(e)),
        Statement::FunctionDef(f) => {
            let (name, parameters, body) = function_def_view(f);
            StmtV::FunctionDef(name, parameters, body)
        },
    }
}

impl View for Statement {
    type V = StmtV;

    open spec fn view(&self) -> StmtV {
        statement_view(self)
    }
}

impl Clone for Statement {
    fn clone(&self) -> (r: Self)
        ensures
            r@ == self@,
    {
        self.duplicate()
    }
}

impl Statement {
    /// A copy of the statement.
    pub fn duplicate(&self) -> (r: Self)
        ensures
            r@ == self@,
        decreases self, 0nat,
    {
        match self {
            Statement::BindingDef(d) => Statement::BindingDef(d.duplicate()),
            Statement::Expression(e) => Statement::Expression(e.duplicate()),
            Statement::FunctionDef(f) => Statement::FunctionDef(f.duplicate()),
        }
    }

    /// Runs the statement in `local`: a definition is stored there and yields
    /// the empty expression; an expression is yielded as it is.
    pub fn get_expression_in(&self, local: &mut Environment) -> (r: Expression)
        ensures
            (final(local)@, r@) == execute(self@, old(local)@),
    {
        match self {
            Statement::BindingDef(binding_def) => binding_def.store(local),
            Statement::FunctionDef(function_def) => function_def.store(local),
            Statement::Expression(expression) => return expression.duplicate(),
        }
        Expression::Empty
    }

    /// Reads `s` as a statement that needs no `;`: an expression, else a
    /// function definition.
    pub fn pre_parse(s: &TrimmedStr) -> (r: Option<Self>)
        ensures
            view_option(r) == pre_parse_of(s@),
        decreases s@.len(), 4nat,
    {
        if let Ok(expression) = Expression::new(s) {
            return Some(Statement::Expression(expression));
        }
        if let Ok(function_def) = FunctionDef::new(s) {
            return Some(Statement::FunctionDef(function_def));
        }
        None
    }

    /// Reads `s`, whose `;` was cut off, as a binding definition, else as an
    /// expression whose value is dropped.
    pub fn parse_after_strip_semicolon(s: &TrimmedStr) -> (r: Option<Self>)
        ensures
            view_option(r) == after_semicolon_of(s@),
        decreases s@.len(), 4nat,
    {
        if let Ok(binding_def) = BindingDef::new(s) {
            return Some(Statement::BindingDef(binding_def));
        }
        if Expression::new(s).is_ok() {
            return Some(Statement::Expression(Expression::Empty));
        }
        None
    }

    /// Reads `s` as a statement.
    pub fn new(s: &TrimmedStr) -> (r: Result<Self, StatementError>)
        ensures
            view_result(r) == statement_of(s@),
        decreases s@.len(), 5nat,
    {
        if let Some(statement) = Statement::pre_parse(s) {
            return Ok(statement);
        }
        let t = s.as_str();
        let n = t.unicode_len();
        if n == 0 || t.get_char(n - 1) != ';' {
            return Err(StatementError::BindingDefMissingSemicolon);
        }
        let inner = TrimmedStr::new(t.substring_char(0, n - 1));
        assert(t@.subrange(0, n - 1) =~= s@.drop_last());
        if let Some(statement) = Statement::parse_after_strip_semicolon(&inner) {
            return Ok(statement);
        }
        Err(StatementError::InvalidStatement)
    }
}

} // verus!
