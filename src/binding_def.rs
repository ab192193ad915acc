//! Binding definitions: `let name = expression`.
use vstd::prelude::*;

use crate::environment::Environment;
use crate::error::{BindingDefError, Error};
use crate::expression::{expression_view, Expression};
use crate::grammar::{binding_def_of, let_keyword, view_result, ExprV};
use crate::identifier::Identifier;
use crate::semantics::{define, NamedV};
use crate::text::{find_char, has_prefix, lemma_first_from, rest_from, TrimmedStr};

verus! {

/// A name and the expression bound to it, not yet evaluated.
#[derive(Debug, PartialEq, Eq)]
pub struct BindingDef {
    name: Identifier,
    expr: Expression,
}

/// The mathematical form of a binding definition: its name and expression.
pub closed spec fn binding_def_view(d: &BindingDef) -> (Seq<char>, ExprV)
    decreases d, 0nat,
{
    (d.name@, expression_view(&d.expr))
}

impl View for BindingDef {
    type V = (Seq<char>, ExprV);

    open spec fn view(&self) -> (Seq<char>, ExprV) {
        binding_def_view(self)
    }
}

impl Clone for BindingDef {
    fn clone(&self) -> (r: Self)
        ensures
            r@ == self@,
    {
        self.duplicate()
    }
}

impl BindingDef {
    /// A copy of the definition.
    pub fn duplicate(&self) -> (r: Self)
        ensures
            r@ == self@,
        decreases self, 0nat,
    {
        BindingDef { name: self.name.clone(), expr: self.expr.duplicate() }
    }

    /// The definition that binds `expr` to `name`.
    pub fn from_parts(name: Identifier, expr: Expression) -> (r: Self)
        ensures
            r@ == (name@, expr@),
    {
        BindingDef { name, expr }
    }

    /// Reads `s` as `let`, a name, `=` and an expression.
    pub fn new(s: &TrimmedStr) -> (r: Result<Self, Error>)
        ensures
            view_result(r) == binding_def_of(s@),
        decreases s@.len(), 2nat,
    {
        let t = s.as_str();
        let keyword = "let ";
        proof {
            reveal_strlit("let ");
            assert(keyword@ =~= let_keyword());
        }
        if !has_prefix(t, keyword) {
            return Err(Error::BindingDef(BindingDefError::MissingLetKeyword));
        }
        let n = t.unicode_len();
        let r = t.substring_char(4, n);
        let m = r.unicode_len();
        let k = find_char(r, '=');
        proof {
            lemma_first_from(r@, '=', 0);
        }
        if k >= m {
            return Err(Error::BindingDef(BindingDefError::MissingEqualsSign));
        }
        let name = match Identifier::parse(r.substring_char(0, k)) {
            Ok(name) => name,
            Err(e) => return Err(Error::Identifier(e)),
        };
        let expr_text = TrimmedStr::new(r.substring_char(k + 1, m));
        assert(r@.subrange(k + 1, m as int) == rest_from(r@, k + 1));
        let expr = match Expression::new(&expr_text) {
            Ok(e) => e,
            Err(e) => return Err(Error::Expression(e)),
        };
        Ok(BindingDef { name, expr })
    }

    /// Binds the expression, unevaluated, to the name in `env`.
    pub fn store(&self, env: &mut Environment)
        ensures
            final(env)@ == define(old(env)@, self@.0, NamedV::Binding(self@.1)),
    {
        env.insert(self.name.clone(), self.expr.duplicate());
    }

    /// The name that is bound.
    pub fn name(&self) -> (r: &Identifier)
        ensures
            r@ == self@.0,
    {
        &self.name
    }

    /// The expression that is bound.
    pub fn expr(&self) -> (r: &Expression)
        ensures
            r@ == self@.1,
    {
        &self.expr
    }
}

} // verus!
