//! Function calls: a function's name followed by its arguments.
use vstd::prelude::*;

use crate::environment::Environment;
use crate::error::{Error, ExpressionError, FunctionCallError, IdentifierError};
use crate::expression::Expression;
use crate::function_def::names_of;
use crate::grammar::{arguments_of, function_call_of, view_result, ExprV};
use crate::identifier::{identifier_of, Identifier};
use crate::named_value::NamedValue;
use crate::semantics::{bind_parameters, call_of};
use crate::text::{split_words, trim, words, TrimmedStr};

verus! {

/// A call of a named function with argument expressions.
#[derive(Debug, PartialEq, Eq)]
pub struct FunctionCall {
    name: Identifier,
    parameters: Vec<Expression>,
}

/// The mathematical forms of the expressions of `v`, in order.
pub open spec fn expression_views(v: Seq<Expression>) -> Seq<ExprV> {
    Seq::new(v.len(), |i: int| v[i]@)
}

impl View for FunctionCall {
    type V = (Seq<char>, Seq<ExprV>);

    closed spec fn view(&self) -> (Seq<char>, Seq<ExprV>) {
        (self.name@, expression_views(self.parameters@))
    }
}

impl Clone for FunctionCall {
    fn clone(&self) -> (r: Self)
        ensures
            r@ == self@,
    {
        let mut parameters: Vec<Expression> = Vec::new();
        let mut i: usize = 0;
        while i < self.parameters.len()
            invariant
                i <= self.parameters@.len(),
                parameters@.len() == i,
                forall|k: int| 0 <= k < i ==> (#[trigger] parameters@[k])@ == self.parameters@[k]@,
            decreases self.parameters@.len() - i,
        {
            parameters.push(self.parameters[i].duplicate());
            i = i + 1;
        }
        let r = FunctionCall { name: self.name.clone(), parameters };
        assert(expression_views(r.parameters@) =~= expression_views(self.parameters@));
        r
    }
}

/// The result of reading the arguments `rest`, after those of `done`.
pub open spec fn arguments_after(
    done: Seq<ExprV>,
    rest: Result<Seq<ExprV>, ExpressionError>,
) -> Result<Seq<ExprV>, ExpressionError> {
    match rest {
        Ok(others) => Ok(done + others),
        Err(e) => Err(e),
    }
}

impl FunctionCall {
    /// The call of `name` with `parameters` as its arguments.
    pub fn from_parts(name: Identifier, parameters: Vec<Expression>) -> (r: Self)
        ensures
            r@ == (name@, expression_views(parameters@)),
    {
        FunctionCall { name, parameters }
    }

    /// Reads `s` as a call: its first word names the function, and each
    /// other word is an argument expression.
    pub fn new(s: &TrimmedStr) -> (r: Result<Self, Error>)
        ensures
            view_result(r) == function_call_of(s@),
    {
        let ws = split_words(s.as_str());
        let ghost wv = words(s@);
        if ws.len() == 0 {
            return Err(Error::FunctionCall(FunctionCallError::Empty));
        }
        let name = match Identifier::parse(ws[0]) {
            Ok(name) => name,
            Err(e) => return Err(Error::Identifier(e)),
        };
        let mut parameters: Vec<Expression> = Vec::new();
        let mut i: usize = 1;
        proof {
            assert(wv.subrange(1, wv.len() as int) =~= wv.drop_first());
            assert(expression_views(parameters@) + Seq::<ExprV>::empty() =~= Seq::<ExprV>::empty());
        }
        while i < ws.len()
            invariant
                1 <= i <= ws@.len(),
                wv == words(s@),
                wv.len() > 0,
                identifier_of(trim(wv[0])) == Ok::<Seq<char>, IdentifierError>(name@),
                ws@.len() == wv.len(),
                forall|q: int| 0 <= q < ws@.len() ==> (#[trigger] ws@[q])@ == wv[q],
                arguments_of(wv.drop_first()) == arguments_after(
                    expression_views(parameters@),
                    arguments_of(wv.subrange(i as int, wv.len() as int)),
                ),
            decreases ws@.len() - i,
        {
            let ghost rest = wv.subrange(i as int, wv.len() as int);
            proof {
                assert(rest.drop_first() =~= wv.subrange(i + 1, wv.len() as int));
            }
            let text = TrimmedStr::new(ws[i]);
            match Expression::new(&text) {
                Ok(e) => {
                    let ghost before = expression_views(parameters@);
                    parameters.push(e);
                    proof {
                        assert(expression_views(parameters@) =~= before.push(e@));
                        match arguments_of(rest.drop_first()) {
                            Ok(others) => {
                                assert(before + (seq![e@] + others) =~= expression_views(
                                    parameters@,
                                ) + others);
                            },
                            Err(_) => {},
                        }
                    }
                },
                Err(e) => {
                    assert(rest[0] == wv[i as int]);
                    return Err(Error::Expression(e));
                },
            }
            i = i + 1;
        }
        proof {
            assert(wv.subrange(i as int, wv.len() as int) =~= Seq::<Seq<char>>::empty());
            assert(expression_views(parameters@) + Seq::<ExprV>::empty() =~= expression_views(
                parameters@,
            ));
        }
        Ok(FunctionCall { name, parameters })
    }

    /// Looks the function up in `local`; when the arguments match its
    /// parameters in number, binds each parameter to its argument in `local`
    /// and yields the body, to be evaluated there. The parameters are bound
    /// in the calling scope itself, so the body sees them and whatever else
    /// that scope sees; a later definition of a name it uses changes what it
    /// evaluates to.
    pub fn try_get_expression_from(&self, local: &mut Environment) -> (r: Result<
        Expression,
        FunctionCallError,
    >)
        ensures
            (final(local)@, view_result(r)) == call_of(old(local)@, self@.0, self@.1),
    {
        let (parameters, body) = match local.get_from_self_and_parent(&self.name) {
            Some(NamedValue::Function { parameters, body }) => (parameters, body),
            _ => return Err(FunctionCallError::NotFound),
        };
        if parameters.len() != self.parameters.len() {
            return Err(
                FunctionCallError::WrongParameterCount {
                    expected: parameters.len(),
                    got: self.parameters.len(),
                },
            );
        }
        let ghost ps = names_of(parameters@);
        let ghost args = expression_views(self.parameters@);
        let mut i: usize = 0;
        proof {
            assert(ps.subrange(0, 0) =~= Seq::<Seq<char>>::empty());
        }
        while i < parameters.len()
            invariant
                i <= parameters@.len(),
                parameters@.len() == self.parameters@.len(),
                ps == names_of(parameters@),
                args == expression_views(self.parameters@),
                local@ == bind_parameters(
                    old(local)@,
                    ps.subrange(0, i as int),
                    args.subrange(0, i as int),
                ),
            decreases parameters@.len() - i,
        {
            proof {
                assert(ps.subrange(0, i + 1).drop_last() =~= ps.subrange(0, i as int));
                assert(args.subrange(0, i + 1).drop_last() =~= args.subrange(0, i as int));
            }
            local.insert_binding(parameters[i].clone(), self.parameters[i].duplicate());
            i = i + 1;
        }
        proof {
            assert(ps.subrange(0, i as int) =~= ps);
            assert(args.subrange(0, i as int) =~= args);
        }
        Ok(body)
    }
}

} // verus!
