//! A session: lines read one at a time against one environment that keeps
//! what each line defines.
use vstd::prelude::*;

use crate::environment::{lemma_has_scope, Environment};
use crate::error::{error_text, statement_error_text};
use crate::grammar::statement_of;
use crate::semantics::{eval_expr, execute, value_text, Scope, MAX_DEPTH};
use crate::statement::Statement;
use crate::text::{trim, TrimmedStr};

verus! {

/// What one line does to a session: the scopes it leaves, and the text of
/// its value or of its error.
pub open spec fn session_step(env: Seq<Scope>, line: Seq<char>) -> (
    Seq<Scope>,
    Result<Seq<char>, Seq<char>>,
) {
    match statement_of(trim(line)) {
        Err(e) => (env, Err(statement_error_text(e))),
        Ok(st) => {
            let (after, x) = execute(st, env);
            (
                after,
                match eval_expr(x, after, MAX_DEPTH as nat) {
                    Ok(v) => Ok(value_text(v)),
                    Err(e) => Err(error_text(e)),
                },
            )
        },
    }
}

/// The texts that a result holds.
pub open spec fn texts(r: Result<String, String>) -> Result<Seq<char>, Seq<char>> {
    match r {
        Ok(s) => Ok(s@),
        Err(s) => Err(s@),
    }
}

/// A session, with the definitions of the lines read so far.
pub struct Parser<'a> {
    environment: Environment<'a>,
}

impl<'a> View for Parser<'a> {
    type V = Seq<Scope>;

    closed spec fn view(&self) -> Seq<Scope> {
        self.environment@
    }
}

impl<'a> Default for Parser<'a> {
    fn default() -> (r: Self)
        ensures
            r@ == seq![Map::<Seq<char>, crate::semantics::NamedV>::empty()],
    {
        Parser { environment: Environment::default() }
    }
}

impl<'a> Parser<'a> {
    /// Reads one line as a statement, runs it, and evaluates what it yields:
    /// the text of the value, or of the error. A line that is not a
    /// statement leaves the session as it was.
    pub fn parse(&mut self, s: &str) -> (r: Result<String, String>)
        ensures
            (final(self)@, texts(r)) == session_step(old(self)@, s@),
    {
        let line = TrimmedStr::new(s);
        let statement = match Statement::new(&line) {
            Ok(statement) => statement,
            Err(e) => return Err(e.message()),
        };
        proof {
            lemma_has_scope(&self.environment);
        }
        let x = statement.get_expression_in(&mut self.environment);
        match x.eval(&self.environment) {
            Ok(value) => Ok(value.to_string()),
            Err(e) => Err(e.message()),
        }
    }
}

} // verus!
