//! Blocks: statements between braces, run in a scope of their own.
use vstd::prelude::*;

use crate::environment::{lemma_has_scope, Environment};
use crate::error::{BlockError, Error, StatementError};
use crate::expression::Expression;
use crate::grammar::{block_of, statements_of, view_result, ExprV, StmtV};
use crate::semantics::run_statements;
use crate::statement::{statement_view, Statement};
use crate::text::{find_char, lemma_first_from, rest_from, TrimmedStr};

verus! {

/// A sequence of statements between `{` and `}`.
#[derive(Debug, PartialEq, Eq)]
pub struct Block {
    statements: Vec<Statement>,
}

/// The mathematical forms of the statements of `v`, in order.
pub open spec fn statement_views(v: Seq<Statement>) -> Seq<StmtV> {
    Seq::new(v.len(), |i: int| v[i]@)
}

/// The mathematical form of a block: its statements.
pub closed spec fn block_view(b: &Block) -> Seq<StmtV>
    decreases b, 0nat,
{
    Seq::new(
        b.statements@.len(),
        |i: int|
            if 0 <= i < b.statements@.len() {
                statement_view(&b.statements@[i])
            } else {
                StmtV::Expression(ExprV::Empty)
            },
    )
}

impl View for Block {
    type V = Seq<StmtV>;

    open spec fn view(&self) -> Seq<StmtV> {
        block_view(self)
    }
}

impl Clone for Block {
    fn clone(&self) -> (r: Self)
        ensures
            r@ == self@,
    {
        self.duplicate()
    }
}

/// The result of reading the statements of `rest`, after those of `done`.
pub open spec fn continued(done: Seq<StmtV>, rest: Result<Seq<StmtV>, StatementError>) -> Result<
    Seq<StmtV>,
    StatementError,
> {
    match rest {
        Ok(others) => Ok(done + others),
        Err(e) => Err(e),
    }
}

/// Reads the statements of `t`, cut after each `;`.
fn statements_in(t: &str) -> (r: Result<Vec<Statement>, StatementError>)
    ensures
        match r {
            Ok(v) => statements_of(t@) == Ok::<Seq<StmtV>, StatementError>(statement_views(v@)),
            Err(e) => statements_of(t@) == Err::<Seq<StmtV>, StatementError>(e),
        },
    decreases t@.len(), 6nat,
{
    let mut out: Vec<Statement> = Vec::new();
    let mut rest: &str = t;
    loop
        invariant
            rest@.len() <= t@.len(),
            statements_of(t@) == continued(statement_views(out@), statements_of(rest@)),
        decreases rest@.len(),
    {
        let n = rest.unicode_len();
        if n == 0 {
            assert(statement_views(out@) + Seq::<StmtV>::empty() =~= statement_views(out@));
            return Ok(out);
        }
        let k = find_char(rest, ';');
        proof {
            lemma_first_from(rest@, ';', 0);
        }
        let piece = if k >= n {
            rest
        } else {
            rest.substring_char(0, k + 1)
        };
        let next = if k >= n {
            rest.substring_char(n, n)
        } else {
            rest.substring_char(k + 1, n)
        };
        proof {
            if k >= n {
                assert(next@ =~= Seq::<char>::empty());
            } else {
                assert(next@ == rest_from(rest@, k + 1));
            }
        }
        let piece_text = TrimmedStr::new(piece);
        match Statement::new(&piece_text) {
            Ok(statement) => {
                let ghost before = statement_views(out@);
                out.push(statement);
                proof {
                    assert(statement_views(out@) =~= before.push(statement@));
                    match statements_of(next@) {
                        Ok(others) => {
                            assert(before + (seq![statement@] + others) =~= statement_views(out@)
                                + others);
                        },
                        Err(_) => {},
                    }
                }
                rest = next;
            },
            Err(e) => return Err(e),
        }
    }
}

impl Block {
    /// A copy of the block.
    pub fn duplicate(&self) -> (r: Self)
        ensures
            r@ == self@,
        decreases self, 0nat,
    {
        let mut out: Vec<Statement> = Vec::new();
        let mut i: usize = 0;
        while i < self.statements.len()
            invariant
                i <= self.statements@.len(),
                out@.len() == i,
                forall|k: int| 0 <= k < i ==> (#[trigger] out@[k])@ == self.statements@[k]@,
            decreases self.statements@.len() - i,
        {
            assert(decreases_to!(self => self.statements@[i as int]));
            out.push(self.statements[i].duplicate());
            i = i + 1;
        }
        let r = Block { statements: out };
        assert(block_view(&r) =~= block_view(self));
        r
    }

    /// Runs the statements in order in `local`, and yields what the last one
    /// yields (the empty expression when there is none).
    pub fn get_expression_from(&self, local: &mut Environment) -> (r: Expression)
        ensures
            (final(local)@, r@) == run_statements(self@, old(local)@),
    {
        let mut last = Expression::Empty;
        proof {
            assert(self@.subrange(0, 0) =~= Seq::<StmtV>::empty());
        }
        let mut i: usize = 0;
        let n = self.statements.len();
        while i < n
            invariant
                n == self.statements@.len(),
                i <= n,
                (local@, last@) == run_statements(self@.subrange(0, i as int), old(local)@),
            decreases n - i,
        {
            proof {
                lemma_has_scope(local);
                assert(self@.subrange(0, i + 1).drop_last() =~= self@.subrange(0, i as int));
            }
            last = self.statements[i].get_expression_in(local);
            i = i + 1;
        }
        assert(self@.subrange(0, n as int) =~= self@);
        last
    }

    /// The block of `statements`, in order.
    pub fn from_statements(statements: Vec<Statement>) -> (r: Self)
        ensures
            r@ == statement_views(statements@),
    {
        let r = Block { statements };
        assert(block_view(&r) =~= statement_views(r.statements@));
        r
    }

    /// Reads `s` as a block: `{`, statements cut after each `;`, and `}`.
    pub fn new(s: &TrimmedStr) -> (r: Result<Self, Error>)
        ensures
            view_result(r) == block_of(s@),
        decreases s@.len(), 2nat,
    {
        let t = s.as_str();
        let n = t.unicode_len();
        if n == 0 || t.get_char(0) != '{' {
            return Err(Error::Block(BlockError::MissingOpeningBrace));
        }
        if n < 2 || t.get_char(n - 1) != '}' {
            return Err(Error::Block(BlockError::MissingClosingBrace));
        }
        let inner = TrimmedStr::new(t.substring_char(1, n - 1));
        match statements_in(inner.as_str()) {
            Ok(statements) => {
                let r = Block { statements };
                assert(block_view(&r) =~= statement_views(statements@));
                Ok(r)
            },
            Err(e) => Err(Error::Statement(e)),
        }
    }
}

} // verus!
