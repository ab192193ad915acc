//! Properties that hold of every program and every session, proved from the
//! definitions that the library's functions are verified against.
use vstd::prelude::*;

use crate::error::FunctionCallError;
use crate::error::{error_text, Error};
use crate::grammar::{
    block_of, expression_of, operation_of, pre_parse_of, statement_of, ExprV, StmtV,
};
use crate::identifier::identifier_of;
use crate::number::{
    digit_char, digit_value, is_digit, int_text, nat_text, number_of, scan_digits,
};
use crate::operator::{operator_of, Operator};
use crate::parser::session_step;
use crate::semantics::arithmetic;
use crate::semantics::{
    call_of, define, eval_expr, execute, lookup, lookup_binding, run_statements, NamedV, Scope,
    ValueV, MAX_DEPTH,
};
use crate::text::{
    first_op_from, is_op_char, is_trimmed, is_white_space, lemma_first_op_from,
    lemma_trim_trimmed, rest_from,
};

verus! {

/// After `let name = x;` runs in an environment, `name` resolves there to
/// `x`, and evaluating `name` is evaluating `x` in that environment.
pub proof fn binding_then_lookup(env: Seq<Scope>, name: Seq<char>, x: ExprV, depth: nat)
    requires
        env.len() >= 1,
    ensures
        execute(StmtV::BindingDef(name, x), env).1 == ExprV::Empty,
        lookup_binding(execute(StmtV::BindingDef(name, x), env).0, name) == Some(x),
        eval_expr(ExprV::Binding(name), execute(StmtV::BindingDef(name, x), env).0, depth + 1)
            == eval_expr(x, execute(StmtV::BindingDef(name, x), env).0, depth),
{
    let after = execute(StmtV::BindingDef(name, x), env).0;
    assert(after[0].contains_key(name));
}

/// A name bound in a child scope hides the same name bound in its parent,
/// inside the child; the parent's own binding is left as it was.
pub proof fn shadowing(env: Seq<Scope>, name: Seq<char>, outer: ExprV, inner: ExprV)
    requires
        env.len() >= 1,
    ensures
        ({
            let parent = define(env, name, NamedV::Binding(outer));
            let child = define(seq![Map::empty()] + parent, name, NamedV::Binding(inner));
            &&& lookup_binding(child, name) == Some(inner)
            &&& lookup_binding(parent, name) == Some(outer)
            &&& child.drop_first() == parent
        }),
{
    let parent = define(env, name, NamedV::Binding(outer));
    let child = define(seq![Map::empty()] + parent, name, NamedV::Binding(inner));
    assert(parent[0].contains_key(name));
    assert(child[0].contains_key(name));
    assert(child.drop_first() =~= parent);
}

proof fn lemma_run_keeps_outer(sts: Seq<StmtV>, env: Seq<Scope>)
    requires
        env.len() >= 1,
    ensures
        run_statements(sts, env).0.len() == env.len(),
        run_statements(sts, env).0.drop_first() == env.drop_first(),
    decreases sts.len(),
{
    if sts.len() > 0 {
        lemma_run_keeps_outer(sts.drop_last(), env);
        let before = run_statements(sts.drop_last(), env).0;
        assert(execute(sts.last(), before).0.drop_first() =~= before.drop_first());
    }
}

/// The statements of a block change only the block's own scope: what they
/// define is gone from the scopes around the block once it ends.
pub proof fn block_isolation(sts: Seq<StmtV>, env: Seq<Scope>)
    ensures
        run_statements(sts, seq![Map::empty()] + env).0.drop_first() == env,
{
    let start = seq![Map::<Seq<char>, NamedV>::empty()] + env;
    lemma_run_keeps_outer(sts, start);
    assert(start.drop_first() =~= env);
}

/// Calling a function with more or fewer arguments than it has parameters
/// changes nothing and fails with both counts.
pub proof fn arity_mismatch(
    env: Seq<Scope>,
    name: Seq<char>,
    parameters: Seq<Seq<char>>,
    body: ExprV,
    args: Seq<ExprV>,
)
    requires
        lookup(env, name) == Some(NamedV::Function(parameters, body)),
        parameters.len() != args.len(),
    ensures
        call_of(env, name, args) == (
            env,
            Err::<ExprV, FunctionCallError>(
                FunctionCallError::WrongParameterCount {
                    expected: parameters.len() as usize,
                    got: args.len() as usize,
                },
            ),
        ),
{
}

/// The value of a run of ASCII digits read in decimal.
pub open spec fn digits_value(d: Seq<char>) -> int
    decreases d.len(),
{
    if d.len() == 0 {
        0
    } else {
        digits_value(d.drop_last()) * 10 + digit_value(d.last())
    }
}

proof fn lemma_digit_char(d: nat)
    requires
        d < 10,
    ensures
        is_digit(digit_char(d)),
        digit_value(digit_char(d)) == d,
{
}

proof fn lemma_nat_text(m: nat)
    ensures
        nat_text(m).len() >= 1,
        forall|k: int| 0 <= k < nat_text(m).len() ==> is_digit(#[trigger] nat_text(m)[k]),
        digits_value(nat_text(m)) == m,
    decreases m,
{
    if m < 10 {
        lemma_digit_char(m);
        assert(nat_text(m).drop_last() =~= Seq::<char>::empty());
        assert(digits_value(Seq::<char>::empty()) == 0);
    } else {
        lemma_nat_text(m / 10);
        lemma_digit_char(m % 10);
        assert(nat_text(m).drop_last() =~= nat_text(m / 10));
        assert(nat_text(m).last() == digit_char(m % 10));
        assert((m / 10) * 10 + m % 10 == m) by (nonlinear_arith);
        assert(digits_value(nat_text(m)) == digits_value(nat_text(m / 10)) * 10 + digit_value(
            digit_char(m % 10),
        ));
    }
}

proof fn lemma_digits_value_grows(s: Seq<char>, i: int, k: int, j: int)
    requires
        0 <= i <= k <= j <= s.len(),
        forall|q: int| i <= q < s.len() ==> is_digit(#[trigger] s[q]),
    ensures
        0 <= digits_value(s.subrange(i, k)) <= digits_value(s.subrange(i, j)),
    decreases j - k,
{
    if k < j {
        lemma_digits_value_grows(s, i, k, j - 1);
        assert(s.subrange(i, j).drop_last() =~= s.subrange(i, j - 1));
        lemma_digits_value_grows(s, i, j - 1, j - 1);
    } else {
        lemma_digits_value_nonneg(s.subrange(i, k));
    }
}

proof fn lemma_digits_value_nonneg(d: Seq<char>)
    requires
        forall|q: int| 0 <= q < d.len() ==> is_digit(#[trigger] d[q]),
    ensures
        digits_value(d) >= 0,
    decreases d.len(),
{
    if d.len() > 0 {
        lemma_digits_value_nonneg(d.drop_last());
    }
}

proof fn lemma_scan_prefix(s: Seq<char>, i: int, k: int, neg: bool)
    requires
        0 <= i <= k <= s.len(),
        forall|q: int| i <= q < s.len() ==> is_digit(#[trigger] s[q]),
        digits_value(s.subrange(i, s.len() as int)) <= if neg {
            0x8000_0000int
        } else {
            0x7fff_ffffint
        },
    ensures
        scan_digits(s, i, neg, 0) == scan_digits(s, k, neg, digits_value(s.subrange(i, k))),
    decreases k - i,
{
    if k == i {
        assert(s.subrange(i, k) =~= Seq::<char>::empty());
    } else {
        lemma_scan_prefix(s, i, k - 1, neg);
        assert(s.subrange(i, k).drop_last() =~= s.subrange(i, k - 1));
        lemma_digits_value_grows(s, i, k, s.len() as int);
    }
}

proof fn lemma_scan_all(s: Seq<char>, i: int, neg: bool)
    requires
        0 <= i <= s.len(),
        forall|q: int| i <= q < s.len() ==> is_digit(#[trigger] s[q]),
        digits_value(s.subrange(i, s.len() as int)) <= if neg {
            0x8000_0000int
        } else {
            0x7fff_ffffint
        },
    ensures
        scan_digits(s, i, neg, 0) == Ok::<int, crate::error::IntErrorKind>(
            if neg {
                -digits_value(s.subrange(i, s.len() as int))
            } else {
                digits_value(s.subrange(i, s.len() as int))
            },
        ),
{
    lemma_scan_prefix(s, i, s.len() as int, neg);
}

/// The decimal text of a number reads back as that number.
pub proof fn number_text_round_trip(n: i32)
    ensures
        number_of(int_text(n as int)) == Ok::<i32, crate::error::IntErrorKind>(n),
{
    if n < 0 {
        let m = (-n) as nat;
        let s = int_text(n as int);
        lemma_nat_text(m);
        assert(s.subrange(1, s.len() as int) =~= nat_text(m));
        assert forall|q: int| 1 <= q < s.len() implies is_digit(#[trigger] s[q]) by {
            assert(s[q] == nat_text(m)[q - 1]);
        }
        lemma_scan_all(s, 1, true);
    } else {
        let s = nat_text(n as nat);
        lemma_nat_text(n as nat);
        assert(s.subrange(0, s.len() as int) =~= s);
        lemma_scan_all(s, 0, false);
    }
}

proof fn lemma_empty_expression()
    ensures
        expression_of(Seq::empty()) == Ok::<ExprV, crate::error::ExpressionError>(ExprV::Empty),
{
    let e = Seq::<char>::empty();
    assert(first_op_from(e, 0) == 0);
    assert(operation_of(e) is Err);
    assert(identifier_of(e) is Err);
    assert(block_of(e) is Err);
}

proof fn lemma_int_text_shape(n: i32)
    ensures
        int_text(n as int).len() >= 1,
        is_trimmed(int_text(n as int)),
        n >= 0 ==> forall|q: int|
            0 <= q < int_text(n as int).len() ==> is_digit(#[trigger] int_text(n as int)[q]),
        n < 0 ==> int_text(n as int)[0] == '-',
{
    let s = int_text(n as int);
    let m: nat = if n < 0 {
        (-n) as nat
    } else {
        n as nat
    };
    lemma_nat_text(m);
    assert forall|q: int| 0 <= q < s.len() implies (#[trigger] s[q] == '-' && q == 0 && n < 0)
        || is_digit(s[q]) by {
        if n < 0 && q > 0 {
            assert(s[q] == nat_text(m)[q - 1]);
        }
    }
    assert(!is_white_space(s[0]));
    assert(!is_white_space(s.last()));
}

proof fn lemma_number_expression(n: i32)
    ensures
        expression_of(int_text(n as int)) == Ok::<ExprV, crate::error::ExpressionError>(
            ExprV::Number(n),
        ),
{
    let s = int_text(n as int);
    lemma_int_text_shape(n);
    number_text_round_trip(n);
    lemma_first_op_from(s, 0);
    if n < 0 {
        assert(is_op_char(s[0]));
        assert(first_op_from(s, 0) == 0);
        assert(s.subrange(0, 0) =~= Seq::<char>::empty());
        lemma_trim_trimmed(Seq::<char>::empty());
        lemma_empty_expression();
        assert(operation_of(s) is Err);
    } else {
        assert(first_op_from(s, 0) == s.len());
        assert(operation_of(s) is Err);
    }
}

/// Reading the decimal text of a number as a statement gives that number,
/// and running it in any session leaves the session as it was and prints the
/// same text back.
pub proof fn number_line_round_trip(n: i32, env: Seq<Scope>)
    ensures
        statement_of(int_text(n as int)) == Ok::<StmtV, crate::error::StatementError>(
            StmtV::Expression(ExprV::Number(n)),
        ),
        session_step(env, int_text(n as int)) == (
            env,
            Ok::<Seq<char>, Seq<char>>(int_text(n as int)),
        ),
{
    let s = int_text(n as int);
    lemma_int_text_shape(n);
    lemma_trim_trimmed(s);
    lemma_number_expression(n);
    assert(pre_parse_of(s) == Some(StmtV::Expression(ExprV::Number(n))));
    assert(eval_expr(ExprV::Number(n), env, MAX_DEPTH as nat) == Ok::<
        ValueV,
        crate::error::Error,
    >(ValueV::Number(n)));
}

/// Text holds an operation exactly when it is read as one: an operation is
/// tried before a number, a name and a block. The empty text is the empty
/// expression.
pub proof fn parse_precedence(s: Seq<char>)
    ensures
        operation_of(s) is Ok ==> expression_of(s) == Ok::<ExprV, crate::error::ExpressionError>(
            operation_of(s)->Ok_0,
        ),
        expression_of(s) is Ok && expression_of(s)->Ok_0 is Operation ==> operation_of(s) is Ok,
        expression_of(Seq::empty()) == Ok::<ExprV, crate::error::ExpressionError>(ExprV::Empty),
{
    lemma_empty_expression();
    if expression_of(s) is Ok && expression_of(s)->Ok_0 is Operation {
        if operation_of(s) is Err {
            assert(block_of(s) is Ok ==> expression_of(s)->Ok_0 is Block);
        }
    }
}

proof fn lemma_operator_char(c: char, op: Operator)
    requires
        operator_of(seq![c]) == Ok::<Operator, crate::error::OperatorError>(op),
    ensures
        is_op_char(c),
{
    if !is_op_char(c) {
        assert(seq![c][0] != seq!['+'][0]);
        assert(seq![c][0] != seq!['-'][0]);
        assert(seq![c][0] != seq!['*'][0]);
        assert(seq![c][0] != seq!['/'][0]);
    }
}

proof fn lemma_operation_text(a: i32, c: char, op: Operator, b: i32)
    requires
        a >= 0,
        operator_of(seq![c]) == Ok::<Operator, crate::error::OperatorError>(op),
    ensures
        is_trimmed(int_text(a as int) + seq![c] + int_text(b as int)),
        expression_of(int_text(a as int) + seq![c] + int_text(b as int)) == Ok::<
            ExprV,
            crate::error::ExpressionError,
        >(ExprV::Operation(Box::new(ExprV::Number(a)), op, Box::new(ExprV::Number(b)))),
{
    let l = int_text(a as int);
    let r = int_text(b as int);
    let s = l + seq![c] + r;
    let k = l.len() as int;
    lemma_int_text_shape(a);
    lemma_int_text_shape(b);
    lemma_number_expression(a);
    lemma_number_expression(b);
    lemma_operator_char(c, op);
    assert(s[k] == c);
    assert forall|q: int| 0 <= q < k implies !is_op_char(#[trigger] s[q]) by {
        assert(s[q] == l[q]);
        assert(is_digit(l[q]));
    }
    lemma_first_op_before(s, k);
    assert(s.subrange(0, k) =~= l);
    assert(rest_from(s, k + 1) =~= r);
    lemma_trim_trimmed(l);
    lemma_trim_trimmed(r);
    assert(s[0] == l[0]);
    assert(s.last() == r.last());
    assert(seq![s[k]] =~= seq![c]);
}

/// A line `a op b` made of the decimal texts of two numbers, the first not
/// negative, prints the decimal text of the result, or the text of the
/// arithmetic error, and leaves the session as it was.
pub proof fn arithmetic_line(a: i32, c: char, op: Operator, b: i32, env: Seq<Scope>)
    requires
        a >= 0,
        operator_of(seq![c]) == Ok::<Operator, crate::error::OperatorError>(op),
    ensures
        session_step(env, int_text(a as int) + seq![c] + int_text(b as int)) == (
            env,
            match arithmetic(op, a, b) {
                Ok(v) => Ok::<Seq<char>, Seq<char>>(int_text(v as int)),
                Err(e) => Err::<Seq<char>, Seq<char>>(error_text(Error::Operation(e))),
            },
        ),
{
    let s = int_text(a as int) + seq![c] + int_text(b as int);
    let x = ExprV::Operation(Box::new(ExprV::Number(a)), op, Box::new(ExprV::Number(b)));
    lemma_operation_text(a, c, op, b);
    lemma_trim_trimmed(s);
    assert(pre_parse_of(s) == Some(StmtV::Expression(x)));
    assert(statement_of(s) == Ok::<StmtV, crate::error::StatementError>(StmtV::Expression(x)));
    assert(eval_expr(ExprV::Number(a), env, MAX_DEPTH as nat) == Ok::<ValueV, Error>(ValueV::Number(a)));
    assert(eval_expr(ExprV::Number(b), env, MAX_DEPTH as nat) == Ok::<ValueV, Error>(ValueV::Number(b)));
}

proof fn lemma_first_op_before(s: Seq<char>, k: int)
    requires
        0 <= k < s.len(),
        is_op_char(s[k]),
        forall|q: int| 0 <= q < k ==> !is_op_char(#[trigger] s[q]),
    ensures
        first_op_from(s, 0) == k,
{
    lemma_first_op_from(s, 0);
    let f = first_op_from(s, 0);
    if f < k {
        assert(is_op_char(s[f]));
    } else if f > k {
        lemma_first_op_stops(s, 0, k);
    }
}

proof fn lemma_first_op_stops(s: Seq<char>, i: int, k: int)
    requires
        0 <= i <= k < s.len(),
        is_op_char(s[k]),
    ensures
        first_op_from(s, i) <= k,
    decreases k - i,
{
    if i < k && !is_op_char(s[i]) {
        lemma_first_op_stops(s, i + 1, k);
    }
}

} // verus!
