//! Function definitions: `fn name parameters => body`.
use vstd::prelude::*;

use crate::environment::Environment;
use crate::error::{Error, FunctionDefError};
use crate::expression::{expression_view, Expression};
use crate::grammar::{fn_keyword, function_def_of, valid_names, view_result, ExprV};
use crate::identifier::Identifier;
use crate::semantics::{define, NamedV};
use crate::text::{
    find_arrow, find_char, has_prefix, lemma_first_arrow_from, lemma_first_from, rest_from,
    split_words, words, TrimmedStr,
};

verus! {

/// A named function: its parameter names and its body, not yet evaluated.
#[derive(Debug, PartialEq, Eq)]
pub struct FunctionDef {
    name: Identifier,
    parameters: Vec<Identifier>,
    body: Expression,
}

/// The names of `v`, in order.
pub open spec fn names_of(v: Seq<Identifier>) -> Seq<Seq<char>> {
    v.map_values(|p: Identifier| p@)
}

/// The mathematical form of a function definition: name, parameters, body.
pub closed spec fn function_def_view(f: &FunctionDef) -> (Seq<char>, Seq<Seq<char>>, ExprV)
    decreases f, 0nat,
{
    (f.name@, names_of(f.parameters@), expression_view(&f.body))
}

impl View for FunctionDef {
    type V = (Seq<char>, Seq<Seq<char>>, ExprV);

    open spec fn view(&self) -> (Seq<char>, Seq<Seq<char>>, ExprV) {
        function_def_view(self)
    }
}

impl Clone for FunctionDef {
    fn clone(&self) -> (r: Self)
        ensures
            r@ == self@,
    {
        self.duplicate()
    }
}

/// A copy of a list of names.
pub fn copy_names(v: &Vec<Identifier>) -> (r: Vec<Identifier>)
    ensures
        names_of(r@) == names_of(v@),
{
    let mut out: Vec<Identifier> = Vec::new();
    let mut i: usize = 0;
    while i < v.len()
        invariant
            i <= v@.len(),
            names_of(out@) =~= names_of(v@.subrange(0, i as int)),
        decreases v@.len() - i,
    {
        let ghost before = out@;
        let name = v[i].clone();
        out.push(name);
        assert(names_of(out@) =~= names_of(before).push(name@));
        assert(v@.subrange(0, i + 1) =~= v@.subrange(0, i as int).push(v@[i as int]));
        assert(names_of(v@.subrange(0, i + 1)) =~= names_of(v@.subrange(0, i as int)).push(v@[i as int]@));
        i = i + 1;
    }
    assert(v@.subrange(0, i as int) =~= v@);
    out
}

impl FunctionDef {
    /// A copy of the definition.
    pub fn duplicate(&self) -> (r: Self)
        ensures
            r@ == self@,
        decreases self, 0nat,
    {
        FunctionDef {
            name: self.name.clone(),
            parameters: copy_names(&self.parameters),
            body: self.body.duplicate(),
        }
    }

    /// Defines the function in `env`.
    pub fn store(&self, env: &mut Environment)
        ensures
            final(env)@ == define(old(env)@, self@.0, NamedV::Function(self@.1, self@.2)),
    {
        env.insert_function(self.name.clone(), copy_names(&self.parameters), self.body.duplicate());
    }

    /// The definition of the function `name` with `parameters` and `body`.
    pub fn from_parts(name: Identifier, parameters: Vec<Identifier>, body: Expression) -> (r: Self)
        ensures
            r@ == (name@, names_of(parameters@), body@),
    {
        FunctionDef { name, parameters, body }
    }

    /// Reads `s` as `fn`, a name, parameter names, `=>` and a body. Words
    /// among the parameters that are not valid names are dropped.
    pub fn new(s: &TrimmedStr) -> (r: Result<Self, Error>)
        ensures
            view_result(r) == function_def_of(s@),
        decreases s@.len(), 2nat,
    {
        let t = s.as_str();
        let keyword = "fn ";
        proof {
            reveal_strlit("fn ");
            assert(keyword@ =~= fn_keyword());
        }
        if !has_prefix(t, keyword) {
            return Err(Error::FunctionDef(FunctionDefError::MissingFnKeyword));
        }
        let n = t.unicode_len();
        let r = t.substring_char(3, n);
        let m = r.unicode_len();
        let k = find_arrow(r);
        proof {
            lemma_first_arrow_from(r@, 0);
        }
        if k >= m || k + 1 >= m {
            return Err(Error::FunctionDef(FunctionDefError::MissingArrow));
        }
        let head = r.substring_char(0, k);
        let head_text = TrimmedStr::new(head);
        let ht = head_text.as_str();
        let hn = ht.unicode_len();
        let j = find_char(ht, ' ');
        proof {
            lemma_first_from(ht@, ' ', 0);
        }
        let (name_text, parameter_text) = if j >= hn {
            (head, ht.substring_char(hn, hn))
        } else {
            (ht.substring_char(0, j), ht.substring_char(j + 1, hn))
        };
        proof {
            if j >= hn {
                assert(parameter_text@ =~= Seq::<char>::empty());
            } else {
                assert(parameter_text@ == rest_from(ht@, j + 1));
            }
        }
        let ws = split_words(parameter_text);
        let ghost wv = words(parameter_text@);
        let mut parameters: Vec<Identifier> = Vec::new();
        let mut i: usize = 0;
        while i < ws.len()
            invariant
                i <= ws@.len(),
                ws@.len() == wv.len(),
                forall|q: int| 0 <= q < ws@.len() ==> (#[trigger] ws@[q])@ == wv[q],
                names_of(parameters@) == valid_names(wv.subrange(0, i as int)),
            decreases ws@.len() - i,
        {
            let ghost before = parameters@;
            proof {
                assert(wv.subrange(0, i + 1).drop_last() =~= wv.subrange(0, i as int));
            }
            match Identifier::parse(ws[i]) {
                Ok(name) => {
                    parameters.push(name);
                    assert(names_of(parameters@) =~= names_of(before).push(parameters@.last()@));
                },
                Err(_) => {},
            }
            i = i + 1;
        }
        assert(wv.subrange(0, i as int) =~= wv);
        let body_text = TrimmedStr::new(r.substring_char(k + 2, m));
        assert(r@.subrange(k + 2, m as int) == rest_from(r@, k + 2));
        let body = match Expression::new(&body_text) {
            Ok(e) => e,
            Err(e) => return Err(Error::Expression(e)),
        };
        let name = match Identifier::parse(name_text) {
            Ok(name) => name,
            Err(e) => return Err(Error::Identifier(e)),
        };
        Ok(FunctionDef { name, parameters, body })
    }
}

} // verus!
