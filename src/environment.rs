//! Scopes: what the names defined in a block or a session stand for, chained
//! to the scope around them.
use vstd::prelude::*;

use crate::expression::Expression;
use crate::grammar::view_option;
use crate::identifier::Identifier;
use crate::named_value::NamedValue;
use crate::semantics::{define, lookup, lookup_binding, lookup_function_outside, NamedV, Scope};

verus! {

/// One scope and, if it is nested, the scope around it. A scope only ever
/// reads the scope around it, which outlives it.
#[derive(Debug, PartialEq, Eq)]
pub struct Environment<'parent> {
    bindings: Vec<(Identifier, NamedValue)>,
    parent: Option<&'parent Environment<'parent>>,
}

/// The scope that a list of definitions makes: a later definition of a name
/// replaces an earlier one.
pub open spec fn scope_of(entries: Seq<(Identifier, NamedValue)>) -> Scope
    decreases entries.len(),
{
    if entries.len() == 0 {
        Map::empty()
    } else {
        scope_of(entries.drop_last()).insert(entries.last().0@, entries.last().1@)
    }
}

/// The scopes of `env`, innermost first.
pub closed spec fn scopes(env: &Environment) -> Seq<Scope>
    decreases env,
{
    match env.parent {
        Some(p) => seq![scope_of(env.bindings@)] + scopes(p),
        None => seq![scope_of(env.bindings@)],
    }
}

impl<'parent> View for Environment<'parent> {
    type V = Seq<Scope>;

    open spec fn view(&self) -> Seq<Scope> {
        scopes(self)
    }
}

/// Every environment has a scope of its own.
pub proof fn lemma_has_scope(env: &Environment)
    ensures
        env@.len() >= 1,
{
}

proof fn lemma_scope_after(entries: Seq<(Identifier, NamedValue)>, i: int, name: Seq<char>)
    requires
        0 <= i < entries.len(),
        entries[i].0@ == name,
        forall|k: int| i < k < entries.len() ==> (#[trigger] entries[k]).0@ != name,
    ensures
        scope_of(entries).contains_key(name),
        scope_of(entries)[name] == entries[i].1@,
    decreases entries.len(),
{
    if i < entries.len() - 1 {
        lemma_scope_after(entries.drop_last(), i, name);
    }
}

proof fn lemma_scope_absent(entries: Seq<(Identifier, NamedValue)>, name: Seq<char>)
    requires
        forall|k: int| 0 <= k < entries.len() ==> (#[trigger] entries[k]).0@ != name,
    ensures
        !scope_of(entries).contains_key(name),
    decreases entries.len(),
{
    if entries.len() > 0 {
        lemma_scope_absent(entries.drop_last(), name);
    }
}

proof fn lemma_scope_replace(
    entries: Seq<(Identifier, NamedValue)>,
    i: int,
    entry: (Identifier, NamedValue),
)
    requires
        0 <= i < entries.len(),
        entries[i].0@ == entry.0@,
        forall|k: int| i < k < entries.len() ==> (#[trigger] entries[k]).0@ != entry.0@,
    ensures
        scope_of(entries.update(i, entry)) == scope_of(entries).insert(entry.0@, entry.1@),
    decreases entries.len(),
{
    let updated = entries.update(i, entry);
    if i == entries.len() - 1 {
        assert(updated.drop_last() =~= entries.drop_last());
        assert(scope_of(updated) =~= scope_of(entries).insert(entry.0@, entry.1@));
    } else {
        assert(updated.drop_last() =~= entries.drop_last().update(i, entry));
        lemma_scope_replace(entries.drop_last(), i, entry);
        assert(scope_of(updated) =~= scope_of(entries).insert(entry.0@, entry.1@));
    }
}

impl<'parent> Default for Environment<'parent> {
    fn default() -> (r: Self)
        ensures
            r@ == seq![Map::<Seq<char>, NamedV>::empty()],
    {
        let r = Environment { bindings: Vec::new(), parent: None };
        assert(r.bindings@ =~= Seq::<(Identifier, NamedValue)>::empty());
        r
    }
}

impl<'parent> Environment<'parent> {
    /// A new, empty scope nested in this one.
    pub fn create_child(&'parent self) -> (r: Self)
        ensures
            r@ == seq![Map::<Seq<char>, NamedV>::empty()] + self@,
    {
        let r = Environment { bindings: Vec::new(), parent: Some(self) };
        assert(r.bindings@ =~= Seq::<(Identifier, NamedValue)>::empty());
        r
    }

    /// The position of the last definition of `name` in this scope, if any.
    fn position_of(&self, name: &Identifier) -> (r: Option<usize>)
        ensures
            match r {
                Some(i) => i < self.bindings@.len() && self.bindings@[i as int].0@ == name@
                    && forall|k: int|
                    i < k < self.bindings@.len() ==> (#[trigger] self.bindings@[k]).0@ != name@,
                None => forall|k: int|
                    0 <= k < self.bindings@.len() ==> (#[trigger] self.bindings@[k]).0@ != name@,
            },
    {
        let mut i: usize = self.bindings.len();
        while i > 0
            invariant
                i <= self.bindings@.len(),
                forall|k: int|
                    i <= k < self.bindings@.len() ==> (#[trigger] self.bindings@[k]).0@ != name@,
            decreases i,
        {
            if self.bindings[i - 1].0.same_as(name) {
                return Some(i - 1);
            }
            i = i - 1;
        }
        None
    }

    /// Makes `name` stand for `value` in this scope.
    fn define(&mut self, name: Identifier, value: NamedValue)
        ensures
            final(self)@ == define(old(self)@, name@, value@),
            final(self).parent == old(self).parent,
    {
        let ghost key = name@;
        let ghost v = value@;
        match self.position_of(&name) {
            Some(i) => {
                proof {
                    lemma_scope_replace(self.bindings@, i as int, (name, value));
                }
                self.bindings.set(i, (name, value));
            },
            None => {
                let ghost before = self.bindings@;
                self.bindings.push((name, value));
                assert(self.bindings@.drop_last() =~= before);
            },
        }
        assert(scopes(self) =~= define(scopes(old(self)), key, v));
    }

    /// Binds `expr`, unevaluated, to `name` in this scope.
    pub fn insert_binding(&mut self, name: Identifier, expr: Expression)
        ensures
            final(self)@ == define(old(self)@, name@, NamedV::Binding(expr@)),
    {
        self.define(name, NamedValue::Binding(expr));
    }

    /// Binds `expr`, unevaluated, to `name` in this scope.
    pub fn insert(&mut self, name: Identifier, expr: Expression)
        ensures
            final(self)@ == define(old(self)@, name@, NamedV::Binding(expr@)),
    {
        self.insert_binding(name, expr);
    }

    /// Defines the function `name` in this scope.
    pub fn insert_function(&mut self, name: Identifier, parameters: Vec<Identifier>, body: Expression)
        ensures
            final(self)@ == define(
                old(self)@,
                name@,
                NamedV::Function(crate::function_def::names_of(parameters@), body@),
            ),
    {
        self.define(name, NamedValue::Function { parameters, body });
    }

    /// What `name` stands for in this scope alone.
    pub fn get_from_self(&self, name: &Identifier) -> (r: Option<NamedValue>)
        ensures
            view_option(r) == if self@[0].contains_key(name@) {
                Some(self@[0][name@])
            } else {
                None
            },
    {
        match self.position_of(name) {
            Some(i) => {
                proof {
                    lemma_scope_after(self.bindings@, i as int, name@);
                }
                Some(self.bindings[i].1.clone())
            },
            None => {
                proof {
                    lemma_scope_absent(self.bindings@, name@);
                }
                None
            },
        }
    }

    /// What `name` stands for: in this scope, else in the scopes around it.
    pub fn get_from_self_and_parent(&self, name: &Identifier) -> (r: Option<NamedValue>)
        ensures
            view_option(r) == lookup(self@, name@),
        decreases self,
    {
        let own = self.get_from_self(name);
        if own.is_some() {
            return own;
        }
        match self.parent {
            Some(parent) => {
                let r = parent.get_from_self_and_parent(name);
                assert(self@.drop_first() =~= parent@);
                assert(!self@[0].contains_key(name@));
                assert(view_option(r) == lookup(parent@, name@));
                assert(lookup(self@, name@) == lookup(self@.drop_first(), name@));
                r
            },
            None => {
                assert(!self@[0].contains_key(name@));
                assert(self@.drop_first() =~= Seq::<Scope>::empty());
                None
            },
        }
    }

    /// What `name` stands for in this scope; in the scopes around it only a
    /// function is seen.
    pub fn get_from_self_and_get_function_from_parent(&self, name: &Identifier) -> (r: Option<
        NamedValue,
    >)
        ensures
            view_option(r) == lookup_function_outside(self@, name@),
    {
        let own = self.get_from_self(name);
        if own.is_some() {
            return own;
        }
        match self.parent {
            Some(parent) => {
                assert(self@.drop_first() =~= parent@);
                match parent.get_from_self_and_parent(name) {
                    Some(found) => if found.is_function() {
                        Some(found)
                    } else {
                        None
                    },
                    None => None,
                }
            },
            None => {
                assert(self@.drop_first() =~= Seq::<Scope>::empty());
                None
            },
        }
    }

    /// The expression bound to `name`, here or in the scopes around; a
    /// function binds none.
    pub fn get(&self, name: &Identifier) -> (r: Option<Expression>)
        ensures
            view_option(r) == lookup_binding(self@, name@),
    {
        match self.get_from_self_and_parent(name) {
            Some(found) => found.into_expression(),
            None => None,
        }
    }
}

} // verus!
