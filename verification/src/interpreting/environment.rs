//! The evaluator's mutable environments: a variable binding map and a
//! user-function definition map, both keyed by name with last-write-wins
//! semantics.
//!
//! Bindings are held in an association list whose view is the finite map
//! from key character sequences to value views; a later binding of a key
//! shadows an earlier one, which is exactly `Map::insert`.

use vstd::prelude::*;

use crate::parsing::ast::Ast;
use crate::parsing::ast::AstV;
use crate::parsing::ast::aview;
use crate::parsing::ast::aview_seq;

verus! {

/// A user-defined function: its formal parameter expressions and its body.
#[derive(Debug)]
pub struct FunctionDef {
    pub params: Vec<Ast>,
    pub body: Ast,
}

/// The mathematical content of a function definition.
pub ghost struct FunctionDefV {
    pub params: Seq<AstV>,
    pub body: AstV,
}

impl View for FunctionDef {
    type V = FunctionDefV;

    open spec fn view(&self) -> FunctionDefV {
        FunctionDefV { params: aview_seq(self.params@), body: aview(self.body) }
    }
}

impl FunctionDef {
    /// A copy with the same view.
    pub fn deep_clone(&self) -> (r: FunctionDef)
        ensures
            r@ == self@,
    {
        let mut params: Vec<Ast> = Vec::new();
        let mut i: usize = 0;
        while i < self.params.len()
            invariant
                i <= self.params.len(),
                params@.len() == i,
                aview_seq(params@) =~= aview_seq(self.params@.subrange(0, i as int)),
            decreases self.params.len() - i,
        {
            let ghost pre = params@;
            params.push(self.params[i].deep_clone());
            proof {
                assert(params@.drop_last() =~= pre);
                assert(self.params@.subrange(0, i as int + 1).drop_last() =~= self.params@.subrange(
                    0,
                    i as int,
                ));
                assert(aview_seq(params@) =~= aview_seq(self.params@.subrange(0, i as int + 1)));
            }
            i += 1;
        }
        proof {
            assert(self.params@.subrange(0, self.params@.len() as int) =~= self.params@);
        }
        FunctionDef { params, body: self.body.deep_clone() }
    }
}

/// The map view of an association list: later entries shadow earlier ones.
pub open spec fn assoc_view<T: View>(s: Seq<(String, T)>) -> Map<Seq<char>, T::V>
    decreases s,
{
    if s.len() == 0 {
        Map::empty()
    } else {
        assoc_view(s.drop_last()).insert(s.last().0@, s.last().1@)
    }
}

/// A name-keyed binding table with last-write-wins lookup.
#[derive(Debug)]
pub struct AssocMap<T> {
    entries: Vec<(String, T)>,
}

impl<T: View> View for AssocMap<T> {
    type V = Map<Seq<char>, T::V>;

    closed spec fn view(&self) -> Map<Seq<char>, T::V> {
        assoc_view(self.entries@)
    }
}

impl<T: View> AssocMap<T> {
    /// The empty table.
    pub fn new() -> (r: Self)
        ensures
            r@ == Map::<Seq<char>, T::V>::empty(),
            r.spec_len() == 0,
    {
        AssocMap { entries: Vec::new() }
    }

    /// The number of bindings held, shadowed ones included.
    pub fn len(&self) -> (r: usize)
        ensures
            r == self.spec_len(),
    {
        self.entries.len()
    }

    /// The number of entries in the underlying list.
    pub closed spec fn spec_len(&self) -> nat {
        self.entries@.len()
    }

    /// The binding of `name`, or `None` where the name is unbound.
    pub fn get(&self, name: &String) -> (r: Option<&T>)
        ensures
            self@.contains_key(name@) ==> (r matches Some(v) && v@ == self@[name@]),
            !self@.contains_key(name@) ==> r is None,
    {
        let mut j: usize = self.entries.len();
        proof {
            assert(self.entries@.subrange(0, self.entries@.len() as int) =~= self.entries@);
        }
        while j > 0
            invariant
                j <= self.entries@.len(),
                self@.contains_key(name@) <==> assoc_view(
                    self.entries@.subrange(0, j as int),
                ).contains_key(name@),
                self@.contains_key(name@) ==> self@[name@] == assoc_view(
                    self.entries@.subrange(0, j as int),
                )[name@],
            decreases j,
        {
            proof {
                assert(self.entries@.subrange(0, self.entries@.len() as int) =~= self.entries@);
                assert(self.entries@.subrange(0, j as int).drop_last() =~= self.entries@.subrange(
                    0,
                    j as int - 1,
                ));
            }
            j = j - 1;
            if self.entries[j].0.eq(name) {
                return Some(&self.entries[j].1);
            }
        }
        proof {
            assert(self.entries@.subrange(0, 0) =~= Seq::<(String, T)>::empty());
        }
        None
    }

    /// Whether `name` is bound.
    pub fn contains_key(&self, name: &String) -> (r: bool)
        ensures
            r == self@.contains_key(name@),
    {
        match self.get(name) {
            Some(_) => true,
            None => false,
        }
    }

    /// Binds `name` to `value`, shadowing any earlier binding.
    pub fn insert(&mut self, name: String, value: T)
        ensures
            final(self)@ == old(self)@.insert(name@, value@),
            final(self).spec_len() == old(self).spec_len() + 1,
    {
        let ghost k = name@;
        let ghost v = value@;
        self.entries.push((name, value));
        proof {
            assert(self.entries@.drop_last() =~= old(self).entries@);
            assert(self@ =~= old(self)@.insert(k, v));
        }
    }
}

/// Binding then looking the same name up yields the bound value, and
/// other names keep their bindings: the environment obeys last-write-wins.
pub proof fn lemma_insert_get<T: View>(m: Map<Seq<char>, T::V>, k: Seq<char>, v: T::V, k2: Seq<
    char,
>)
    ensures
        m.insert(k, v)[k] == v,
        k2 != k ==> (m.insert(k, v).contains_key(k2) <==> m.contains_key(k2)),
        k2 != k && m.contains_key(k2) ==> m.insert(k, v)[k2] == m[k2],
{
}

} // verus!
