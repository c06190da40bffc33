//! The environment: a chain of scopes mapping names to values.
//!
//! The chain is held as a vector of scopes, outermost first and nearest
//! last; its model is the sequence of scopes nearest-first, each scope the
//! sequence of bindings written into it, newest last.  `declare` always
//! writes into the nearest scope (introducing or shadowing); `assign`
//! requires the name to exist somewhere in the chain and writes into the
//! nearest scope that has it; `get` reads the nearest binding.

use vstd::prelude::*;
use crate::object::Object;
use crate::object::RuntimeError;
use crate::object::SpecRuntimeError;
use crate::object::SpecValue;
use crate::text::str_eq;

verus! {

/// The model of one scope: its bindings, oldest first.
pub type SpecScope = Seq<(Seq<char>, SpecValue)>;

/// The model of an environment: its scopes, nearest first.
pub type SpecEnv = Seq<SpecScope>;

/// The value bound to `name` in one scope: the newest binding wins.
pub open spec fn scope_lookup(scope: SpecScope, name: Seq<char>) -> Option<SpecValue>
    decreases scope.len(),
{
    if scope.len() == 0 {
        None
    } else if scope.last().0 == name {
        Some(scope.last().1)
    } else {
        scope_lookup(scope.drop_last(), name)
    }
}

/// The value bound to `name` in a chain: the nearest scope wins.
pub open spec fn chain_lookup(chain: SpecEnv, name: Seq<char>) -> Option<SpecValue>
    decreases chain.len(),
{
    if chain.len() == 0 {
        None
    } else {
        match scope_lookup(chain[0], name) {
            Some(v) => Some(v),
            None => chain_lookup(chain.skip(1), name),
        }
    }
}

/// Whether any scope of the chain binds `name`.
pub open spec fn chain_contains(chain: SpecEnv, name: Seq<char>) -> bool {
    chain_lookup(chain, name) is Some
}

/// The index of the nearest scope binding `name` (the chain's length if
/// none does).
pub open spec fn first_scope_with(chain: SpecEnv, name: Seq<char>) -> int
    decreases chain.len(),
{
    if chain.len() == 0 {
        0
    } else if scope_lookup(chain[0], name) is Some {
        0
    } else {
        1 + first_scope_with(chain.skip(1), name)
    }
}

/// A declaration: a binding written into the nearest scope.
pub open spec fn env_declare(chain: SpecEnv, name: Seq<char>, v: SpecValue) -> SpecEnv {
    chain.update(0, chain[0].push((name, v)))
}

/// An assignment: a binding written into the nearest scope that already
/// has the name.
pub open spec fn env_assign(chain: SpecEnv, name: Seq<char>, v: SpecValue) -> SpecEnv {
    let k = first_scope_with(chain, name);
    chain.update(k, chain[k].push((name, v)))
}

/// The model of one stored scope.
pub open spec fn vec_scope(v: Vec<(String, Object)>) -> SpecScope {
    Seq::new(v@.len(), |j: int| (v@[j].0@, v@[j].1@))
}

/// The environment: the scopes of the chain, outermost first.
#[derive(Debug)]
pub struct Context {
    pub scopes: Vec<Vec<(String, Object)>>,
}

impl View for Context {
    type V = SpecEnv;

    open spec fn view(&self) -> SpecEnv {
        Seq::new(
            self.scopes@.len(),
            |i: int| vec_scope(self.scopes@[self.scopes@.len() - 1 - i]),
        )
    }
}

impl Context {
    /// The environment always holds at least its global scope.
    pub open spec fn wf(&self) -> bool {
        self.scopes@.len() >= 1
    }

    /// A fresh global environment with one empty scope.
    pub fn new() -> (r: Context)
        ensures
            r.wf(),
            r@ == seq![Seq::<(Seq<char>, SpecValue)>::empty()],
    {
        let mut scopes: Vec<Vec<(String, Object)>> = Vec::new();
        scopes.push(Vec::new());
        let r = Context { scopes };
        proof {
            assert(r@ =~~= seq![Seq::<(Seq<char>, SpecValue)>::empty()]);
        }
        r
    }

    /// A child scope over this environment: the nearest scope is fresh and
    /// empty, everything else is reached through it.
    pub fn child(self) -> (r: Context)
        requires
            self.wf(),
        ensures
            r.wf(),
            r@ == seq![Seq::<(Seq<char>, SpecValue)>::empty()] + self@,
    {
        let mut scopes: Vec<Vec<(String, Object)>> = self.scopes;
        scopes.push(Vec::new());
        let r = Context { scopes };
        proof {
            assert(r@ =~~= seq![Seq::<(Seq<char>, SpecValue)>::empty()] + self@);
        }
        r
    }

    /// The value bound to `name`, read through the scope chain.
    pub fn get(&self, name: &str) -> (r: Option<Object>)
        ensures
            (match r {
                Some(v) => chain_lookup(self@, name@) == Some(v@),
                None => chain_lookup(self@, name@) is None,
            }),
    {
        let n: usize = self.scopes.len();
        let mut c: usize = 0;
        proof {
            assert(self@.skip(0) =~= self@);
        }
        while c < n
            invariant
                c <= n,
                n == self.scopes@.len(),
                chain_lookup(self@, name@) == chain_lookup(self@.skip(c as int), name@),
            decreases n - c,
        {
            let k: usize = n - 1 - c;
            let got: Option<Object> = scope_get(&self.scopes[k], name);
            proof {
                assert(self@.skip(c as int)[0] == self@[c as int]);
                assert(self@[c as int] == vec_scope(self.scopes@[k as int]));
            }
            match got {
                Some(v) => {
                    return Some(v);
                },
                None => {
                    proof {
                        assert(self@.skip(c as int).skip(1) =~= self@.skip(c as int + 1));
                    }
                    c = c + 1;
                },
            }
        }
        proof {
            assert(self@.skip(n as int) =~= Seq::<SpecScope>::empty());
        }
        None
    }

    /// Whether the scope chain binds `name`.
    pub fn contains(&self, name: &str) -> (r: bool)
        ensures
            r == chain_contains(self@, name@),
    {
        match self.get(name) {
            Some(_) => true,
            None => false,
        }
    }

    /// Declares a binding in the nearest scope, introducing the name or
    /// shadowing in place.
    pub fn declare(&mut self, name: &str, value: &Object)
        requires
            old(self).wf(),
        ensures
            final(self).wf(),
            final(self)@ == env_declare(old(self)@, name@, value@),
    {
        let k: usize = self.scopes.len() - 1;
        let mut sc: Vec<(String, Object)> = Vec::new();
        self.scopes.set_and_swap(k, &mut sc);
        sc.push((name.to_owned(), value.clone()));
        self.scopes.set(k, sc);
        proof {
            assert(vec_scope(self.scopes@[k as int]) =~~= old(self)@[0].push((name@, value@)));
            assert(self@ =~~= env_declare(old(self)@, name@, value@));
        }
    }

    /// Assigns to an existing binding: the nearest scope that has the name
    /// is updated; a name bound nowhere is an error and leaves the
    /// environment unchanged.
    pub fn assign(&mut self, name: &str, value: &Object) -> (r: Result<(), RuntimeError>)
        requires
            old(self).wf(),
        ensures
            final(self).wf(),
            (match r {
                Ok(_) => chain_contains(old(self)@, name@) && final(self)@ == env_assign(
                    old(self)@,
                    name@,
                    value@,
                ),
                Err(e) => !chain_contains(old(self)@, name@) && e@
                    == SpecRuntimeError::UndefinedVariable(name@) && final(self)@ == old(self)@,
            }),
    {
        let n: usize = self.scopes.len();
        let mut c: usize = 0;
        proof {
            assert(self@.skip(0) =~= self@);
        }
        while c < n
            invariant
                c <= n,
                n == self.scopes@.len(),
                self == old(self),
                chain_lookup(self@, name@) == chain_lookup(self@.skip(c as int), name@),
                first_scope_with(self@, name@) == c + first_scope_with(
                    self@.skip(c as int),
                    name@,
                ),
            decreases n - c,
        {
            let k: usize = n - 1 - c;
            let found: bool = match scope_get(&self.scopes[k], name) {
                Some(_) => true,
                None => false,
            };
            proof {
                assert(self@.skip(c as int)[0] == self@[c as int]);
                assert(self@[c as int] == vec_scope(self.scopes@[k as int]));
            }
            if found {
                let mut sc: Vec<(String, Object)> = Vec::new();
                self.scopes.set_and_swap(k, &mut sc);
                sc.push((name.to_owned(), value.clone()));
                self.scopes.set(k, sc);
                proof {
                    assert(first_scope_with(old(self)@, name@) == c);
                    assert(vec_scope(self.scopes@[k as int]) =~~= old(self)@[c as int].push(
                        (name@, value@),
                    ));
                    assert(self@ =~~= env_assign(old(self)@, name@, value@));
                }
                return Ok(());
            }
            proof {
                assert(self@.skip(c as int).skip(1) =~= self@.skip(c as int + 1));
            }
            c = c + 1;
        }
        proof {
            assert(self@.skip(n as int) =~= Seq::<SpecScope>::empty());
        }
        Err(RuntimeError::UndefinedVariable(name.to_owned()))
    }
}

/// The value bound to `name` in one stored scope, newest binding first.
fn scope_get(v: &Vec<(String, Object)>, name: &str) -> (r: Option<Object>)
    ensures
        (match r {
            Some(val) => scope_lookup(vec_scope(*v), name@) == Some(val@),
            None => scope_lookup(vec_scope(*v), name@) is None,
        }),
{
    let ghost scope: SpecScope = vec_scope(*v);
    let mut i: usize = v.len();
    proof {
        assert(scope =~= scope.take(i as int));
    }
    while i > 0
        invariant
            i <= v@.len(),
            scope == vec_scope(*v),
            scope.len() == v@.len(),
            scope_lookup(scope, name@) == scope_lookup(scope.take(i as int), name@),
        decreases i,
    {
        i = i - 1;
        if str_eq(v[i].0.as_str(), name) {
            proof {
                assert(scope.take(i as int + 1).last() == scope[i as int]);
                assert(scope_lookup(scope.take(i as int + 1), name@) == Some(scope[i as int].1));
            }
            return Some(v[i].1.clone());
        }
        proof {
            assert(scope.take(i as int + 1).last() == scope[i as int]);
            assert(scope.take(i as int + 1).drop_last() =~= scope.take(i as int));
        }
    }
    proof {
        assert(scope.take(0) =~= Seq::<(Seq<char>, SpecValue)>::empty());
    }
    None
}

} // verus!
