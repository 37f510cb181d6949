use vstd::prelude::*;
use crate::value::{Value, ValueView};

verus! {

/// The value that `name` is bound to in `vars`: the latest binding wins.
pub open spec fn lookup(vars: Seq<(String, Value)>, name: Seq<char>) -> Option<ValueView>
    decreases vars.len(),
{
    if vars.len() == 0 {
        None
    } else if vars.last().0@ == name {
        Some(vars.last().1@)
    } else {
        lookup(vars.drop_last(), name)
    }
}

/// The variables of one scope, bound by name.
pub struct Env {
    vars: Vec<(String, Value)>,
}

impl Env {
    pub closed spec fn bindings(&self) -> Seq<(String, Value)> {
        self.vars@
    }

    /// The value bound to `name`, if any.
    pub open spec fn get_spec(&self, name: Seq<char>) -> Option<ValueView> {
        lookup(self.bindings(), name)
    }

    /// The bindings as a map from names to values.
    pub open spec fn view(&self) -> Map<Seq<char>, ValueView> {
        Map::new(|n: Seq<char>| self.get_spec(n) is Some, |n: Seq<char>| self.get_spec(n)->Some_0)
    }

    /// A scope with no variables.
    pub fn new() -> (r: Env)
        ensures
            forall|n: Seq<char>| r.get_spec(n) is None,
            r.view() == Map::<Seq<char>, ValueView>::empty(),
    {
        let r = Env { vars: Vec::new() };
        assert(r.view() =~= Map::<Seq<char>, ValueView>::empty());
        r
    }

    /// The value bound to `name`.
    pub fn get(&self, name: &str) -> (r: Option<Value>)
        ensures
            match r {
                Some(v) => self.get_spec(name@) == Some(v@),
                None => self.get_spec(name@) is None,
            },
    {
        let ghost s = self.vars@;
        let mut i: usize = self.vars.len();
        assert(s.take(i as int) =~= s);
        while i > 0
            invariant
                s == self.vars@,
                i <= s.len(),
                lookup(s, name@) == lookup(s.take(i as int), name@),
            decreases i,
        {
            assert(s.take(i as int).last() == s[i - 1]);
            assert(s.take(i as int).drop_last() =~= s.take(i - 1));
            if crate::value::str_is(self.vars[i - 1].0.as_str(), name) {
                return Some(self.vars[i - 1].1.copied());
            }
            i = i - 1;
        }
        None
    }

    /// Bind `name` to `value`, whether or not it was bound before; other names keep
    /// their values. A name that was bound has its binding replaced.
    pub fn set(&mut self, name: String, value: Value)
        ensures
            final(self).get_spec(name@) == Some(value@),
            forall|n: Seq<char>| n != name@ ==> final(self).get_spec(n) == old(self).get_spec(n),
            final(self).view() == old(self).view().insert(name@, value@),
    {
        let ghost s = self.vars@;
        let ghost key = name@;
        let ghost v = value@;
        let mut i: usize = self.vars.len();
        while i > 0
            invariant
                s == self.vars@,
                i <= s.len(),
                key == name@,
                v == value@,
                s == old(self).vars@,
                forall|k: int| i <= k < s.len() ==> #[trigger] s[k].0@ != key,
            decreases i,
        {
            if crate::value::str_is(self.vars[i - 1].0.as_str(), name.as_str()) {
                let p = (name, value);
                let ghost gp = p;
                self.vars.set(i - 1, p);
                proof {
                    lemma_lookup_update(s, i - 1, gp);
                    assert(self.vars@ == s.update(i - 1, gp));
                    assert forall|n: Seq<char>| #[trigger] self.get_spec(n) == if n == key {
                        Some(v)
                    } else {
                        old(self).get_spec(n)
                    } by {
                        assert(lookup(s.update(i - 1, gp), n) == if n == gp.0@ {
                            Some(gp.1@)
                        } else {
                            lookup(s, n)
                        });
                    }
                    assert(self.view() =~= old(self).view().insert(key, v));
                }
                return;
            }
            i = i - 1;
        }
        let ghost p = (name, value);
        self.vars.push((name, value));
        proof {
            assert(self.vars@ == s.push(p));
            assert(s.push(p).drop_last() =~= s);
            assert(self.view() =~= old(self).view().insert(key, v));
        }
    }

    /// A scope that starts with the same bindings.
    pub fn copied(&self) -> (r: Env)
        ensures
            forall|n: Seq<char>| r.get_spec(n) == self.get_spec(n),
            r.view() == self.view(),
    {
        let mut vars: Vec<(String, Value)> = Vec::new();
        let mut i: usize = 0;
        while i < self.vars.len()
            invariant
                i <= self.vars.len(),
                vars.len() == i,
                forall|k: int| 0 <= k < i ==> vars@[k].0@ == self.vars@[k].0@ && vars@[k].1@ == self.vars@[k].1@,
            decreases self.vars.len() - i,
        {
            let entry = (self.vars[i].0.clone(), self.vars[i].1.copied());
            vars.push(entry);
            i = i + 1;
        }
        let r = Env { vars };
        proof {
            assert forall|n: Seq<char>| r.get_spec(n) == self.get_spec(n) by {
                lemma_lookup_same(r.vars@, self.vars@, n);
            }
            assert(r.view() =~= self.view());
        }
        r
    }
}

/// Replacing the latest binding of a name changes what that name is bound to and
/// nothing else.
proof fn lemma_lookup_update(s: Seq<(String, Value)>, i: int, p: (String, Value))
    requires
        0 <= i < s.len(),
        s[i].0@ == p.0@,
        forall|k: int| i < k < s.len() ==> #[trigger] s[k].0@ != p.0@,
    ensures
        forall|n: Seq<char>| #[trigger] lookup(s.update(i, p), n) == if n == p.0@ {
            Some(p.1@)
        } else {
            lookup(s, n)
        },
    decreases s.len(),
{
    let u = s.update(i, p);
    if i == s.len() - 1 {
        assert(u.drop_last() =~= s.drop_last());
        assert forall|n: Seq<char>| #[trigger] lookup(s.update(i, p), n) == if n == p.0@ {
            Some(p.1@)
        } else {
            lookup(s, n)
        } by {
            assert(u.last() == p);
            assert(lookup(u, n) == if p.0@ == n { Some(p.1@) } else { lookup(u.drop_last(), n) });
            assert(lookup(s, n) == if s.last().0@ == n { Some(s.last().1@) } else { lookup(s.drop_last(), n) });
        }
    } else {
        assert(u.drop_last() =~= s.drop_last().update(i, p));
        lemma_lookup_update(s.drop_last(), i, p);
        assert forall|n: Seq<char>| #[trigger] lookup(s.update(i, p), n) == if n == p.0@ {
            Some(p.1@)
        } else {
            lookup(s, n)
        } by {
            assert(u.last() == s.last());
            assert(s.last().0@ != p.0@);
            assert(lookup(u, n) == if u.last().0@ == n { Some(u.last().1@) } else { lookup(u.drop_last(), n) });
            assert(lookup(s, n) == if s.last().0@ == n { Some(s.last().1@) } else { lookup(s.drop_last(), n) });
            assert(lookup(s.drop_last().update(i, p), n) == if n == p.0@ {
                Some(p.1@)
            } else {
                lookup(s.drop_last(), n)
            });
        }
    }
}

/// Two binding lists with the same names and values in order give the same lookups.
proof fn lemma_lookup_same(a: Seq<(String, Value)>, b: Seq<(String, Value)>, n: Seq<char>)
    requires
        a.len() == b.len(),
        forall|k: int| 0 <= k < a.len() ==> a[k].0@ == b[k].0@ && a[k].1@ == b[k].1@,
    ensures
        lookup(a, n) == lookup(b, n),
    decreases a.len(),
{
    if a.len() > 0 {
        lemma_lookup_same(a.drop_last(), b.drop_last(), n);
    }
}

} // verus!
