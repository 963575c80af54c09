//! Environment variables for the sandbox, assembled into `--setenv`
//! arguments.  Later assignments to a key replace earlier ones.

use vstd::prelude::*;

use crate::omap::{OrderedMap, seq_get};

verus! {

/// The key/value views of a list of assignments.
pub open spec fn pairs_view(v: Seq<(String, String)>) -> Seq<(Seq<char>, Seq<char>)> {
    v.map(|i: int, e: (String, String)| (e.0@, e.1@))
}

/// The value the last assignment to `k` carries, if any.
pub open spec fn last_value(pairs: Seq<(Seq<char>, Seq<char>)>, k: Seq<char>) -> Option<Seq<char>>
    decreases pairs.len(),
{
    if pairs.len() == 0 {
        None
    } else if pairs.last().0 == k {
        Some(pairs.last().1)
    } else {
        last_value(pairs.drop_last(), k)
    }
}

/// The key and optional-value views of pass-through entries.
pub open spec fn opt_pairs_view(v: Seq<(String, Option<String>)>) -> Seq<
    (Seq<char>, Option<Seq<char>>),
> {
    v.map(
        |i: int, e: (String, Option<String>)|
            (
                e.0@,
                match e.1 {
                    Some(s) => Some(s@),
                    None => None,
                },
            ),
    )
}

/// The last present value carried for `k`; entries whose value is
/// absent are skipped.
pub open spec fn last_present(
    pairs: Seq<(Seq<char>, Option<Seq<char>>)>,
    k: Seq<char>,
) -> Option<Seq<char>>
    decreases pairs.len(),
{
    if pairs.len() == 0 {
        None
    } else if pairs.last().0 == k && pairs.last().1 is Some {
        Some(pairs.last().1->Some_0)
    } else {
        last_present(pairs.drop_last(), k)
    }
}

/// The `--setenv` argument rows of an environment, in order.
pub open spec fn spec_env_args(vars: Seq<(Seq<char>, String)>) -> Seq<Seq<char>>
    decreases vars.len(),
{
    if vars.len() == 0 {
        Seq::empty()
    } else {
        spec_env_args(vars.drop_last()) + seq!["--setenv"@, vars.last().0, vars.last().1@]
    }
}

/// Builder for the environment inside the sandbox.
#[derive(Debug)]
pub struct EnvironmentBuilder {
    pub vars: OrderedMap<String>,
}

impl EnvironmentBuilder {
    /// Keys never repeat.
    pub open spec fn wf(&self) -> bool {
        self.vars.wf()
    }

    /// Value set for a key, if any.
    pub open spec fn spec_get(&self, key: Seq<char>) -> Option<String> {
        seq_get(self.vars@, key)
    }

    /// Create an empty environment builder.
    pub fn new() -> (r: Self)
        ensures
            r.wf(),
            r.vars@.len() == 0,
    {
        EnvironmentBuilder { vars: OrderedMap::new() }
    }

    /// Set one environment variable.
    pub fn set(&mut self, key: &str, value: &str)
        requires
            old(self).wf(),
        ensures
            final(self).wf(),
            final(self).spec_get(key@) matches Some(v) && v@ == value@,
            forall|other: Seq<char>|
                other != key@ ==> final(self).spec_get(other) == old(self).spec_get(other),
    {
        let ghost before = self.vars@;
        let owned_value = value.to_owned();
        let ghost v = owned_value;
        self.vars.insert(key.to_owned(), owned_value);
        proof {
            crate::omap::lemma_insert_get(before, key@, v, key@);
            assert forall|other: Seq<char>| other != key@ implies seq_get(self.vars@, other)
                == seq_get(before, other) by {
                crate::omap::lemma_insert_get(before, key@, v, other);
            }
        }
    }

    /// Set several environment variables, in order: every key ends up
    /// holding the value of its last assignment in the list; keys not
    /// in the list keep their value.
    pub fn set_many(&mut self, vars: Vec<(String, String)>)
        requires
            old(self).wf(),
        ensures
            final(self).wf(),
            forall|k: Seq<char>|
                #![trigger final(self).spec_get(k)]
                match last_value(pairs_view(vars@), k) {
                    Some(v) => final(self).spec_get(k) matches Some(s) && s@ == v,
                    None => final(self).spec_get(k) == old(self).spec_get(k),
                },
    {
        let ghost all = pairs_view(vars@);
        let mut rest = vars;
        let total = rest.len();
        let mut taken: usize = 0;
        proof {
            assert(pairs_view(rest@) =~= all.skip(taken as int));
            assert(all.subrange(0, 0) =~= Seq::<(Seq<char>, Seq<char>)>::empty());
        }
        while rest.len() > 0
            invariant
                self.wf(),
                all.len() == total,
                taken + rest@.len() == all.len(),
                pairs_view(rest@) == all.skip(taken as int),
                forall|k: Seq<char>|
                    #![trigger self.spec_get(k)]
                    match last_value(all.subrange(0, taken as int), k) {
                        Some(v) => self.spec_get(k) matches Some(s) && s@ == v,
                        None => self.spec_get(k) == old(self).spec_get(k),
                    },
            decreases rest@.len(),
        {
            let ghost pre = pairs_view(rest@);
            let kv = rest.remove(0);
            proof {
                assert(pre[0] == (kv.0@, kv.1@));
                assert(pre[0] == all[taken as int]);
                assert(pairs_view(rest@) =~= pre.skip(1));
                assert(pre.skip(1) =~= all.skip(taken as int + 1));
            }
            let ghost before = *self;
            self.set(kv.0.as_str(), kv.1.as_str());
            proof {
                let consumed = all.subrange(0, taken as int + 1);
                assert(consumed.drop_last() =~= all.subrange(0, taken as int));
                assert(consumed.last() == all[taken as int]);
                assert forall|k: Seq<char>|
                    match last_value(consumed, k) {
                        Some(v) => #[trigger] self.spec_get(k) matches Some(s) && s@ == v,
                        None => self.spec_get(k) == old(self).spec_get(k),
                    } by {
                    if k == kv.0@ {
                        assert(last_value(consumed, k) == Some(kv.1@));
                    } else {
                        assert(self.spec_get(k) == before.spec_get(k));
                        assert(last_value(consumed, k) == last_value(
                            all.subrange(0, taken as int),
                            k,
                        ));
                    }
                }
            }
            taken += 1;
        }
        proof {
            assert(rest@.len() == 0);
            assert(all.subrange(0, taken as int) =~= all);
        }
    }

    /// Copy the given host environment values in: each name ends up
    /// holding the last value that was present for it; names whose
    /// value is absent insert nothing and erase nothing; variables not
    /// named keep their value.
    pub fn pass_through_many(&mut self, entries: Vec<(String, Option<String>)>)
        requires
            old(self).wf(),
        ensures
            final(self).wf(),
            forall|k: Seq<char>|
                #![trigger final(self).spec_get(k)]
                match last_present(opt_pairs_view(entries@), k) {
                    Some(v) => final(self).spec_get(k) matches Some(s) && s@ == v,
                    None => final(self).spec_get(k) == old(self).spec_get(k),
                },
    {
        let ghost all = opt_pairs_view(entries@);
        let mut rest = entries;
        let total = rest.len();
        let mut taken: usize = 0;
        proof {
            assert(opt_pairs_view(rest@) =~= all.skip(taken as int));
            assert(all.subrange(0, 0) =~= Seq::<(Seq<char>, Option<Seq<char>>)>::empty());
        }
        while rest.len() > 0
            invariant
                self.wf(),
                all.len() == total,
                taken + rest@.len() == all.len(),
                opt_pairs_view(rest@) == all.skip(taken as int),
                forall|k: Seq<char>|
                    #![trigger self.spec_get(k)]
                    match last_present(all.subrange(0, taken as int), k) {
                        Some(v) => self.spec_get(k) matches Some(s) && s@ == v,
                        None => self.spec_get(k) == old(self).spec_get(k),
                    },
            decreases rest@.len(),
        {
            let ghost pre = opt_pairs_view(rest@);
            let kv = rest.remove(0);
            proof {
                assert(pre[0] == all[taken as int]);
                assert(pre[0].0 == kv.0@);
                assert(opt_pairs_view(rest@) =~= pre.skip(1));
                assert(pre.skip(1) =~= all.skip(taken as int + 1));
            }
            let ghost before = *self;
            match kv.1 {
                Some(value) => {
                    proof {
                        assert(all[taken as int].1 == Some(value@));
                    }
                    self.set(kv.0.as_str(), value.as_str());
                },
                None => {
                    proof {
                        assert(all[taken as int].1 is None);
                    }
                },
            }
            proof {
                let consumed = all.subrange(0, taken as int + 1);
                assert(consumed.drop_last() =~= all.subrange(0, taken as int));
                assert(consumed.last() == all[taken as int]);
                assert forall|k: Seq<char>|
                    match last_present(consumed, k) {
                        Some(v) => #[trigger] self.spec_get(k) matches Some(s) && s@ == v,
                        None => self.spec_get(k) == old(self).spec_get(k),
                    } by {
                    if k == kv.0@ && consumed.last().1 is Some {
                        assert(last_present(consumed, k) == Some(consumed.last().1->Some_0));
                    } else {
                        assert(last_present(consumed, k) == last_present(
                            all.subrange(0, taken as int),
                            k,
                        ));
                        if consumed.last().1 is Some {
                            assert(self.spec_get(k) == before.spec_get(k));
                        } else {
                            assert(*self == before);
                        }
                    }
                }
            }
            taken += 1;
        }
        proof {
            assert(rest@.len() == 0);
            assert(all.subrange(0, taken as int) =~= all);
        }
    }

    /// The `--setenv KEY VALUE` argument triples, in insertion order.
    pub fn to_args(&self) -> (r: Vec<String>)
        ensures
            r.deep_view() == spec_env_args(self.vars@),
            r@.len() == 3 * self.vars@.len(),
    {
        let mut args: Vec<String> = Vec::new();
        let n = self.vars.len();
        let mut i: usize = 0;
        proof {
            assert(args.deep_view() =~= spec_env_args(self.vars@.subrange(0, 0)));
        }
        while i < n
            invariant
                n == self.vars@.len(),
                i <= n,
                args@.len() == 3 * i,
                args.deep_view() == spec_env_args(self.vars@.subrange(0, i as int)),
            decreases n - i,
        {
            args.push("--setenv".to_owned());
            args.push(self.vars.key_at(i).clone());
            args.push(self.vars.value_at(i).clone());
            proof {
                let cur = self.vars@.subrange(0, i + 1);
                assert(cur.drop_last() =~= self.vars@.subrange(0, i as int));
                assert(cur.last() == self.vars@[i as int]);
                assert(args.deep_view() =~= spec_env_args(cur));
            }
            i += 1;
        }
        proof {
            assert(self.vars@.subrange(0, n as int) =~= self.vars@);
        }
        args
    }

    /// Borrow the variables.
    pub fn vars(&self) -> (r: &OrderedMap<String>)
        ensures
            r == self.vars,
    {
        &self.vars
    }
}

} // verus!
