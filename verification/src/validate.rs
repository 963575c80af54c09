//! Configuration validation: wildcard pattern safety, reference
//! existence, and cycle detection over `groups:` references.
//!
//! Cycle detection runs a depth-first search with an explicit path
//! stack from every group name.  A name found on the current path is a
//! cycle and fails validation with the path spelled out.

use vstd::prelude::*;

use vstd::string::{StrSliceExecFns, StringExecFns};

use crate::config::{HostGroup, NetworkConfig};
use crate::engine::{group_edge, is_ref_path, lemma_path_push, lemma_count_strict, lemma_count_superset, count_unprocessed};
use crate::error::ValidationError;
use crate::omap::{OrderedMap, seq_get, seq_has};
use crate::strutil::{contains_string, spec_join_with};

verus! {

/// The names a group refers to; empty when the group does not exist.
pub open spec fn children_of(groups: Seq<(Seq<char>, HostGroup)>, n: Seq<char>) -> Seq<Seq<char>> {
    match seq_get(groups, n) {
        Some(g) => g.groups.deep_view(),
        None => Seq::empty(),
    }
}

/// The text spells out a reference chain, joined by ` -> `, whose last
/// name repeats an earlier one: a walk that exhibits a cycle.
pub open spec fn names_a_cycle(groups: Seq<(Seq<char>, HostGroup)>, text: Seq<char>) -> bool {
    exists|w: Seq<Seq<char>>|
        #![trigger spec_join_with(w, " -> "@)]
        is_ref_path(groups, w) && w.len() >= 2 && text == spec_join_with(w, " -> "@) && exists|
            k: int,
        | 0 <= k < w.len() - 1 && w[k] == w.last()
}

/// A cycle: a reference chain of length at least two that returns to
/// its first name.
pub open spec fn is_cycle(groups: Seq<(Seq<char>, HostGroup)>, p: Seq<Seq<char>>) -> bool {
    is_ref_path(groups, p) && p.len() >= 2 && p[0] == p.last()
}

/// The `groups:` reference graph holds no cycle.
pub open spec fn acyclic(groups: Seq<(Seq<char>, HostGroup)>) -> bool {
    forall|p: Seq<Seq<char>>| !is_cycle(groups, p)
}

/// A pattern may not contain `**`, a NUL or a newline.
pub open spec fn pattern_ok(p: Seq<char>) -> bool {
    &&& !(exists|i: int| 0 <= i < p.len() - 1 && p[i] == '*' && #[trigger] p[i + 1] == '*')
    &&& !p.contains('\u{0}')
    &&& !p.contains('\n')
}

/// Every pattern of every group — the `hosts` list and the
/// `hosts_deny` list alike — is safe and short enough to index.
pub open spec fn patterns_valid(groups: Seq<(Seq<char>, HostGroup)>) -> bool {
    &&& forall|i: int, j: int|
        0 <= i < groups.len() && 0 <= j < groups[i].1.hosts@.len() ==> pattern_ok(
            #[trigger] groups[i].1.hosts@[j]@,
        ) && groups[i].1.hosts@[j]@.len() < usize::MAX
    &&& forall|i: int, j: int|
        0 <= i < groups.len() && 0 <= j < groups[i].1.hosts_deny@.len() ==> pattern_ok(
            #[trigger] groups[i].1.hosts_deny@[j]@,
        ) && groups[i].1.hosts_deny@[j]@.len() < usize::MAX
}

/// Every name referenced from a group's `groups:` list exists.
pub open spec fn references_valid(groups: Seq<(Seq<char>, HostGroup)>) -> bool {
    forall|i: int, j: int|
        0 <= i < groups.len() && 0 <= j < groups[i].1.groups@.len() ==> seq_has(
            groups,
            #[trigger] groups[i].1.groups@[j]@,
        )
}

/// All names on a path belong to a set.
pub open spec fn path_in(p: Seq<Seq<char>>, s: Set<Seq<char>>) -> bool {
    forall|i: int| 0 <= i < p.len() ==> s.contains(#[trigger] p[i])
}

/// A set of names with no edge leaving it.
pub open spec fn set_closed(groups: Seq<(Seq<char>, HostGroup)>, s: Set<Seq<char>>) -> bool {
    forall|a: Seq<char>, b: Seq<char>|
        s.contains(a) && #[trigger] group_edge(groups, a, b) ==> s.contains(b)
}

/// No cycle runs entirely inside the set.
pub open spec fn cycle_free(groups: Seq<(Seq<char>, HostGroup)>, s: Set<Seq<char>>) -> bool {
    forall|p: Seq<Seq<char>>| #[trigger] is_cycle(groups, p) ==> !path_in(p, s)
}

/// Names visited but no longer on the path stack: finished names.
pub open spec fn done_set(visited: Seq<Seq<char>>, path: Seq<Seq<char>>) -> Set<Seq<char>> {
    visited.to_set().difference(path.to_set())
}

/// Membership in a pushed sequence.
proof fn lemma_push_contains(s: Seq<Seq<char>>, e: Seq<char>, x: Seq<char>)
    ensures
        s.push(e).contains(x) <==> (s.contains(x) || x == e),
{
    if s.contains(x) {
        let i = choose|i: int| 0 <= i < s.len() && s[i] == x;
        assert(s.push(e)[i] == x);
    }
    if x == e {
        assert(s.push(e).last() == x);
    }
    if s.push(e).contains(x) {
        let i = choose|i: int| 0 <= i < s.push(e).len() && s.push(e)[i] == x;
        if i < s.len() {
            assert(s[i] == x);
        }
    }
}

/// A contiguous piece of a reference path is a reference path.
proof fn lemma_subpath(groups: Seq<(Seq<char>, HostGroup)>, p: Seq<Seq<char>>, a: int, b: int)
    requires
        is_ref_path(groups, p),
        0 <= a < b <= p.len(),
    ensures
        is_ref_path(groups, p.subrange(a, b)),
    decreases a + p.len(),
{
    if a > 0 {
        assert(p.subrange(a, b) =~= p.skip(1).subrange(a - 1, b - 1));
        lemma_subpath(groups, p.skip(1), a - 1, b - 1);
    } else if b - a == 1 {
        assert(p.subrange(a, b).len() == 1);
    } else {
        let q = p.subrange(0, b);
        if p.len() == b {
            assert(q =~= p);
        } else {
            assert(group_edge(groups, q[0], q[1]));
            assert(q.skip(1) =~= p.skip(1).subrange(0, b - 1));
            lemma_subpath(groups, p.skip(1), 0, b - 1);
        }
    }
}

/// Two reference paths joined by an edge form one reference path.
proof fn lemma_concat_path(
    groups: Seq<(Seq<char>, HostGroup)>,
    a: Seq<Seq<char>>,
    b: Seq<Seq<char>>,
)
    requires
        is_ref_path(groups, a),
        is_ref_path(groups, b),
        group_edge(groups, a.last(), b[0]),
    ensures
        is_ref_path(groups, a + b),
    decreases a.len(),
{
    let q = a + b;
    if a.len() == 1 {
        assert(q[0] == a[0] && q[1] == b[0]);
        assert(group_edge(groups, q[0], q[1]));
        assert(q.skip(1) =~= b);
    } else {
        assert(q[0] == a[0] && q[1] == a[1]);
        assert(group_edge(groups, q[0], q[1]));
        assert(q.skip(1) =~= a.skip(1) + b);
        assert(a.skip(1).last() == a.last());
        lemma_concat_path(groups, a.skip(1), b);
    }
}

/// A cycle can be rotated to start at any of its names.
proof fn lemma_rotate_cycle(
    groups: Seq<(Seq<char>, HostGroup)>,
    p: Seq<Seq<char>>,
    k: int,
) -> (q: Seq<Seq<char>>)
    requires
        is_cycle(groups, p),
        0 <= k < p.len(),
    ensures
        is_cycle(groups, q),
        q[0] == p[k],
        q.last() == p[k],
        forall|i: int| 0 <= i < q.len() ==> p.contains(#[trigger] q[i]),
{
    if k == 0 || k == p.len() - 1 {
        let q = if k == 0 {
            p
        } else {
            p
        };
        assert(q[0] == p[k] && q.last() == p[k]) by {
            if k != 0 {
                assert(p[k] == p.last() && p[0] == p.last());
            }
        }
        assert(forall|i: int| 0 <= i < q.len() ==> p.contains(#[trigger] q[i])) by {
            assert(forall|i: int| 0 <= i < p.len() ==> p[i] == p.index(i));
        }
        q
    } else {
        let front = p.subrange(k, p.len() as int);
        let back = p.subrange(1, k + 1);
        lemma_subpath(groups, p, k, p.len() as int);
        lemma_subpath(groups, p, 1, k + 1);
        assert(front.last() == p.last() && p.last() == p[0]);
        assert(group_edge(groups, p[0], p[1])) by {
            lemma_subpath(groups, p, 0, 2);
            let e = p.subrange(0, 2);
            assert(e[0] == p[0] && e[1] == p[1]);
        }
        assert(group_edge(groups, front.last(), back[0]));
        lemma_concat_path(groups, front, back);
        let q = front + back;
        assert(q[0] == p[k]);
        assert(q.last() == back.last() && back.last() == p[k]);
        assert(q.len() >= 2);
        assert forall|i: int| 0 <= i < q.len() implies p.contains(q[i]) by {
            if i < front.len() {
                assert(q[i] == p[k + i]);
            } else {
                assert(q[i] == p[i - front.len() + 1]);
            }
        }
        q
    }
}

/// A reference path that starts inside a closed set stays inside it.
proof fn lemma_path_in_closed_set(
    groups: Seq<(Seq<char>, HostGroup)>,
    s: Set<Seq<char>>,
    p: Seq<Seq<char>>,
)
    requires
        is_ref_path(groups, p),
        s.contains(p[0]),
        set_closed(groups, s),
    ensures
        path_in(p, s),
        s.contains(p.last()),
    decreases p.len(),
{
    if p.len() > 1 {
        assert(group_edge(groups, p[0], p[1]));
        let q = p.skip(1);
        assert(s.contains(q[0]));
        lemma_path_in_closed_set(groups, s, q);
        assert forall|i: int| 0 <= i < p.len() implies s.contains(p[i]) by {
            if i > 0 {
                assert(q[i - 1] == p[i]);
                assert(s.contains(q[i - 1]));
            }
        }
        assert(q.last() == p.last());
    }
}

/// Validates a network configuration: cycles, references, patterns.
pub struct ConfigValidator;

impl ConfigValidator {
    /// Validate the entire network configuration: no reference cycles,
    /// no dangling references, only safe wildcard patterns.
    pub fn validate(network: &NetworkConfig) -> (r: Result<(), ValidationError>)
        ensures
            r is Ok <==> acyclic(network.groups@) && references_valid(network.groups@)
                && patterns_valid(network.groups@),
            r is Ok ==> crate::engine::groups_limits_ok(network.groups@),
            !acyclic(network.groups@) ==> (r matches Err(e) && e matches
                ValidationError::CycleDetected { path } && names_a_cycle(network.groups@, path@)),
    {
        let r = Self::check_cycles(network);
        if r.is_err() {
            return r;
        }
        let r = Self::validate_references(network);
        if r.is_err() {
            return r;
        }
        Self::validate_patterns(network)
    }

    /// Reject configurations whose `groups:` references form a cycle.
    pub fn check_cycles(network: &NetworkConfig) -> (r: Result<(), ValidationError>)
        ensures
            r is Ok <==> acyclic(network.groups@),
            r matches Err(e) ==> e matches ValidationError::CycleDetected { path }
                && names_a_cycle(network.groups@, path@),
    {
        let groups = &network.groups;
        let n = groups.len();
        let mut t: usize = 0;
        while t < n
            invariant
                groups@ == network.groups@,
                n == groups@.len(),
                t <= n,
                forall|i: int|
                    0 <= i < t ==> {
                        exists|s: Set<Seq<char>>|
                            s.contains(#[trigger] groups@[i].0) && set_closed(groups@, s)
                                && cycle_free(groups@, s)
                    },
            decreases n - t,
        {
            let mut visited: Vec<String> = Vec::new();
            let mut path: Vec<String> = Vec::new();
            let name = groups.key_at(t);
            proof {
                assert(visited.deep_view().to_set() =~= Set::<Seq<char>>::empty());
                assert(done_set(visited.deep_view(), path.deep_view())
                    =~= Set::<Seq<char>>::empty());
                assert forall|p: Seq<Seq<char>>| #[trigger] is_cycle(groups@, p) implies !path_in(
                    p,
                    done_set(visited.deep_view(), path.deep_view()),
                ) by {
                    assert(!done_set(visited.deep_view(), path.deep_view()).contains(p[0]));
                }
            }
            match Self::dfs_cycle_check(name.as_str(), groups, &mut visited, &mut path) {
                Err(e) => {
                    proof {
                        let pp = choose|pp: Seq<Seq<char>>| is_cycle(groups@, pp);
                        assert(is_cycle(groups@, pp));
                        assert(!acyclic(groups@));
                    }
                    return Err(e);
                },
                Ok(()) => {
                    proof {
                        let s = done_set(visited.deep_view(), path.deep_view());
                        assert(s.contains(groups@[t as int].0));
                        assert forall|i: int| 0 <= i < t + 1 implies exists|s2: Set<Seq<char>>|
                            s2.contains(#[trigger] groups@[i].0) && set_closed(groups@, s2)
                                && cycle_free(groups@, s2) by {
                            if i == t {
                                assert(s.contains(groups@[i].0) && set_closed(groups@, s)
                                    && cycle_free(groups@, s));
                            }
                        }
                    }
                },
            }
            t += 1;
        }
        proof {
            assert forall|p: Seq<Seq<char>>| !is_cycle(groups@, p) by {
                if is_cycle(groups@, p) {
                    // every name on a cycle has an outgoing edge, so it is
                    // a configured group; take the closed cycle-free set
                    // found for the cycle's first name
                    assert(group_edge(groups@, p[0], p[1]));
                    assert(seq_has(groups@, p[0]));
                    crate::omap::lemma_index_of(groups@, p[0]);
                    let i = crate::omap::seq_index_of(groups@, p[0]);
                    assert(groups@[i].0 == p[0]);
                    let s = choose|s: Set<Seq<char>>|
                        s.contains(groups@[i].0) && set_closed(groups@, s) && cycle_free(
                            groups@,
                            s,
                        );
                    lemma_path_in_closed_set(groups@, s, p);
                    assert(!path_in(p, s));
                }
            }
        }
        Ok(())
    }

    /// Depth-first search for a cycle.  `visited` holds every name ever
    /// entered; `path` the chain from the root to the current name.
    #[verifier::rlimit(100)]
    #[verifier::spinoff_prover]
    fn dfs_cycle_check(
        group_name: &str,
        groups: &OrderedMap<HostGroup>,
        visited: &mut Vec<String>,
        path: &mut Vec<String>,
    ) -> (r: Result<(), ValidationError>)
        requires
            set_closed(groups@, done_set(old(visited).deep_view(), old(path).deep_view())),
            cycle_free(groups@, done_set(old(visited).deep_view(), old(path).deep_view())),
            old(path).deep_view().len() > 0 ==> is_ref_path(groups@, old(path).deep_view())
                && group_edge(groups@, old(path).deep_view().last(), group_name@),
        ensures
            r is Ok ==> {
                &&& final(path)@ == old(path)@
                &&& forall|x: Seq<char>|
                    old(visited).deep_view().contains(x)
                        ==> final(visited).deep_view().contains(x)
                &&& done_set(final(visited).deep_view(), final(path).deep_view()).contains(
                    group_name@,
                )
                &&& set_closed(
                    groups@,
                    done_set(final(visited).deep_view(), final(path).deep_view()),
                )
                &&& cycle_free(
                    groups@,
                    done_set(final(visited).deep_view(), final(path).deep_view()),
                )
                &&& forall|x: Seq<char>|
                    done_set(old(visited).deep_view(), old(path).deep_view()).contains(x)
                        ==> done_set(final(visited).deep_view(), final(path).deep_view()).contains(
                        x,
                    )
            },
            r matches Err(e) ==> e matches ValidationError::CycleDetected { path } && (exists|
                p: Seq<Seq<char>>,
            | is_cycle(groups@, p)) && names_a_cycle(groups@, path@),
        decreases crate::engine::count_unprocessed(groups@, old(visited).deep_view()),
    {
        let ghost old_visited_dv = visited.deep_view();
        let ghost old_path_dv = path.deep_view();
        if contains_string(path, group_name) {
            // the current path returns to this name: a real cycle
            proof {
                let k = choose|k: int|
                    0 <= k < old_path_dv.len() && old_path_dv[k] == group_name@;
                let cyc = old_path_dv.subrange(k, old_path_dv.len() as int).push(group_name@);
                assert(is_cycle(groups@, cyc)) by {
                    lemma_subpath(groups@, old_path_dv, k, old_path_dv.len() as int);
                    let part = old_path_dv.subrange(k, old_path_dv.len() as int);
                    assert(part.last() == old_path_dv.last());
                    lemma_path_push(groups@, part, group_name@);
                    assert(cyc[0] == group_name@ && cyc.last() == group_name@);
                }
            }
            let mut full = crate::strutil::join_with(path, " -> ");
            full.append(" -> ");
            full.append(group_name);
            proof {
                let w = old_path_dv.push(group_name@);
                assert(old_path_dv.len() > 0);
                lemma_path_push(groups@, old_path_dv, group_name@);
                assert(w.drop_last() =~= old_path_dv);
                assert(w.last() == group_name@);
                assert(path.deep_view() == old_path_dv);
                assert(full@ =~= spec_join_with(old_path_dv, " -> "@) + " -> "@ + group_name@);
                assert(full@ == spec_join_with(w, " -> "@));
                let k = choose|k: int| 0 <= k < old_path_dv.len() && old_path_dv[k] == group_name@;
                assert(w[k] == w.last());
                assert(names_a_cycle(groups@, full@));
            }
            return Err(ValidationError::CycleDetected { path: full });
        }
        if contains_string(visited, group_name) {
            proof {
                assert(done_set(old_visited_dv, old_path_dv).contains(group_name@));
            }
            return Ok(());
        }
        visited.push(group_name.to_owned());
        path.push(group_name.to_owned());
        let ghost visited1_dv = visited.deep_view();
        let ghost path1_dv = path.deep_view();
        let ghost path1_vec = path@;
        proof {
            assert(visited1_dv =~= old_visited_dv.push(group_name@));
            assert(path1_dv =~= old_path_dv.push(group_name@));
            assert(visited1_dv.last() == group_name@);
            assert(visited1_dv.contains(group_name@));
            assert(path1_dv.last() == group_name@);
            assert forall|x: Seq<char>|
                done_set(visited1_dv, path1_dv).contains(x) == done_set(
                    old_visited_dv,
                    old_path_dv,
                ).contains(x) by {
                lemma_push_contains(old_visited_dv, group_name@, x);
                lemma_push_contains(old_path_dv, group_name@, x);
            }
            assert(done_set(visited1_dv, path1_dv) =~= done_set(old_visited_dv, old_path_dv));
            if old_path_dv.len() == 0 {
                assert(path1_dv.len() == 1);
                assert(is_ref_path(groups@, path1_dv));
            } else {
                lemma_path_push(groups@, old_path_dv, group_name@);
            }
        }
        let g_opt = groups.get(group_name);
        match g_opt {
            None => {},
            Some(g) => {
                assert(seq_get(groups@, group_name@) == Some(*g));
                proof {
                    lemma_count_strict(groups@, old_visited_dv, group_name@);
                    assert(visited.deep_view() =~= old_visited_dv.push(group_name@));
                }
                let nc = g.groups.len();
                let mut w: usize = 0;
                while w < nc
                    invariant
                        nc == g.groups@.len(),
                        w <= nc,
                        seq_get(groups@, group_name@) == Some(*g),
                        path@ == path1_vec,
                        path.deep_view() == path1_dv,
                        path1_dv == old_path_dv.push(group_name@),
                        path1_dv.last() == group_name@,
                        is_ref_path(groups@, path1_dv),
                        forall|x: Seq<char>|
                            visited1_dv.contains(x) ==> visited.deep_view().contains(x),
                        visited.deep_view().contains(group_name@),
                        set_closed(groups@, done_set(visited.deep_view(), path1_dv)),
                        cycle_free(groups@, done_set(visited.deep_view(), path1_dv)),
                        forall|x: Seq<char>|
                            done_set(old_visited_dv, old_path_dv).contains(x) ==> done_set(
                                visited.deep_view(),
                                path1_dv,
                            ).contains(x),
                        forall|j: int|
                            0 <= j < w ==> done_set(visited.deep_view(), path1_dv).contains(
                                #[trigger] g.groups.deep_view()[j],
                            ),
                        crate::engine::count_unprocessed(groups@, visited.deep_view())
                            < crate::engine::count_unprocessed(groups@, old(visited).deep_view()),
                    decreases nc - w,
                {
                    proof {
                        assert(group_edge(groups@, group_name@, g.groups.deep_view()[w as int]))
                            by {
                            assert(g.groups.deep_view().contains(g.groups.deep_view()[w as int]));
                        }
                    }
                    let ghost vis_before = visited.deep_view();
                    match Self::dfs_cycle_check(g.groups[w].as_str(), groups, visited, path) {
                        Err(e) => {
                            return Err(e);
                        },
                        Ok(()) => {
                            proof {
                                lemma_count_superset(
                                    groups@,
                                    vis_before,
                                    visited.deep_view(),
                                );
                            }
                        },
                    }
                    w += 1;
                }
                proof {
                    assert(children_of(groups@, group_name@) == g.groups.deep_view());
                }
            },
        }
        proof {
            assert(path.deep_view() == path1_dv);
            assert(visited.deep_view().contains(group_name@));
            assert(set_closed(groups@, done_set(visited.deep_view(), path1_dv)));
            assert(cycle_free(groups@, done_set(visited.deep_view(), path1_dv)));
            assert(forall|x: Seq<char>|
                done_set(old_visited_dv, old_path_dv).contains(x) ==> done_set(
                    visited.deep_view(),
                    path1_dv,
                ).contains(x));
            assert(forall|x: Seq<char>|
                visited1_dv.contains(x) ==> visited.deep_view().contains(x));
            assert(forall|j: int|
                0 <= j < children_of(groups@, group_name@).len() ==> done_set(
                    visited.deep_view(),
                    path1_dv,
                ).contains(#[trigger] children_of(groups@, group_name@)[j]));
        }
        proof {
            assert(path@ == path1_vec);
            assert(path1_vec == old(path)@.push(path1_vec.last()));
        }
        let _popped = path.pop();
        let ghost vis2_dv = visited.deep_view();
        let ghost done1 = done_set(vis2_dv, path1_dv);
        let ghost done2 = done_set(vis2_dv, old_path_dv);
        proof {
            assert(path@ =~= old(path)@);
            assert(path.deep_view() =~= old_path_dv);
            // finishing this name adds exactly it to the done set
            assert(done2 =~= done1.insert(group_name@)) by {
                assert(path1_dv =~= old_path_dv.push(group_name@));
                assert forall|x: Seq<char>| #[trigger] done2.contains(x) implies done1.insert(
                    group_name@,
                ).contains(x) by {
                    if x != group_name@ {
                        assert(!path1_dv.to_set().contains(x)) by {
                            if path1_dv.to_set().contains(x) {
                                let i = choose|i: int|
                                    0 <= i < path1_dv.len() && path1_dv[i] == x;
                                if i < old_path_dv.len() {
                                    assert(old_path_dv[i] == x);
                                }
                            }
                        }
                    }
                }
                assert forall|x: Seq<char>| done1.insert(group_name@).contains(x) implies
                    done2.contains(x) by {
                    if x == group_name@ {
                        assert(vis2_dv.contains(group_name@));
                        assert(!old_path_dv.to_set().contains(group_name@));
                    } else {
                        assert(!path1_dv.to_set().contains(x));
                        assert(!old_path_dv.to_set().contains(x)) by {
                            if old_path_dv.to_set().contains(x) {
                                let i = choose|i: int|
                                    0 <= i < old_path_dv.len() && old_path_dv[i] == x;
                                assert(path1_dv[i] == x);
                            }
                        }
                    }
                }
            }
            // the new done set is closed: the finished name's references
            // are all done, and the rest was closed already
            assert forall|a: Seq<char>, b: Seq<char>|
                done2.contains(a) && #[trigger] group_edge(groups@, a, b) implies done2.contains(
                    b,
                ) by {
                if a == group_name@ {
                    assert(children_of(groups@, group_name@).contains(b));
                    let j = choose|j: int|
                        0 <= j < children_of(groups@, group_name@).len() && children_of(
                            groups@,
                            group_name@,
                        )[j] == b;
                    assert(done1.contains(b));
                } else {
                    assert(done1.contains(a));
                    assert(done1.contains(b));
                }
            }
            // and it is cycle-free: a cycle through the finished name
            // would have to re-enter it from its references, which all
            // lie in the old done set, which no path leaves
            assert forall|p: Seq<Seq<char>>| #[trigger] is_cycle(groups@, p) implies !path_in(
                p,
                done2,
            ) by {
                if path_in(p, done2) {
                    if forall|i: int| 0 <= i < p.len() ==> p[i] != group_name@ {
                        assert(path_in(p, done1)) by {
                            assert forall|i: int| 0 <= i < p.len() implies done1.contains(
                                p[i],
                            ) by {
                                assert(done2.contains(p[i]));
                            }
                        }
                        assert(!path_in(p, done1));
                    } else {
                        let k = choose|k: int| 0 <= k < p.len() && p[k] == group_name@;
                        let q = lemma_rotate_cycle(groups@, p, k);
                        assert(group_edge(groups@, q[0], q[1]));
                        assert(done1.contains(q[1])) by {
                            assert(children_of(groups@, group_name@).contains(q[1]));
                            let j = choose|j: int|
                                0 <= j < children_of(groups@, group_name@).len() && children_of(
                                    groups@,
                                    group_name@,
                                )[j] == q[1];
                        }
                        let tail = q.skip(1);
                        assert(is_ref_path(groups@, tail)) by {
                            assert(q.len() >= 2);
                        }
                        assert(tail[0] == q[1]);
                        lemma_path_in_closed_set(groups@, done1, tail);
                        assert(done1.contains(tail.last()));
                        assert(tail.last() == q.last() && q.last() == group_name@);
                        assert(!done1.contains(group_name@)) by {
                            assert(path1_dv.to_set().contains(group_name@)) by {
                                assert(path1_dv.last() == group_name@);
                            }
                        }
                    }
                }
            }
            assert(done2.contains(group_name@));
            assert forall|x: Seq<char>| old_visited_dv.contains(x) implies vis2_dv.contains(x) by {
                lemma_push_contains(old_visited_dv, group_name@, x);
                assert(visited1_dv.contains(x));
            }
            assert forall|x: Seq<char>|
                done_set(old_visited_dv, old_path_dv).contains(x) implies done2.contains(x) by {
                assert(done1.contains(x));
            }
        }
        Ok(())
    }

    /// Reject groups that reference a name the configuration lacks.
    pub fn validate_references(network: &NetworkConfig) -> (r: Result<(), ValidationError>)
        ensures
            r is Ok <==> references_valid(network.groups@),
            r matches Err(e) ==> e is UnknownGroup,
    {
        let groups = &network.groups;
        let n = groups.len();
        let mut i: usize = 0;
        while i < n
            invariant
                groups@ == network.groups@,
                n == groups@.len(),
                i <= n,
                forall|a: int, j: int|
                    0 <= a < i && 0 <= j < groups@[a].1.groups@.len() ==> seq_has(
                        groups@,
                        #[trigger] groups@[a].1.groups@[j]@,
                    ),
            decreases n - i,
        {
            let g = groups.value_at(i);
            let m = g.groups.len();
            let mut j: usize = 0;
            while j < m
                invariant
                    groups@ == network.groups@,
                    m == g.groups@.len(),
                    i < n == groups@.len(),
                    g == groups@[i as int].1,
                    j <= m,
                    forall|k: int|
                        0 <= k < j ==> seq_has(groups@, #[trigger] g.groups@[k]@),
                decreases m - j,
            {
                if !groups.contains_key(g.groups[j].as_str()) {
                    proof {
                        assert(groups@[i as int].1.groups@[j as int]@ == g.groups@[j as int]@);
                        assert(!seq_has(groups@, groups@[i as int].1.groups@[j as int]@));
                        assert(!references_valid(groups@));
                    }
                    let mut text = groups.key_at(i).clone();
                    text.append(" -> ");
                    text.append(g.groups[j].as_str());
                    return Err(ValidationError::UnknownGroup { group: text });
                }
                j += 1;
            }
            i += 1;
        }
        Ok(())
    }

    /// Reject patterns containing `**`, NUL or a newline — on the
    /// `hosts` and the `hosts_deny` lists alike — and any pattern too
    /// long to index.
    pub fn validate_patterns(network: &NetworkConfig) -> (r: Result<(), ValidationError>)
        ensures
            r is Ok <==> patterns_valid(network.groups@),
            r matches Err(e) ==> e is InvalidPattern,
    {
        let groups = &network.groups;
        let n = groups.len();
        let mut i: usize = 0;
        while i < n
            invariant
                groups@ == network.groups@,
                n == groups@.len(),
                i <= n,
                forall|a: int, j: int|
                    0 <= a < i && 0 <= j < groups@[a].1.hosts@.len() ==> pattern_ok(
                        #[trigger] groups@[a].1.hosts@[j]@,
                    ) && groups@[a].1.hosts@[j]@.len() < usize::MAX,
                forall|a: int, j: int|
                    0 <= a < i && 0 <= j < groups@[a].1.hosts_deny@.len() ==> pattern_ok(
                        #[trigger] groups@[a].1.hosts_deny@[j]@,
                    ) && groups@[a].1.hosts_deny@[j]@.len() < usize::MAX,
            decreases n - i,
        {
            let g = groups.value_at(i);
            let m = g.hosts.len();
            let mut j: usize = 0;
            while j < m
                invariant
                    groups@ == network.groups@,
                    m == g.hosts@.len(),
                    i < n == groups@.len(),
                    g == groups@[i as int].1,
                    j <= m,
                    forall|k: int|
                        0 <= k < j ==> pattern_ok(#[trigger] g.hosts@[k]@) && g.hosts@[k]@.len()
                            < usize::MAX,
                decreases m - j,
            {
                if !check_pattern(g.hosts[j].as_str()) {
                    proof {
                        assert(groups@[i as int].1.hosts@[j as int]@ == g.hosts@[j as int]@);
                        assert(!(pattern_ok(groups@[i as int].1.hosts@[j as int]@)
                            && groups@[i as int].1.hosts@[j as int]@.len() < usize::MAX));
                        assert(!patterns_valid(groups@));
                    }
                    let mut text = g.hosts[j].clone();
                    text.append(" in group ");
                    text.append(groups.key_at(i).as_str());
                    return Err(ValidationError::InvalidPattern { pattern: text });
                }
                j += 1;
            }
            let md = g.hosts_deny.len();
            let mut j2: usize = 0;
            while j2 < md
                invariant
                    groups@ == network.groups@,
                    md == g.hosts_deny@.len(),
                    i < n == groups@.len(),
                    g == groups@[i as int].1,
                    j2 <= md,
                    forall|k: int|
                        0 <= k < j2 ==> pattern_ok(#[trigger] g.hosts_deny@[k]@)
                            && g.hosts_deny@[k]@.len() < usize::MAX,
                decreases md - j2,
            {
                if !check_pattern(g.hosts_deny[j2].as_str()) {
                    proof {
                        assert(groups@[i as int].1.hosts_deny@[j2 as int]@ == g.hosts_deny@[j2 as int]@);
                        assert(!(pattern_ok(groups@[i as int].1.hosts_deny@[j2 as int]@)
                            && groups@[i as int].1.hosts_deny@[j2 as int]@.len() < usize::MAX));
                        assert(!patterns_valid(groups@));
                    }
                    let mut text = g.hosts_deny[j2].clone();
                    text.append(" in group ");
                    text.append(groups.key_at(i).as_str());
                    return Err(ValidationError::InvalidPattern { pattern: text });
                }
                j2 += 1;
            }
            i += 1;
        }
        Ok(())
    }
}

/// Scan one pattern: no `**`, no NUL, no newline, short enough.
fn check_pattern(p: &str) -> (r: bool)
    ensures
        r == (pattern_ok(p@) && p@.len() < usize::MAX),
{
    let n = p.unicode_len();
    if n == usize::MAX {
        return false;
    }
    let mut i: usize = 0;
    while i < n
        invariant
            n == p@.len() < usize::MAX,
            i <= n,
            forall|k: int| 0 <= k < i ==> p@[k] != '\u{0}' && p@[k] != '\n',
            forall|k: int|
                0 <= k < i && k + 1 < n ==> !(p@[k] == '*' && #[trigger] p@[k + 1] == '*'),
        decreases n - i,
    {
        let c = p.get_char(i);
        if c == '\u{0}' || c == '\n' {
            return false;
        }
        if c == '*' && i + 1 < n {
            if p.get_char(i + 1) == '*' {
                assert(p@[i as int] == '*' && p@[i + 1] == '*');
                return false;
            }
        }
        i += 1;
    }
    proof {
        if exists|k: int| 0 <= k < p@.len() - 1 && p@[k] == '*' && #[trigger] p@[k + 1] == '*' {
            let k = choose|k: int| 0 <= k < p@.len() - 1 && p@[k] == '*' && #[trigger] p@[k + 1]
                == '*';
        }
        if p@.contains('\u{0}') {
            let k = choose|k: int| 0 <= k < p@.len() && p@[k] == '\u{0}';
        }
        if p@.contains('\n') {
            let k = choose|k: int| 0 <= k < p@.len() && p@[k] == '\n';
        }
    }
    true
}

} // verus!
