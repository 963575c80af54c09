//! Policy engine: expand host groups into matchers and decide access.
//!
//! Construction expands each named root group, following `groups:`
//! references and skipping names already seen, into one matcher for the
//! allow patterns and one for the deny patterns.  The decision uses
//! longest-match arbitration: when both matchers hit, the higher
//! specificity wins and deny wins ties; when neither hits, the
//! configured default decides.  An optional peer address is accepted
//! for compatibility and ignored.

use vstd::prelude::*;

use crate::config::{DefaultMode, HostGroup, NetworkConfig};
use crate::error::ProxyError;
use crate::matcher::{HostMatcher, spec_specificity};
use crate::omap::{OrderedMap, seq_get, seq_has};
use crate::strutil::clone_string_vec;

verus! {

/// An IP address as plain integers.  Accepted alongside hostnames for
/// forward compatibility; the decision never depends on it.
#[derive(Debug, Clone, PartialEq, Eq, Structural)]
pub enum IpAddress {
    V4(u32),
    V6(u128),
}

/// The group named `a` refers to `b`.
pub open spec fn group_edge(groups: Seq<(Seq<char>, HostGroup)>, a: Seq<char>, b: Seq<char>) -> bool {
    match seq_get(groups, a) {
        Some(g) => g.groups.deep_view().contains(b),
        None => false,
    }
}

/// A chain of `groups:` references.
pub open spec fn is_ref_path(groups: Seq<(Seq<char>, HostGroup)>, p: Seq<Seq<char>>) -> bool
    decreases p.len(),
{
    p.len() >= 1 && (p.len() == 1 || (group_edge(groups, p[0], p[1]) && is_ref_path(
        groups,
        p.skip(1),
    )))
}

/// A path stays a path when extended along an edge.
pub proof fn lemma_path_push(groups: Seq<(Seq<char>, HostGroup)>, p: Seq<Seq<char>>, b: Seq<char>)
    requires
        is_ref_path(groups, p),
        group_edge(groups, p.last(), b),
    ensures
        is_ref_path(groups, p.push(b)),
    decreases p.len(),
{
    let q = p.push(b);
    if p.len() == 1 {
        assert(q[0] == p[0] && q[1] == b);
        assert(group_edge(groups, q[0], q[1]));
        let tail = seq![b];
        assert(tail.len() == 1);
        assert(is_ref_path(groups, tail));
        assert(q.skip(1) =~= tail);
        assert(is_ref_path(groups, q.skip(1)));
    } else {
        assert(q[0] == p[0] && q[1] == p[1]);
        assert(group_edge(groups, q[0], q[1]));
        assert(q.skip(1) =~= p.skip(1).push(b));
        assert(p.skip(1).last() == p.last());
        lemma_path_push(groups, p.skip(1), b);
        assert(is_ref_path(groups, q.skip(1)));
    }
}

/// The name `n` is reachable from one of the root names by following
/// `groups:` references.
pub open spec fn reaches(
    groups: Seq<(Seq<char>, HostGroup)>,
    roots: Seq<Seq<char>>,
    n: Seq<char>,
) -> bool {
    exists|p: Seq<Seq<char>>|
        is_ref_path(groups, p) && roots.contains(p[0]) && p.last() == n
}

/// The patterns contributed by the group named `n`: its `hosts` list,
/// or its `hosts_deny` list when expanding for denial.
pub open spec fn group_patterns(
    groups: Seq<(Seq<char>, HostGroup)>,
    n: Seq<char>,
    deny: bool,
) -> Seq<Seq<char>> {
    match seq_get(groups, n) {
        Some(g) => if deny {
            g.hosts_deny.deep_view()
        } else {
            g.hosts.deep_view()
        },
        None => Seq::empty(),
    }
}

/// The pattern `pat` belongs to some group reachable from the roots.
pub open spec fn pattern_in_reach(
    groups: Seq<(Seq<char>, HostGroup)>,
    roots: Seq<Seq<char>>,
    deny: bool,
    pat: Seq<char>,
) -> bool {
    exists|n: Seq<char>| reaches(groups, roots, n) && group_patterns(groups, n, deny).contains(pat)
}

/// Every name reachable from the roots exists in the configuration.
pub open spec fn all_reachable_exist(
    groups: Seq<(Seq<char>, HostGroup)>,
    roots: Seq<Seq<char>>,
) -> bool {
    forall|n: Seq<char>| reaches(groups, roots, n) ==> seq_has(groups, n)
}

/// Every pattern string in every group is short enough to index.
pub open spec fn groups_limits_ok(groups: Seq<(Seq<char>, HostGroup)>) -> bool {
    forall|i: int, j: int|
        0 <= i < groups.len() ==> {
            &&& (0 <= j < groups[i].1.hosts@.len() ==> groups[i].1.hosts@[j]@.len() < usize::MAX)
            &&& (0 <= j < groups[i].1.hosts_deny@.len() ==> groups[i].1.hosts_deny@[j]@.len()
                < usize::MAX)
        }
}

/// A root is reachable from itself.
proof fn lemma_reaches_root(groups: Seq<(Seq<char>, HostGroup)>, roots: Seq<Seq<char>>, r: Seq<char>)
    requires
        roots.contains(r),
    ensures
        reaches(groups, roots, r),
{
    let p = seq![r];
    assert(p.len() == 1 && p[0] == r && p.last() == r);
    assert(is_ref_path(groups, p) && roots.contains(p[0]) && p.last() == r);
}

/// Reachability extends along an edge.
proof fn lemma_reaches_step(
    groups: Seq<(Seq<char>, HostGroup)>,
    roots: Seq<Seq<char>>,
    n: Seq<char>,
    b: Seq<char>,
)
    requires
        reaches(groups, roots, n),
        group_edge(groups, n, b),
    ensures
        reaches(groups, roots, b),
{
    let p = choose|p: Seq<Seq<char>>|
        is_ref_path(groups, p) && roots.contains(p[0]) && p.last() == n;
    lemma_path_push(groups, p, b);
    let q = p.push(b);
    assert(q[0] == p[0]);
    assert(roots.contains(q[0]) && q.last() == b);
}

/// A set of names that contains the roots and is closed under edges
/// contains every reachable name.
proof fn lemma_closed_covers(
    groups: Seq<(Seq<char>, HostGroup)>,
    roots: Seq<Seq<char>>,
    done: Seq<Seq<char>>,
    n: Seq<char>,
)
    requires
        forall|r: Seq<char>| roots.contains(r) ==> done.contains(r),
        forall|a: Seq<char>, b: Seq<char>|
            done.contains(a) && group_edge(groups, a, b) ==> done.contains(b),
        reaches(groups, roots, n),
    ensures
        done.contains(n),
{
    let p = choose|p: Seq<Seq<char>>|
        is_ref_path(groups, p) && roots.contains(p[0]) && p.last() == n;
    lemma_path_in_closed(groups, done, p);
}

proof fn lemma_path_in_closed(
    groups: Seq<(Seq<char>, HostGroup)>,
    done: Seq<Seq<char>>,
    p: Seq<Seq<char>>,
)
    requires
        is_ref_path(groups, p),
        done.contains(p[0]),
        forall|a: Seq<char>, b: Seq<char>|
            done.contains(a) && group_edge(groups, a, b) ==> done.contains(b),
    ensures
        done.contains(p.last()),
    decreases p.len(),
{
    if p.len() > 1 {
        assert(group_edge(groups, p[0], p[1]));
        let q = p.skip(1);
        assert(done.contains(q[0]));
        lemma_path_in_closed(groups, done, q);
        assert(q.last() == p.last());
    }
}

/// Number of configured groups whose name is not yet in `procd`.
pub open spec fn count_unprocessed(
    groups: Seq<(Seq<char>, HostGroup)>,
    procd: Seq<Seq<char>>,
) -> nat
    decreases groups.len(),
{
    if groups.len() == 0 {
        0
    } else {
        (if procd.contains(groups[0].0) {
            0nat
        } else {
            1nat
        }) + count_unprocessed(groups.skip(1), procd)
    }
}

/// Recording more names never raises the count.
pub proof fn lemma_count_mono(
    groups: Seq<(Seq<char>, HostGroup)>,
    procd: Seq<Seq<char>>,
    name: Seq<char>,
)
    ensures
        count_unprocessed(groups, procd.push(name)) <= count_unprocessed(groups, procd),
    decreases groups.len(),
{
    if groups.len() > 0 {
        lemma_count_mono(groups.skip(1), procd, name);
        if procd.contains(groups[0].0) {
            assert(procd.push(name).contains(groups[0].0)) by {
                let i = choose|i: int| 0 <= i < procd.len() && procd[i] == groups[0].0;
                assert(procd.push(name)[i] == groups[0].0);
            }
        }
    }
}

/// A list that holds every name of another gives a count no larger.
pub proof fn lemma_count_superset(
    groups: Seq<(Seq<char>, HostGroup)>,
    smaller: Seq<Seq<char>>,
    larger: Seq<Seq<char>>,
)
    requires
        forall|x: Seq<char>| smaller.contains(x) ==> larger.contains(x),
    ensures
        count_unprocessed(groups, larger) <= count_unprocessed(groups, smaller),
    decreases groups.len(),
{
    if groups.len() > 0 {
        lemma_count_superset(groups.skip(1), smaller, larger);
    }
}

/// Recording the name of a configured group that was not yet recorded
/// strictly lowers the count.
pub proof fn lemma_count_strict(
    groups: Seq<(Seq<char>, HostGroup)>,
    procd: Seq<Seq<char>>,
    name: Seq<char>,
)
    requires
        seq_has(groups, name),
        !procd.contains(name),
    ensures
        count_unprocessed(groups, procd.push(name)) < count_unprocessed(groups, procd),
    decreases groups.len(),
{
    assert(groups.len() > 0);
    if groups[0].0 == name {
        lemma_count_mono(groups.skip(1), procd, name);
        assert(procd.push(name).contains(name)) by {
            assert(procd.push(name).last() == name);
        }
    } else {
        lemma_count_strict(groups.skip(1), procd, name);
        if procd.contains(groups[0].0) {
            assert(procd.push(name).contains(groups[0].0)) by {
                let i = choose|i: int| 0 <= i < procd.len() && procd[i] == groups[0].0;
                assert(procd.push(name)[i] == groups[0].0);
            }
        } else {
            assert(!procd.push(name).contains(groups[0].0)) by {
                if procd.push(name).contains(groups[0].0) {
                    let i = choose|i: int|
                        0 <= i < procd.push(name).len() && procd.push(name)[i] == groups[0].0;
                    if i < procd.len() {
                        assert(procd[i] == groups[0].0);
                    }
                }
            }
        }
    }
}

/// Membership in a concatenation splits over the halves.
proof fn lemma_concat_contains(a: Seq<Seq<char>>, b: Seq<Seq<char>>, x: Seq<char>)
    ensures
        (a + b).contains(x) <==> a.contains(x) || b.contains(x),
{
    if a.contains(x) {
        let i = choose|i: int| 0 <= i < a.len() && a[i] == x;
        assert((a + b)[i] == x);
    }
    if b.contains(x) {
        let i = choose|i: int| 0 <= i < b.len() && b[i] == x;
        assert((a + b)[a.len() + i] == x);
    }
    if (a + b).contains(x) {
        let i = choose|i: int| 0 <= i < (a + b).len() && (a + b)[i] == x;
        if i < a.len() {
            assert(a[i] == x);
        } else {
            assert(b[i - a.len()] == x);
        }
    }
}

/// All patterns contributed by the named groups, in order.
pub open spec fn patterns_of(
    groups: Seq<(Seq<char>, HostGroup)>,
    procd: Seq<Seq<char>>,
    deny: bool,
) -> Seq<Seq<char>>
    decreases procd.len(),
{
    if procd.len() == 0 {
        Seq::empty()
    } else {
        patterns_of(groups, procd.drop_last(), deny) + group_patterns(groups, procd.last(), deny)
    }
}

/// A pattern is among `patterns_of` exactly when one of the named
/// groups contributes it.
proof fn lemma_patterns_of_contains(
    groups: Seq<(Seq<char>, HostGroup)>,
    procd: Seq<Seq<char>>,
    deny: bool,
    pat: Seq<char>,
)
    ensures
        patterns_of(groups, procd, deny).contains(pat) <==> exists|n: Seq<char>|
            #![trigger group_patterns(groups, n, deny)]
            procd.contains(n) && group_patterns(groups, n, deny).contains(pat),
    decreases procd.len(),
{
    if procd.len() > 0 {
        let front = procd.drop_last();
        lemma_patterns_of_contains(groups, front, deny, pat);
        lemma_concat_contains(
            patterns_of(groups, front, deny),
            group_patterns(groups, procd.last(), deny),
            pat,
        );
        if patterns_of(groups, procd, deny).contains(pat) {
            if patterns_of(groups, front, deny).contains(pat) {
                let n = choose|n: Seq<char>|
                    #![trigger group_patterns(groups, n, deny)]
                    front.contains(n) && group_patterns(groups, n, deny).contains(pat);
                let i = choose|i: int| 0 <= i < front.len() && front[i] == n;
                assert(procd[i] == n);
                assert(procd.contains(n));
            } else {
                assert(procd.contains(procd.last()));
            }
        }
        if exists|n: Seq<char>|
            #![trigger group_patterns(groups, n, deny)]
            procd.contains(n) && group_patterns(groups, n, deny).contains(pat) {
            let n = choose|n: Seq<char>|
                #![trigger group_patterns(groups, n, deny)]
                procd.contains(n) && group_patterns(groups, n, deny).contains(pat);
            let i = choose|i: int| 0 <= i < procd.len() && procd[i] == n;
            if i < procd.len() - 1 {
                assert(front[i] == n);
                assert(front.contains(n));
            } else {
                assert(n == procd.last());
            }
        }
    }
}

/// Record one group: add its patterns to the matcher, queue its
/// children, and mark it processed.  Fails when the name is not
/// configured, leaving everything unchanged.
#[verifier::rlimit(100)]
#[verifier::spinoff_prover]
fn process_group(
    groups: &OrderedMap<HostGroup>,
    matcher: &mut HostMatcher,
    pending: &mut Vec<String>,
    processed: &mut Vec<String>,
    name: String,
    deny: bool,
    Ghost(roots_dv): Ghost<Seq<Seq<char>>>,
) -> (r: Result<(), ProxyError>)
    requires
        groups_limits_ok(groups@),
        old(matcher).wf(),
        old(matcher).spec_patterns() == patterns_of(groups@, old(processed).deep_view(), deny),
        reaches(groups@, roots_dv, name@),
        !old(processed).deep_view().contains(name@),
        forall|k: int|
            0 <= k < old(processed).deep_view().len() ==> reaches(
                groups@,
                roots_dv,
                #[trigger] old(processed).deep_view()[k],
            ) && seq_has(groups@, old(processed).deep_view()[k]),
        forall|k: int|
            0 <= k < old(pending).deep_view().len() ==> reaches(
                groups@,
                roots_dv,
                #[trigger] old(pending).deep_view()[k],
            ),
        forall|a: Seq<char>, b: Seq<char>|
            old(processed).deep_view().contains(a) && group_edge(groups@, a, b)
                ==> old(processed).deep_view().contains(b) || b == name@
                || old(pending).deep_view().contains(b),
    ensures
        r is Ok <==> seq_has(groups@, name@),
        (r matches Err(e) ==> {
            &&& e matches ProxyError::GroupNotFound { group } && group@ == name@
            &&& *final(matcher) == *old(matcher)
            &&& *final(pending) == *old(pending)
            &&& *final(processed) == *old(processed)
        }),
        (r is Ok ==> {
            &&& final(matcher).wf()
            &&& final(processed).deep_view() == old(processed).deep_view().push(name@)
            &&& final(matcher).spec_patterns() == patterns_of(
                groups@,
                final(processed).deep_view(),
                deny,
            )
            &&& forall|k: int|
                0 <= k < final(pending).deep_view().len() ==> reaches(
                    groups@,
                    roots_dv,
                    #[trigger] final(pending).deep_view()[k],
                )
            &&& forall|b: Seq<char>|
                old(pending).deep_view().contains(b) ==> final(pending).deep_view().contains(b)
            &&& forall|a: Seq<char>, b: Seq<char>|
                final(processed).deep_view().contains(a) && group_edge(groups@, a, b)
                    ==> final(processed).deep_view().contains(b)
                    || final(pending).deep_view().contains(b)
        }),
{
    let ghost old_pending_dv = pending.deep_view();
    let ghost procd_before = processed.deep_view();
    let g_opt = groups.get(name.as_str());
    let g = match g_opt {
        None => {
            return Err(ProxyError::GroupNotFound { group: name });
        },
        Some(g) => g,
    };
    assert(seq_get(groups@, name@) == Some(*g));
    let ghost g_pats = group_patterns(groups@, name@, deny);
    let pats: &Vec<String> = if deny {
        &g.hosts_deny
    } else {
        &g.hosts
    };
    proof {
        assert(g_pats == pats.deep_view());
        crate::omap::lemma_index_of(groups@, name@);
        let i = crate::omap::seq_index_of(groups@, name@);
        assert(groups@[i].1 == *g);
    }
    let ghost before_pats = matcher.spec_patterns();
    let np = pats.len();
    let mut u: usize = 0;
    while u < np
        invariant
            np == pats@.len(),
            u <= np,
            matcher.wf(),
            forall|j: int| 0 <= j < pats@.len() ==> #[trigger] pats@[j]@.len() < usize::MAX,
            matcher.spec_patterns() == before_pats + pats.deep_view().subrange(0, u as int),
        decreases np - u,
    {
        matcher.add_pattern(pats[u].as_str());
        proof {
            assert(matcher.spec_patterns() =~= before_pats + pats.deep_view().subrange(0, u + 1));
        }
        u += 1;
    }
    proof {
        assert(pats.deep_view().subrange(0, np as int) =~= pats.deep_view());
    }
    let nc = g.groups.len();
    let mut w: usize = 0;
    while w < nc
        invariant
            nc == g.groups@.len(),
            w <= nc,
            reaches(groups@, roots_dv, name@),
            seq_get(groups@, name@) == Some(*g),
            forall|k: int|
                0 <= k < pending.deep_view().len() ==> reaches(
                    groups@,
                    roots_dv,
                    #[trigger] pending.deep_view()[k],
                ),
            forall|j: int|
                0 <= j < w ==> pending.deep_view().contains(#[trigger] g.groups.deep_view()[j]),
            forall|b: Seq<char>|
                old_pending_dv.contains(b) ==> pending.deep_view().contains(b),
        decreases nc - w,
    {
        let ghost pend_before = pending.deep_view();
        pending.push(g.groups[w].clone());
        proof {
            assert(vstd::pervasive::cloned::<String>(g.groups@[w as int], pending@.last()));
            assert(pending.deep_view() =~= pend_before.push(g.groups.deep_view()[w as int]));
            assert(group_edge(groups@, name@, g.groups.deep_view()[w as int])) by {
                assert(g.groups.deep_view().contains(g.groups.deep_view()[w as int]));
            }
            lemma_reaches_step(groups@, roots_dv, name@, g.groups.deep_view()[w as int]);
            assert forall|k: int| 0 <= k < pending.deep_view().len() implies reaches(
                groups@,
                roots_dv,
                pending.deep_view()[k],
            ) by {
                if k < pend_before.len() {
                    assert(pend_before[k] == pending.deep_view()[k]);
                }
            }
            assert forall|b: Seq<char>| pend_before.contains(b) implies pending.deep_view().contains(
                b,
            ) by {
                let i = choose|i: int| 0 <= i < pend_before.len() && pend_before[i] == b;
                assert(pending.deep_view()[i] == b);
            }
            assert forall|j: int| 0 <= j < w + 1 implies pending.deep_view().contains(
                g.groups.deep_view()[j],
            ) by {
                if j < w {
                    assert(pend_before.contains(g.groups.deep_view()[j]));
                } else {
                    assert(pending.deep_view().last() == g.groups.deep_view()[j]);
                }
            }
        }
        w += 1;
    }
    processed.push(name);
    proof {
        assert(processed.deep_view() =~= procd_before.push(name@));
        assert(processed.deep_view().drop_last() =~= procd_before);
        assert(processed.deep_view().last() == name@);
        assert(matcher.spec_patterns() == patterns_of(groups@, processed.deep_view(), deny));
    }
    Ok(())
}

/// Expand the named root groups into a matcher over their `hosts`
/// lists (or `hosts_deny` lists when `deny` is set), following
/// `groups:` references and visiting every name once.
#[verifier::rlimit(100)]
#[verifier::spinoff_prover]
fn expand_groups(
    groups: &OrderedMap<HostGroup>,
    roots: &Vec<String>,
    deny: bool,
) -> (r: Result<HostMatcher, ProxyError>)
    requires
        groups_limits_ok(groups@),
    ensures
        r is Ok <==> all_reachable_exist(groups@, roots.deep_view()),
        (r matches Ok(m) ==> m.wf() && forall|pat: Seq<char>|
            #[trigger] m.spec_patterns().contains(pat) <==> pattern_in_reach(
                groups@,
                roots.deep_view(),
                deny,
                pat,
            )),
        (r matches Err(e) ==> e matches ProxyError::GroupNotFound { group } && reaches(
            groups@,
            roots.deep_view(),
            group@,
        ) && !seq_has(groups@, group@)),
{
    let ghost roots_dv = roots.deep_view();
    let mut matcher = HostMatcher::new();
    let mut processed: Vec<String> = Vec::new();
    let mut pending: Vec<String> = clone_string_vec(roots);
    proof {
        assert forall|k: int| 0 <= k < pending.deep_view().len() implies reaches(
            groups@,
            roots_dv,
            pending.deep_view()[k],
        ) by {
            assert(roots_dv[k] == pending.deep_view()[k]);
            assert(roots_dv.contains(roots_dv[k]));
            lemma_reaches_root(groups@, roots_dv, roots_dv[k]);
        }
        assert forall|r: Seq<char>| roots_dv.contains(r) implies pending.deep_view().contains(r) by {
            let i = choose|i: int| 0 <= i < roots_dv.len() && roots_dv[i] == r;
            assert(pending.deep_view()[i] == r);
        }
        assert(matcher.spec_patterns() =~= patterns_of(groups@, processed.deep_view(), deny));
    }
    while pending.len() > 0
        invariant
            groups_limits_ok(groups@),
            matcher.wf(),
            roots_dv == roots.deep_view(),
            forall|k: int|
                0 <= k < processed.deep_view().len() ==> reaches(
                    groups@,
                    roots_dv,
                    #[trigger] processed.deep_view()[k],
                ) && seq_has(groups@, processed.deep_view()[k]),
            forall|k: int|
                0 <= k < pending.deep_view().len() ==> reaches(
                    groups@,
                    roots_dv,
                    #[trigger] pending.deep_view()[k],
                ),
            matcher.spec_patterns() == patterns_of(groups@, processed.deep_view(), deny),
            forall|a: Seq<char>, b: Seq<char>|
                processed.deep_view().contains(a) && group_edge(groups@, a, b)
                    ==> processed.deep_view().contains(b) || pending.deep_view().contains(b),
            forall|r: Seq<char>|
                roots_dv.contains(r) ==> processed.deep_view().contains(r)
                    || pending.deep_view().contains(r),
        decreases count_unprocessed(groups@, processed.deep_view()), pending@.len(),
    {
        let ghost old_pending_dv = pending.deep_view();
        let name = pending.remove(0);
        proof {
            assert(old_pending_dv[0] == name@);
            assert(reaches(groups@, roots_dv, old_pending_dv[0]));
            assert(pending.deep_view() =~= old_pending_dv.skip(1));
            assert(old_pending_dv.contains(old_pending_dv[0]));
            assert forall|b: Seq<char>| old_pending_dv.contains(b) implies b == name@
                || pending.deep_view().contains(b) by {
                let i = choose|i: int| 0 <= i < old_pending_dv.len() && old_pending_dv[i] == b;
                if i > 0 {
                    assert(pending.deep_view()[i - 1] == b);
                }
            }
        }
        let already = crate::strutil::contains_string(&processed, name.as_str());
        if already {
            // seen before: nothing to add
            continue ;
        }
        assert(!processed.deep_view().contains(name@));
        let ghost procd_before = processed.deep_view();
        let ghost name_view = name@;
        match process_group(groups, &mut matcher, &mut pending, &mut processed, name, deny, Ghost(roots_dv)) {
            Err(e) => {
                proof {
                    assert(reaches(groups@, roots_dv, name_view));
                    assert(!seq_has(groups@, name_view));
                    assert(!all_reachable_exist(groups@, roots_dv));
                }
                return Err(e);
            },
            Ok(()) => {
                proof {
                    lemma_count_strict(groups@, procd_before, name_view);
                    // restore the roots invariant
                    assert forall|r: Seq<char>| roots_dv.contains(r) implies
                        processed.deep_view().contains(r) || pending.deep_view().contains(r) by {
                        if procd_before.contains(r) {
                            let i = choose|i: int|
                                0 <= i < procd_before.len() && procd_before[i] == r;
                            assert(processed.deep_view()[i] == r);
                        } else if old_pending_dv.contains(r) {
                            if r == name_view {
                                assert(processed.deep_view().last() == r);
                            }
                        }
                    }
                    // restore soundness of processed entries
                    assert forall|k: int| 0 <= k < processed.deep_view().len() implies reaches(
                        groups@,
                        roots_dv,
                        processed.deep_view()[k],
                    ) && seq_has(groups@, processed.deep_view()[k]) by {
                        if k < procd_before.len() {
                            assert(procd_before[k] == processed.deep_view()[k]);
                        }
                    }
                }
            },
        }
    }
    proof {
        assert(pending.deep_view().len() == 0);
        let done = processed.deep_view();
        assert forall|n: Seq<char>| reaches(groups@, roots_dv, n) implies seq_has(
            groups@,
            n,
        ) by {
            lemma_closed_covers(groups@, roots_dv, done, n);
            let i = choose|i: int| 0 <= i < done.len() && done[i] == n;
            assert(seq_has(groups@, done[i]));
        }
        assert(all_reachable_exist(groups@, roots_dv));
        assert forall|pat: Seq<char>| #[trigger] matcher.spec_patterns().contains(pat) implies
            pattern_in_reach(groups@, roots_dv, deny, pat) by {
            lemma_patterns_of_contains(groups@, done, deny, pat);
            let n = choose|n: Seq<char>|
                #![trigger group_patterns(groups@, n, deny)]
                done.contains(n) && group_patterns(groups@, n, deny).contains(pat);
            let i = choose|i: int| 0 <= i < done.len() && done[i] == n;
            assert(reaches(groups@, roots_dv, done[i]));
            assert(reaches(groups@, roots_dv, n) && group_patterns(groups@, n, deny).contains(pat));
        }
        assert forall|pat: Seq<char>| pattern_in_reach(groups@, roots_dv, deny, pat) implies
            #[trigger] matcher.spec_patterns().contains(pat) by {
            let n = choose|n: Seq<char>|
                reaches(groups@, roots_dv, n) && group_patterns(groups@, n, deny).contains(pat);
            lemma_closed_covers(groups@, roots_dv, done, n);
            lemma_patterns_of_contains(groups@, done, deny, pat);
        }
    }
    Ok(matcher)
}

/// Decision for a host given the two match outcomes and the default:
/// both hit — higher specificity wins, deny wins ties; one hit — that
/// side wins; no hit — the default decides.
pub open spec fn spec_decision(
    allow_spec: Option<nat>,
    deny_spec: Option<nat>,
    default: DefaultMode,
) -> bool {
    match (allow_spec, deny_spec) {
        (Some(a), Some(d)) => a > d,
        (Some(a), None) => true,
        (None, Some(d)) => false,
        (None, None) => default == DefaultMode::Allow,
    }
}

/// Policy engine that evaluates whether connections are allowed.
#[derive(Debug, Clone)]
pub struct PolicyEngine {
    pub allow_matcher: HostMatcher,
    pub deny_matcher: HostMatcher,
    pub default: DefaultMode,
}

impl PolicyEngine {
    /// Both matchers can be consulted.
    pub open spec fn wf(&self) -> bool {
        self.allow_matcher.wf() && self.deny_matcher.wf()
    }

    /// Match outcome of the allow side for a host: the host's
    /// specificity when some allow pattern matches it.
    pub open spec fn spec_allow_match(&self, host: Seq<char>) -> Option<nat> {
        if self.allow_matcher.spec_matches(host) {
            Some(spec_specificity(host))
        } else {
            None
        }
    }

    /// Match outcome of the deny side for a host.
    pub open spec fn spec_deny_match(&self, host: Seq<char>) -> Option<nat> {
        if self.deny_matcher.spec_matches(host) {
            Some(spec_specificity(host))
        } else {
            None
        }
    }

    /// The decision the engine gives for a host.
    pub open spec fn spec_allow(&self, host: Seq<char>) -> bool {
        spec_decision(self.spec_allow_match(host), self.spec_deny_match(host), self.default)
    }

    /// Build an engine from allow and deny group names, expanding each
    /// recursively over the configured host groups.
    pub fn from_network_policy(
        allow_groups: Vec<String>,
        deny_groups: Vec<String>,
        default: DefaultMode,
        network_config: &NetworkConfig,
    ) -> (r: Result<PolicyEngine, ProxyError>)
        requires
            groups_limits_ok(network_config.groups@),
        ensures
            r is Ok <==> all_reachable_exist(network_config.groups@, allow_groups.deep_view())
                && all_reachable_exist(network_config.groups@, deny_groups.deep_view()),
            (r matches Ok(e) ==> {
                &&& e.wf()
                &&& e.default == default
                &&& forall|pat: Seq<char>|
                    #[trigger] e.allow_matcher.spec_patterns().contains(pat) <==> pattern_in_reach(
                        network_config.groups@,
                        allow_groups.deep_view(),
                        false,
                        pat,
                    )
                &&& forall|pat: Seq<char>|
                    #[trigger] e.deny_matcher.spec_patterns().contains(pat) <==> pattern_in_reach(
                        network_config.groups@,
                        deny_groups.deep_view(),
                        true,
                        pat,
                    )
            }),
            (r matches Err(e) ==> e matches ProxyError::GroupNotFound { group } && !seq_has(
                network_config.groups@,
                group@,
            )),
    {
        let allow_matcher = match expand_groups(&network_config.groups, &allow_groups, false) {
            Ok(m) => m,
            Err(e) => {
                return Err(e);
            },
        };
        let deny_matcher = match expand_groups(&network_config.groups, &deny_groups, true) {
            Ok(m) => m,
            Err(e) => {
                return Err(e);
            },
        };
        Ok(PolicyEngine { allow_matcher, deny_matcher, default })
    }

    /// Decide whether a connection to `host` is allowed.  The optional
    /// address is ignored: the decision depends on the hostname alone.
    pub fn allow(&self, host: &str, ip: Option<IpAddress>) -> (r: bool)
        requires
            self.wf(),
            host@.len() < usize::MAX,
        ensures
            r == self.spec_allow(host@),
    {
        let allow_hostname_spec = self.allow_matcher.matches_with_specificity(host);
        let deny_hostname_spec = self.deny_matcher.matches_with_specificity(host);
        match (allow_hostname_spec, deny_hostname_spec) {
            (Some(allow_spec), Some(deny_spec)) => allow_spec > deny_spec,
            (Some(_), None) => true,
            (None, Some(_)) => false,
            (None, None) => matches!(self.default, DefaultMode::Allow),
        }
    }
}

/// Longest match: whenever the allow side matches a host with
/// specificity `a` and the deny side with specificity `d`, the engine
/// allows the host exactly when `a > d`.
pub proof fn lemma_longest_match(e: PolicyEngine, host: Seq<char>, a: nat, d: nat)
    requires
        e.spec_allow_match(host) == Some(a),
        e.spec_deny_match(host) == Some(d),
    ensures
        e.spec_allow(host) == (a > d),
{
}

/// Default fallback: when neither side matches a host, the engine
/// allows it exactly when the default is allow.
pub proof fn lemma_default_fallback(e: PolicyEngine, host: Seq<char>)
    requires
        e.spec_allow_match(host) is None,
        e.spec_deny_match(host) is None,
    ensures
        e.spec_allow(host) == (e.default == DefaultMode::Allow),
{
}

} // verus!
