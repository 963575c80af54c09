//! Resolution of filesystem specs and policies by name.
//!
//! A filesystem spec may extend others; resolution walks the `extends`
//! references depth-first with a path stack, merges every parent before
//! the spec itself by list concatenation, and rejects a walk that
//! re-enters a name it is still resolving.

use vstd::prelude::*;

use vstd::string::StringExecFns;

use crate::config::{Config, FilesystemSpec, NetworkPolicy, Policy};
use crate::error::SandboxError;
use crate::omap::{count_absent, lemma_count_absent_strict, seq_get};
use crate::strutil::{clone_string_vec, contains_string, spec_starts_with};

verus! {

/// The flattened lists of a resolved filesystem spec.
pub struct FsLists {
    pub description: Option<Seq<char>>,
    pub ro_home_dirs: Seq<Seq<char>>,
    pub rw_home_dirs: Seq<Seq<char>>,
    pub ro_home_files: Seq<Seq<char>>,
    pub rw_home_files: Seq<Seq<char>>,
    pub essential_etc_files: Seq<Seq<char>>,
    pub essential_etc_dirs: Seq<Seq<char>>,
    pub system_paths: Seq<Seq<char>>,
    pub ro_paths: Seq<Seq<char>>,
    pub rw_paths: Seq<Seq<char>>,
    pub extends: Seq<Seq<char>>,
}

/// Outcome of resolving one name.
pub enum ResolveOutcome {
    /// The flattened spec.
    Resolved(FsLists),
    /// A name that the configuration does not define.
    Missing(Seq<char>),
    /// The walk re-entered this name: an `extends` cycle.
    Cyclic(Seq<char>),
}

/// The lists a filesystem spec holds.
pub open spec fn fs_lists(s: FilesystemSpec) -> FsLists {
    FsLists {
        description: match s.description {
            Some(d) => Some(d@),
            None => None,
        },
        ro_home_dirs: s.ro_home_dirs.deep_view(),
        rw_home_dirs: s.rw_home_dirs.deep_view(),
        ro_home_files: s.ro_home_files.deep_view(),
        rw_home_files: s.rw_home_files.deep_view(),
        essential_etc_files: s.essential_etc_files.deep_view(),
        essential_etc_dirs: s.essential_etc_dirs.deep_view(),
        system_paths: s.system_paths.deep_view(),
        ro_paths: s.ro_paths.deep_view(),
        rw_paths: s.rw_paths.deep_view(),
        extends: s.extends.deep_view(),
    }
}

/// A flattened spec with every list empty.
pub open spec fn fs_lists_empty() -> FsLists {
    FsLists {
        description: None,
        ro_home_dirs: Seq::empty(),
        rw_home_dirs: Seq::empty(),
        ro_home_files: Seq::empty(),
        rw_home_files: Seq::empty(),
        essential_etc_files: Seq::empty(),
        essential_etc_dirs: Seq::empty(),
        system_paths: Seq::empty(),
        ro_paths: Seq::empty(),
        rw_paths: Seq::empty(),
        extends: Seq::empty(),
    }
}

/// Merge two flattened specs: lists concatenate, the override's
/// description wins when present, and `extends` comes out empty.
pub open spec fn fs_merge(base: FsLists, over: FsLists) -> FsLists {
    FsLists {
        description: match over.description {
            Some(d) => Some(d),
            None => base.description,
        },
        ro_home_dirs: base.ro_home_dirs + over.ro_home_dirs,
        rw_home_dirs: base.rw_home_dirs + over.rw_home_dirs,
        ro_home_files: base.ro_home_files + over.ro_home_files,
        rw_home_files: base.rw_home_files + over.rw_home_files,
        essential_etc_files: base.essential_etc_files + over.essential_etc_files,
        essential_etc_dirs: base.essential_etc_dirs + over.essential_etc_dirs,
        system_paths: base.system_paths + over.system_paths,
        ro_paths: base.ro_paths + over.ro_paths,
        rw_paths: base.rw_paths + over.rw_paths,
        extends: Seq::empty(),
    }
}

/// Merging is associative.
proof fn lemma_fs_merge_assoc(a: FsLists, b: FsLists, c: FsLists)
    ensures
        fs_merge(a, fs_merge(b, c)) == fs_merge(fs_merge(a, b), c),
{
    let l = fs_merge(a, fs_merge(b, c));
    let r = fs_merge(fs_merge(a, b), c);
    assert(l.ro_home_dirs =~= r.ro_home_dirs);
    assert(l.rw_home_dirs =~= r.rw_home_dirs);
    assert(l.ro_home_files =~= r.ro_home_files);
    assert(l.rw_home_files =~= r.rw_home_files);
    assert(l.essential_etc_files =~= r.essential_etc_files);
    assert(l.essential_etc_dirs =~= r.essential_etc_dirs);
    assert(l.system_paths =~= r.system_paths);
    assert(l.ro_paths =~= r.ro_paths);
    assert(l.rw_paths =~= r.rw_paths);
}

/// The empty flattened spec is a left and right unit for lists, except
/// that merging clears `extends`.
proof fn lemma_fs_merge_empty(x: FsLists)
    requires
        x.extends == Seq::<Seq<char>>::empty(),
    ensures
        fs_merge(fs_lists_empty(), x) == x,
        fs_merge(x, fs_lists_empty()) == x,
{
    let l = fs_merge(fs_lists_empty(), x);
    assert(l.ro_home_dirs =~= x.ro_home_dirs);
    assert(l.rw_home_dirs =~= x.rw_home_dirs);
    assert(l.ro_home_files =~= x.ro_home_files);
    assert(l.rw_home_files =~= x.rw_home_files);
    assert(l.essential_etc_files =~= x.essential_etc_files);
    assert(l.essential_etc_dirs =~= x.essential_etc_dirs);
    assert(l.system_paths =~= x.system_paths);
    assert(l.ro_paths =~= x.ro_paths);
    assert(l.rw_paths =~= x.rw_paths);
    let r = fs_merge(x, fs_lists_empty());
    assert(r.ro_home_dirs =~= x.ro_home_dirs);
    assert(r.rw_home_dirs =~= x.rw_home_dirs);
    assert(r.ro_home_files =~= x.ro_home_files);
    assert(r.rw_home_files =~= x.rw_home_files);
    assert(r.essential_etc_files =~= x.essential_etc_files);
    assert(r.essential_etc_dirs =~= x.essential_etc_dirs);
    assert(r.system_paths =~= x.system_paths);
    assert(r.ro_paths =~= x.ro_paths);
    assert(r.rw_paths =~= x.rw_paths);
}

/// Resolution of one name: fail when the walk re-enters it or when it
/// is not configured; otherwise resolve every parent it extends, in
/// order, then merge the spec's own lists on top.
pub open spec fn spec_resolve(
    configs: Seq<(Seq<char>, FilesystemSpec)>,
    name: Seq<char>,
    path: Seq<Seq<char>>,
) -> ResolveOutcome
    decreases count_absent(configs, path), 0nat, 0nat,
    via spec_resolve_dec
{
    if path.contains(name) {
        ResolveOutcome::Cyclic(name)
    } else {
        match seq_get(configs, name) {
            None => ResolveOutcome::Missing(name),
            Some(s) => {
                if s.extends@.len() == 0 {
                    ResolveOutcome::Resolved(fs_lists(s))
                } else {
                    match spec_resolve_list(configs, s.extends.deep_view(), path.push(name)) {
                        ResolveOutcome::Resolved(merged) => ResolveOutcome::Resolved(
                            fs_merge(merged, fs_lists(s)),
                        ),
                        other => other,
                    }
                }
            },
        }
    }
}

/// Resolve a list of parent names against one path stack, merging their
/// flattened lists left to right.
pub open spec fn spec_resolve_list(
    configs: Seq<(Seq<char>, FilesystemSpec)>,
    names: Seq<Seq<char>>,
    path: Seq<Seq<char>>,
) -> ResolveOutcome
    decreases count_absent(configs, path), 1nat, names.len(),
    via spec_resolve_list_dec
{
    if names.len() == 0 {
        ResolveOutcome::Resolved(fs_lists_empty())
    } else {
        match spec_resolve(configs, names[0], path) {
            ResolveOutcome::Resolved(first) => {
                match spec_resolve_list(configs, names.skip(1), path) {
                    ResolveOutcome::Resolved(rest) => ResolveOutcome::Resolved(
                        fs_merge(first, rest),
                    ),
                    other => other,
                }
            },
            other => other,
        }
    }
}

#[via_fn]
proof fn spec_resolve_dec(
    configs: Seq<(Seq<char>, FilesystemSpec)>,
    name: Seq<char>,
    path: Seq<Seq<char>>,
) {
    if !path.contains(name) && seq_get(configs, name) is Some {
        lemma_count_absent_strict(configs, path, name);
    }
}

#[via_fn]
proof fn spec_resolve_list_dec(
    configs: Seq<(Seq<char>, FilesystemSpec)>,
    names: Seq<Seq<char>>,
    path: Seq<Seq<char>>,
) {
}

/// Move all strings of `src` to the end of `dst`.
fn append_strings(dst: &mut Vec<String>, src: Vec<String>)
    ensures
        final(dst).deep_view() == old(dst).deep_view() + src.deep_view(),
{
    let ghost src_dv = src.deep_view();
    let mut src = src;
    let total = src.len();
    let mut taken: usize = 0;
    proof {
        assert(src_dv.len() == total);
        assert(src.deep_view() =~= src_dv.subrange(0, src_dv.len() as int));
        assert(dst.deep_view() =~= old(dst).deep_view() + src_dv.subrange(0, 0));
    }
    while src.len() > 0
        invariant
            src_dv.len() == total,
            taken <= src_dv.len(),
            src.deep_view() == src_dv.subrange(taken as int, src_dv.len() as int),
            dst.deep_view() == old(dst).deep_view() + src_dv.subrange(0, taken as int),
        decreases src@.len(),
    {
        let ghost before = dst.deep_view();
        let ghost pre = src.deep_view();
        proof {
            assert(pre.len() == src@.len());
            assert(taken < src_dv.len());
        }
        let s = src.remove(0);
        proof {
            assert(s@ == pre[0]);
            assert(pre[0] == src_dv[taken as int]);
            assert forall|k: int| 0 <= k < src.deep_view().len() implies src.deep_view()[k]
                == src_dv[taken as int + 1 + k] by {
                assert(src.deep_view()[k] == pre[k + 1]);
            }
            assert(src.deep_view() =~= src_dv.subrange(taken as int + 1, src_dv.len() as int));
        }
        dst.push(s);
        proof {
            assert(dst.deep_view() =~= before.push(src_dv[taken as int]));
            assert(dst.deep_view() =~= old(dst).deep_view() + src_dv.subrange(0, taken + 1));
        }
        taken += 1;
    }
    proof {
        assert(src_dv.subrange(0, taken as int) =~= src_dv);
    }
}

/// Merge two filesystem specs: the lists extend rather than replace, so
/// configurations compose from smaller pieces.
pub fn merge_filesystem_specs(base: FilesystemSpec, override_spec: FilesystemSpec) -> (r:
    FilesystemSpec)
    ensures
        fs_lists(r) == fs_merge(fs_lists(base), fs_lists(override_spec)),
{
    let mut base = base;
    append_strings(&mut base.ro_home_dirs, override_spec.ro_home_dirs);
    append_strings(&mut base.rw_home_dirs, override_spec.rw_home_dirs);
    append_strings(&mut base.ro_home_files, override_spec.ro_home_files);
    append_strings(&mut base.rw_home_files, override_spec.rw_home_files);
    append_strings(&mut base.essential_etc_files, override_spec.essential_etc_files);
    append_strings(&mut base.essential_etc_dirs, override_spec.essential_etc_dirs);
    append_strings(&mut base.system_paths, override_spec.system_paths);
    append_strings(&mut base.ro_paths, override_spec.ro_paths);
    append_strings(&mut base.rw_paths, override_spec.rw_paths);
    let description = match override_spec.description {
        Some(d) => Some(d),
        None => base.description,
    };
    let r = FilesystemSpec {
        description,
        ro_home_dirs: base.ro_home_dirs,
        rw_home_dirs: base.rw_home_dirs,
        ro_home_files: base.ro_home_files,
        rw_home_files: base.rw_home_files,
        essential_etc_files: base.essential_etc_files,
        essential_etc_dirs: base.essential_etc_dirs,
        system_paths: base.system_paths,
        ro_paths: base.ro_paths,
        rw_paths: base.rw_paths,
        extends: Vec::new(),
    };
    proof {
        assert(fs_lists(r).extends =~= Seq::<Seq<char>>::empty());
    }
    r
}

/// Copy a filesystem spec, keeping its lists.
fn clone_filesystem_spec(s: &FilesystemSpec) -> (r: FilesystemSpec)
    ensures
        fs_lists(r) == fs_lists(*s),
{
    let description = match &s.description {
        Some(d) => Some(d.clone()),
        None => None,
    };
    FilesystemSpec {
        description,
        ro_home_dirs: clone_string_vec(&s.ro_home_dirs),
        rw_home_dirs: clone_string_vec(&s.rw_home_dirs),
        ro_home_files: clone_string_vec(&s.ro_home_files),
        rw_home_files: clone_string_vec(&s.rw_home_files),
        essential_etc_files: clone_string_vec(&s.essential_etc_files),
        essential_etc_dirs: clone_string_vec(&s.essential_etc_dirs),
        system_paths: clone_string_vec(&s.system_paths),
        ro_paths: clone_string_vec(&s.ro_paths),
        rw_paths: clone_string_vec(&s.rw_paths),
        extends: clone_string_vec(&s.extends),
    }
}

/// Resolve a filesystem spec by name, following `extends` references.
pub fn resolve_filesystem_config(config: &Config, name: &str) -> (r: Result<
    FilesystemSpec,
    SandboxError,
>)
    ensures
        match r {
            Ok(spec) => spec_resolve(config.filesystem.configs@, name@, Seq::empty())
                == ResolveOutcome::Resolved(fs_lists(spec)),
            Err(e) => {
                &&& !(spec_resolve(config.filesystem.configs@, name@, Seq::empty()) is Resolved)
                &&& e matches SandboxError::ConfigError(m)
                &&& (spec_resolve(config.filesystem.configs@, name@, Seq::empty()) is Cyclic
                    ==> spec_starts_with(m@, "Circular reference in filesystem config: "@))
                &&& (spec_resolve(config.filesystem.configs@, name@, Seq::empty()) is Missing
                    ==> spec_starts_with(m@, "Filesystem config not found: "@))
            },
        },
{
    let mut path: Vec<String> = Vec::new();
    proof {
        assert(path.deep_view() =~= Seq::<Seq<char>>::empty());
    }
    resolve_filesystem_recursive(config, name, &mut path)
}

/// One step of the resolution walk.  `path` holds the names being
/// resolved further up the walk.
#[verifier::rlimit(60)]
fn resolve_filesystem_recursive(config: &Config, name: &str, path: &mut Vec<String>) -> (r: Result<
    FilesystemSpec,
    SandboxError,
>)
    ensures
        final(path)@ == old(path)@,
        match r {
            Ok(spec) => spec_resolve(config.filesystem.configs@, name@, old(path).deep_view())
                == ResolveOutcome::Resolved(fs_lists(spec)),
            Err(e) => {
                &&& !(spec_resolve(config.filesystem.configs@, name@, old(path).deep_view())
                    is Resolved)
                &&& e matches SandboxError::ConfigError(m)
                &&& (spec_resolve(config.filesystem.configs@, name@, old(path).deep_view())
                    is Cyclic ==> spec_starts_with(
                    m@,
                    "Circular reference in filesystem config: "@,
                ))
                &&& (spec_resolve(config.filesystem.configs@, name@, old(path).deep_view())
                    is Missing ==> spec_starts_with(m@, "Filesystem config not found: "@))
            },
        },
    decreases count_absent(config.filesystem.configs@, old(path).deep_view()),
{
    let configs = &config.filesystem.configs;
    let ghost old_path_dv = path.deep_view();
    if contains_string(path, name) {
        let mut msg = String::new();
        msg.append("Circular reference in filesystem config: ");
        msg.append(name);
        proof {
            assert(msg@ =~= "Circular reference in filesystem config: "@ + name@);
            assert(msg@.subrange(0, "Circular reference in filesystem config: "@.len() as int)
                =~= "Circular reference in filesystem config: "@);
        }
        return Err(SandboxError::ConfigError(msg));
    }
    let spec = match configs.get(name) {
        None => {
            let mut msg = String::new();
            msg.append("Filesystem config not found: ");
            msg.append(name);
            proof {
                assert(msg@ =~= "Filesystem config not found: "@ + name@);
                assert(msg@.subrange(0, "Filesystem config not found: "@.len() as int)
                    =~= "Filesystem config not found: "@);
            }
            return Err(SandboxError::ConfigError(msg));
        },
        Some(s) => s,
    };
    assert(seq_get(configs@, name@) == Some(*spec));
    if spec.extends.len() == 0 {
        let out = clone_filesystem_spec(spec);
        return Ok(out);
    }
    path.push(name.to_owned());
    proof {
        lemma_count_absent_strict(configs@, old_path_dv, name@);
        assert(path.deep_view() =~= old_path_dv.push(name@));
        assert(path@.subrange(0, old(path)@.len() as int) =~= old(path)@);
    }
    let mut merged = FilesystemSpec::default();
    proof {
        assert(fs_lists(merged).ro_home_dirs =~= Seq::<Seq<char>>::empty());
        assert(fs_lists(merged).rw_home_dirs =~= Seq::<Seq<char>>::empty());
        assert(fs_lists(merged).ro_home_files =~= Seq::<Seq<char>>::empty());
        assert(fs_lists(merged).rw_home_files =~= Seq::<Seq<char>>::empty());
        assert(fs_lists(merged).essential_etc_files =~= Seq::<Seq<char>>::empty());
        assert(fs_lists(merged).essential_etc_dirs =~= Seq::<Seq<char>>::empty());
        assert(fs_lists(merged).system_paths =~= Seq::<Seq<char>>::empty());
        assert(fs_lists(merged).ro_paths =~= Seq::<Seq<char>>::empty());
        assert(fs_lists(merged).rw_paths =~= Seq::<Seq<char>>::empty());
        assert(fs_lists(merged).extends =~= Seq::<Seq<char>>::empty());
        assert(fs_lists(merged) == fs_lists_empty());
    }
    let np = spec.extends.len();
    let mut u: usize = 0;
    proof {
        assert(spec.extends.deep_view().skip(0) =~= spec.extends.deep_view());
        lemma_fs_merge_empty(fs_lists_empty());
    }
    while u < np
        invariant
            np == spec.extends@.len(),
            u <= np,
            configs@ == config.filesystem.configs@,
            seq_get(configs@, name@) == Some(*spec),
            path.deep_view() == old(path).deep_view().push(name@),
            path@.len() == old(path)@.len() + 1,
            path@.subrange(0, old(path)@.len() as int) == old(path)@,
            !old(path).deep_view().contains(name@),
            count_absent(configs@, path.deep_view()) < count_absent(
                configs@,
                old(path).deep_view(),
            ),
            fs_lists(merged).extends == Seq::<Seq<char>>::empty(),
            forall|rest: FsLists|
                spec_resolve_list(
                    configs@,
                    spec.extends.deep_view().skip(u as int),
                    path.deep_view(),
                ) == ResolveOutcome::Resolved(rest) ==> spec_resolve_list(
                    configs@,
                    spec.extends.deep_view(),
                    path.deep_view(),
                ) == ResolveOutcome::Resolved(#[trigger] fs_merge(fs_lists(merged), rest)),
            !(spec_resolve_list(configs@, spec.extends.deep_view().skip(u as int), path.deep_view())
                is Resolved) ==> spec_resolve_list(
                configs@,
                spec.extends.deep_view(),
                path.deep_view(),
            ) == spec_resolve_list(
                configs@,
                spec.extends.deep_view().skip(u as int),
                path.deep_view(),
            ),
        decreases np - u,
    {
        let ghost tail = spec.extends.deep_view().skip(u as int);
        proof {
            assert(tail[0] == spec.extends.deep_view()[u as int]);
            assert(tail.skip(1) =~= spec.extends.deep_view().skip(u + 1));
        }
        let parent = &spec.extends[u];
        let sub = resolve_filesystem_recursive(config, parent.as_str(), path);
        match sub {
            Err(e) => {
                proof {
                    assert(parent@ == tail[0]);
                    assert(!(spec_resolve(configs@, tail[0], path.deep_view()) is Resolved));
                    assert(spec_resolve_list(configs@, tail, path.deep_view()) == spec_resolve(
                        configs@,
                        tail[0],
                        path.deep_view(),
                    ));
                    assert(spec_resolve(configs@, name@, old(path).deep_view())
                        == spec_resolve(configs@, tail[0], path.deep_view()));
                }
                let _popped = path.pop();
                proof {
                    assert(path@ =~= old(path)@);
                }
                return Err(e);
            },
            Ok(parent_spec) => {
                let ghost acc_before = fs_lists(merged);
                let ghost first = fs_lists(parent_spec);
                proof {
                    assert(parent@ == tail[0]);
                    assert(spec_resolve(configs@, tail[0], path.deep_view())
                        == ResolveOutcome::Resolved(first));
                }
                merged = merge_filesystem_specs(merged, parent_spec);
                proof {
                    assert forall|rest: FsLists|
                        spec_resolve_list(
                            configs@,
                            spec.extends.deep_view().skip(u + 1),
                            path.deep_view(),
                        ) == ResolveOutcome::Resolved(rest) implies spec_resolve_list(
                            configs@,
                            spec.extends.deep_view(),
                            path.deep_view(),
                        ) == ResolveOutcome::Resolved(
                        #[trigger] fs_merge(fs_lists(merged), rest),
                    ) by {
                        assert(spec_resolve_list(configs@, tail, path.deep_view())
                            == ResolveOutcome::Resolved(fs_merge(first, rest)));
                        lemma_fs_merge_assoc(acc_before, first, rest);
                        assert(fs_merge(acc_before, fs_merge(first, rest)) == fs_merge(
                            fs_lists(merged),
                            rest,
                        ));
                    }
                }
            },
        }
        u += 1;
    }
    proof {
        assert(spec.extends.deep_view().skip(np as int) =~= Seq::<Seq<char>>::empty());
        lemma_fs_merge_empty(fs_lists(merged));
        assert(spec_resolve_list(configs@, spec.extends.deep_view(), path.deep_view())
            == ResolveOutcome::Resolved(fs_lists(merged)));
    }
    let own = clone_filesystem_spec(spec);
    let out = merge_filesystem_specs(merged, own);
    let _popped = path.pop();
    proof {
        assert(path@ =~= old(path)@);
        assert(path.deep_view() =~= old(path).deep_view());
    }
    Ok(out)
}

/// The spec named `a` extends `b`.
pub open spec fn extends_edge(
    configs: Seq<(Seq<char>, FilesystemSpec)>,
    a: Seq<char>,
    b: Seq<char>,
) -> bool {
    match seq_get(configs, a) {
        Some(spec) => spec.extends.deep_view().contains(b),
        None => false,
    }
}

/// A chain of `extends` references.
pub open spec fn is_extends_path(configs: Seq<(Seq<char>, FilesystemSpec)>, p: Seq<Seq<char>>) -> bool
    decreases p.len(),
{
    p.len() >= 1 && (p.len() == 1 || (extends_edge(configs, p[0], p[1]) && is_extends_path(
        configs,
        p.skip(1),
    )))
}

/// An `extends` cycle: a chain of length at least two that returns to
/// its first name.
pub open spec fn is_extends_cycle(configs: Seq<(Seq<char>, FilesystemSpec)>, p: Seq<Seq<char>>) -> bool {
    is_extends_path(configs, p) && p.len() >= 2 && p[0] == p.last()
}

/// When a list of parents resolves, each of its names resolves.
proof fn lemma_list_resolved(
    configs: Seq<(Seq<char>, FilesystemSpec)>,
    names: Seq<Seq<char>>,
    path: Seq<Seq<char>>,
    i: int,
)
    requires
        spec_resolve_list(configs, names, path) is Resolved,
        0 <= i < names.len(),
    ensures
        spec_resolve(configs, names[i], path) is Resolved,
    decreases names.len(),
{
    if i > 0 {
        lemma_list_resolved(configs, names.skip(1), path, i - 1);
        assert(names.skip(1)[i - 1] == names[i]);
    }
}

/// A name with an `extends` chain leading back into the path stack or
/// to itself does not resolve.
proof fn lemma_reentry_not_resolved(
    configs: Seq<(Seq<char>, FilesystemSpec)>,
    n: Seq<char>,
    path: Seq<Seq<char>>,
    q: Seq<Seq<char>>,
)
    requires
        is_extends_path(configs, q),
        q.len() >= 2,
        q[0] == n,
        path.contains(q.last()) || q.last() == n,
    ensures
        !(spec_resolve(configs, n, path) is Resolved),
    decreases q.len(),
{
    if spec_resolve(configs, n, path) is Resolved {
        assert(!path.contains(n));
        let spec0 = seq_get(configs, n)->Some_0;
        assert(extends_edge(configs, n, q[1]));
        assert(spec0.extends.deep_view().contains(q[1]));
        assert(spec0.extends@.len() > 0);
        let path1 = path.push(n);
        assert(spec_resolve_list(configs, spec0.extends.deep_view(), path1) is Resolved);
        let j = choose|j: int|
            0 <= j < spec0.extends.deep_view().len() && spec0.extends.deep_view()[j] == q[1];
        lemma_list_resolved(configs, spec0.extends.deep_view(), path1, j);
        assert(spec_resolve(configs, q[1], path1) is Resolved);
        if q.len() == 2 {
            assert(q.last() == q[1]);
            assert(path1.contains(q.last())) by {
                if q.last() == n {
                    assert(path1.last() == n);
                } else {
                    let i = choose|i: int| 0 <= i < path.len() && path[i] == q.last();
                    assert(path1[i] == q.last());
                }
            }
            assert(!path1.contains(q[1]));
        } else {
            let q2 = q.skip(1);
            assert(q2[0] == q[1]);
            assert(q2.last() == q.last());
            assert(path1.contains(q.last()) || q.last() == q[1]) by {
                if q.last() == n {
                    assert(path1.last() == n);
                } else if path.contains(q.last()) {
                    let i = choose|i: int| 0 <= i < path.len() && path[i] == q.last();
                    assert(path1[i] == q.last());
                }
            }
            lemma_reentry_not_resolved(configs, q[1], path1, q2);
        }
    }
}

/// Cycle rejection for `extends`: a name that lies on an `extends`
/// cycle never resolves; `resolve_filesystem_config` fails on it.
pub proof fn lemma_extends_cycle_rejected(
    configs: Seq<(Seq<char>, FilesystemSpec)>,
    p: Seq<Seq<char>>,
)
    requires
        is_extends_cycle(configs, p),
    ensures
        !(spec_resolve(configs, p[0], Seq::empty()) is Resolved),
{
    lemma_reentry_not_resolved(configs, p[0], Seq::empty(), p);
}

/// Copy a policy value, keeping all its data.
fn clone_policy(p: &Policy) -> (r: Policy)
    ensures
        r.network.network == p.network.network,
        r.network.default == p.network.default,
        r.network.allow_groups.deep_view() == p.network.allow_groups.deep_view(),
        r.network.deny_groups.deep_view() == p.network.deny_groups.deep_view(),
        r.network.groups.deep_view() == p.network.groups.deep_view(),
        match (r.description, p.description) {
            (Some(a), Some(b)) => a@ == b@,
            (None, None) => true,
            _ => false,
        },
        match (r.filesystem, p.filesystem) {
            (Some(a), Some(b)) => a@ == b@,
            (None, None) => true,
            _ => false,
        },
{
    Policy {
        description: match &p.description {
            Some(d) => Some(d.clone()),
            None => None,
        },
        network: NetworkPolicy {
            network: p.network.network,
            default: p.network.default,
            allow_groups: clone_string_vec(&p.network.allow_groups),
            deny_groups: clone_string_vec(&p.network.deny_groups),
            groups: clone_string_vec(&p.network.groups),
        },
        filesystem: match &p.filesystem {
            Some(f) => Some(f.clone()),
            None => None,
        },
    }
}

/// Resolve a policy by name: a single lookup, handing back a copy of
/// the stored policy.
pub fn resolve_policy(config: &Config, name: &str) -> (r: Result<Policy, SandboxError>)
    ensures
        match r {
            Ok(p) => {
                &&& seq_get(config.policy.policies@, name@) is Some
                &&& {
                    let stored = seq_get(config.policy.policies@, name@)->Some_0;
                    &&& p.network.network == stored.network.network
                    &&& p.network.default == stored.network.default
                    &&& p.network.allow_groups.deep_view()
                        == stored.network.allow_groups.deep_view()
                    &&& p.network.deny_groups.deep_view() == stored.network.deny_groups.deep_view()
                    &&& p.network.groups.deep_view() == stored.network.groups.deep_view()
                    &&& match (p.description, stored.description) {
                        (Some(a), Some(b)) => a@ == b@,
                        (None, None) => true,
                        _ => false,
                    }
                    &&& match (p.filesystem, stored.filesystem) {
                        (Some(a), Some(b)) => a@ == b@,
                        (None, None) => true,
                        _ => false,
                    }
                }
            },
            Err(e) => {
                &&& seq_get(config.policy.policies@, name@) is None
                &&& e matches SandboxError::ConfigError(m)
                &&& spec_starts_with(m@, "Policy not found: "@)
            },
        },
{
    match config.policy.policies.get(name) {
        Some(p) => Ok(clone_policy(p)),
        None => {
            let mut msg = String::new();
            msg.append("Policy not found: ");
            msg.append(name);
            proof {
                assert(msg@ =~= "Policy not found: "@ + name@);
                assert(msg@.subrange(0, "Policy not found: "@.len() as int) =~= "Policy not found: "@);
            }
            Err(SandboxError::ConfigError(msg))
        },
    }
}

} // verus!
