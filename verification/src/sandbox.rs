//! Assembly of the bubblewrap command line.
//!
//! The builder turns a resolved policy, a filesystem spec and the
//! host's answers about which paths exist into the mount list, the
//! environment and finally the full argument vector.  The caller probes
//! the filesystem, creates the `/tmp` export directory and runs the
//! command; everything the arguments contain is computed here.

use vstd::prelude::*;

use vstd::string::StringExecFns;

use crate::config::FilesystemSpec;
use crate::env::{EnvironmentBuilder, spec_env_args};
use crate::error::SandboxError;
use crate::mount::{MountPoint, spec_mount_args};
use crate::strutil::clone_string_vec;

verus! {

/// Tool-specific configuration.
#[derive(Debug, Clone)]
pub struct ToolConfig {
    /// Tool name.
    pub name: String,
    /// Path to the tool's executable.
    pub cli_path: String,
    /// Arguments always passed to the tool.
    pub default_args: Vec<String>,
    /// Arguments from the command line.
    pub cli_args: Vec<String>,
    /// Help text for the tool.
    pub help_text: String,
}

/// Network access mode for the sandbox.
#[derive(Debug, Clone)]
pub enum NetworkMode {
    /// Full network access.
    Enabled,
    /// No network access at all.
    Disabled,
    /// Loopback only; traffic goes through the relay to the filter
    /// daemon's socket.
    Filtered {
        /// Host path of the daemon's socket.
        proxy_socket: String,
        /// Name of the policy in force.
        policy_name: String,
        /// Learning output file, when learning.
        learning_output: Option<String>,
        /// `learn` or `learn_deny`, when learning.
        learning_mode: Option<String>,
    },
}

/// Home directory access mode.
#[derive(Debug, Clone, PartialEq, Eq, Structural)]
pub enum HomeAccessMode {
    /// Only the spec's listed directories and files.
    Safe,
    /// The whole home directory, read-write.
    Full,
}

/// Complete sandbox configuration.
#[derive(Debug, Clone)]
pub struct SandboxConfig {
    pub tool_name: String,
    pub policy_name: String,
    pub tool_config: ToolConfig,
    pub target_dir: String,
    pub network_mode: NetworkMode,
    pub home_access: HomeAccessMode,
    pub additional_ro_paths: Vec<String>,
    pub additional_rw_paths: Vec<String>,
    pub env_vars: Vec<(String, String)>,
    pub pass_through_env: Vec<String>,
    pub verbose: bool,
    pub shell: bool,
    pub bw_relay_path: Option<String>,
}

impl SandboxConfig {
    /// Name of the policy in force.
    pub fn policy_name(&self) -> (r: &str)
        ensures
            r@ == self.policy_name@,
    {
        self.policy_name.as_str()
    }
}

/// What the host says about one path.
#[derive(Debug, Clone)]
pub enum PathProbe {
    /// The path does not exist.
    Missing,
    /// The path exists and is not a symlink.
    Present,
    /// The path is a symlink resolving to the carried real path.
    SymlinkTo(String),
    /// The path is a symlink that could not be resolved.
    Broken,
}

/// A session identifier drawn from the clock.
#[derive(Debug)]
pub struct Uuid;

/// Relies on std::time::SystemTime::now (with duration_since to turn
/// it into a span past the epoch): the clock, as nanoseconds.  The
/// result depends on the clock, so nothing is promised of it.
#[verifier::external_body]
fn now_nanos() -> u128 {
    match std::time::SystemTime::now().duration_since(std::time::SystemTime::UNIX_EPOCH) {
        Ok(d) => d.as_nanos(),
        Err(_) => 0,
    }
}

/// The hexadecimal digits of `n`, lowercase, no leading zeros.
pub open spec fn spec_hex(n: nat) -> Seq<char>
    decreases n,
{
    if n < 16 {
        seq![spec_hex_digit(n)]
    } else {
        spec_hex(n / 16).push(spec_hex_digit(n % 16))
    }
}

/// One hexadecimal digit.
pub open spec fn spec_hex_digit(d: nat) -> char {
    seq!['0', '1', '2', '3', '4', '5', '6', '7', '8', '9', 'a', 'b', 'c', 'd', 'e', 'f'][
        if d < 16 {
            d as int
        } else {
            0
        }
    ]
}

/// One hexadecimal digit, as a character.
fn hex_digit(d: u128) -> (r: char)
    requires
        d < 16,
    ensures
        r == spec_hex_digit(d as nat),
{
    let r: char = match d {
        0 => '0',
        1 => '1',
        2 => '2',
        3 => '3',
        4 => '4',
        5 => '5',
        6 => '6',
        7 => '7',
        8 => '8',
        9 => '9',
        10 => 'a',
        11 => 'b',
        12 => 'c',
        13 => 'd',
        14 => 'e',
        _ => 'f',
    };
    r
}

/// Write `n` in lowercase hexadecimal.
fn hex_string(n: u128) -> (r: String)
    ensures
        r@ == spec_hex(n as nat),
        r@.len() > 0,
    decreases n,
{
    if n < 16 {
        let mut out = String::new();
        crate::strutil::push_char(&mut out, hex_digit(n));
        proof {
            assert(out@ =~= seq![spec_hex_digit(n as nat)]);
        }
        out
    } else {
        let mut out = hex_string(n / 16);
        crate::strutil::push_char(&mut out, hex_digit(n % 16));
        out
    }
}

impl Uuid {
    /// Make a fresh identifier value.
    pub fn new_v4() -> (r: Self) {
        Uuid
    }

    /// The clock's nanoseconds, written in hexadecimal.
    pub fn to_string(&self) -> (r: String)
        ensures
            r@.len() > 0,
    {
        hex_string(now_nanos())
    }
}

/// `base/name`.
pub open spec fn spec_path_join(base: Seq<char>, name: Seq<char>) -> Seq<char> {
    base + "/"@ + name
}

/// Join a directory and a name with a slash.
pub fn path_join(base: &str, name: &str) -> (r: String)
    ensures
        r@ == spec_path_join(base@, name@),
{
    let mut out = String::new();
    out.append(base);
    out.append("/");
    out.append(name);
    proof {
        assert(out@ =~= spec_path_join(base@, name@));
    }
    out
}

/// The first `n` characters of a string, or all of it when shorter.
pub fn take_prefix(s: &str, n: usize) -> (r: String)
    ensures
        r@ == if s@.len() <= n {
            s@
        } else {
            s@.subrange(0, n as int)
        },
{
    let chars = crate::strutil::str_chars(s);
    let len = chars.len();
    let end = if len <= n {
        len
    } else {
        n
    };
    crate::strutil::chars_to_string(&chars, 0, end)
}

/// The views of the arguments each mount contributes.
pub open spec fn mounts_view(ms: Seq<MountPoint>) -> Seq<Seq<Seq<char>>> {
    ms.map(|i: int, m: MountPoint| spec_mount_args(m))
}

/// `--ro-bind-try p p` rows for the paths that exist.
pub open spec fn spec_ro_try_self(paths: Seq<Seq<char>>, exists: Seq<bool>) -> Seq<Seq<Seq<char>>>
    decreases paths.len(),
{
    if paths.len() == 0 || paths.len() != exists.len() {
        Seq::empty()
    } else {
        spec_ro_try_self(paths.drop_last(), exists.drop_last()) + if exists.last() {
            seq![seq!["--ro-bind-try"@, paths.last(), paths.last()]]
        } else {
            Seq::empty()
        }
    }
}

/// `--bind p p` rows for the paths that exist.
pub open spec fn spec_rw_self(paths: Seq<Seq<char>>, exists: Seq<bool>) -> Seq<Seq<Seq<char>>>
    decreases paths.len(),
{
    if paths.len() == 0 || paths.len() != exists.len() {
        Seq::empty()
    } else {
        spec_rw_self(paths.drop_last(), exists.drop_last()) + if exists.last() {
            seq![seq!["--bind"@, paths.last(), paths.last()]]
        } else {
            Seq::empty()
        }
    }
}

/// Paths of the spec's names joined under a base directory.
pub open spec fn spec_joined(base: Seq<char>, names: Seq<Seq<char>>) -> Seq<Seq<char>> {
    names.map(|i: int, n: Seq<char>| spec_path_join(base, n))
}

/// The rows a probed path contributes: the resolved source for a
/// symlink, the path itself otherwise, nothing when missing.
pub open spec fn spec_probe_row(path: Seq<char>, probe: PathProbe) -> Seq<Seq<Seq<char>>> {
    match probe {
        PathProbe::Missing => Seq::empty(),
        PathProbe::Present => seq![seq!["--ro-bind-try"@, path, path]],
        PathProbe::SymlinkTo(rp) => seq![seq!["--ro-bind-try"@, rp@, path]],
        PathProbe::Broken => Seq::empty(),
    }
}

/// Rows for a list of probed paths.
pub open spec fn spec_probe_rows(paths: Seq<Seq<char>>, probes: Seq<PathProbe>) -> Seq<
    Seq<Seq<char>>,
>
    decreases paths.len(),
{
    if paths.len() == 0 || paths.len() != probes.len() {
        Seq::empty()
    } else {
        spec_probe_rows(paths.drop_last(), probes.drop_last()) + spec_probe_row(
            paths.last(),
            probes.last(),
        )
    }
}

/// No probe in the list is a broken symlink.
pub open spec fn probes_ok(probes: Seq<PathProbe>) -> bool {
    forall|i: int| 0 <= i < probes.len() ==> !(#[trigger] probes[i] is Broken)
}

/// Builder for a sandbox.
pub struct SandboxBuilder {
    pub config: SandboxConfig,
    pub mounts: Vec<MountPoint>,
    pub env_builder: EnvironmentBuilder,
    pub tmp_export_dir: Option<String>,
    pub filesystem_spec: FilesystemSpec,
}

impl SandboxBuilder {
    /// The environment map stays well formed.
    pub open spec fn wf(&self) -> bool {
        self.env_builder.wf()
    }

    /// Create a builder.  The caller reports whether the tool binary
    /// exists and whether the target is a directory; a missing tool
    /// (unless a shell was asked for) or target fails.
    pub fn new(
        config: SandboxConfig,
        filesystem_spec: FilesystemSpec,
        cli_exists: bool,
        target_is_dir: bool,
    ) -> (r: Result<Self, SandboxError>)
        ensures
            match r {
                Ok(b) => {
                    &&& (config.shell || cli_exists)
                    &&& target_is_dir
                    &&& b.config == config
                    &&& b.filesystem_spec == filesystem_spec
                    &&& b.mounts@.len() == 0
                    &&& b.env_builder.vars@.len() == 0
                    &&& b.tmp_export_dir is None
                    &&& b.wf()
                },
                Err(e) => {
                    &&& (!config.shell && !cli_exists) || !target_is_dir
                    &&& (e is CliNotFound <==> (!config.shell && !cli_exists))
                    &&& (e is DirNotFound <==> ((config.shell || cli_exists) && !target_is_dir))
                },
            },
    {
        if !config.shell && !cli_exists {
            return Err(SandboxError::CliNotFound(config.tool_config.cli_path));
        }
        if !target_is_dir {
            return Err(SandboxError::DirNotFound(config.target_dir));
        }
        Ok(
            SandboxBuilder {
                config,
                mounts: Vec::new(),
                env_builder: EnvironmentBuilder::new(),
                tmp_export_dir: None,
                filesystem_spec,
            },
        )
    }

    /// The host-side directory to export as the sandbox's `/tmp`:
    /// `/tmp/bw-<tool>-<id>` with the first eight characters of the
    /// session identifier.
    pub fn tmp_export_dir_name(&self, session_id: &str) -> (r: String)
        ensures
            r@ == "/tmp/bw-"@ + self.config.tool_name@ + "-"@ + (if session_id@.len() <= 8 {
                session_id@
            } else {
                session_id@.subrange(0, 8)
            }),
    {
        let id8 = take_prefix(session_id, 8);
        let mut out = String::new();
        out.append("/tmp/bw-");
        out.append(self.config.tool_name.as_str());
        out.append("-");
        out.append(id8.as_str());
        proof {
            assert(out@ =~= "/tmp/bw-"@ + self.config.tool_name@ + "-"@ + id8@);
        }
        out
    }

    /// Record the created `/tmp` export directory and mount it as the
    /// sandbox's `/tmp`.
    pub fn set_tmp_export_dir(&mut self, dir: String)
        ensures
            final(self).tmp_export_dir matches Some(d) && d@ == dir@,
            mounts_view(final(self).mounts@) == mounts_view(old(self).mounts@) + seq![
                seq!["--bind"@, dir@, "/tmp"@],
            ],
            final(self).config == old(self).config,
            final(self).filesystem_spec == old(self).filesystem_spec,
            final(self).env_builder == old(self).env_builder,
    {
        let m = MountPoint::rw(dir.as_str(), "/tmp");
        self.mounts.push(m);
        self.tmp_export_dir = Some(dir);
        proof {
            assert(mounts_view(self.mounts@) =~~= mounts_view(old(self).mounts@) + seq![
                seq!["--bind"@, self.tmp_export_dir->Some_0@, "/tmp"@],
            ]);
        }
    }

    /// Mount one probed path read-only, resolving a symlink to its
    /// real path.  A symlink that would not resolve fails.
    pub fn mount_with_symlink_resolution(&mut self, path: &str, probe: &PathProbe) -> (r: Result<
        (),
        SandboxError,
    >)
        ensures
            match r {
                Ok(()) => {
                    &&& !(probe is Broken)
                    &&& mounts_view(final(self).mounts@) == mounts_view(old(self).mounts@)
                        + spec_probe_row(path@, *probe)
                    &&& final(self).config == old(self).config
                    &&& final(self).filesystem_spec == old(self).filesystem_spec
                    &&& final(self).env_builder == old(self).env_builder
                    &&& final(self).tmp_export_dir == old(self).tmp_export_dir
                },
                Err(e) => probe is Broken && e is SymlinkResolution,
            },
    {
        match probe {
            PathProbe::Missing => {
                proof {
                    assert(mounts_view(self.mounts@) =~~= mounts_view(old(self).mounts@)
                        + spec_probe_row(path@, *probe));
                }
                Ok(())
            },
            PathProbe::Present => {
                self.mounts.push(MountPoint::ro_try(path, path));
                proof {
                    assert(mounts_view(self.mounts@) =~~= mounts_view(old(self).mounts@)
                        + spec_probe_row(path@, *probe));
                }
                Ok(())
            },
            PathProbe::SymlinkTo(rp) => {
                self.mounts.push(MountPoint::ro_try(rp.as_str(), path));
                proof {
                    assert(mounts_view(self.mounts@) =~~= mounts_view(old(self).mounts@)
                        + spec_probe_row(path@, *probe));
                }
                Ok(())
            },
            PathProbe::Broken => Err(SandboxError::SymlinkResolution(path.to_owned())),
        }
    }

    /// Mount an empty `/etc`, the essential files and directories the
    /// filesystem spec lists (as probed by the caller, symlinks
    /// resolved), then remount `/etc` read-only.
    pub fn mount_minimal_etc(
        &mut self,
        file_probes: &Vec<PathProbe>,
        dir_probes: &Vec<PathProbe>,
    ) -> (r: Result<(), SandboxError>)
        requires
            file_probes@.len() == old(self).filesystem_spec.essential_etc_files@.len(),
            dir_probes@.len() == old(self).filesystem_spec.essential_etc_dirs@.len(),
        ensures
            match r {
                Ok(()) => {
                    &&& mounts_view(final(self).mounts@) == mounts_view(old(self).mounts@) + seq![
                        seq!["--tmpfs"@, "/etc"@],
                    ] + spec_probe_rows(
                        spec_joined(
                            "/etc"@,
                            old(self).filesystem_spec.essential_etc_files.deep_view(),
                        ),
                        file_probes@,
                    ) + spec_probe_rows(
                        spec_joined(
                            "/etc"@,
                            old(self).filesystem_spec.essential_etc_dirs.deep_view(),
                        ),
                        dir_probes@,
                    ) + seq![seq!["--remount-ro"@, "/etc"@]]
                    &&& final(self).config == old(self).config
                    &&& final(self).filesystem_spec == old(self).filesystem_spec
                    &&& final(self).env_builder == old(self).env_builder
                    &&& final(self).tmp_export_dir == old(self).tmp_export_dir
                },
                Err(e) => e is SymlinkResolution && !(probes_ok(file_probes@) && probes_ok(
                    dir_probes@,
                )),
            },
    {
        self.mounts.push(MountPoint::tmpfs("/etc"));
        let ghost after_tmpfs = mounts_view(self.mounts@);
        proof {
            assert(after_tmpfs =~~= mounts_view(old(self).mounts@) + seq![
                seq!["--tmpfs"@, "/etc"@],
            ]);
        }
        let r = self.mount_probed_list("/etc", true, file_probes);
        if r.is_err() {
            return r;
        }
        let ghost after_files = mounts_view(self.mounts@);
        let r = self.mount_probed_list("/etc", false, dir_probes);
        if r.is_err() {
            return r;
        }
        self.mounts.push(MountPoint::remount_ro("/etc"));
        proof {
            assert(mounts_view(self.mounts@) =~~= mounts_view(old(self).mounts@) + seq![
                seq!["--tmpfs"@, "/etc"@],
            ] + spec_probe_rows(
                spec_joined("/etc"@, old(self).filesystem_spec.essential_etc_files.deep_view()),
                file_probes@,
            ) + spec_probe_rows(
                spec_joined("/etc"@, old(self).filesystem_spec.essential_etc_dirs.deep_view()),
                dir_probes@,
            ) + seq![seq!["--remount-ro"@, "/etc"@]]);
        }
        Ok(())
    }

    /// Mount each spec-listed `/etc` entry, following its probe.
    fn mount_probed_list(&mut self, base: &str, files: bool, probes: &Vec<PathProbe>) -> (r: Result<
        (),
        SandboxError,
    >)
        requires
            files ==> probes@.len() == old(self).filesystem_spec.essential_etc_files@.len(),
            !files ==> probes@.len() == old(self).filesystem_spec.essential_etc_dirs@.len(),
        ensures
            ({
                let names = if files {
                    old(self).filesystem_spec.essential_etc_files.deep_view()
                } else {
                    old(self).filesystem_spec.essential_etc_dirs.deep_view()
                };
                match r {
                    Ok(()) => {
                        &&& mounts_view(final(self).mounts@) == mounts_view(old(self).mounts@)
                            + spec_probe_rows(spec_joined(base@, names), probes@)
                        &&& final(self).config == old(self).config
                        &&& final(self).filesystem_spec == old(self).filesystem_spec
                        &&& final(self).env_builder == old(self).env_builder
                        &&& final(self).tmp_export_dir == old(self).tmp_export_dir
                    },
                    Err(e) => e is SymlinkResolution && !probes_ok(probes@),
                }
            }),
    {
        let ghost names = if files {
            self.filesystem_spec.essential_etc_files.deep_view()
        } else {
            self.filesystem_spec.essential_etc_dirs.deep_view()
        };
        let n = probes.len();
        let mut i: usize = 0;
        proof {
            assert(spec_probe_rows(spec_joined(base@, names).subrange(0, 0), probes@.subrange(0, 0))
                =~= Seq::<Seq<Seq<char>>>::empty());
        }
        while i < n
            invariant
                n == probes@.len(),
                i <= n,
                names == if files {
                    self.filesystem_spec.essential_etc_files.deep_view()
                } else {
                    self.filesystem_spec.essential_etc_dirs.deep_view()
                },
                names.len() == n,
                self.config == old(self).config,
                self.filesystem_spec == old(self).filesystem_spec,
                self.env_builder == old(self).env_builder,
                self.tmp_export_dir == old(self).tmp_export_dir,
                mounts_view(self.mounts@) == mounts_view(old(self).mounts@) + spec_probe_rows(
                    spec_joined(base@, names).subrange(0, i as int),
                    probes@.subrange(0, i as int),
                ),
            decreases n - i,
        {
            let name = if files {
                &self.filesystem_spec.essential_etc_files[i]
            } else {
                &self.filesystem_spec.essential_etc_dirs[i]
            };
            let full = path_join(base, name.as_str());
            let probe = probes[i].clone_probe();
            let ghost before = mounts_view(self.mounts@);
            let r = self.mount_with_symlink_resolution(full.as_str(), &probe);
            if r.is_err() {
                proof {
                    assert(probes@[i as int] is Broken);
                }
                return r;
            }
            proof {
                let jp = spec_joined(base@, names).subrange(0, i + 1);
                let pp = probes@.subrange(0, i + 1);
                assert(jp.drop_last() =~= spec_joined(base@, names).subrange(0, i as int));
                assert(pp.drop_last() =~= probes@.subrange(0, i as int));
                assert(jp.last() == spec_path_join(base@, names[i as int]));
                assert(pp.last() == probes@[i as int]);
                assert(full@ == spec_path_join(base@, names[i as int]));
                assert(spec_probe_row(full@, probe) == spec_probe_row(jp.last(), pp.last()));
                assert(mounts_view(self.mounts@) =~~= mounts_view(old(self).mounts@)
                    + spec_probe_rows(jp, pp));
            }
            i += 1;
        }
        proof {
            assert(spec_joined(base@, names).subrange(0, n as int) =~= spec_joined(base@, names));
            assert(probes@.subrange(0, n as int) =~= probes@);
        }
        Ok(())
    }

    /// Mount the spec's read-only home directories that exist.
    pub fn mount_ro_home_dirs(&mut self, home: &str, exists: &Vec<bool>)
        requires
            exists@.len() == old(self).filesystem_spec.ro_home_dirs@.len(),
        ensures
            mounts_view(final(self).mounts@) == mounts_view(old(self).mounts@) + spec_ro_try_self(
                spec_joined(home@, old(self).filesystem_spec.ro_home_dirs.deep_view()),
                exists@,
            ),
            final(self).config == old(self).config,
            final(self).filesystem_spec == old(self).filesystem_spec,
            final(self).env_builder == old(self).env_builder,
            final(self).tmp_export_dir == old(self).tmp_export_dir,
    {
        let names = clone_string_vec(&self.filesystem_spec.ro_home_dirs);
        self.mount_joined_list(home, &names, exists, true);
    }

    /// Mount the spec's read-write home directories that exist.
    pub fn mount_rw_home_dirs(&mut self, home: &str, exists: &Vec<bool>)
        requires
            exists@.len() == old(self).filesystem_spec.rw_home_dirs@.len(),
        ensures
            mounts_view(final(self).mounts@) == mounts_view(old(self).mounts@) + spec_rw_self(
                spec_joined(home@, old(self).filesystem_spec.rw_home_dirs.deep_view()),
                exists@,
            ),
            final(self).config == old(self).config,
            final(self).filesystem_spec == old(self).filesystem_spec,
            final(self).env_builder == old(self).env_builder,
            final(self).tmp_export_dir == old(self).tmp_export_dir,
    {
        let names = clone_string_vec(&self.filesystem_spec.rw_home_dirs);
        self.mount_joined_list(home, &names, exists, false);
    }

    /// Mount the spec's home files that exist: the read-only list, then
    /// the read-write list.
    pub fn mount_home_files(&mut self, home: &str, ro_exists: &Vec<bool>, rw_exists: &Vec<bool>)
        requires
            ro_exists@.len() == old(self).filesystem_spec.ro_home_files@.len(),
            rw_exists@.len() == old(self).filesystem_spec.rw_home_files@.len(),
        ensures
            mounts_view(final(self).mounts@) == mounts_view(old(self).mounts@) + spec_ro_try_self(
                spec_joined(home@, old(self).filesystem_spec.ro_home_files.deep_view()),
                ro_exists@,
            ) + spec_rw_self(
                spec_joined(home@, old(self).filesystem_spec.rw_home_files.deep_view()),
                rw_exists@,
            ),
            final(self).config == old(self).config,
            final(self).filesystem_spec == old(self).filesystem_spec,
            final(self).env_builder == old(self).env_builder,
            final(self).tmp_export_dir == old(self).tmp_export_dir,
    {
        let ro_names = clone_string_vec(&self.filesystem_spec.ro_home_files);
        self.mount_joined_list(home, &ro_names, ro_exists, true);
        let rw_names = clone_string_vec(&self.filesystem_spec.rw_home_files);
        self.mount_joined_list(home, &rw_names, rw_exists, false);
    }

    /// Mount the spec's absolute `ro_paths` and `rw_paths` that exist.
    pub fn mount_config_paths(&mut self, ro_exists: &Vec<bool>, rw_exists: &Vec<bool>)
        requires
            ro_exists@.len() == old(self).filesystem_spec.ro_paths@.len(),
            rw_exists@.len() == old(self).filesystem_spec.rw_paths@.len(),
        ensures
            mounts_view(final(self).mounts@) == mounts_view(old(self).mounts@) + spec_ro_try_self(
                old(self).filesystem_spec.ro_paths.deep_view(),
                ro_exists@,
            ) + spec_rw_self(old(self).filesystem_spec.rw_paths.deep_view(), rw_exists@),
            final(self).config == old(self).config,
            final(self).filesystem_spec == old(self).filesystem_spec,
            final(self).env_builder == old(self).env_builder,
            final(self).tmp_export_dir == old(self).tmp_export_dir,
    {
        let ro_names = clone_string_vec(&self.filesystem_spec.ro_paths);
        self.mount_plain_list(&ro_names, ro_exists, true);
        let rw_names = clone_string_vec(&self.filesystem_spec.rw_paths);
        self.mount_plain_list(&rw_names, rw_exists, false);
    }

    /// Mount `base/<name>` for every listed name that exists.
    fn mount_joined_list(&mut self, base: &str, names: &Vec<String>, exists: &Vec<bool>, ro: bool)
        requires
            exists@.len() == names@.len(),
        ensures
            mounts_view(final(self).mounts@) == mounts_view(old(self).mounts@) + if ro {
                spec_ro_try_self(spec_joined(base@, names.deep_view()), exists@)
            } else {
                spec_rw_self(spec_joined(base@, names.deep_view()), exists@)
            },
            final(self).config == old(self).config,
            final(self).filesystem_spec == old(self).filesystem_spec,
            final(self).env_builder == old(self).env_builder,
            final(self).tmp_export_dir == old(self).tmp_export_dir,
    {
        let n = names.len();
        let mut i: usize = 0;
        proof {
            assert(mounts_view(self.mounts@) =~~= mounts_view(self.mounts@)
                + Seq::<Seq<Seq<char>>>::empty());
        }
        while i < n
            invariant
                n == names@.len(),
                exists@.len() == n,
                i <= n,
                self.config == old(self).config,
                self.filesystem_spec == old(self).filesystem_spec,
                self.env_builder == old(self).env_builder,
                self.tmp_export_dir == old(self).tmp_export_dir,
                mounts_view(self.mounts@) == mounts_view(old(self).mounts@) + if ro {
                    spec_ro_try_self(
                        spec_joined(base@, names.deep_view()).subrange(0, i as int),
                        exists@.subrange(0, i as int),
                    )
                } else {
                    spec_rw_self(
                        spec_joined(base@, names.deep_view()).subrange(0, i as int),
                        exists@.subrange(0, i as int),
                    )
                },
            decreases n - i,
        {
            let full = path_join(base, names[i].as_str());
            let ghost pre_mv = mounts_view(self.mounts@);
            if exists[i] {
                if ro {
                    self.mounts.push(MountPoint::ro_try(full.as_str(), full.as_str()));
                    proof {
                        assert(mounts_view(self.mounts@) =~~= pre_mv.push(
                            seq!["--ro-bind-try"@, full@, full@],
                        ));
                    }
                } else {
                    self.mounts.push(MountPoint::rw(full.as_str(), full.as_str()));
                    proof {
                        assert(mounts_view(self.mounts@) =~~= pre_mv.push(
                            seq!["--bind"@, full@, full@],
                        ));
                    }
                }
            }
            proof {
                let jp = spec_joined(base@, names.deep_view()).subrange(0, i + 1);
                let ex = exists@.subrange(0, i + 1);
                assert(jp.drop_last() =~= spec_joined(base@, names.deep_view()).subrange(
                    0,
                    i as int,
                ));
                assert(ex.drop_last() =~= exists@.subrange(0, i as int));
                assert(jp.last() == spec_path_join(base@, names.deep_view()[i as int]));
                assert(ex.last() == exists@[i as int]);
                assert(full@ == jp.last());
                if ro {
                    assert(mounts_view(self.mounts@) =~~= mounts_view(old(self).mounts@)
                        + spec_ro_try_self(jp, ex));
                } else {
                    assert(mounts_view(self.mounts@) =~~= mounts_view(old(self).mounts@)
                        + spec_rw_self(jp, ex));
                }
            }
            i += 1;
        }
        proof {
            assert(spec_joined(base@, names.deep_view()).subrange(0, n as int) =~= spec_joined(
                base@,
                names.deep_view(),
            ));
            assert(exists@.subrange(0, n as int) =~= exists@);
        }
    }

    /// Mount every listed absolute path over itself, when it exists.
    fn mount_plain_list(&mut self, names: &Vec<String>, exists: &Vec<bool>, ro: bool)
        requires
            exists@.len() == names@.len(),
        ensures
            mounts_view(final(self).mounts@) == mounts_view(old(self).mounts@) + if ro {
                spec_ro_try_self(names.deep_view(), exists@)
            } else {
                spec_rw_self(names.deep_view(), exists@)
            },
            final(self).config == old(self).config,
            final(self).filesystem_spec == old(self).filesystem_spec,
            final(self).env_builder == old(self).env_builder,
            final(self).tmp_export_dir == old(self).tmp_export_dir,
    {
        let n = names.len();
        let mut i: usize = 0;
        proof {
            assert(mounts_view(self.mounts@) =~~= mounts_view(self.mounts@)
                + Seq::<Seq<Seq<char>>>::empty());
        }
        while i < n
            invariant
                n == names@.len(),
                exists@.len() == n,
                i <= n,
                self.config == old(self).config,
                self.filesystem_spec == old(self).filesystem_spec,
                self.env_builder == old(self).env_builder,
                self.tmp_export_dir == old(self).tmp_export_dir,
                mounts_view(self.mounts@) == mounts_view(old(self).mounts@) + if ro {
                    spec_ro_try_self(
                        names.deep_view().subrange(0, i as int),
                        exists@.subrange(0, i as int),
                    )
                } else {
                    spec_rw_self(
                        names.deep_view().subrange(0, i as int),
                        exists@.subrange(0, i as int),
                    )
                },
            decreases n - i,
        {
            let p = &names[i];
            let ghost pre_mv = mounts_view(self.mounts@);
            if exists[i] {
                if ro {
                    self.mounts.push(MountPoint::ro_try(p.as_str(), p.as_str()));
                    proof {
                        assert(mounts_view(self.mounts@) =~~= pre_mv.push(
                            seq!["--ro-bind-try"@, p@, p@],
                        ));
                    }
                } else {
                    self.mounts.push(MountPoint::rw(p.as_str(), p.as_str()));
                    proof {
                        assert(mounts_view(self.mounts@) =~= pre_mv.push(seq!["--bind"@, p@, p@]));
                    }
                }
            }
            proof {
                let jp = names.deep_view().subrange(0, i + 1);
                let ex = exists@.subrange(0, i + 1);
                assert(jp.drop_last() =~= names.deep_view().subrange(0, i as int));
                assert(ex.drop_last() =~= exists@.subrange(0, i as int));
                assert(jp.last() == names.deep_view()[i as int]);
                assert(ex.last() == exists@[i as int]);
                if ro {
                    assert(mounts_view(self.mounts@) =~~= mounts_view(old(self).mounts@)
                        + spec_ro_try_self(jp, ex));
                } else {
                    assert(mounts_view(self.mounts@) =~~= mounts_view(old(self).mounts@)
                        + spec_rw_self(jp, ex));
                }
            }
            i += 1;
        }
        proof {
            assert(names.deep_view().subrange(0, n as int) =~= names.deep_view());
            assert(exists@.subrange(0, n as int) =~= exists@);
        }
    }

    /// Push one ready-made mount.
    pub fn push_mount(&mut self, m: MountPoint)
        ensures
            mounts_view(final(self).mounts@) == mounts_view(old(self).mounts@) + seq![
                spec_mount_args(m),
            ],
            final(self).config == old(self).config,
            final(self).filesystem_spec == old(self).filesystem_spec,
            final(self).env_builder == old(self).env_builder,
            final(self).tmp_export_dir == old(self).tmp_export_dir,
    {
        let ghost mm = m;
        self.mounts.push(m);
        proof {
            assert(mounts_view(self.mounts@) =~~= mounts_view(old(self).mounts@) + seq![
                spec_mount_args(mm),
            ]);
        }
    }

    /// Set up the environment: `HOME`, `PWD`, `USER`, `PATH` and
    /// `TERM` from the arguments (with `PWD` the target directory),
    /// then the configured variables in order, then the pass-through
    /// values the caller read from its own environment; later
    /// assignments to a key win, and every other variable is untouched.
    pub fn setup_environment(
        &mut self,
        home: &str,
        user: &str,
        path_env: &str,
        term_env: &str,
        pass_values: Vec<(String, Option<String>)>,
    )
        requires
            old(self).wf(),
        ensures
            final(self).wf(),
            final(self).config == old(self).config,
            final(self).filesystem_spec == old(self).filesystem_spec,
            final(self).mounts == old(self).mounts,
            final(self).tmp_export_dir == old(self).tmp_export_dir,
            forall|k: Seq<char>|
                #![trigger final(self).env_builder.spec_get(k)]
                match crate::env::last_present(crate::env::opt_pairs_view(pass_values@), k) {
                    Some(v) => final(self).env_builder.spec_get(k) matches Some(s) && s@ == v,
                    None => match crate::env::last_value(
                        crate::env::pairs_view(old(self).config.env_vars@),
                        k,
                    ) {
                        Some(v) => final(self).env_builder.spec_get(k) matches Some(s) && s@ == v,
                        None => {
                            if k == "HOME"@ {
                                final(self).env_builder.spec_get(k) matches Some(s) && s@ == home@
                            } else if k == "PWD"@ {
                                final(self).env_builder.spec_get(k) matches Some(s) && s@ == old(
                                    self,
                                ).config.target_dir@
                            } else if k == "USER"@ {
                                final(self).env_builder.spec_get(k) matches Some(s) && s@ == user@
                            } else if k == "PATH"@ {
                                final(self).env_builder.spec_get(k) matches Some(s) && s@
                                    == path_env@
                            } else if k == "TERM"@ {
                                final(self).env_builder.spec_get(k) matches Some(s) && s@
                                    == term_env@
                            } else {
                                final(self).env_builder.spec_get(k) == old(
                                    self,
                                ).env_builder.spec_get(k)
                            }
                        },
                    },
                },
    {
        proof {
            vstd::prelude::reveal_strlit("HOME");
            vstd::prelude::reveal_strlit("PWD");
            vstd::prelude::reveal_strlit("USER");
            vstd::prelude::reveal_strlit("PATH");
            vstd::prelude::reveal_strlit("TERM");
            assert("HOME"@.len() == 4 && "PWD"@.len() == 3 && "USER"@.len() == 4 && "PATH"@.len()
                == 4 && "TERM"@.len() == 4);
            assert("HOME"@[0] == 'H' && "USER"@[0] == 'U' && "PATH"@[0] == 'P' && "TERM"@[0]
                == 'T');
        }
        self.env_builder.set("HOME", home);
        let target = self.config.target_dir.clone();
        self.env_builder.set("PWD", target.as_str());
        self.env_builder.set("USER", user);
        self.env_builder.set("PATH", path_env);
        self.env_builder.set("TERM", term_env);
        let ghost b5 = self.env_builder;
        let vars = clone_string_pairs(&self.config.env_vars);
        proof {
            assert(crate::env::pairs_view(vars@) == crate::env::pairs_view(
                old(self).config.env_vars@,
            ));
        }
        self.env_builder.set_many(vars);
        let ghost b6 = self.env_builder;
        self.env_builder.pass_through_many(pass_values);
        proof {
            assert forall|k: Seq<char>|
                match crate::env::last_present(crate::env::opt_pairs_view(pass_values@), k) {
                    Some(v) => #[trigger] self.env_builder.spec_get(k) matches Some(s) && s@ == v,
                    None => match crate::env::last_value(
                        crate::env::pairs_view(old(self).config.env_vars@),
                        k,
                    ) {
                        Some(v) => self.env_builder.spec_get(k) matches Some(s) && s@ == v,
                        None => {
                            if k == "HOME"@ {
                                self.env_builder.spec_get(k) matches Some(s) && s@ == home@
                            } else if k == "PWD"@ {
                                self.env_builder.spec_get(k) matches Some(s) && s@ == old(
                                    self,
                                ).config.target_dir@
                            } else if k == "USER"@ {
                                self.env_builder.spec_get(k) matches Some(s) && s@ == user@
                            } else if k == "PATH"@ {
                                self.env_builder.spec_get(k) matches Some(s) && s@ == path_env@
                            } else if k == "TERM"@ {
                                self.env_builder.spec_get(k) matches Some(s) && s@ == term_env@
                            } else {
                                self.env_builder.spec_get(k) == old(self).env_builder.spec_get(k)
                            }
                        },
                    },
                } by {
                assert(b6.spec_get(k) == match crate::env::last_value(
                    crate::env::pairs_view(old(self).config.env_vars@),
                    k,
                ) {
                    Some(_) => b6.spec_get(k),
                    None => b5.spec_get(k),
                });
            }
        }
    }

    /// The full bubblewrap argument vector: namespace flags, the
    /// network flag, every mount, the working directory, a cleared
    /// environment with the configured variables, and the final
    /// command — the relay wrapping the tool (or a shell) when
    /// filtering, the tool or shell alone otherwise.
    pub fn build_command(&self) -> (r: Vec<String>)
        ensures
            r.deep_view() == spec_command(*self),
    {
        let mut args: Vec<String> = Vec::new();
        args.push("--die-with-parent".to_owned());
        args.push("--unshare-pid".to_owned());
        args.push("--unshare-ipc".to_owned());
        match &self.config.network_mode {
            NetworkMode::Enabled => {
                args.push("--share-net".to_owned());
            },
            NetworkMode::Disabled => {
                args.push("--unshare-net".to_owned());
            },
            NetworkMode::Filtered { .. } => {
                args.push("--unshare-net".to_owned());
            },
        }
        proof {
            assert(args.deep_view() =~= spec_base_flags(self.config.network_mode));
        }
        let n = self.mounts.len();
        let mut i: usize = 0;
        while i < n
            invariant
                n == self.mounts@.len(),
                i <= n,
                args.deep_view() == spec_base_flags(self.config.network_mode) + spec_flatten(
                    mounts_view(self.mounts@).subrange(0, i as int),
                ),
            decreases n - i,
        {
            let margs = self.mounts[i].to_args();
            let ghost before = args.deep_view();
            let ghost madd = margs.deep_view();
            append_all(&mut args, margs);
            proof {
                let mv = mounts_view(self.mounts@);
                let cur = mv.subrange(0, i + 1);
                assert(cur.drop_last() =~= mv.subrange(0, i as int));
                assert(cur.last() == mv[i as int]);
                assert(madd == mv[i as int]);
                assert(args.deep_view() =~= spec_base_flags(self.config.network_mode)
                    + spec_flatten(cur));
            }
            i += 1;
        }
        proof {
            assert(mounts_view(self.mounts@).subrange(0, n as int) =~= mounts_view(self.mounts@));
        }
        args.push("--chdir".to_owned());
        args.push(self.config.target_dir.clone());
        args.push("--clearenv".to_owned());
        proof {
            assert(args.deep_view() =~= spec_base_flags(self.config.network_mode) + spec_flatten(
                mounts_view(self.mounts@),
            ) + seq!["--chdir"@, self.config.target_dir@, "--clearenv"@]);
        }
        let ghost before_env = args.deep_view();
        let env_args = self.env_builder.to_args();
        append_all(&mut args, env_args);
        let ghost before_cmd = args.deep_view();
        proof {
            assert(before_cmd == before_env + spec_env_args(self.env_builder.vars@));
        }
        // the final command
        let ghost relay_prefix: Seq<Seq<char>> = match self.config.network_mode {
            NetworkMode::Filtered { .. } => seq!["/bw-relay"@, "--socket"@, "/proxy.sock"@, "--"@],
            _ => Seq::empty(),
        };
        match &self.config.network_mode {
            NetworkMode::Filtered { .. } => {
                args.push("/bw-relay".to_owned());
                args.push("--socket".to_owned());
                args.push("/proxy.sock".to_owned());
                args.push("--".to_owned());
            },
            _ => {},
        }
        proof {
            assert(args.deep_view() =~= before_cmd + relay_prefix);
        }
        let ghost prog_part: Seq<Seq<char>> = if self.config.shell {
            seq!["/bin/sh"@, "-i"@]
        } else {
            seq![self.config.tool_config.cli_path@]
                + self.config.tool_config.default_args.deep_view()
        };
        if self.config.shell {
            args.push("/bin/sh".to_owned());
            args.push("-i".to_owned());
        } else {
            args.push(self.config.tool_config.cli_path.clone());
            let defaults = clone_string_vec(&self.config.tool_config.default_args);
            append_all(&mut args, defaults);
        }
        proof {
            assert(args.deep_view() =~= before_cmd + relay_prefix + prog_part);
        }
        let cli = clone_string_vec(&self.config.tool_config.cli_args);
        append_all(&mut args, cli);
        proof {
            assert(args.deep_view() =~= before_cmd + relay_prefix + prog_part
                + self.config.tool_config.cli_args.deep_view());
            assert(relay_prefix + prog_part + self.config.tool_config.cli_args.deep_view()
                =~= spec_command_tail(*self));
            assert(args.deep_view() =~= spec_command(*self));
        }
        args
    }
}


/// Everything the host reports for assembling the mount list.
#[derive(Debug, Clone)]
pub struct HostProbes {
    /// The home directory.
    pub home: String,
    /// Probes for the spec's essential `/etc` files.
    pub etc_file_probes: Vec<PathProbe>,
    /// Probes for the spec's essential `/etc` directories.
    pub etc_dir_probes: Vec<PathProbe>,
    /// Which of the spec's read-only home directories exist.
    pub ro_home_dirs_exist: Vec<bool>,
    /// Which of the spec's read-write home directories exist.
    pub rw_home_dirs_exist: Vec<bool>,
    /// Which of the spec's read-only home files exist.
    pub ro_home_files_exist: Vec<bool>,
    /// Which of the spec's read-write home files exist.
    pub rw_home_files_exist: Vec<bool>,
    /// Which of the spec's absolute read-only paths exist.
    pub ro_paths_exist: Vec<bool>,
    /// Which of the spec's absolute read-write paths exist.
    pub rw_paths_exist: Vec<bool>,
    /// Whether `/usr`, `/lib` and `/lib64` exist.
    pub usr_exists: bool,
    pub lib_exists: bool,
    pub lib64_exists: bool,
    /// Where the relay binary was found, when it was.
    pub relay_path: Option<String>,
    /// The extra read-only mounts, resolved, with their existence.
    pub additional_ro: Vec<(String, bool)>,
    /// The extra read-write mounts, resolved, with their existence.
    pub additional_rw: Vec<(String, bool)>,
}

/// Resolve one extra mount path: absolute paths stand, relative ones
/// resolve against the target directory.
pub fn resolve_extra_path(target_dir: &str, path: &str) -> (r: String)
    ensures
        r@ == if path@.len() > 0 && path@[0] == '/' {
            path@
        } else {
            spec_path_join(target_dir@, path@)
        },
{
    let chars = crate::strutil::str_chars(path);
    if chars.len() > 0 && chars[0] == '/' {
        path.to_owned()
    } else {
        path_join(target_dir, path)
    }
}

/// The rows of the home-directory mounts.
pub open spec fn spec_home_rows(b: SandboxBuilder, probes: HostProbes) -> Seq<Seq<Seq<char>>> {
    if b.config.home_access == HomeAccessMode::Full {
        seq![seq!["--bind"@, probes.home@, probes.home@]]
    } else {
        spec_ro_try_self(
            spec_joined(probes.home@, b.filesystem_spec.ro_home_dirs.deep_view()),
            probes.ro_home_dirs_exist@,
        ) + spec_rw_self(
            spec_joined(probes.home@, b.filesystem_spec.rw_home_dirs.deep_view()),
            probes.rw_home_dirs_exist@,
        ) + spec_ro_try_self(
            spec_joined(probes.home@, b.filesystem_spec.ro_home_files.deep_view()),
            probes.ro_home_files_exist@,
        ) + spec_rw_self(
            spec_joined(probes.home@, b.filesystem_spec.rw_home_files.deep_view()),
            probes.rw_home_files_exist@,
        )
    }
}

/// The rows of the system trees that exist, plus the `/bin` symlink.
pub open spec fn spec_system_rows(probes: HostProbes) -> Seq<Seq<Seq<char>>> {
    (if probes.usr_exists {
        seq![seq!["--ro-bind"@, "/usr"@, "/usr"@]]
    } else {
        Seq::empty()
    }) + (if probes.lib_exists {
        seq![seq!["--ro-bind"@, "/lib"@, "/lib"@]]
    } else {
        Seq::empty()
    }) + (if probes.lib64_exists {
        seq![seq!["--ro-bind"@, "/lib64"@, "/lib64"@]]
    } else {
        Seq::empty()
    }) + seq![seq!["--symlink"@, "/usr/bin"@, "/bin"@]]
}

/// The rows of the extra mounts that exist.
pub open spec fn spec_extra_rows(entries: Seq<(Seq<char>, bool)>, ro: bool) -> Seq<Seq<Seq<char>>>
    decreases entries.len(),
{
    if entries.len() == 0 {
        Seq::empty()
    } else {
        spec_extra_rows(entries.drop_last(), ro) + if entries.last().1 {
            if ro {
                seq![seq!["--ro-bind"@, entries.last().0, entries.last().0]]
            } else {
                seq![seq!["--bind"@, entries.last().0, entries.last().0]]
            }
        } else {
            Seq::empty()
        }
    }
}

/// The relay and socket rows, present only in filtered mode.
pub open spec fn spec_relay_rows(b: SandboxBuilder, probes: HostProbes) -> Seq<Seq<Seq<char>>> {
    match b.config.network_mode {
        NetworkMode::Filtered { .. } => match probes.relay_path {
            Some(p) => seq![seq!["--ro-bind"@, p@, "/bw-relay"@]],
            None => Seq::empty(),
        },
        _ => Seq::empty(),
    }
}

pub open spec fn spec_socket_rows(b: SandboxBuilder) -> Seq<Seq<Seq<char>>> {
    match b.config.network_mode {
        NetworkMode::Filtered { proxy_socket, .. } => seq![
            seq!["--bind"@, proxy_socket@, "/proxy.sock"@],
        ],
        _ => Seq::empty(),
    }
}

/// The first half of the mount list: `/etc`, home, the spec's paths,
/// the system trees and the target directory.
pub open spec fn spec_front_rows(b: SandboxBuilder, probes: HostProbes) -> Seq<Seq<Seq<char>>> {
    seq![seq!["--tmpfs"@, "/etc"@]] + spec_probe_rows(
        spec_joined("/etc"@, b.filesystem_spec.essential_etc_files.deep_view()),
        probes.etc_file_probes@,
    ) + spec_probe_rows(
        spec_joined("/etc"@, b.filesystem_spec.essential_etc_dirs.deep_view()),
        probes.etc_dir_probes@,
    ) + seq![seq!["--remount-ro"@, "/etc"@]] + spec_home_rows(b, probes) + spec_ro_try_self(
        b.filesystem_spec.ro_paths.deep_view(),
        probes.ro_paths_exist@,
    ) + spec_rw_self(b.filesystem_spec.rw_paths.deep_view(), probes.rw_paths_exist@)
        + spec_system_rows(probes) + seq![
        seq!["--bind"@, b.config.target_dir@, b.config.target_dir@],
    ]
}

/// The second half: the relay, `/proc` and `/dev`, the extra mounts
/// and the daemon socket.
pub open spec fn spec_tail_rows(b: SandboxBuilder, probes: HostProbes) -> Seq<Seq<Seq<char>>> {
    spec_relay_rows(b, probes) + seq![seq!["--proc"@, "/proc"@], seq![
        "--dev-bind"@,
        "/dev"@,
        "/dev"@,
    ]] + spec_extra_rows(
        probes.additional_ro@.map(|i: int, e: (String, bool)| (e.0@, e.1)),
        true,
    ) + spec_extra_rows(
        probes.additional_rw@.map(|i: int, e: (String, bool)| (e.0@, e.1)),
        false,
    ) + spec_socket_rows(b)
}

/// The entire mount list that `setup_mounts` appends.
pub open spec fn spec_setup_rows(b: SandboxBuilder, probes: HostProbes) -> Seq<Seq<Seq<char>>> {
    spec_front_rows(b, probes) + spec_tail_rows(b, probes)
}

impl SandboxBuilder {
    /// Assemble the whole mount list from the host's answers, in the
    /// order bubblewrap expects: `/etc`, home, the spec's paths, the
    /// system trees, the target directory, the relay, `/proc` and
    /// `/dev`, the extra mounts, and the daemon socket.  A broken
    /// `/etc` symlink fails, as does filtered mode without a relay.
    #[verifier::rlimit(100)]
    #[verifier::spinoff_prover]
    pub fn setup_mounts(&mut self, probes: &HostProbes) -> (r: Result<(), SandboxError>)
        requires
            probes.etc_file_probes@.len() == old(
                self,
            ).filesystem_spec.essential_etc_files@.len(),
            probes.etc_dir_probes@.len() == old(self).filesystem_spec.essential_etc_dirs@.len(),
            probes.ro_home_dirs_exist@.len() == old(self).filesystem_spec.ro_home_dirs@.len(),
            probes.rw_home_dirs_exist@.len() == old(self).filesystem_spec.rw_home_dirs@.len(),
            probes.ro_home_files_exist@.len() == old(self).filesystem_spec.ro_home_files@.len(),
            probes.rw_home_files_exist@.len() == old(self).filesystem_spec.rw_home_files@.len(),
            probes.ro_paths_exist@.len() == old(self).filesystem_spec.ro_paths@.len(),
            probes.rw_paths_exist@.len() == old(self).filesystem_spec.rw_paths@.len(),
        ensures
            match r {
                Ok(()) => {
                    &&& mounts_view(final(self).mounts@) == mounts_view(old(self).mounts@)
                        + spec_setup_rows(*old(self), *probes)
                    &&& final(self).config == old(self).config
                    &&& final(self).filesystem_spec == old(self).filesystem_spec
                    &&& final(self).env_builder == old(self).env_builder
                    &&& final(self).tmp_export_dir == old(self).tmp_export_dir
                    &&& (final(self).config.network_mode is Filtered
                        ==> probes.relay_path is Some)
                },
                Err(e) => (e is SymlinkResolution && !(probes_ok(probes.etc_file_probes@)
                    && probes_ok(probes.etc_dir_probes@))) || (e is CliNotFound && old(
                    self,
                ).config.network_mode is Filtered && probes.relay_path is None),
            },
    {
        let ghost b0 = *self;
        let r = self.mount_front(probes);
        if let Err(e) = r {
            return Err(e);
        }
        let ghost after_front = mounts_view(self.mounts@);
        // the relay binary, in filtered mode
        let filtered = matches!(self.config.network_mode, NetworkMode::Filtered { .. });
        if filtered {
            match &probes.relay_path {
                Some(relay) => {
                    let relay = relay.clone();
                    self.push_mount(MountPoint::ro(relay.as_str(), "/bw-relay"));
                },
                None => {
                    return Err(SandboxError::CliNotFound("bw-relay".to_owned()));
                },
            }
        }
        proof {
            assert(mounts_view(self.mounts@) =~= after_front + spec_relay_rows(b0, *probes));
        }
        let ghost after_relay = mounts_view(self.mounts@);
        self.push_mount(MountPoint::proc());
        self.push_mount(MountPoint::dev_bind());
        proof {
            assert(mounts_view(self.mounts@) =~= after_relay + seq![seq!["--proc"@, "/proc"@], seq![
                "--dev-bind"@,
                "/dev"@,
                "/dev"@,
            ]]);
        }
        // extra mounts from the command line
        self.mount_extra_list(&probes.additional_ro, true);
        self.mount_extra_list(&probes.additional_rw, false);
        let ghost after_extra = mounts_view(self.mounts@);
        // the daemon socket, in filtered mode
        match &self.config.network_mode {
            NetworkMode::Filtered { proxy_socket, .. } => {
                let socket = proxy_socket.clone();
                self.push_mount(MountPoint::rw(socket.as_str(), "/proxy.sock"));
            },
            _ => {},
        }
        proof {
            assert(mounts_view(self.mounts@) =~= after_extra + spec_socket_rows(b0));
            assert(mounts_view(self.mounts@) =~= mounts_view(b0.mounts@) + spec_setup_rows(
                b0,
                *probes,
            ));
        }
        Ok(())
    }

    /// Mount the first half of the list: `/etc`, home, the spec's
    /// paths, the system trees and the target directory.
    #[verifier::rlimit(100)]
    #[verifier::spinoff_prover]
    fn mount_front(&mut self, probes: &HostProbes) -> (r: Result<(), SandboxError>)
        requires
            probes.etc_file_probes@.len() == old(
                self,
            ).filesystem_spec.essential_etc_files@.len(),
            probes.etc_dir_probes@.len() == old(self).filesystem_spec.essential_etc_dirs@.len(),
            probes.ro_home_dirs_exist@.len() == old(self).filesystem_spec.ro_home_dirs@.len(),
            probes.rw_home_dirs_exist@.len() == old(self).filesystem_spec.rw_home_dirs@.len(),
            probes.ro_home_files_exist@.len() == old(self).filesystem_spec.ro_home_files@.len(),
            probes.rw_home_files_exist@.len() == old(self).filesystem_spec.rw_home_files@.len(),
            probes.ro_paths_exist@.len() == old(self).filesystem_spec.ro_paths@.len(),
            probes.rw_paths_exist@.len() == old(self).filesystem_spec.rw_paths@.len(),
        ensures
            match r {
                Ok(()) => {
                    &&& mounts_view(final(self).mounts@) == mounts_view(old(self).mounts@)
                        + spec_front_rows(*old(self), *probes)
                    &&& final(self).config == old(self).config
                    &&& final(self).filesystem_spec == old(self).filesystem_spec
                    &&& final(self).env_builder == old(self).env_builder
                    &&& final(self).tmp_export_dir == old(self).tmp_export_dir
                },
                Err(e) => e is SymlinkResolution && !(probes_ok(probes.etc_file_probes@)
                    && probes_ok(probes.etc_dir_probes@)),
            },
    {
        let ghost b0 = *self;
        let r = self.mount_minimal_etc(&probes.etc_file_probes, &probes.etc_dir_probes);
        if let Err(e) = r {
            return Err(e);
        }
        let ghost after_etc = mounts_view(self.mounts@);
        // home access
        match self.config.home_access {
            HomeAccessMode::Full => {
                let home = probes.home.clone();
                self.push_mount(MountPoint::rw(home.as_str(), home.as_str()));
            },
            HomeAccessMode::Safe => {
                let home = probes.home.clone();
                self.mount_ro_home_dirs(home.as_str(), &probes.ro_home_dirs_exist);
                self.mount_rw_home_dirs(home.as_str(), &probes.rw_home_dirs_exist);
                self.mount_home_files(
                    home.as_str(),
                    &probes.ro_home_files_exist,
                    &probes.rw_home_files_exist,
                );
            },
        }
        proof {
            assert(mounts_view(self.mounts@) =~= after_etc + spec_home_rows(b0, *probes));
        }
        self.mount_config_paths(&probes.ro_paths_exist, &probes.rw_paths_exist);
        let ghost after_cfg = mounts_view(self.mounts@);
        // system trees and the /bin symlink
        if probes.usr_exists {
            self.push_mount(MountPoint::ro("/usr", "/usr"));
        }
        if probes.lib_exists {
            self.push_mount(MountPoint::ro("/lib", "/lib"));
        }
        if probes.lib64_exists {
            self.push_mount(MountPoint::ro("/lib64", "/lib64"));
        }
        self.push_mount(MountPoint::symlink("/usr/bin", "/bin"));
        proof {
            assert(mounts_view(self.mounts@) =~= after_cfg + spec_system_rows(*probes));
        }
        // the target directory
        let target = self.config.target_dir.clone();
        self.push_mount(MountPoint::rw(target.as_str(), target.as_str()));
        proof {
            assert(mounts_view(self.mounts@) =~= mounts_view(b0.mounts@) + spec_front_rows(
                b0,
                *probes,
            ));
        }
        Ok(())
    }

    /// Mount the resolved extra paths that exist.
    fn mount_extra_list(&mut self, entries: &Vec<(String, bool)>, ro: bool)
        ensures
            mounts_view(final(self).mounts@) == mounts_view(old(self).mounts@) + spec_extra_rows(
                entries@.map(|i: int, e: (String, bool)| (e.0@, e.1)),
                ro,
            ),
            final(self).config == old(self).config,
            final(self).filesystem_spec == old(self).filesystem_spec,
            final(self).env_builder == old(self).env_builder,
            final(self).tmp_export_dir == old(self).tmp_export_dir,
    {
        let ghost entries_v = entries@.map(|i: int, e: (String, bool)| (e.0@, e.1));
        let n = entries.len();
        let mut i: usize = 0;
        proof {
            assert(mounts_view(self.mounts@) =~= mounts_view(self.mounts@)
                + Seq::<Seq<Seq<char>>>::empty());
        }
        while i < n
            invariant
                n == entries@.len(),
                i <= n,
                entries_v == entries@.map(|k: int, e: (String, bool)| (e.0@, e.1)),
                self.config == old(self).config,
                self.filesystem_spec == old(self).filesystem_spec,
                self.env_builder == old(self).env_builder,
                self.tmp_export_dir == old(self).tmp_export_dir,
                mounts_view(self.mounts@) == mounts_view(old(self).mounts@) + spec_extra_rows(
                    entries_v.subrange(0, i as int),
                    ro,
                ),
            decreases n - i,
        {
            let ghost pre_mv = mounts_view(self.mounts@);
            let p = &entries[i].0;
            if entries[i].1 {
                if ro {
                    self.mounts.push(MountPoint::ro(p.as_str(), p.as_str()));
                    proof {
                        assert(mounts_view(self.mounts@) =~= pre_mv.push(
                            seq!["--ro-bind"@, p@, p@],
                        ));
                    }
                } else {
                    self.mounts.push(MountPoint::rw(p.as_str(), p.as_str()));
                    proof {
                        assert(mounts_view(self.mounts@) =~= pre_mv.push(seq!["--bind"@, p@, p@]));
                    }
                }
            }
            proof {
                let jp = entries_v.subrange(0, i + 1);
                assert(jp.drop_last() =~= entries_v.subrange(0, i as int));
                assert(jp.last() == entries_v[i as int]);
                assert(entries_v[i as int] == (entries@[i as int].0@, entries@[i as int].1));
                assert(mounts_view(self.mounts@) =~= mounts_view(old(self).mounts@)
                    + spec_extra_rows(jp, ro));
            }
            i += 1;
        }
        proof {
            assert(entries_v.subrange(0, n as int) =~= entries_v);
        }
    }
}

/// Copy a vector of string pairs, keeping its entries.
fn clone_string_pairs(v: &Vec<(String, String)>) -> (r: Vec<(String, String)>)
    ensures
        r@ == v@,
{
    let mut out: Vec<(String, String)> = Vec::new();
    let mut i: usize = 0;
    let n = v.len();
    while i < n
        invariant
            n == v@.len(),
            i <= n,
            out@ == v@.subrange(0, i as int),
        decreases n - i,
    {
        out.push((v[i].0.clone(), v[i].1.clone()));
        proof {
            assert(out@ =~= v@.subrange(0, i + 1));
        }
        i += 1;
    }
    proof {
        assert(out@ =~= v@);
    }
    out
}

/// Move all strings of `src` to the end of `dst`.
fn append_all(dst: &mut Vec<String>, src: Vec<String>)
    ensures
        final(dst).deep_view() == old(dst).deep_view() + src.deep_view(),
{
    let ghost src_dv = src.deep_view();
    let mut src = src;
    let total = src.len();
    let mut taken: usize = 0;
    proof {
        assert(src_dv.len() == total);
        assert(src.deep_view() =~= src_dv.subrange(0, src_dv.len() as int));
        assert(dst.deep_view() =~= old(dst).deep_view() + src_dv.subrange(0, 0));
    }
    while src.len() > 0
        invariant
            src_dv.len() == total,
            taken <= src_dv.len(),
            src.deep_view() == src_dv.subrange(taken as int, src_dv.len() as int),
            dst.deep_view() == old(dst).deep_view() + src_dv.subrange(0, taken as int),
        decreases src@.len(),
    {
        let ghost before = dst.deep_view();
        let ghost pre = src.deep_view();
        proof {
            assert(pre.len() == src@.len());
            assert(taken < src_dv.len());
        }
        let s = src.remove(0);
        proof {
            assert(s@ == pre[0]);
            assert(pre[0] == src_dv[taken as int]);
            assert forall|k: int| 0 <= k < src.deep_view().len() implies src.deep_view()[k]
                == src_dv[taken as int + 1 + k] by {
                assert(src.deep_view()[k] == pre[k + 1]);
            }
            assert(src.deep_view() =~= src_dv.subrange(taken as int + 1, src_dv.len() as int));
        }
        dst.push(s);
        proof {
            assert(dst.deep_view() =~= before.push(src_dv[taken as int]));
            assert(dst.deep_view() =~= old(dst).deep_view() + src_dv.subrange(0, taken + 1));
        }
        taken += 1;
    }
    proof {
        assert(src_dv.subrange(0, taken as int) =~= src_dv);
    }
}

/// The fixed namespace flags plus the network flag.
pub open spec fn spec_base_flags(mode: NetworkMode) -> Seq<Seq<char>> {
    seq!["--die-with-parent"@, "--unshare-pid"@, "--unshare-ipc"@] + match mode {
        NetworkMode::Enabled => seq!["--share-net"@],
        _ => seq!["--unshare-net"@],
    }
}

/// Flatten rows of arguments into one list.
pub open spec fn spec_flatten(rows: Seq<Seq<Seq<char>>>) -> Seq<Seq<char>>
    decreases rows.len(),
{
    if rows.len() == 0 {
        Seq::empty()
    } else {
        spec_flatten(rows.drop_last()) + rows.last()
    }
}

/// The command tail: relay prefix when filtered, then the shell or the
/// tool with its default and command-line arguments.
pub open spec fn spec_command_tail(b: SandboxBuilder) -> Seq<Seq<char>> {
    (match b.config.network_mode {
        NetworkMode::Filtered { .. } => seq!["/bw-relay"@, "--socket"@, "/proxy.sock"@, "--"@],
        _ => Seq::empty(),
    }) + (if b.config.shell {
        seq!["/bin/sh"@, "-i"@]
    } else {
        seq![b.config.tool_config.cli_path@] + b.config.tool_config.default_args.deep_view()
    }) + b.config.tool_config.cli_args.deep_view()
}

/// The whole bubblewrap argument vector of a builder.
pub open spec fn spec_command(b: SandboxBuilder) -> Seq<Seq<char>> {
    spec_base_flags(b.config.network_mode) + spec_flatten(mounts_view(b.mounts@)) + seq![
        "--chdir"@,
        b.config.target_dir@,
        "--clearenv"@,
    ] + spec_env_args(b.env_builder.vars@) + spec_command_tail(b)
}

impl PathProbe {
    /// Copy a probe value.
    pub fn clone_probe(&self) -> (r: Self)
        ensures
            r == *self,
    {
        match self {
            PathProbe::Missing => PathProbe::Missing,
            PathProbe::Present => PathProbe::Present,
            PathProbe::SymlinkTo(s) => PathProbe::SymlinkTo(s.clone()),
            PathProbe::Broken => PathProbe::Broken,
        }
    }
}

/// The command line that runs the relay around a target program.
pub fn build_relay_command(
    proxy_socket: &str,
    relay_binary: &str,
    target_binary: &str,
    target_args: &Vec<String>,
) -> (r: Vec<String>)
    ensures
        r.deep_view() == seq![relay_binary@, "--socket"@, proxy_socket@, "--"@, target_binary@]
            + target_args.deep_view(),
{
    let mut cmd: Vec<String> = Vec::new();
    cmd.push(relay_binary.to_owned());
    cmd.push("--socket".to_owned());
    cmd.push(proxy_socket.to_owned());
    cmd.push("--".to_owned());
    cmd.push(target_binary.to_owned());
    proof {
        assert(cmd.deep_view() =~= seq![
            relay_binary@,
            "--socket"@,
            proxy_socket@,
            "--"@,
            target_binary@,
        ]);
    }
    let extra = clone_string_vec(target_args);
    append_all(&mut cmd, extra);
    cmd
}

} // verus!
