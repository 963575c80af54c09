//! Mount points for the sandbox, rendered to bubblewrap arguments.

use vstd::prelude::*;

verus! {

/// Mount mode for a mount point.
#[derive(Debug, Clone)]
pub enum MountMode {
    /// Read-only bind mount.
    ReadOnly,
    /// Read-write bind mount.
    ReadWrite,
    /// Read-only bind mount, skipped when the source does not exist.
    ReadOnlyTry,
    /// Tmpfs mount.
    Tmpfs,
    /// Remount an existing mount read-only.
    RemountRo,
    /// A symlink pointing at `target`.
    Symlink { target: String },
    /// A fresh procfs mount.
    Proc,
    /// Bind mount of a device tree.
    DevBind,
}

/// A mount point in the sandbox.
#[derive(Debug, Clone)]
pub struct MountPoint {
    /// Source path on the host.
    pub source: String,
    /// Target path in the sandbox.
    pub target: String,
    /// How it is mounted.
    pub mode: MountMode,
}

/// The bubblewrap arguments one mount point turns into.
pub open spec fn spec_mount_args(m: MountPoint) -> Seq<Seq<char>> {
    match m.mode {
        MountMode::ReadOnly => seq!["--ro-bind"@, m.source@, m.target@],
        MountMode::ReadWrite => seq!["--bind"@, m.source@, m.target@],
        MountMode::ReadOnlyTry => seq!["--ro-bind-try"@, m.source@, m.target@],
        MountMode::Tmpfs => seq!["--tmpfs"@, m.target@],
        MountMode::RemountRo => seq!["--remount-ro"@, m.target@],
        MountMode::Symlink { target } => seq!["--symlink"@, target@, m.target@],
        MountMode::Proc => seq!["--proc"@, m.target@],
        MountMode::DevBind => seq!["--dev-bind"@, m.source@, m.target@],
    }
}

impl MountPoint {
    /// Create a read-only mount point.
    pub fn ro(source: &str, target: &str) -> (r: Self)
        ensures
            r.source@ == source@ && r.target@ == target@ && r.mode is ReadOnly,
    {
        MountPoint { source: source.to_owned(), target: target.to_owned(), mode: MountMode::ReadOnly }
    }

    /// Create a read-write mount point.
    pub fn rw(source: &str, target: &str) -> (r: Self)
        ensures
            r.source@ == source@ && r.target@ == target@ && r.mode is ReadWrite,
    {
        MountPoint {
            source: source.to_owned(),
            target: target.to_owned(),
            mode: MountMode::ReadWrite,
        }
    }

    /// Create a read-only mount point that is skipped when the source
    /// does not exist.
    pub fn ro_try(source: &str, target: &str) -> (r: Self)
        ensures
            r.source@ == source@ && r.target@ == target@ && r.mode is ReadOnlyTry,
    {
        MountPoint {
            source: source.to_owned(),
            target: target.to_owned(),
            mode: MountMode::ReadOnlyTry,
        }
    }

    /// Create a tmpfs mount point.
    pub fn tmpfs(target: &str) -> (r: Self)
        ensures
            r.source@.len() == 0 && r.target@ == target@ && r.mode is Tmpfs,
    {
        MountPoint { source: String::new(), target: target.to_owned(), mode: MountMode::Tmpfs }
    }

    /// Remount an existing mount read-only.
    pub fn remount_ro(target: &str) -> (r: Self)
        ensures
            r.source@.len() == 0 && r.target@ == target@ && r.mode is RemountRo,
    {
        MountPoint { source: String::new(), target: target.to_owned(), mode: MountMode::RemountRo }
    }

    /// Create a symlink at `link_path` pointing to `link_target`.
    pub fn symlink(link_target: &str, link_path: &str) -> (r: Self)
        ensures
            r.source@.len() == 0 && r.target@ == link_path@,
            r.mode matches MountMode::Symlink { target } && target@ == link_target@,
    {
        MountPoint {
            source: String::new(),
            target: link_path.to_owned(),
            mode: MountMode::Symlink { target: link_target.to_owned() },
        }
    }

    /// Mount a fresh procfs at `/proc`.
    pub fn proc() -> (r: Self)
        ensures
            r.source@.len() == 0 && r.target@ == "/proc"@ && r.mode is Proc,
    {
        MountPoint { source: String::new(), target: "/proc".to_owned(), mode: MountMode::Proc }
    }

    /// Bind the host `/dev` into the sandbox.
    pub fn dev_bind() -> (r: Self)
        ensures
            r.source@ == "/dev"@ && r.target@ == "/dev"@ && r.mode is DevBind,
    {
        MountPoint { source: "/dev".to_owned(), target: "/dev".to_owned(), mode: MountMode::DevBind }
    }

    /// Convert this mount point to bubblewrap command arguments.
    pub fn to_args(&self) -> (r: Vec<String>)
        ensures
            r.deep_view() == spec_mount_args(*self),
    {
        let mut args: Vec<String> = Vec::new();
        match &self.mode {
            MountMode::ReadOnly => {
                args.push("--ro-bind".to_owned());
                args.push(self.source.clone());
                args.push(self.target.clone());
            },
            MountMode::ReadWrite => {
                args.push("--bind".to_owned());
                args.push(self.source.clone());
                args.push(self.target.clone());
            },
            MountMode::ReadOnlyTry => {
                args.push("--ro-bind-try".to_owned());
                args.push(self.source.clone());
                args.push(self.target.clone());
            },
            MountMode::Tmpfs => {
                args.push("--tmpfs".to_owned());
                args.push(self.target.clone());
            },
            MountMode::RemountRo => {
                args.push("--remount-ro".to_owned());
                args.push(self.target.clone());
            },
            MountMode::Symlink { target } => {
                args.push("--symlink".to_owned());
                args.push(target.clone());
                args.push(self.target.clone());
            },
            MountMode::Proc => {
                args.push("--proc".to_owned());
                args.push(self.target.clone());
            },
            MountMode::DevBind => {
                args.push("--dev-bind".to_owned());
                args.push(self.source.clone());
                args.push(self.target.clone());
            },
        }
        proof {
            assert(args.deep_view() =~= spec_mount_args(*self));
        }
        args
    }
}

} // verus!
