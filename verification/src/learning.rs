//! The learning recorder: hostnames observed (or denied) by the filter
//! daemon, accumulated into a configuration tree under a per-session
//! group and rendered back to TOML text.  Writing the text to disk is
//! the caller's job; rendering is verified here.

use vstd::prelude::*;

use vstd::string::StringExecFns;

use crate::config::{Config, HostGroup};
use crate::engine::IpAddress;
use crate::omap::{lemma_insert_get, seq_get, seq_has, spec_insert};
use crate::strutil::{clone_string_vec, contains_string};

verus! {

/// Relies on chrono's Utc::now and DateTime::format: a timestamp of
/// the wall clock, as `%Y%m%d_%H%M%S` text.  The result depends on the
/// clock, so nothing is promised beyond its being nonempty.
#[verifier::external_body]
fn now_timestamp() -> (r: String)
    ensures
        r@.len() > 0,
{
    chrono::Utc::now().format("%Y%m%d_%H%M%S").to_string()
}

/// No host appears twice.
pub open spec fn hosts_distinct(s: Seq<Seq<char>>) -> bool {
    forall|i: int, j: int| 0 <= i < j < s.len() ==> s[i] != s[j]
}

/// The hosts recorded under the group named `name`.
pub open spec fn recorded_hosts(c: Config, name: Seq<char>) -> Seq<Seq<char>> {
    match seq_get(c.network.groups@, name) {
        Some(g) => g.hosts.deep_view(),
        None => Seq::empty(),
    }
}

/// Statistics about recorded learning data.
#[derive(Debug, Clone, PartialEq, Eq, Structural)]
pub struct LearningStats {
    pub host_count: usize,
}

impl LearningStats {
    /// Total number of recorded entries.
    pub fn total(&self) -> (r: usize)
        ensures
            r == self.host_count,
    {
        self.host_count
    }
}

/// Records hostnames observed during learning mode into an in-memory
/// configuration tree.
#[derive(Debug, Clone)]
pub struct LearningRecorder {
    pub config: Config,
    pub output_path: Option<String>,
    pub session_name: String,
}

impl LearningRecorder {
    /// The session's recording group never repeats keys.
    pub open spec fn wf(&self) -> bool {
        self.config.network.groups.wf()
    }

    /// Create a recorder with a clock-stamped session name.
    pub fn new() -> (r: Self)
        ensures
            r.wf(),
            r.output_path is None,
            crate::strutil::spec_starts_with(r.session_name@, "learned_session_"@),
            r.config.network.groups@.len() == 0,
    {
        let ts = now_timestamp();
        let mut session_name = String::new();
        session_name.append("learned_session_");
        session_name.append(ts.as_str());
        proof {
            assert(session_name@ =~= "learned_session_"@ + ts@);
            assert(session_name@.subrange(0, "learned_session_"@.len() as int)
                =~= "learned_session_"@);
        }
        LearningRecorder { config: Config::default(), output_path: None, session_name }
    }

    /// Create a recorder with a caller-chosen session name.
    pub fn with_session_name(name: String) -> (r: Self)
        ensures
            r.wf(),
            r.output_path is None,
            r.session_name@ == name@,
            r.config.network.groups@.len() == 0,
    {
        LearningRecorder { config: Config::default(), output_path: None, session_name: name }
    }

    /// Set the output path the caller will flush to.
    pub fn set_output_path(&mut self, path: String)
        ensures
            final(self).output_path matches Some(p) && p@ == path@,
            final(self).config == old(self).config,
            final(self).session_name == old(self).session_name,
    {
        self.output_path = Some(path);
    }

    /// Adopt a configuration tree loaded from an existing output file,
    /// so new observations extend it.
    pub fn adopt_config(&mut self, config: Config)
        requires
            config.wf(),
        ensures
            final(self).config == config,
            final(self).wf(),
            final(self).session_name == old(self).session_name,
            final(self).output_path == old(self).output_path,
    {
        self.config = config;
    }

    /// Get the session name.
    pub fn session_name(&self) -> (r: &str)
        ensures
            r@ == self.session_name@,
    {
        self.session_name.as_str()
    }

    /// Record a host under the group named `group_name`: append it to
    /// the group's `hosts` unless already present, creating the group
    /// when absent.  Every other group keeps its entry.
    fn record_in_group(&mut self, group_name: &str, host: &str)
        requires
            old(self).wf(),
        ensures
            final(self).wf(),
            final(self).session_name == old(self).session_name,
            final(self).output_path == old(self).output_path,
            ({
                let old_hosts = recorded_hosts(old(self).config, group_name@);
                let new_hosts = recorded_hosts(final(self).config, group_name@);
                &&& seq_has(final(self).config.network.groups@, group_name@)
                &&& new_hosts == if old_hosts.contains(host@) {
                    old_hosts
                } else {
                    old_hosts.push(host@)
                }
                &&& hosts_distinct(old_hosts) ==> hosts_distinct(new_hosts)
            }),
            forall|other: Seq<char>|
                other != group_name@ ==> seq_get(final(self).config.network.groups@, other)
                    == seq_get(old(self).config.network.groups@, other),
    {
        proof {
            let old_hosts = recorded_hosts(old(self).config, group_name@);
            if hosts_distinct(old_hosts) && !old_hosts.contains(host@) {
                let pushed = old_hosts.push(host@);
                assert forall|i: int, j: int| 0 <= i < j < pushed.len() implies pushed[i]
                    != pushed[j] by {
                    if j == old_hosts.len() {
                        assert(pushed[j] == host@);
                        if pushed[i] == host@ {
                            assert(old_hosts[i] == host@);
                            assert(old_hosts.contains(host@));
                        }
                    }
                }
            }
        }
        let ghost old_groups = self.config.network.groups@;
        let mut group: HostGroup = match self.config.network.groups.get(group_name) {
            Some(g) => clone_host_group(g),
            None => HostGroup {
                description: group_name.to_owned(),
                hosts: Vec::new(),
                hosts_deny: Vec::new(),
                groups: Vec::new(),
            },
        };
        if !contains_string(&group.hosts, host) {
            group.hosts.push(host.to_owned());
            proof {
                let old_hosts = recorded_hosts(old(self).config, group_name@);
                assert(group.hosts.deep_view() =~= old_hosts.push(host@));
            }
        }
        let ghost new_group = group;
        self.config.network.groups.insert(group_name.to_owned(), group);
        proof {
            assert(self.config.network.groups@ == spec_insert(old_groups, group_name@, new_group));
            lemma_insert_get(old_groups, group_name@, new_group, group_name@);
            assert forall|other: Seq<char>| other != group_name@ implies seq_get(
                self.config.network.groups@,
                other,
            ) == seq_get(old_groups, other) by {
                lemma_insert_get(old_groups, group_name@, new_group, other);
            }
        }
    }

    /// Record an observed host under the session group.
    pub fn record_host(&mut self, host: &str)
        requires
            old(self).wf(),
        ensures
            final(self).wf(),
            final(self).session_name == old(self).session_name,
            final(self).output_path == old(self).output_path,
            ({
                let old_hosts = recorded_hosts(old(self).config, old(self).session_name@);
                let new_hosts = recorded_hosts(final(self).config, old(self).session_name@);
                &&& new_hosts == if old_hosts.contains(host@) {
                    old_hosts
                } else {
                    old_hosts.push(host@)
                }
                &&& (hosts_distinct(old_hosts) ==> hosts_distinct(new_hosts))
            }),
            forall|other: Seq<char>|
                other != old(self).session_name@ ==> seq_get(
                    final(self).config.network.groups@,
                    other,
                ) == seq_get(old(self).config.network.groups@, other),
    {
        let name = self.session_name.clone();
        self.record_in_group(name.as_str(), host);
    }

    /// Addresses are no longer tracked: the policy decides by hostname.
    pub fn record_ip(&mut self, ip: IpAddress)
        ensures
            *final(self) == *old(self),
    {
        let _ = ip;
    }

    /// Record an observed connection: the host, and nothing for the
    /// address.
    pub fn record(&mut self, host: &str, ip: Option<IpAddress>)
        requires
            old(self).wf(),
        ensures
            final(self).wf(),
            final(self).session_name == old(self).session_name,
            final(self).output_path == old(self).output_path,
            ({
                let old_hosts = recorded_hosts(old(self).config, old(self).session_name@);
                let new_hosts = recorded_hosts(final(self).config, old(self).session_name@);
                &&& new_hosts == if old_hosts.contains(host@) {
                    old_hosts
                } else {
                    old_hosts.push(host@)
                }
                &&& (hosts_distinct(old_hosts) ==> hosts_distinct(new_hosts))
            }),
            forall|other: Seq<char>|
                other != old(self).session_name@ ==> seq_get(
                    final(self).config.network.groups@,
                    other,
                ) == seq_get(old(self).config.network.groups@, other),
    {
        let _ = ip;
        self.record_host(host);
    }

    /// The name of the session's denied-hosts group.
    pub fn denied_group_name(&self) -> (r: String)
        ensures
            r@ == self.session_name@ + "_denied"@,
    {
        let mut name = self.session_name.clone();
        name.append("_denied");
        name
    }

    /// Record a denied host under the session's `_denied` group.
    pub fn record_denied_host(&mut self, host: &str)
        requires
            old(self).wf(),
        ensures
            final(self).wf(),
            final(self).session_name == old(self).session_name,
            final(self).output_path == old(self).output_path,
            ({
                let denied = old(self).session_name@ + "_denied"@;
                let old_hosts = recorded_hosts(old(self).config, denied);
                let new_hosts = recorded_hosts(final(self).config, denied);
                &&& new_hosts == if old_hosts.contains(host@) {
                    old_hosts
                } else {
                    old_hosts.push(host@)
                }
                &&& (hosts_distinct(old_hosts) ==> hosts_distinct(new_hosts))
            }),
            forall|other: Seq<char>|
                other != old(self).session_name@ + "_denied"@ ==> seq_get(
                    final(self).config.network.groups@,
                    other,
                ) == seq_get(old(self).config.network.groups@, other),
            seq_get(final(self).config.network.groups@, old(self).session_name@) == seq_get(
                old(self).config.network.groups@,
                old(self).session_name@,
            ),
    {
        let name = self.denied_group_name();
        proof {
            vstd::prelude::reveal_strlit("_denied");
            assert(name@.len() == self.session_name@.len() + 7);
        }
        self.record_in_group(name.as_str(), host);
    }

    /// Record a denied connection; only the hostname is kept.
    pub fn record_denied(&mut self, host: &str, ip: Option<IpAddress>)
        requires
            old(self).wf(),
        ensures
            final(self).wf(),
            final(self).session_name == old(self).session_name,
            final(self).output_path == old(self).output_path,
            ({
                let denied = old(self).session_name@ + "_denied"@;
                let old_hosts = recorded_hosts(old(self).config, denied);
                let new_hosts = recorded_hosts(final(self).config, denied);
                &&& new_hosts == if old_hosts.contains(host@) {
                    old_hosts
                } else {
                    old_hosts.push(host@)
                }
                &&& (hosts_distinct(old_hosts) ==> hosts_distinct(new_hosts))
            }),
            forall|other: Seq<char>|
                other != old(self).session_name@ + "_denied"@ ==> seq_get(
                    final(self).config.network.groups@,
                    other,
                ) == seq_get(old(self).config.network.groups@, other),
            seq_get(final(self).config.network.groups@, old(self).session_name@) == seq_get(
                old(self).config.network.groups@,
                old(self).session_name@,
            ),
    {
        let _ = ip;
        self.record_denied_host(host);
    }

    /// Statistics about the session's recorded hosts.
    pub fn stats(&self) -> (r: LearningStats)
        ensures
            r.host_count == recorded_hosts(self.config, self.session_name@).len(),
    {
        match self.config.network.groups.get(self.session_name.as_str()) {
            Some(g) => LearningStats { host_count: g.hosts.len() },
            None => LearningStats { host_count: 0 },
        }
    }

    /// Render every recorded group as TOML sections, ready to flush.
    pub fn render(&self) -> (r: String)
        ensures
            r@ == spec_render_groups(self.config.network.groups@),
    {
        let groups = &self.config.network.groups;
        let n = groups.len();
        let mut out = String::new();
        let mut i: usize = 0;
        proof {
            assert(out@ =~= spec_render_groups(groups@.subrange(0, 0)));
        }
        while i < n
            invariant
                groups@ == self.config.network.groups@,
                n == groups@.len(),
                i <= n,
                out@ == spec_render_groups(groups@.subrange(0, i as int)),
            decreases n - i,
        {
            let name = groups.key_at(i);
            let g = groups.value_at(i);
            let section = render_group_section(name.as_str(), g);
            out.append(section.as_str());
            proof {
                let pre = groups@.subrange(0, i as int);
                let cur = groups@.subrange(0, i + 1);
                assert(cur.drop_last() =~= pre);
                assert(cur.last() == groups@[i as int]);
            }
            i += 1;
        }
        proof {
            assert(groups@.subrange(0, n as int) =~= groups@);
        }
        out
    }
}

/// Copy a host group, keeping its data.
fn clone_host_group(g: &HostGroup) -> (r: HostGroup)
    ensures
        r.description@ == g.description@,
        r.hosts.deep_view() == g.hosts.deep_view(),
        r.hosts_deny.deep_view() == g.hosts_deny.deep_view(),
        r.groups.deep_view() == g.groups.deep_view(),
{
    HostGroup {
        description: g.description.clone(),
        hosts: clone_string_vec(&g.hosts),
        hosts_deny: clone_string_vec(&g.hosts_deny),
        groups: clone_string_vec(&g.groups),
    }
}

/// One TOML array line per value: `  "value",`.
pub open spec fn spec_toml_array_lines(values: Seq<Seq<char>>) -> Seq<char>
    decreases values.len(),
{
    if values.len() == 0 {
        Seq::empty()
    } else {
        spec_toml_array_lines(values.drop_last()) + "  \""@ + values.last() + "\",\n"@
    }
}

/// A TOML array assignment, or nothing when the list is empty.
pub open spec fn spec_toml_array(key: Seq<char>, values: Seq<Seq<char>>) -> Seq<char> {
    if values.len() == 0 {
        Seq::empty()
    } else {
        key + " = [\n"@ + spec_toml_array_lines(values) + "]\n"@
    }
}

/// Format a TOML array assignment for a key and its values.  Empty
/// lists render as nothing.
pub fn format_toml_array(key: &str, values: &Vec<String>) -> (r: String)
    ensures
        r@ == spec_toml_array(key@, values.deep_view()),
{
    if values.len() == 0 {
        let r = String::new();
        proof {
            assert(r@ =~= Seq::<char>::empty());
        }
        return r;
    }
    let mut out = String::new();
    out.append(key);
    out.append(" = [\n");
    let ghost header = key@ + " = [\n"@;
    proof {
        assert(out@ =~= header);
        assert(out@ =~= header + spec_toml_array_lines(values.deep_view().subrange(0, 0)));
    }
    let n = values.len();
    let mut i: usize = 0;
    while i < n
        invariant
            n == values@.len(),
            i <= n,
            out@ == header + spec_toml_array_lines(values.deep_view().subrange(0, i as int)),
        decreases n - i,
    {
        out.append("  \"");
        out.append(values[i].as_str());
        out.append("\",\n");
        proof {
            let pre = values.deep_view().subrange(0, i as int);
            let cur = values.deep_view().subrange(0, i + 1);
            assert(cur.drop_last() =~= pre);
            assert(cur.last() == values.deep_view()[i as int]);
            assert(out@ =~= header + spec_toml_array_lines(cur));
        }
        i += 1;
    }
    out.append("]\n");
    proof {
        assert(values.deep_view().subrange(0, n as int) =~= values.deep_view());
        assert(out@ =~= spec_toml_array(key@, values.deep_view()));
    }
    out
}

/// The TOML section for one named group.
pub open spec fn spec_group_section(name: Seq<char>, g: HostGroup) -> Seq<char> {
    "[network.groups."@ + name + "]\n"@ + spec_toml_array("hosts"@, g.hosts.deep_view()) + "\n"@
}

/// All group sections, in order.
pub open spec fn spec_render_groups(groups: Seq<(Seq<char>, HostGroup)>) -> Seq<char>
    decreases groups.len(),
{
    if groups.len() == 0 {
        Seq::empty()
    } else {
        spec_render_groups(groups.drop_last()) + spec_group_section(
            groups.last().0,
            groups.last().1,
        )
    }
}

/// Render one group as its TOML section.
fn render_group_section(name: &str, g: &HostGroup) -> (r: String)
    ensures
        r@ == spec_group_section(name@, *g),
{
    let mut out = String::new();
    out.append("[network.groups.");
    out.append(name);
    out.append("]\n");
    let hosts = format_toml_array("hosts", &g.hosts);
    out.append(hosts.as_str());
    out.append("\n");
    proof {
        assert(out@ =~= spec_group_section(name@, *g));
    }
    out
}

} // verus!
