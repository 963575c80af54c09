//! Wildcard host matching.
//!
//! A pattern is matched against a hostname character by character:
//! `?` matches exactly one character, `*` matches any run of zero or
//! more characters, and every other character matches only itself.
//! Matching is case-sensitive and nothing is normalized.

use vstd::prelude::*;
use vstd::string::StrSliceExecFns;

use crate::strutil::str_chars;

verus! {

/// What it means for the wildcard pattern `p` to match the string `s`.
pub open spec fn wild_matches(p: Seq<char>, s: Seq<char>) -> bool
    decreases p.len() + s.len(),
{
    if p.len() == 0 {
        s.len() == 0
    } else if p[0] == '*' {
        wild_matches(p.skip(1), s) || (s.len() > 0 && wild_matches(p, s.skip(1)))
    } else if s.len() == 0 {
        false
    } else {
        (p[0] == '?' || p[0] == s[0]) && wild_matches(p.skip(1), s.skip(1))
    }
}

/// Number of `.` characters in a string.
pub open spec fn num_dots(s: Seq<char>) -> nat
    decreases s.len(),
{
    if s.len() == 0 {
        0
    } else {
        num_dots(s.drop_last()) + if s.last() == '.' { 1nat } else { 0nat }
    }
}

/// Specificity of a hostname: the count of its dot-separated labels.
pub open spec fn spec_specificity(s: Seq<char>) -> nat {
    num_dots(s) + 1
}

/// Decide `wild_matches(pattern@, host@)` by dynamic programming over
/// the suffixes of the pattern and the host.
pub fn wildcard_match(pattern: &str, host: &str) -> (r: bool)
    requires
        pattern@.len() < usize::MAX,
        host@.len() < usize::MAX,
    ensures
        r == wild_matches(pattern@, host@),
{
    let p = str_chars(pattern);
    let s = str_chars(host);
    let m = p.len();
    let n = s.len();

    // row holds the answers for pattern suffix starting at `i + 1`.
    let mut row: Vec<bool> = Vec::new();
    let mut j: usize = 0;
    while j <= n
        invariant
            n == s@.len() < usize::MAX,
            j <= n + 1,
            row@.len() == j,
            forall|k: int| 0 <= k < j ==> row@[k] == (k == n),
        decreases n + 1 - j,
    {
        row.push(j == n);
        j += 1;
    }
    assert forall|k: int| 0 <= k <= n implies row@[k] == wild_matches(p@.skip(m as int), s@.skip(k)) by {
        assert(p@.skip(m as int) =~= Seq::<char>::empty());
        if k < n {
            assert(s@.skip(k).len() > 0);
        } else {
            assert(s@.skip(k) =~= Seq::<char>::empty());
        }
    }

    let mut i: usize = m;
    while i > 0
        invariant
            m == p@.len(),
            n == s@.len() < usize::MAX,
            i <= m,
            row@.len() == n + 1,
            forall|k: int| 0 <= k <= n ==> row@[k] == wild_matches(p@.skip(i as int), s@.skip(k)),
        decreases i,
    {
        i -= 1;
        let pc = p[i];
        let mut next: Vec<bool> = Vec::new();
        // build the new row back to front, then reverse it
        let mut j: usize = n + 1;
        while j > 0
            invariant
                m == p@.len(),
                n == s@.len(),
                i < m,
                pc == p@[i as int],
                j <= n + 1,
                row@.len() == n + 1,
                forall|k: int| 0 <= k <= n ==> row@[k] == wild_matches(p@.skip(i + 1), s@.skip(k)),
                next@.len() == n + 1 - j,
                forall|k: int| j <= k <= n ==> next@[n - k] == wild_matches(p@.skip(i as int), s@.skip(k)),
            decreases j,
    {
            j -= 1;
            let val: bool = if pc == '*' {
                let skip_pat = row[j];
                let skip_host = if j < n { next[n - (j + 1)] } else { false };
                skip_pat || skip_host
            } else if j < n {
                (pc == '?' || pc == s[j]) && row[j + 1]
            } else {
                false
            };
            proof {
                let pi = p@.skip(i as int);
                let sj = s@.skip(j as int);
                assert(pi.len() > 0);
                assert(pi[0] == p@[i as int]);
                assert(pi.skip(1) =~= p@.skip(i + 1));
                if j < n {
                    assert(sj.len() > 0);
                    assert(sj[0] == s@[j as int]);
                    assert(sj.skip(1) =~= s@.skip(j + 1));
                } else {
                    assert(sj =~= Seq::<char>::empty());
                }
            }
            next.push(val);
        }
        // reverse `next` into the new `row`
        let mut new_row: Vec<bool> = Vec::new();
        let mut k: usize = 0;
        while k <= n
            invariant
                n == s@.len() < usize::MAX,
                k <= n + 1,
                next@.len() == n + 1,
                new_row@.len() == k,
                forall|t: int| 0 <= t <= n ==> next@[n - t] == wild_matches(p@.skip(i as int), s@.skip(t)),
                forall|t: int| 0 <= t < k ==> new_row@[t] == wild_matches(p@.skip(i as int), s@.skip(t)),
            decreases n + 1 - k,
        {
            new_row.push(next[n - k]);
            k += 1;
        }
        row = new_row;
    }
    proof {
        assert(p@.skip(0) =~= p@);
        assert(s@.skip(0) =~= s@);
    }
    row[0]
}

/// Count of dot-separated labels in a hostname: one more than the
/// number of `.` characters it contains.
pub fn calculate_hostname_specificity(host: &str) -> (r: usize)
    requires
        host@.len() < usize::MAX,
    ensures
        r == spec_specificity(host@),
{
    let n = host.unicode_len();
    let mut count: usize = 0;
    let mut i: usize = 0;
    while i < n
        invariant
            n == host@.len() < usize::MAX,
            i <= n,
            count == num_dots(host@.subrange(0, i as int)),
            count <= i,
        decreases n - i,
    {
        let c = host.get_char(i);
        proof {
            let pre = host@.subrange(0, i + 1);
            assert(pre.drop_last() =~= host@.subrange(0, i as int));
            assert(pre.last() == host@[i as int]);
        }
        if c == '.' {
            count += 1;
        }
        i += 1;
    }
    assert(host@.subrange(0, n as int) =~= host@);
    count + 1
}

/// Matcher for hostnames against a list of wildcard patterns.
#[derive(Debug, Clone)]
pub struct HostMatcher {
    pub patterns: Vec<String>,
}

impl HostMatcher {
    /// All stored patterns are short enough to index by machine words.
    pub open spec fn wf(&self) -> bool {
        forall|k: int| 0 <= k < self.patterns@.len() ==> self.patterns@[k]@.len() < usize::MAX
    }

    /// True when some pattern in the list matches the host.
    pub open spec fn spec_matches(&self, host: Seq<char>) -> bool {
        exists|k: int| 0 <= k < self.patterns@.len() && wild_matches(self.patterns@[k]@, host)
    }

    /// The pattern list the matcher was built from.
    pub open spec fn spec_patterns(&self) -> Seq<Seq<char>> {
        self.patterns@.map(|k: int, p: String| p@)
    }

    /// Create a new empty matcher.
    pub fn new() -> (r: Self)
        ensures
            r.patterns@.len() == 0,
            r.wf(),
    {
        HostMatcher { patterns: Vec::new() }
    }

    /// Add a wildcard pattern for host matching.
    pub fn add_pattern(&mut self, pattern: &str)
        requires
            old(self).wf(),
            pattern@.len() < usize::MAX,
        ensures
            final(self).wf(),
            final(self).spec_patterns() == old(self).spec_patterns().push(pattern@),
    {
        let owned: String = pattern.to_owned();
        self.patterns.push(owned);
        assert(self.spec_patterns() =~= old(self).spec_patterns().push(pattern@));
    }

    /// Check if a hostname matches any pattern.
    pub fn matches_host(&self, host: &str) -> (r: bool)
        requires
            self.wf(),
            host@.len() < usize::MAX,
        ensures
            r == self.spec_matches(host@),
    {
        let mut k: usize = 0;
        let n = self.patterns.len();
        while k < n
            invariant
                self.wf(),
                host@.len() < usize::MAX,
                n == self.patterns@.len(),
                k <= n,
                forall|t: int| 0 <= t < k ==> !wild_matches(self.patterns@[t]@, host@),
            decreases n - k,
        {
            assert(self.patterns@[k as int]@.len() < usize::MAX);
            if wildcard_match(self.patterns[k].as_str(), host) {
                assert(wild_matches(self.patterns@[k as int]@, host@));
                return true;
            }
            k += 1;
        }
        false
    }

    /// Check if the matcher holds no patterns at all.
    pub fn is_empty(&self) -> (r: bool)
        ensures
            r == (self.patterns@.len() == 0),
    {
        self.patterns.len() == 0
    }

    /// Check if the host matches, reporting the specificity of the
    /// matched host: the count of its dot-separated labels.
    pub fn matches_with_specificity(&self, host: &str) -> (r: Option<usize>)
        requires
            self.wf(),
            host@.len() < usize::MAX,
        ensures
            r == if self.spec_matches(host@) {
                Some(spec_specificity(host@) as usize)
            } else {
                None::<usize>
            },
    {
        if self.matches_host(host) {
            Some(calculate_hostname_specificity(host))
        } else {
            None
        }
    }
}

} // verus!
