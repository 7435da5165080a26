//! Service configuration: an explicit object constructed once at startup and
//! passed by reference into the components — no ambient lookups inside logic.

use vstd::prelude::*;

verus! {

/// The service's configuration. Connector feature flags are an association
/// list; a connector absent from it counts as disabled.
pub struct McpConfig {
    pub service_port: u16,
    pub host: String,
    /// Feature flag per connector name; the first entry for a name decides.
    pub enabled_connectors: Vec<(String, bool)>,
    pub github_api_base: String,
    pub gitlab_base_url: Option<String>,
    pub bitbucket_base_url: String,
    pub fs_root_paths: Vec<String>,
    pub fs_ignore_patterns: Vec<String>,
    pub request_timeout_secs: u64,
    pub cache_ttl_secs: u64,
    pub rate_limit_per_minute: u32,
}

/// The flag of the first entry carrying this name, or `false` when none does.
pub open spec fn first_flag(s: Seq<(String, bool)>, name: Seq<char>) -> bool
    decreases s.len(),
{
    if s.len() == 0 {
        false
    } else if s[0].0@ == name {
        s[0].1
    } else {
        first_flag(s.drop_first(), name)
    }
}

proof fn lemma_first_flag_skip(s: Seq<(String, bool)>, name: Seq<char>, i: int)
    requires
        0 <= i <= s.len(),
        forall|j: int| 0 <= j < i ==> (#[trigger] s[j]).0@ != name,
    ensures
        first_flag(s, name) == first_flag(s.skip(i), name),
    decreases i,
{
    if i > 0 {
        assert(s[0].0@ != name);
        assert(s.drop_first() =~= s.skip(1));
        assert forall|j: int| 0 <= j < i - 1 implies (#[trigger] s.skip(1)[j]).0@ != name by {
            assert(s.skip(1)[j] == s[j + 1]);
        }
        lemma_first_flag_skip(s.skip(1), name, i - 1);
        assert(s.skip(1).skip(i - 1) =~= s.skip(i));
    } else {
        assert(s.skip(0) =~= s);
    }
}

impl McpConfig {
    /// Whether a connector is enabled: the first flag recorded under its
    /// name, and `false` when none is.
    pub fn is_connector_enabled(&self, connector: &String) -> (r: bool)
        ensures
            r == first_flag(self.enabled_connectors@, connector@),
    {
        let flags = &self.enabled_connectors;
        let mut i: usize = 0;
        while i < flags.len()
            invariant
                flags == &self.enabled_connectors,
                i <= flags@.len(),
                forall|j: int| 0 <= j < i ==> (#[trigger] flags@[j]).0@ != connector@,
            decreases flags@.len() - i,
        {
            let entry = &flags[i];
            if entry.0 == *connector {
                let val = entry.1;
                proof {
                    assert(*entry == flags@[i as int]);
                    lemma_first_flag_skip(flags@, connector@, i as int);
                    assert(flags@.skip(i as int)[0] == flags@[i as int]);
                    assert(first_flag(flags@.skip(i as int), connector@) == flags@.skip(
                        i as int,
                    )[0].1);
                    assert(val == first_flag(self.enabled_connectors@, connector@));
                }
                return val;
            }
            proof {
                assert(*entry == flags@[i as int]);
            }
            i += 1;
        }
        proof {
            lemma_first_flag_skip(flags@, connector@, i as int);
            assert(flags@.skip(i as int).len() == 0);
        }
        false
    }
}

} // verus!
