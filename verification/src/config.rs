//! Per-community configuration and its read-only resolver: which object arms
//! an admission attempt, which role is granted, and for how long. Configs are
//! created and updated out of band; the lifecycle core only resolves them.

use vstd::prelude::*;

verus! {

/// One community's configuration: the identity of the object whose event
/// arms a grant, the role the grant confers, and the grant period in seconds.
#[derive(Clone, Copy, Debug, PartialEq, Eq, Structural)]
pub struct GuildConfig {
    pub community_id: u64,
    pub trigger_id: u64,
    pub role_id: u64,
    pub duration: u64,
}

/// No two configurations claim the same community.
pub open spec fn configs_wf(s: Seq<GuildConfig>) -> bool {
    forall|i: int, j: int|
        0 <= i < j < s.len() ==> (#[trigger] s[i]).community_id != (#[trigger] s[j]).community_id
}

/// The configuration for a community: the first entry carrying it, if any.
/// Under `configs_wf` there is at most one such entry.
pub open spec fn find_config(s: Seq<GuildConfig>, community_id: u64) -> Option<GuildConfig>
    decreases s.len(),
{
    if s.len() == 0 {
        Option::None
    } else if s[0].community_id == community_id {
        Option::Some(s[0])
    } else {
        find_config(s.drop_first(), community_id)
    }
}

/// The configuration table, keyed by community.
pub struct ConfigStore {
    entries: Vec<GuildConfig>,
}

impl View for ConfigStore {
    type V = Seq<GuildConfig>;

    closed spec fn view(&self) -> Seq<GuildConfig> {
        self.entries@
    }
}

impl ConfigStore {
    /// An empty configuration table.
    pub fn new() -> (s: Self)
        ensures
            s@ == Seq::<GuildConfig>::empty(),
            configs_wf(s@),
    {
        let s = ConfigStore { entries: Vec::new() };
        proof {
            assert(s@ =~= Seq::<GuildConfig>::empty());
        }
        s
    }

    /// Record a community's configuration; refused when the community already
    /// has one, so a community never carries two.
    pub fn add(&mut self, cfg: GuildConfig) -> (r: bool)
        requires
            configs_wf(old(self)@),
        ensures
            configs_wf(final(self)@),
            match find_config(old(self)@, cfg.community_id) {
                Option::Some(_) => r == false && final(self)@ == old(self)@,
                Option::None => r == true && final(self)@ == old(self)@.push(cfg),
            },
    {
        match self.resolve(cfg.community_id) {
            Some(_) => false,
            None => {
                proof {
                    lemma_find_config_none_no_entry(self@, cfg.community_id);
                    assert forall|i: int, j: int|
                        0 <= i < j < self@.push(cfg).len() implies (#[trigger] self@.push(
                        cfg,
                    )[i]).community_id != (#[trigger] self@.push(cfg)[j]).community_id by {
                        assert(self@.push(cfg)[i] == self@[i]);
                        if j < self@.len() {
                            assert(self@.push(cfg)[j] == self@[j]);
                        } else {
                            assert(self@.push(cfg)[j] == cfg);
                        }
                    }
                }
                self.entries.push(cfg);
                true
            },
        }
    }

    /// Resolve a community's configuration. `None` means the community has no
    /// configured trigger — the event is to be ignored silently, not an error.
    pub fn resolve(&self, community_id: u64) -> (r: Option<GuildConfig>)
        ensures
            r == find_config(self@, community_id),
    {
        let n = self.entries.len();
        let mut i: usize = 0;
        proof {
            assert(self@.skip(0) =~= self@);
        }
        while i < n
            invariant
                n == self.entries.len(),
                i <= n,
                find_config(self@, community_id) == find_config(
                    self@.skip(i as int),
                    community_id,
                ),
            decreases n - i,
        {
            let entry = self.entries[i];
            proof {
                assert(self@.skip(i as int)[0] == self@[i as int]);
                assert(self@.skip(i as int).drop_first() =~= self@.skip(i + 1));
            }
            if entry.community_id == community_id {
                return Some(entry);
            }
            i += 1;
        }
        proof {
            assert(self@.skip(n as int) =~= Seq::<GuildConfig>::empty());
        }
        None
    }
}

/// If a community resolves to nothing, no entry carries it.
proof fn lemma_find_config_none_no_entry(s: Seq<GuildConfig>, community_id: u64)
    requires
        find_config(s, community_id) is None,
    ensures
        forall|i: int| 0 <= i < s.len() ==> (#[trigger] s[i]).community_id != community_id,
    decreases s.len(),
{
    if s.len() > 0 {
        lemma_find_config_none_no_entry(s.drop_first(), community_id);
        assert forall|i: int| 0 <= i < s.len() implies (#[trigger] s[i]).community_id
            != community_id by {
            if i > 0 {
                assert(s.drop_first()[i - 1] == s[i]);
            }
        }
    }
}

} // verus!
