//! The plugin registry: which plugins are loaded, their metadata and
//! status, and whether their dependencies are present. Reading plugin
//! descriptions from disk happens outside; the registry takes what was found.

use vstd::prelude::*;
use crate::clock::instant_elapsed_millis;
use crate::plugin::config::Config;
use crate::plugin::error::{Error, Result};
use crate::plugin::plugin::{PluginMetadata, PluginState, PluginStats, PluginStatus};
use crate::text::{str_debug, str_debug_text, str_equal, string_of};

verus! {

/// Whether `s` is a version that `semver::Version::parse` accepts.
pub uninterp spec fn semver_accepts(s: Seq<char>) -> bool;

/// Calls `semver::Version::parse` on `s` and says whether it succeeded.
/// Which strings it accepts is left to the `semver` crate and named
/// `semver_accepts`.
#[verifier::external_body]
fn semver_parses(s: &str) -> (r: bool)
    ensures
        r == semver_accepts(s@),
{
    semver::Version::parse(s).is_ok()
}

/// The strings of `ids`, each quoted and escaped as `{:?}` writes it,
/// separated by a comma and a space.
pub open spec fn quoted_items(ids: Seq<Seq<char>>) -> Seq<char>
    decreases ids.len(),
{
    if ids.len() == 0 {
        Seq::empty()
    } else if ids.len() == 1 {
        str_debug_text(ids[0])
    } else {
        quoted_items(ids.drop_last()) + ", "@ + str_debug_text(ids.last())
    }
}

/// A list of strings as `{:?}` writes it: the quoted strings between
/// brackets.
pub open spec fn ids_listing(ids: Seq<Seq<char>>) -> Seq<char> {
    "["@ + quoted_items(ids) + "]"@
}

/// Lists identifiers, each quoted, between brackets.
fn list_ids(ids: &Vec<String>) -> (r: String)
    ensures
        r@ == ids_listing(ids@.map_values(|s: String| s@)),
{
    let ghost v = ids@.map_values(|s: String| s@);
    let mut items = String::new();
    let mut i: usize = 0;
    proof {
        assert(v.subrange(0, 0) =~= Seq::<Seq<char>>::empty());
    }
    while i < ids.len()
        invariant
            i <= ids@.len(),
            v == ids@.map_values(|s: String| s@),
            items@ == quoted_items(v.subrange(0, i as int)),
        decreases ids.len() - i,
    {
        let ghost pre = v.subrange(0, i as int);
        let ghost cur = v.subrange(0, i as int + 1);
        assert(cur.drop_last() =~= pre);
        if i > 0 {
            items.append(", ");
        }
        let q = str_debug(ids[i].as_str());
        items.append(q.as_str());
        assert(cur.last() == v[i as int]);
        assert(items@ == quoted_items(cur)) by {
            if i == 0 {
                assert(cur.len() == 1);
            }
        }
        i = i + 1;
    }
    assert(v.subrange(0, i as int) =~= v);
    let mut r = string_of("[");
    r.append(items.as_str());
    r.append("]");
    r
}

/// The message with which metadata is rejected, or `None` when it is valid:
/// the identifier, the name and the version must not be empty, and the
/// version must be a semantic version.
pub open spec fn metadata_error(id: Seq<char>, name: Seq<char>, version: Seq<char>) -> Option<Seq<char>> {
    if id.len() == 0 {
        Some("Plugin ID cannot be empty"@)
    } else if name.len() == 0 {
        Some("Plugin name cannot be empty"@)
    } else if version.len() == 0 {
        Some("Plugin version cannot be empty"@)
    } else if !semver_accepts(version) {
        Some("Invalid version format: "@ + version)
    } else {
        None
    }
}

/// Checks plugin metadata.
pub fn validate_metadata(metadata: &PluginMetadata) -> (r: Result<()>)
    ensures
        match r {
            Ok(()) => metadata_error(metadata.id@, metadata.name@, metadata.version@) is None,
            Err(Error::Plugin(m)) => metadata_error(metadata.id@, metadata.name@, metadata.version@)
                == Some(m@),
        },
{
    if metadata.id.as_str().unicode_len() == 0 {
        return Err(Error::Plugin(string_of("Plugin ID cannot be empty")));
    }
    if metadata.name.as_str().unicode_len() == 0 {
        return Err(Error::Plugin(string_of("Plugin name cannot be empty")));
    }
    if metadata.version.as_str().unicode_len() == 0 {
        return Err(Error::Plugin(string_of("Plugin version cannot be empty")));
    }
    if !semver_parses(metadata.version.as_str()) {
        let mut m = string_of("Invalid version format: ");
        m.append(metadata.version.as_str());
        return Err(Error::Plugin(m));
    }
    Ok(())
}

/// Whether plugin `id` is among `plugins`.
pub open spec fn is_loaded(plugins: Seq<PluginMetadata>, id: Seq<char>) -> bool {
    exists|i: int| 0 <= i < plugins.len() && (#[trigger] plugins[i]).id@ == id
}

/// The plugins of `discovered` that a reload loads next to `start`, in
/// order: each whose metadata is valid and whose identifier is neither in
/// `start` nor taken by an earlier one of them.
pub open spec fn reload_added(start: Seq<PluginMetadata>, discovered: Seq<PluginMetadata>) -> Seq<PluginMetadata>
    decreases discovered.len(),
{
    if discovered.len() == 0 {
        Seq::empty()
    } else {
        let prev = reload_added(start, discovered.drop_last());
        let md = discovered.last();
        if metadata_error(md.id@, md.name@, md.version@) is None && !is_loaded(start, md.id@)
            && !is_loaded(prev, md.id@) {
            prev.push(md)
        } else {
            prev
        }
    }
}

proof fn lemma_loaded_concat(a: Seq<PluginMetadata>, b: Seq<PluginMetadata>, id: Seq<char>)
    ensures
        is_loaded(a + b, id) <==> is_loaded(a, id) || is_loaded(b, id),
{
    if is_loaded(a + b, id) {
        let i = choose|i: int| 0 <= i < (a + b).len() && (#[trigger] (a + b)[i]).id@ == id;
        if i < a.len() {
            assert(a[i] == (a + b)[i]);
        } else {
            assert(b[i - a.len()] == (a + b)[i]);
        }
    }
    if is_loaded(a, id) {
        let i = choose|i: int| 0 <= i < a.len() && (#[trigger] a[i]).id@ == id;
        assert((a + b)[i] == a[i]);
    }
    if is_loaded(b, id) {
        let i = choose|i: int| 0 <= i < b.len() && (#[trigger] b[i]).id@ == id;
        assert((a + b)[a.len() + i] == b[i]);
    }
}

/// The registry of loaded plugins.
pub struct PluginLoader {
    config: Config,
    plugins: Vec<PluginMetadata>,
    plugin_states: Vec<PluginStatus>,
    plugin_dir: String,
}

impl PluginLoader {
    /// The metadata of the loaded plugins, in load order.
    pub closed spec fn loaded(&self) -> Seq<PluginMetadata> {
        self.plugins@
    }

    /// The status of each loaded plugin, in the same order.
    pub closed spec fn statuses(&self) -> Seq<PluginStatus> {
        self.plugin_states@
    }

    /// The directory searched for plugins.
    pub closed spec fn dir(&self) -> Seq<char> {
        self.plugin_dir@
    }

    /// The registry's invariant: one entry per plugin, and the statuses line
    /// up with the metadata.
    pub open spec fn wf(&self) -> bool {
        &&& self.loaded().len() == self.statuses().len()
        &&& forall|i: int|
            0 <= i < self.loaded().len() ==> (#[trigger] self.statuses()[i]).plugin_id@
                == self.loaded()[i].id@
        &&& forall|i: int, j: int|
            0 <= i < self.loaded().len() && 0 <= j < self.loaded().len() && i != j
                ==> (#[trigger] self.loaded()[i]).id@ != (#[trigger] self.loaded()[j]).id@
    }

    /// An empty registry that searches `config.plugin_dir`.
    pub fn new(config: Config) -> (r: Self)
        ensures
            r.wf(),
            r.loaded().len() == 0,
            r.dir() == config.plugin_dir@,
    {
        let plugin_dir = config.plugin_dir.clone();
        PluginLoader { config, plugins: Vec::new(), plugin_states: Vec::new(), plugin_dir }
    }

    /// The directory searched for plugins.
    pub fn plugin_dir(&self) -> (r: &str)
        ensures
            r@ == self.dir(),
    {
        self.plugin_dir.as_str()
    }

    fn position(&self, plugin_id: &str) -> (r: Option<usize>)
        ensures
            r is None <==> !is_loaded(self.loaded(), plugin_id@),
            r matches Some(i) ==> i < self.loaded().len() && self.loaded()[i as int].id@ == plugin_id@,
    {
        let mut i: usize = 0;
        while i < self.plugins.len()
            invariant
                i <= self.plugins@.len(),
                forall|j: int| 0 <= j < i ==> (#[trigger] self.plugins@[j]).id@ != plugin_id@,
            decreases self.plugins.len() - i,
        {
            if str_equal(self.plugins[i].id.as_str(), plugin_id) {
                return Some(i);
            }
            i = i + 1;
        }
        None
    }

    fn not_found(plugin_id: &str) -> (r: Error)
        ensures
            r matches Error::Plugin(m) && m@ == "Plugin "@ + plugin_id@ + " not found"@,
    {
        let mut m = string_of("Plugin ");
        m.append(plugin_id);
        m.append(" not found");
        Error::Plugin(m)
    }

    /// Loads a plugin: its metadata must be valid and it must not be loaded
    /// yet; it gets a status in state `Loaded` with a load time of at least
    /// one millisecond.
    pub fn load_plugin(&mut self, metadata: PluginMetadata) -> (r: Result<()>)
        requires
            old(self).wf(),
        ensures
            final(self).wf(),
            final(self).dir() == old(self).dir(),
            r is Ok <==> metadata_error(metadata.id@, metadata.name@, metadata.version@) is None
                && !is_loaded(old(self).loaded(), metadata.id@),
            r matches Err(Error::Plugin(m)) ==> final(self).loaded() == old(self).loaded()
                && final(self).statuses() == old(self).statuses() && m@ == match metadata_error(
                metadata.id@,
                metadata.name@,
                metadata.version@,
            ) {
                Some(e) => e,
                None => "Plugin "@ + metadata.id@ + " is already loaded"@,
            },
            r is Ok ==> final(self).loaded() == old(self).loaded().push(metadata)
                && final(self).statuses().drop_last() == old(self).statuses()
                && final(self).statuses().last().plugin_id@ == metadata.id@
                && final(self).statuses().last().state == PluginState::Loaded
                && final(self).statuses().last().error_message is None
                && final(self).statuses().last().stats == (PluginStats {
                load_time_ms: final(self).statuses().last().stats.load_time_ms,
                ..PluginStats::zero()
            }) && final(self).statuses().last().stats.load_time_ms > 0,
    {
        validate_metadata(&metadata)?;
        if self.position(metadata.id.as_str()).is_some() {
            let mut m = string_of("Plugin ");
            m.append(metadata.id.as_str());
            m.append(" is already loaded");
            return Err(Error::Plugin(m));
        }
        let mut status = PluginStatus::new(metadata.id.clone());
        status.update_state(PluginState::Loaded);
        let elapsed = instant_elapsed_millis();
        status.stats.load_time_ms = if elapsed == 0 {
            1
        } else {
            elapsed
        };
        let ghost id = metadata.id@;
        self.plugins.push(metadata);
        self.plugin_states.push(status);
        assert(self.plugin_states@.drop_last() =~= old(self).plugin_states@);
        assert forall|i: int, j: int|
            0 <= i < self.loaded().len() && 0 <= j < self.loaded().len() && i != j implies (
            #[trigger] self.loaded()[i]).id@ != (#[trigger] self.loaded()[j]).id@ by {
            if i == self.loaded().len() - 1 {
                assert(old(self).loaded()[j] == self.loaded()[j]);
            } else if j == self.loaded().len() - 1 {
                assert(old(self).loaded()[i] == self.loaded()[i]);
            } else {
                assert(old(self).loaded()[i] == self.loaded()[i]);
                assert(old(self).loaded()[j] == self.loaded()[j]);
            }
        }
        Ok(())
    }

    /// Unloads a plugin; fails when it is not loaded.
    pub fn unload_plugin(&mut self, plugin_id: &str) -> (r: Result<()>)
        requires
            old(self).wf(),
        ensures
            final(self).wf(),
            final(self).dir() == old(self).dir(),
            r is Ok <==> is_loaded(old(self).loaded(), plugin_id@),
            r matches Err(Error::Plugin(m)) ==> m@ == "Plugin "@ + plugin_id@ + " is not loaded"@
                && final(self).loaded() == old(self).loaded() && final(self).statuses() == old(
                self,
            ).statuses(),
            r is Ok ==> exists|i: int|
                0 <= i < old(self).loaded().len() && (#[trigger] old(self).loaded()[i]).id@
                    == plugin_id@ && final(self).loaded() == old(self).loaded().remove(i)
                    && final(self).statuses() == old(self).statuses().remove(i),
            !is_loaded(final(self).loaded(), plugin_id@),
    {
        let i = match self.position(plugin_id) {
            Some(i) => i,
            None => {
                let mut m = string_of("Plugin ");
                m.append(plugin_id);
                m.append(" is not loaded");
                return Err(Error::Plugin(m));
            },
        };
        let ghost before = self.plugins@;
        let ghost before_states = self.plugin_states@;
        let _ = self.plugins.remove(i);
        let mut status = self.plugin_states.remove(i);
        status.update_state(PluginState::Unloaded);
        assert(self.plugins@ == before.remove(i as int));
        assert forall|k: int| 0 <= k < self.plugins@.len() implies (#[trigger] self.plugins@[k]).id@
            != plugin_id@ by {
            if k < i {
                assert(self.plugins@[k] == before[k]);
            } else {
                assert(self.plugins@[k] == before[k + 1]);
            }
        }
        assert forall|a: int| 0 <= a < self.loaded().len() implies (#[trigger] self.statuses()[a]).plugin_id@
            == self.loaded()[a].id@ by {
            if a < i {
                assert(self.plugins@[a] == before[a]);
                assert(self.plugin_states@[a] == before_states[a]);
            } else {
                assert(self.plugins@[a] == before[a + 1]);
                assert(self.plugin_states@[a] == before_states[a + 1]);
            }
        }
        assert forall|a: int, b: int|
            0 <= a < self.loaded().len() && 0 <= b < self.loaded().len() && a != b implies (
            #[trigger] self.loaded()[a]).id@ != (#[trigger] self.loaded()[b]).id@ by {
            let a2 = if a < i { a } else { a + 1 };
            let b2 = if b < i { b } else { b + 1 };
            assert(self.loaded()[a] == before[a2]);
            assert(self.loaded()[b] == before[b2]);
        }
        Ok(())
    }

    /// The metadata of a loaded plugin.
    pub fn get_plugin_metadata(&self, plugin_id: &str) -> (r: Result<&PluginMetadata>)
        ensures
            r is Ok <==> is_loaded(self.loaded(), plugin_id@),
            r matches Ok(m) ==> m.id@ == plugin_id@ && self.loaded().contains(*m),
            r matches Err(Error::Plugin(m)) ==> m@ == "Plugin "@ + plugin_id@ + " not found"@,
    {
        match self.position(plugin_id) {
            Some(i) => Ok(&self.plugins[i]),
            None => Err(Self::not_found(plugin_id)),
        }
    }

    /// The status of a loaded plugin.
    pub fn get_plugin_status(&self, plugin_id: &str) -> (r: Result<&PluginStatus>)
        requires
            self.wf(),
        ensures
            r is Ok <==> is_loaded(self.loaded(), plugin_id@),
            r matches Ok(s) ==> s.plugin_id@ == plugin_id@ && self.statuses().contains(*s),
            r matches Err(Error::Plugin(m)) ==> m@ == "Plugin "@ + plugin_id@ + " not found"@,
    {
        match self.position(plugin_id) {
            Some(i) => Ok(&self.plugin_states[i]),
            None => Err(Self::not_found(plugin_id)),
        }
    }

    /// The statistics of a loaded plugin.
    pub fn get_plugin_stats(&self, plugin_id: &str) -> (r: Result<PluginStats>)
        requires
            self.wf(),
        ensures
            r is Ok <==> is_loaded(self.loaded(), plugin_id@),
            r matches Ok(st) ==> exists|i: int|
                0 <= i < self.statuses().len() && (#[trigger] self.statuses()[i]).plugin_id@
                    == plugin_id@ && self.statuses()[i].stats == st,
            r matches Err(Error::Plugin(m)) ==> m@ == "Plugin "@ + plugin_id@ + " not found"@,
    {
        match self.position(plugin_id) {
            Some(i) => Ok(self.plugin_states[i].stats),
            None => Err(Self::not_found(plugin_id)),
        }
    }

    /// The metadata of every loaded plugin.
    pub fn list_plugins(&self) -> (r: &Vec<PluginMetadata>)
        ensures
            r@ == self.loaded(),
    {
        &self.plugins
    }

    /// The status of every loaded plugin.
    pub fn get_all_plugin_statuses(&self) -> (r: &Vec<PluginStatus>)
        ensures
            r@ == self.statuses(),
    {
        &self.plugin_states
    }

    /// The dependencies of a loaded plugin that are not loaded, in the order
    /// the plugin lists them; fails when the plugin is unknown or when any is
    /// missing.
    pub fn check_dependencies(&self, plugin_id: &str) -> (r: Result<Vec<String>>)
        requires
            self.wf(),
        ensures
            !is_loaded(self.loaded(), plugin_id@) ==> (r matches Err(Error::Plugin(m)) && m@
                == "Plugin "@ + plugin_id@ + " not found"@),
            is_loaded(self.loaded(), plugin_id@) ==> exists|i: int|
                0 <= i < self.loaded().len() && (#[trigger] self.loaded()[i]).id@ == plugin_id@
                    && (r is Ok <==> forall|k: int|
                    0 <= k < self.loaded()[i].dependencies@.len() ==> is_loaded(
                        self.loaded(),
                        #[trigger] self.loaded()[i].dependencies@[k]@,
                    )),
            r matches Ok(v) ==> v@.len() == 0,
            forall|i: int|
                0 <= i < self.loaded().len() && (#[trigger] self.loaded()[i]).id@ == plugin_id@
                    ==> (r matches Err(Error::Plugin(m)) ==> m@ == "Plugin "@ + plugin_id@
                    + " has missing dependencies: "@ + ids_listing(
                    self.loaded()[i].dependencies@.map_values(|s: String| s@).filter(
                        |d: Seq<char>| !is_loaded(self.loaded(), d),
                    ),
                )),
    {
        let i = match self.position(plugin_id) {
            Some(i) => i,
            None => {
                return Err(Self::not_found(plugin_id));
            },
        };
        let deps = &self.plugins[i].dependencies;
        let ghost names = deps@.map_values(|s: String| s@);
        let ghost pred = |d: Seq<char>| !is_loaded(self.loaded(), d);
        let mut missing: Vec<String> = Vec::new();
        let mut k: usize = 0;
        while k < deps.len()
            invariant
                k <= deps@.len(),
                *deps == self.plugins@[i as int].dependencies,
                i < self.plugins@.len(),
                names == deps@.map_values(|s: String| s@),
                pred == (|d: Seq<char>| !is_loaded(self.loaded(), d)),
                missing@.map_values(|s: String| s@) == names.subrange(0, k as int).filter(pred),
                missing@.len() == 0 <==> forall|j: int|
                    0 <= j < k ==> is_loaded(self.loaded(), #[trigger] deps@[j]@),
            decreases deps.len() - k,
        {
            proof {
                assert(names.subrange(0, k as int + 1) =~= names.subrange(0, k as int).push(names[k as int]));
                names.subrange(0, k as int).lemma_filter_push(names[k as int], pred);
            }
            if self.position(deps[k].as_str()).is_none() {
                let ghost before = missing@;
                missing.push(deps[k].clone());
                assert(missing@.map_values(|s: String| s@) =~= before.map_values(|s: String| s@).push(deps@[k as int]@));
            }
            k = k + 1;
        }
        assert(names.subrange(0, deps@.len() as int) =~= names);
        proof {
            assert forall|j: int|
                0 <= j < self.loaded().len() && (#[trigger] self.loaded()[j]).id@ == plugin_id@ implies j == i by {
                if j != i {
                    assert(self.plugins@[j].id@ != self.plugins@[i as int].id@);
                }
            }
        }
        if missing.len() > 0 {
            let mut m = string_of("Plugin ");
            m.append(plugin_id);
            m.append(" has missing dependencies: ");
            let listing = list_ids(&missing);
            m.append(listing.as_str());
            return Err(Error::Plugin(m));
        }
        Ok(missing)
    }

    /// Loads each discovered plugin that was not loaded before the call, in
    /// order, and returns the identifiers of those that loaded; a plugin
    /// that fails to load (invalid metadata, or an identifier that an
    /// earlier one of them took) is skipped.
    #[verifier::rlimit(30)]
    pub fn hot_reload(&mut self, discovered: Vec<PluginMetadata>) -> (r: Result<Vec<String>>)
        requires
            old(self).wf(),
        ensures
            final(self).wf(),
            final(self).dir() == old(self).dir(),
            final(self).loaded() == old(self).loaded() + reload_added(old(self).loaded(), discovered@),
            r matches Ok(ids) && ids@.len() == reload_added(old(self).loaded(), discovered@).len()
                && forall|k: int|
                0 <= k < ids@.len() ==> (#[trigger] ids@[k])@ == reload_added(
                    old(self).loaded(),
                    discovered@,
                )[k].id@,
    {
        let ghost start = self.plugins@;
        let n0 = self.plugins.len();
        let mut reloaded: Vec<String> = Vec::new();
        let mut rest = discovered;
        let ghost all = rest@;
        let mut i: usize = 0;
        let n = rest.len();
        assert(start + reload_added(start, all.subrange(0, 0)) =~= start);
        while i < n
            invariant
                self.wf(),
                n == all.len(),
                i <= n,
                n0 == start.len(),
                rest@ == all.subrange(i as int, n as int),
                self.loaded() == start + reload_added(start, all.subrange(0, i as int)),
                reloaded@.len() == reload_added(start, all.subrange(0, i as int)).len(),
                forall|k: int|
                    0 <= k < reloaded@.len() ==> (#[trigger] reloaded@[k])@ == reload_added(
                        start,
                        all.subrange(0, i as int),
                    )[k].id@,
                self.dir() == old(self).dir(),
            decreases n - i,
        {
            let ghost prev = reload_added(start, all.subrange(0, i as int));
            let ghost cur = all.subrange(0, i as int + 1);
            assert(cur.drop_last() =~= all.subrange(0, i as int));
            let metadata = rest.remove(0);
            assert(metadata == all[i as int]);
            assert(cur.last() == metadata);
            assert(rest@ =~= all.subrange(i as int + 1, n as int));
            let mut known = false;
            let mut j: usize = 0;
            let ghost snap = self.plugins@;
            let ghost snap_st = self.plugin_states@;
            let ghost snap_dir = self.plugin_dir@;
            while j < n0
                invariant
                    self.plugins@ == snap,
                    self.plugin_states@ == snap_st,
                    self.plugin_dir@ == snap_dir,
                    j <= n0,
                    n0 <= self.plugins@.len(),
                    self.plugins@.subrange(0, n0 as int) == start,
                    known <==> exists|q: int| 0 <= q < j && (#[trigger] start[q]).id@ == metadata.id@,
                decreases n0 - j,
            {
                assert(self.plugins@[j as int] == start[j as int]);
                if str_equal(self.plugins[j].id.as_str(), metadata.id.as_str()) {
                    known = true;
                }
                j = j + 1;
            }
            proof {
                assert(self.plugins@.subrange(0, n0 as int) =~= start) by {
                    assert((start + prev).subrange(0, n0 as int) =~= start);
                }
                assert(known == is_loaded(start, metadata.id@));
                lemma_loaded_concat(start, prev, metadata.id@);
            }
            if !known {
                let id = metadata.id.clone();
                let ghost md = metadata;
                let ghost rel0 = reloaded@;
                match self.load_plugin(metadata) {
                    Ok(()) => {
                        reloaded.push(id);
                        assert(reload_added(start, cur) == prev.push(md));
                        assert(self.loaded() =~= start + prev.push(md));
                        assert forall|k: int|
                            0 <= k < reloaded@.len() implies (#[trigger] reloaded@[k])@ == prev.push(md)[k].id@ by {
                            if k < reloaded@.len() - 1 {
                                assert(reloaded@[k] == rel0[k]);
                            }
                        }
                    },
                    Err(_) => {
                        assert(reload_added(start, cur) == prev);
                    },
                }
            } else {
                assert(reload_added(start, cur) == prev);
            }
            i = i + 1;
        }
        assert(all.subrange(0, n as int) =~= all);
        Ok(reloaded)
    }
}

} // verus!
