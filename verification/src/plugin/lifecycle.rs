//! Plugin lifecycle: the allowed state changes (initialize, start, stop,
//! pause, resume, reset) and the events they emit.
//!
//! The manager keeps the events it emits in order; whoever drives it takes
//! them with `take_events` and hands them to the listeners.

use vstd::prelude::*;
use crate::clock::{instant_elapsed_millis, wall_clock_millis};
use crate::plugin::error::{Error, Result};
use crate::plugin::plugin::{state_name, state_name_spec, PluginState, PluginStats, PluginStatus};
use crate::text::{decimal, decimal_string, has_prefix, str_debug, str_debug_text, str_equal, string_of};

verus! {

/// An event in the life of a plugin.
#[derive(Debug, Clone)]
pub enum LifecycleEvent {
    /// The plugin was loaded.
    Loaded { plugin_id: String },
    /// The plugin was initialized.
    Initialized { plugin_id: String },
    /// The plugin was started.
    Started { plugin_id: String },
    /// The plugin was stopped.
    Stopped { plugin_id: String },
    /// The plugin was paused.
    Paused { plugin_id: String },
    /// The plugin was resumed.
    Resumed { plugin_id: String },
    /// The plugin was unloaded.
    Unloaded { plugin_id: String },
    /// The plugin failed.
    Error { plugin_id: String, error: String },
}

/// A change of state that a caller can ask for.
#[derive(Debug, Clone, Copy, PartialEq, Eq, Structural)]
pub enum Transition {
    /// `Loaded` to `Initialized`.
    Initialize,
    /// `Initialized` or `Paused` to `Running`.
    Start,
    /// `Running` to `Initialized`.
    Stop,
    /// `Running` to `Paused`.
    Pause,
    /// `Paused` to `Running`.
    Resume,
}

/// The state that `op` leads to from `s`, or `None` when `op` is refused there.
pub open spec fn transition_target(op: Transition, s: PluginState) -> Option<PluginState> {
    match (op, s) {
        (Transition::Initialize, PluginState::Loaded) => Some(PluginState::Initialized),
        (Transition::Start, PluginState::Initialized) => Some(PluginState::Running),
        (Transition::Start, PluginState::Paused) => Some(PluginState::Running),
        (Transition::Stop, PluginState::Running) => Some(PluginState::Initialized),
        (Transition::Pause, PluginState::Running) => Some(PluginState::Paused),
        (Transition::Resume, PluginState::Paused) => Some(PluginState::Running),
        _ => None,
    }
}

/// The verb of `op` in refusal messages.
pub open spec fn verb(op: Transition) -> Seq<char> {
    match op {
        Transition::Initialize => "initialize"@,
        Transition::Start => "start"@,
        Transition::Stop => "stop"@,
        Transition::Pause => "pause"@,
        Transition::Resume => "resume"@,
    }
}

/// The message with which `op` is refused for plugin `id` in state `s`.
pub open spec fn refusal_message(op: Transition, id: Seq<char>, s: PluginState) -> Seq<char> {
    match (op, s) {
        (Transition::Initialize, PluginState::Initialized) => "Plugin "@ + id
            + " is already initialized"@,
        (Transition::Initialize, PluginState::Error) => "Cannot initialize plugin in error state"@,
        (Transition::Start, PluginState::Running) => "Plugin "@ + id + " is already running"@,
        (Transition::Stop, PluginState::Initialized) => "Plugin "@ + id + " is not running"@,
        (Transition::Stop, PluginState::Loaded) => "Plugin "@ + id + " is not running"@,
        (Transition::Stop, PluginState::Unloaded) => "Plugin "@ + id + " is not running"@,
        (Transition::Pause, PluginState::Paused) => "Plugin "@ + id + " is already paused"@,
        (Transition::Resume, PluginState::Running) => "Plugin "@ + id + " is already running"@,
        _ => "Plugin "@ + id + " is in state "@ + state_name_spec(s) + ", cannot "@ + verb(op),
    }
}

/// The message for a plugin that is not managed.
pub open spec fn not_found_message(id: Seq<char>) -> Seq<char> {
    "Plugin "@ + id + " not found"@
}

/// Whether `e` is the event that a successful `op` emits for plugin `id`.
pub open spec fn transition_event(op: Transition, id: Seq<char>, e: LifecycleEvent) -> bool {
    match op {
        Transition::Initialize => e matches LifecycleEvent::Initialized { plugin_id } && plugin_id@
            == id,
        Transition::Start => e matches LifecycleEvent::Started { plugin_id } && plugin_id@ == id,
        Transition::Stop => e matches LifecycleEvent::Stopped { plugin_id } && plugin_id@ == id,
        Transition::Pause => e matches LifecycleEvent::Paused { plugin_id } && plugin_id@ == id,
        Transition::Resume => e matches LifecycleEvent::Resumed { plugin_id } && plugin_id@ == id,
    }
}

/// Whether `i` is the first position in `s` of plugin `id`.
pub open spec fn is_first(s: Seq<PluginStatus>, id: Seq<char>, i: int) -> bool {
    &&& 0 <= i < s.len()
    &&& s[i].plugin_id@ == id
    &&& forall|j: int| 0 <= j < i ==> (#[trigger] s[j]).plugin_id@ != id
}

/// Whether plugin `id` is managed.
pub open spec fn has_plugin(s: Seq<PluginStatus>, id: Seq<char>) -> bool {
    exists|i: int| 0 <= i < s.len() && (#[trigger] s[i]).plugin_id@ == id
}

/// Whether `after` is `before` with only the entry at `i` changed.
pub open spec fn only_changed_at(before: Seq<PluginStatus>, after: Seq<PluginStatus>, i: int) -> bool {
    &&& after.len() == before.len()
    &&& forall|j: int| 0 <= j < before.len() && j != i ==> #[trigger] after[j] == before[j]
}

/// Whether `after` is `before` after `op` succeeded on plugin `id`.
pub open spec fn step_ok(op: Transition, id: Seq<char>, before: Seq<PluginStatus>, after: Seq<PluginStatus>) -> bool {
    exists|i: int|
        is_first(before, id, i) && #[trigger] transition_target(op, before[i].state) == Some(
            after[i].state,
        ) && only_changed_at(before, after, i) && after[i].plugin_id == before[i].plugin_id
            && after[i].error_message == before[i].error_message && (op != Transition::Initialize
            ==> after[i].stats == before[i].stats) && (op == Transition::Initialize ==> after[i].stats
            == (PluginStats { init_time_ms: after[i].stats.init_time_ms, ..before[i].stats })
            && after[i].stats.init_time_ms > 0)
}

/// Whether `op` on plugin `id` is refused in `s`: the plugin is unknown, or
/// its state does not allow `op`.
pub open spec fn step_fails(op: Transition, id: Seq<char>, s: Seq<PluginStatus>) -> bool {
    ||| !has_plugin(s, id)
    ||| exists|i: int| is_first(s, id, i) && transition_target(op, #[trigger] s[i].state) is None
}

/// Whether `m` is the message with which `op` on plugin `id` is refused in `s`.
pub open spec fn refused_with(op: Transition, id: Seq<char>, s: Seq<PluginStatus>, m: Seq<char>) -> bool {
    &&& !has_plugin(s, id) ==> m == not_found_message(id)
    &&& forall|i: int|
        is_first(s, id, i) ==> transition_target(op, #[trigger] s[i].state) is None && m
            == refusal_message(op, id, s[i].state)
}

/// Whether `after` is one event longer than `before` and that event satisfies `ok`.
pub open spec fn emitted_one(before: Seq<LifecycleEvent>, after: Seq<LifecycleEvent>) -> bool {
    after.len() == before.len() + 1 && after.drop_last() == before
}

/// Keeps the status of each plugin and moves it through its lifecycle.
pub struct PluginLifecycleManager {
    plugin_states: Vec<PluginStatus>,
    events: Vec<LifecycleEvent>,
}

/// What `apply(op, id)` does: it fails exactly when `step_fails`, and then
/// changes nothing and says why; otherwise it changes the plugin's state and
/// emits the event.
pub open spec fn transition_outcome(
    op: Transition,
    id: Seq<char>,
    b: PluginLifecycleManager,
    a: PluginLifecycleManager,
    r: Result<()>,
) -> bool {
    &&& r is Err <==> step_fails(op, id, b.statuses())
    &&& match r {
        Ok(()) => {
            &&& step_ok(op, id, b.statuses(), a.statuses())
            &&& emitted_one(b.pending(), a.pending())
            &&& transition_event(op, id, a.pending().last())
        },
        Err(Error::Plugin(m)) => {
            &&& a.statuses() == b.statuses()
            &&& a.pending() == b.pending()
            &&& refused_with(op, id, b.statuses(), m@)
        },
    }
}

/// One step of a batch: a refused step changes nothing, a successful one is
/// a step of `apply`.
pub open spec fn batch_step(op: Transition, id: Seq<char>, b: PluginLifecycleManager, a: PluginLifecycleManager) -> bool {
    if step_fails(op, id, b.statuses()) {
        a.statuses() == b.statuses() && a.pending() == b.pending()
    } else {
        &&& step_ok(op, id, b.statuses(), a.statuses())
        &&& emitted_one(b.pending(), a.pending())
        &&& transition_event(op, id, a.pending().last())
    }
}

/// Whether `trace` is the run of `op` over `ids` in order, one step each.
pub open spec fn batch_run(op: Transition, ids: Seq<String>, trace: Seq<PluginLifecycleManager>) -> bool {
    &&& trace.len() == ids.len() + 1
    &&& forall|k: int| 0 <= k < ids.len() ==> batch_step(op, ids[k]@, #[trigger] trace[k], trace[k + 1])
}

/// How many of the first `n` steps of the run were refused.
pub open spec fn batch_failures(op: Transition, ids: Seq<String>, trace: Seq<PluginLifecycleManager>, n: int) -> nat
    decreases n,
{
    if n <= 0 {
        0
    } else {
        batch_failures(op, ids, trace, n - 1) + if step_fails(op, ids[n - 1]@, trace[n - 1].statuses()) {
            1nat
        } else {
            0nat
        }
    }
}

/// The failures of a batch as plain values: each plugin identifier with the
/// text of its error.
pub open spec fn failure_views(v: Seq<(String, Error)>) -> Seq<(Seq<char>, Seq<char>)> {
    v.map_values(|f: (String, Error)| (f.0@, match f.1 {
        Error::Plugin(m) => m@,
    }))
}

/// How one failure is listed: the plugin identifier and `Plugin` with the
/// error's text, each string quoted and escaped as `{:?}` writes it.
pub open spec fn failure_text(f: (Seq<char>, Seq<char>)) -> Seq<char> {
    "("@ + str_debug_text(f.0) + ", Plugin("@ + str_debug_text(f.1) + "))"@
}

/// The failures listed one after another, separated by a comma and a space.
pub open spec fn failure_items(v: Seq<(Seq<char>, Seq<char>)>) -> Seq<char>
    decreases v.len(),
{
    if v.len() == 0 {
        Seq::empty()
    } else if v.len() == 1 {
        failure_text(v[0])
    } else {
        failure_items(v.drop_last()) + ", "@ + failure_text(v.last())
    }
}

/// The list of failures between brackets.
pub open spec fn failures_listing(v: Seq<(Seq<char>, Seq<char>)>) -> Seq<char> {
    "["@ + failure_items(v) + "]"@
}

/// Lists the failures of a batch, each plugin identifier with its error.
fn list_failures(failures: &Vec<(String, Error)>) -> (r: String)
    ensures
        r@ == failures_listing(failure_views(failures@)),
{
    let ghost v = failure_views(failures@);
    let mut items = String::new();
    let mut i: usize = 0;
    proof {
        assert(v.subrange(0, 0) =~= Seq::<(Seq<char>, Seq<char>)>::empty());
    }
    while i < failures.len()
        invariant
            i <= failures@.len(),
            v == failure_views(failures@),
            items@ == failure_items(v.subrange(0, i as int)),
        decreases failures.len() - i,
    {
        let ghost pre = v.subrange(0, i as int);
        let ghost cur = v.subrange(0, i as int + 1);
        assert(cur.drop_last() =~= pre);
        if i > 0 {
            items.append(", ");
        }
        items.append("(");
        let id = str_debug(failures[i].0.as_str());
        items.append(id.as_str());
        items.append(", Plugin(");
        let text = match &failures[i].1 {
            Error::Plugin(m) => str_debug(m.as_str()),
        };
        items.append(text.as_str());
        items.append("))");
        assert(cur.last() == v[i as int]);
        assert(items@ == failure_items(cur)) by {
            if i == 0 {
                assert(cur.len() == 1);
            }
        }
        i = i + 1;
    }
    assert(v.subrange(0, i as int) =~= v);
    let mut r = string_of("[");
    r.append(items.as_str());
    r.append("]");
    r
}

impl PluginLifecycleManager {
    /// The statuses, in the order the plugins were added.
    pub closed spec fn statuses(&self) -> Seq<PluginStatus> {
        self.plugin_states@
    }

    /// The events emitted and not yet taken, oldest first.
    pub closed spec fn pending(&self) -> Seq<LifecycleEvent> {
        self.events@
    }

    /// A manager with no plugins and no events.
    pub fn new() -> (r: Self)
        ensures
            r.statuses().len() == 0,
            r.pending().len() == 0,
    {
        PluginLifecycleManager { plugin_states: Vec::new(), events: Vec::new() }
    }

    /// Takes the emitted events, oldest first.
    pub fn take_events(&mut self) -> (r: Vec<LifecycleEvent>)
        ensures
            r@ == old(self).pending(),
            final(self).pending().len() == 0,
            final(self).statuses() == old(self).statuses(),
    {
        let mut taken: Vec<LifecycleEvent> = Vec::new();
        std::mem::swap(&mut taken, &mut self.events);
        taken
    }

    fn position(&self, plugin_id: &str) -> (r: Option<usize>)
        ensures
            r is None <==> !has_plugin(self.statuses(), plugin_id@),
            r matches Some(i) ==> is_first(self.statuses(), plugin_id@, i as int),
    {
        let mut i: usize = 0;
        while i < self.plugin_states.len()
            invariant
                i <= self.plugin_states@.len(),
                forall|j: int| 0 <= j < i ==> (#[trigger] self.plugin_states@[j]).plugin_id@ != plugin_id@,
            decreases self.plugin_states.len() - i,
        {
            if str_equal(self.plugin_states[i].plugin_id.as_str(), plugin_id) {
                return Some(i);
            }
            i = i + 1;
        }
        None
    }

    fn not_found(plugin_id: &str) -> (r: Error)
        ensures
            r matches Error::Plugin(m) && m@ == not_found_message(plugin_id@),
    {
        let mut m = string_of("Plugin ");
        m.append(plugin_id);
        m.append(" not found");
        Error::Plugin(m)
    }

    /// Adds a plugin's status and emits `Loaded`.
    pub fn add_plugin(&mut self, status: PluginStatus)
        ensures
            final(self).statuses() == old(self).statuses().push(status),
            final(self).pending().len() == old(self).pending().len() + 1,
            final(self).pending().drop_last() == old(self).pending(),
            final(self).pending().last() matches LifecycleEvent::Loaded { plugin_id } && plugin_id@
                == status.plugin_id@,
    {
        let plugin_id = status.plugin_id.clone();
        self.plugin_states.push(status);
        self.events.push(LifecycleEvent::Loaded { plugin_id });
        assert(self.events@.drop_last() =~= old(self).events@);
    }

    /// Removes every status of `plugin_id` and emits `Unloaded`.
    pub fn remove_plugin(&mut self, plugin_id: &str) -> (r: Result<()>)
        ensures
            r is Ok,
            final(self).statuses() == old(self).statuses().filter(
                |s: PluginStatus| s.plugin_id@ != plugin_id@,
            ),
            final(self).pending().len() == old(self).pending().len() + 1,
            final(self).pending().drop_last() == old(self).pending(),
            final(self).pending().last() matches LifecycleEvent::Unloaded { plugin_id: p } && p@
                == plugin_id@,
    {
        let mut kept: Vec<PluginStatus> = Vec::new();
        let mut rest: Vec<PluginStatus> = Vec::new();
        std::mem::swap(&mut rest, &mut self.plugin_states);
        let ghost all = rest@;
        let ghost keep = |s: PluginStatus| s.plugin_id@ != plugin_id@;
        let n = rest.len();
        let mut i: usize = 0;
        while i < n
            invariant
                n == all.len(),
                i <= n,
                rest@ == all.subrange(i as int, n as int),
                kept@ == all.subrange(0, i as int).filter(keep),
                keep == (|s: PluginStatus| s.plugin_id@ != plugin_id@),
            decreases n - i,
        {
            let st = rest.remove(0);
            proof {
                assert(st == all[i as int]);
                assert(all.subrange(0, i as int + 1) =~= all.subrange(0, i as int).push(all[i as int]));
                all.subrange(0, i as int).lemma_filter_push(all[i as int], keep);
                assert(rest@ =~= all.subrange(i as int + 1, n as int));
            }
            if !str_equal(st.plugin_id.as_str(), plugin_id) {
                kept.push(st);
            }
            i = i + 1;
        }
        assert(all.subrange(0, n as int) == all);
        self.plugin_states = kept;
        self.events.push(LifecycleEvent::Unloaded { plugin_id: string_of(plugin_id) });
        assert(self.events@.drop_last() =~= old(self).events@);
        Ok(())
    }

    fn refusal(op: Transition, plugin_id: &str, s: PluginState) -> (r: Error)
        requires
            transition_target(op, s) is None,
        ensures
            r matches Error::Plugin(m) && m@ == refusal_message(op, plugin_id@, s),
    {
        let mut m = string_of("Plugin ");
        m.append(plugin_id);
        match (op, s) {
            (Transition::Initialize, PluginState::Initialized) => {
                m.append(" is already initialized");
            },
            (Transition::Initialize, PluginState::Error) => {
                m = string_of("Cannot initialize plugin in error state");
            },
            (Transition::Start, PluginState::Running) | (Transition::Resume, PluginState::Running) => {
                m.append(" is already running");
            },
            (Transition::Stop, PluginState::Initialized)
            | (Transition::Stop, PluginState::Loaded)
            | (Transition::Stop, PluginState::Unloaded) => {
                m.append(" is not running");
            },
            (Transition::Pause, PluginState::Paused) => {
                m.append(" is already paused");
            },
            _ => {
                m.append(" is in state ");
                m.append(state_name(s));
                m.append(", cannot ");
                m.append(
                    match op {
                        Transition::Initialize => "initialize",
                        Transition::Start => "start",
                        Transition::Stop => "stop",
                        Transition::Pause => "pause",
                        Transition::Resume => "resume",
                    },
                );
            },
        }
        Error::Plugin(m)
    }

    fn event_of(op: Transition, plugin_id: &str) -> (e: LifecycleEvent)
        ensures
            transition_event(op, plugin_id@, e),
    {
        let plugin_id = string_of(plugin_id);
        match op {
            Transition::Initialize => LifecycleEvent::Initialized { plugin_id },
            Transition::Start => LifecycleEvent::Started { plugin_id },
            Transition::Stop => LifecycleEvent::Stopped { plugin_id },
            Transition::Pause => LifecycleEvent::Paused { plugin_id },
            Transition::Resume => LifecycleEvent::Resumed { plugin_id },
        }
    }

    /// Applies `op` to the first status of `plugin_id`: on success the state
    /// moves to `transition_target`, the time is stamped and the event is
    /// emitted; a refused or unknown plugin leaves everything unchanged.
    pub fn apply(&mut self, op: Transition, plugin_id: &str) -> (r: Result<()>)
        ensures
            transition_outcome(op, plugin_id@, *old(self), *final(self), r),
    {
        let i = match self.position(plugin_id) {
            Some(i) => i,
            None => {
                return Err(Self::not_found(plugin_id));
            },
        };
        let state = self.plugin_states[i].state;
        let target = match (op, state) {
            (Transition::Initialize, PluginState::Loaded) => PluginState::Initialized,
            (Transition::Start, PluginState::Initialized) => PluginState::Running,
            (Transition::Start, PluginState::Paused) => PluginState::Running,
            (Transition::Stop, PluginState::Running) => PluginState::Initialized,
            (Transition::Pause, PluginState::Running) => PluginState::Paused,
            (Transition::Resume, PluginState::Paused) => PluginState::Running,
            _ => {
                proof {
                    assert forall|k: int| is_first(self.plugin_states@, plugin_id@, k) implies k
                        == i by {
                        if k < i {
                            assert(self.plugin_states@[k].plugin_id@ != plugin_id@);
                        } else if k > i {
                            assert(self.plugin_states@[i as int].plugin_id@ != plugin_id@);
                        }
                    }
                }
                return Err(Self::refusal(op, plugin_id, state));
            },
        };
        let ghost before = self.plugin_states@;
        let mut st = self.plugin_states.remove(i);
        st.update_state(target);
        if op == Transition::Initialize {
            let elapsed = instant_elapsed_millis();
            st.stats.init_time_ms = if elapsed == 0 {
                1
            } else {
                elapsed
            };
        }
        self.plugin_states.insert(i, st);
        proof {
            assert forall|j: int| 0 <= j < before.len() && j != i implies #[trigger] self.plugin_states@[j]
                == before[j] by {
                if j < i {
                } else {
                }
            }
        }
        self.events.push(Self::event_of(op, plugin_id));
        assert(self.events@.drop_last() =~= old(self).events@);
        Ok(())
    }

    /// Initializes a loaded plugin.
    pub fn initialize(&mut self, plugin_id: &str) -> (r: Result<()>)
        ensures
            transition_outcome(Transition::Initialize, plugin_id@, *old(self), *final(self), r),
    {
        self.apply(Transition::Initialize, plugin_id)
    }

    /// Starts an initialized or paused plugin.
    pub fn start(&mut self, plugin_id: &str) -> (r: Result<()>)
        ensures
            transition_outcome(Transition::Start, plugin_id@, *old(self), *final(self), r),
    {
        self.apply(Transition::Start, plugin_id)
    }

    /// Stops a running plugin; it goes back to `Initialized`.
    pub fn stop(&mut self, plugin_id: &str) -> (r: Result<()>)
        ensures
            transition_outcome(Transition::Stop, plugin_id@, *old(self), *final(self), r),
    {
        self.apply(Transition::Stop, plugin_id)
    }

    /// Pauses a running plugin.
    pub fn pause(&mut self, plugin_id: &str) -> (r: Result<()>)
        ensures
            transition_outcome(Transition::Pause, plugin_id@, *old(self), *final(self), r),
    {
        self.apply(Transition::Pause, plugin_id)
    }

    /// Resumes a paused plugin.
    pub fn resume(&mut self, plugin_id: &str) -> (r: Result<()>)
        ensures
            transition_outcome(Transition::Resume, plugin_id@, *old(self), *final(self), r),
    {
        self.apply(Transition::Resume, plugin_id)
    }

    /// Counts an execution of `plugin_id`.
    pub fn record_execution(&mut self, plugin_id: &str) -> (r: Result<()>)
        requires
            forall|i: int|
                is_first(old(self).statuses(), plugin_id@, i) ==> #[trigger] old(
                    self,
                ).statuses()[i].stats.execution_count < u64::MAX,
        ensures
            r is Ok <==> has_plugin(old(self).statuses(), plugin_id@),
            final(self).pending() == old(self).pending(),
            r matches Err(Error::Plugin(m)) ==> m@ == not_found_message(plugin_id@)
                && final(self).statuses() == old(self).statuses(),
            r is Ok ==> exists|i: int|
                is_first(old(self).statuses(), plugin_id@, i) && only_changed_at(
                    old(self).statuses(),
                    final(self).statuses(),
                    i,
                ) && (#[trigger] final(self).statuses()[i]).stats.execution_count == old(
                    self,
                ).statuses()[i].stats.execution_count + 1
                    && final(self).statuses()[i].stats.last_execution_time is Some
                    && final(self).statuses()[i].state == old(self).statuses()[i].state
                    && final(self).statuses()[i].plugin_id == old(self).statuses()[i].plugin_id,
    {
        let i = match self.position(plugin_id) {
            Some(i) => i,
            None => {
                return Err(Self::not_found(plugin_id));
            },
        };
        let ghost before = self.plugin_states@;
        let mut st = self.plugin_states.remove(i);
        st.record_execution();
        self.plugin_states.insert(i, st);
        proof {
            assert(self.statuses()[i as int] == self.plugin_states@[i as int]);
            assert forall|j: int| 0 <= j < before.len() && j != i implies #[trigger] self.plugin_states@[j]
                == before[j] by {
                if j < i {
                } else {
                }
            }
        }
        Ok(())
    }

    /// Records an error of `plugin_id`: its first status moves to `Error`
    /// with the message; the `Error` event is emitted even when the plugin is
    /// unknown.
    pub fn record_error(&mut self, plugin_id: &str, error: String)
        requires
            forall|i: int|
                is_first(old(self).statuses(), plugin_id@, i) ==> #[trigger] old(
                    self,
                ).statuses()[i].stats.error_count < u64::MAX,
        ensures
            emitted_one(old(self).pending(), final(self).pending()),
            final(self).pending().last() matches LifecycleEvent::Error { plugin_id: p, error: e }
                && p@ == plugin_id@ && e@ == error@,
            !has_plugin(old(self).statuses(), plugin_id@) ==> final(self).statuses() == old(
                self,
            ).statuses(),
            forall|i: int|
                is_first(old(self).statuses(), plugin_id@, i) ==> only_changed_at(
                    old(self).statuses(),
                    final(self).statuses(),
                    i,
                ) && (#[trigger] final(self).statuses()[i]).state == PluginState::Error
                    && (final(self).statuses()[i].error_message matches Some(m) && m@ == error@)
                    && final(self).statuses()[i].stats.error_count == old(
                    self,
                ).statuses()[i].stats.error_count + 1
                    && final(self).statuses()[i].plugin_id == old(self).statuses()[i].plugin_id,
    {
        match self.position(plugin_id) {
            Some(i) => {
                let ghost before = self.plugin_states@;
                let mut st = self.plugin_states.remove(i);
                st.record_error(error.clone());
                self.plugin_states.insert(i, st);
                proof {
                    assert forall|j: int| 0 <= j < before.len() && j != i implies #[trigger] self.plugin_states@[j]
                        == before[j] by {
                        if j < i {
                        } else {
                        }
                    }
                    assert forall|k: int| is_first(before, plugin_id@, k) implies k == i by {
                        if k < i {
                            assert(before[k].plugin_id@ != plugin_id@);
                        } else if k > i {
                            assert(before[i as int].plugin_id@ != plugin_id@);
                        }
                    }
                }
            },
            None => {},
        }
        self.events.push(LifecycleEvent::Error { plugin_id: string_of(plugin_id), error });
        assert(self.events@.drop_last() =~= old(self).events@);
    }

    /// The status of `plugin_id`.
    pub fn get_status(&self, plugin_id: &str) -> (r: Result<&PluginStatus>)
        ensures
            r is Ok <==> has_plugin(self.statuses(), plugin_id@),
            r matches Ok(s) ==> exists|i: int|
                is_first(self.statuses(), plugin_id@, i) && *s == #[trigger] self.statuses()[i],
            r matches Err(Error::Plugin(m)) ==> m@ == not_found_message(plugin_id@),
    {
        match self.position(plugin_id) {
            Some(i) => Ok(&self.plugin_states[i]),
            None => Err(Self::not_found(plugin_id)),
        }
    }

    /// Every status, in the order the plugins were added.
    pub fn get_all_statuses(&self) -> (r: &Vec<PluginStatus>)
        ensures
            r@ == self.statuses(),
    {
        &self.plugin_states
    }

    /// Brings a failed plugin back to `Loaded` and forgets its error.
    pub fn reset(&mut self, plugin_id: &str) -> (r: Result<()>)
        ensures
            final(self).pending() == old(self).pending(),
            r is Ok <==> exists|i: int|
                is_first(old(self).statuses(), plugin_id@, i) && (#[trigger] old(
                    self,
                ).statuses()[i]).state == PluginState::Error,
            r is Err ==> final(self).statuses() == old(self).statuses(),
            r matches Err(Error::Plugin(m)) ==> (!has_plugin(old(self).statuses(), plugin_id@)
                ==> m@ == not_found_message(plugin_id@)) && forall|i: int|
                is_first(old(self).statuses(), plugin_id@, i) ==> m@ == "Cannot reset plugin in state "@
                    + state_name_spec(#[trigger] old(self).statuses()[i].state),
            r is Ok ==> exists|i: int|
                is_first(old(self).statuses(), plugin_id@, i) && only_changed_at(
                    old(self).statuses(),
                    final(self).statuses(),
                    i,
                ) && (#[trigger] final(self).statuses()[i]).state == PluginState::Loaded
                    && final(self).statuses()[i].error_message is None
                    && final(self).statuses()[i].stats == old(self).statuses()[i].stats
                    && final(self).statuses()[i].plugin_id == old(self).statuses()[i].plugin_id,
    {
        let i = match self.position(plugin_id) {
            Some(i) => i,
            None => {
                return Err(Self::not_found(plugin_id));
            },
        };
        proof {
            assert forall|k: int| is_first(self.plugin_states@, plugin_id@, k) implies k == i by {
                if k < i {
                    assert(self.plugin_states@[k].plugin_id@ != plugin_id@);
                } else if k > i {
                    assert(self.plugin_states@[i as int].plugin_id@ != plugin_id@);
                }
            }
        }
        let state = self.plugin_states[i].state;
        if state != PluginState::Error {
            let mut m = string_of("Cannot reset plugin in state ");
            m.append(state_name(state));
            return Err(Error::Plugin(m));
        }
        let ghost before = self.plugin_states@;
        let mut st = self.plugin_states.remove(i);
        st.update_state(PluginState::Loaded);
        st.error_message = None;
        self.plugin_states.insert(i, st);
        proof {
            assert(self.statuses()[i as int] == self.plugin_states@[i as int]);
            assert forall|j: int| 0 <= j < before.len() && j != i implies #[trigger] self.plugin_states@[j]
                == before[j] by {
                if j < i {
                } else {
                }
            }
        }
        Ok(())
    }

    fn apply_all(&mut self, op: Transition, plugin_ids: &[String], verb: &str) -> (r: Result<()>)
        ensures
            exists|trace: Seq<PluginLifecycleManager>|
                batch_run(op, plugin_ids@, trace) && trace[0] == *old(self) && trace.last()
                    == *final(self) && (r is Ok <==> batch_failures(
                    op,
                    plugin_ids@,
                    trace,
                    plugin_ids@.len() as int,
                ) == 0) && (r matches Err(Error::Plugin(m)) ==> has_prefix(
                    m@,
                    "Failed to "@ + verb@ + " "@ + decimal(
                        batch_failures(op, plugin_ids@, trace, plugin_ids@.len() as int),
                    ) + " plugins: "@,
                )),
    {
        let ghost mut trace: Seq<PluginLifecycleManager> = seq![*self];
        let mut failures: Vec<(String, Error)> = Vec::new();
        let mut i: usize = 0;
        while i < plugin_ids.len()
            invariant
                i <= plugin_ids@.len(),
                trace.len() == i + 1,
                trace[0] == *old(self),
                trace.last() == *self,
                forall|k: int| 0 <= k < i ==> batch_step(op, plugin_ids@[k]@, #[trigger] trace[k], trace[k + 1]),
                failures@.len() == batch_failures(op, plugin_ids@, trace, i as int),
            decreases plugin_ids.len() - i,
        {
            let ghost before = *self;
            let res = self.apply(op, plugin_ids[i].as_str());
            proof {
                let t2 = trace.push(*self);
                assert forall|k: int| 0 <= k < i + 1 implies batch_step(op, plugin_ids@[k]@, #[trigger] t2[k], t2[k + 1]) by {
                    if k < i {
                        assert(t2[k] == trace[k] && t2[k + 1] == trace[k + 1]);
                    } else {
                        assert(t2[k] == before && t2[k + 1] == *self);
                    }
                }
                assert forall|n: int| 0 <= n <= i implies batch_failures(op, plugin_ids@, t2, n) == batch_failures(op, plugin_ids@, trace, n) by {
                    lemma_batch_failures_prefix(op, plugin_ids@, trace, t2, n);
                }
                assert(batch_failures(op, plugin_ids@, t2, i as int + 1) == batch_failures(op, plugin_ids@, t2, i as int) + if step_fails(op, plugin_ids@[i as int]@, t2[i as int].statuses()) { 1nat } else { 0nat });
                trace = t2;
            }
            match res {
                Ok(()) => {},
                Err(e) => {
                    failures.push((plugin_ids[i].clone(), e));
                },
            }
            i = i + 1;
        }
        if failures.len() > 0 {
            let mut m = string_of("Failed to ");
            m.append(verb);
            m.append(" ");
            let count = decimal_string(failures.len() as u64);
            m.append(count.as_str());
            m.append(" plugins: ");
            let ghost head = m@;
            let listing = list_failures(&failures);
            m.append(listing.as_str());
            assert(m@.subrange(0, head.len() as int) =~= head);
            return Err(Error::Plugin(m));
        }
        Ok(())
    }

    /// Starts each plugin in turn; fails, after trying them all, when any
    /// could not be started.
    pub fn start_multiple(&mut self, plugin_ids: &[String]) -> (r: Result<()>)
        ensures
            exists|trace: Seq<PluginLifecycleManager>|
                batch_run(Transition::Start, plugin_ids@, trace) && trace[0] == *old(self)
                    && trace.last() == *final(self) && (r is Ok <==> batch_failures(
                    Transition::Start,
                    plugin_ids@,
                    trace,
                    plugin_ids@.len() as int,
                ) == 0) && (r matches Err(Error::Plugin(m)) ==> has_prefix(
                    m@,
                    "Failed to start "@ + decimal(
                        batch_failures(Transition::Start, plugin_ids@, trace, plugin_ids@.len() as int),
                    ) + " plugins: "@,
                )),
    {
        proof {
            reveal_strlit("Failed to ");
            reveal_strlit("start");
            reveal_strlit(" ");
            reveal_strlit("Failed to start ");
            assert("Failed to "@ + "start"@ + " "@ =~= "Failed to start "@);
        }
        self.apply_all(Transition::Start, plugin_ids, "start")
    }

    /// Stops each plugin in turn; fails, after trying them all, when any
    /// could not be stopped.
    pub fn stop_multiple(&mut self, plugin_ids: &[String]) -> (r: Result<()>)
        ensures
            exists|trace: Seq<PluginLifecycleManager>|
                batch_run(Transition::Stop, plugin_ids@, trace) && trace[0] == *old(self)
                    && trace.last() == *final(self) && (r is Ok <==> batch_failures(
                    Transition::Stop,
                    plugin_ids@,
                    trace,
                    plugin_ids@.len() as int,
                ) == 0) && (r matches Err(Error::Plugin(m)) ==> has_prefix(
                    m@,
                    "Failed to stop "@ + decimal(
                        batch_failures(Transition::Stop, plugin_ids@, trace, plugin_ids@.len() as int),
                    ) + " plugins: "@,
                )),
    {
        proof {
            reveal_strlit("Failed to ");
            reveal_strlit("stop");
            reveal_strlit(" ");
            reveal_strlit("Failed to stop ");
            assert("Failed to "@ + "stop"@ + " "@ =~= "Failed to stop "@);
        }
        self.apply_all(Transition::Stop, plugin_ids, "stop")
    }
}

proof fn lemma_batch_failures_prefix(
    op: Transition,
    ids: Seq<String>,
    t1: Seq<PluginLifecycleManager>,
    t2: Seq<PluginLifecycleManager>,
    n: int,
)
    requires
        0 <= n <= t1.len(),
        n <= t2.len(),
        forall|k: int| 0 <= k < n ==> t1[k] == t2[k],
    ensures
        batch_failures(op, ids, t1, n) == batch_failures(op, ids, t2, n),
    decreases n,
{
    if n > 0 {
        lemma_batch_failures_prefix(op, ids, t1, t2, n - 1);
    }
}

impl Default for PluginLifecycleManager {
    fn default() -> (r: Self)
        ensures
            r.statuses().len() == 0,
            r.pending().len() == 0,
    {
        Self::new()
    }
}

/// Pausing and then resuming a plugin brings it back to the state it was in.
pub proof fn lemma_pause_resume_round_trip(s: PluginState)
    requires
        transition_target(Transition::Pause, s) is Some,
    ensures
        transition_target(Transition::Resume, transition_target(Transition::Pause, s)->0) == Some(s),
{
}

/// Stopping and then starting a plugin brings it back to the state it was in.
pub proof fn lemma_stop_start_round_trip(s: PluginState)
    requires
        transition_target(Transition::Stop, s) is Some,
    ensures
        transition_target(Transition::Start, transition_target(Transition::Stop, s)->0) == Some(s),
{
}

/// No transition leaves the `Error` state or reaches `Loaded`, `Unloaded` or
/// `Error`: only a reset leaves `Error`.
pub proof fn lemma_error_is_left_only_by_reset(op: Transition, s: PluginState)
    ensures
        transition_target(op, PluginState::Error) is None,
        transition_target(op, s) != Some(PluginState::Loaded),
        transition_target(op, s) != Some(PluginState::Unloaded),
        transition_target(op, s) != Some(PluginState::Error),
{
}

/// Every transition that succeeds changes the state.
pub proof fn lemma_transition_changes_state(op: Transition, s: PluginState)
    requires
        transition_target(op, s) is Some,
    ensures
        transition_target(op, s)->0 != s,
{
}

} // verus!
