use vstd::prelude::*;
use std::collections::BTreeMap;
use crate::decode::{config_updates_of, decode_updates, json_error_text};
use crate::dispatch::{
    CallOutcome, CALL_FAILED, check_arity, classify, is_start, outcome_code, outcome_error,
    outcome_fails, start_text, timeout_text,
};
use crate::error::HostError;
use crate::manifest::{apply_updates, env_pushes, Manifest};
use crate::memory::Memory;

verus! {

broadcast use vstd::laws_cmp::group_laws_cmp, vstd::std_specs::btree::group_btree_axioms;

/// A plugin handle. `-1` stands for no plugin: the context itself.
pub type PluginIndex = i32;

/// What the engine made of a module: the instance, the size of its linear
/// memory, and its exported functions with the number of results of each.
pub struct Compiled<M> {
    pub instance: M,
    pub memory_size: u64,
    pub exports: Vec<(String, usize)>,
}

/// The unit of execution: an engine instance with its host-side state.
pub struct Plugin<M> {
    pub instance: M,
    pub exports: Vec<(String, usize)>,
    pub memory: Memory,
    pub manifest: Manifest,
    pub last_error: Option<HostError>,
    pub should_reinstantiate: bool,
    pub timer_id: u64,
}

/// `i` is the first position of an export named `name`.
pub open spec fn first_export(exports: Seq<(String, usize)>, name: Seq<char>, i: int) -> bool {
    &&& 0 <= i < exports.len()
    &&& exports[i].0@ == name
    &&& forall|j: int| 0 <= j < i ==> exports[j].0@ != name
}

/// The number of results of the first export named `name`, if there is one.
pub open spec fn export_arity(exports: Seq<(String, usize)>, name: Seq<char>) -> Option<usize> {
    if exists|i: int| first_export(exports, name, i) {
        Some(exports[choose|i: int| first_export(exports, name, i)].1)
    } else {
        None
    }
}

impl<M> Plugin<M> {
    pub open spec fn wf(self) -> bool {
        self.manifest.wf()
    }

    /// A plugin fresh from the engine, with an empty config.
    pub open spec fn is_fresh_from(self, c: Compiled<M>, with_wasi: bool, timer_id: u64) -> bool {
        &&& self.wf()
        &&& self.instance == c.instance
        &&& self.exports@ == c.exports@
        &&& self.memory.is_fresh(c.memory_size)
        &&& self.manifest.config_view() == Map::<Seq<char>, Seq<char>>::empty()
        &&& self.manifest.has_wasi() == with_wasi
        &&& self.last_error is None
        &&& !self.should_reinstantiate
        &&& self.timer_id == timer_id
    }

    fn from_compiled(c: Compiled<M>, with_wasi: bool, timer_id: u64) -> (r: Plugin<M>)
        ensures
            r.is_fresh_from(c, with_wasi, timer_id),
    {
        Plugin {
            instance: c.instance,
            exports: c.exports,
            memory: Memory::new(c.memory_size),
            manifest: Manifest::new(with_wasi),
            last_error: None,
            should_reinstantiate: false,
            timer_id,
        }
    }

    /// Looks up an export by name.
    pub fn find_export(&self, name: &String) -> (r: Option<usize>)
        ensures
            r == export_arity(self.exports@, name@),
    {
        let mut i: usize = 0;
        while i < self.exports.len()
            invariant
                i <= self.exports@.len(),
                forall|j: int| 0 <= j < i ==> self.exports@[j].0@ != name@,
            decreases self.exports@.len() - i,
        {
            if self.exports[i].0 == *name {
                let ghost e = self.exports@;
                proof {
                    assert(first_export(e, name@, i as int));
                    let k = choose|k: int| first_export(e, name@, k);
                    assert(k == i) by {
                        if k < i {
                        } else if k > i {
                            assert(e[i as int].0@ == name@);
                        }
                    }
                }
                return Some(self.exports[i].1);
            }
            i = i + 1;
        }
        None
    }
}

/// A call of `name` on `p` leaves the instance unfit for another: a WASI
/// start entry point runs once per instance.
pub open spec fn marks_fresh_instance<M>(p: Plugin<M>, name: Seq<char>) -> bool {
    p.manifest.has_wasi() && name == start_text()
}

/// What `Context::begin_call` does to the plugin it resolved: `p0` before,
/// `p1` after, for a call of `name` on `input` that got plan `r`.
pub open spec fn call_begun<M>(
    p0: Plugin<M>,
    p1: Plugin<M>,
    name: Seq<char>,
    input: Seq<u8>,
    r: CallPlan,
) -> bool {
    &&& p1.instance == p0.instance
    &&& p1.exports == p0.exports
    &&& p1.manifest == p0.manifest
    &&& p1.timer_id == p0.timer_id
    &&& match export_arity(p0.exports@, name) {
        None => r == CallPlan::Rejected && p1.memory == p0.memory
            && p1.should_reinstantiate == p0.should_reinstantiate && (p1.last_error
            matches Some(HostError::FunctionNotFound(n)) && n@ == name),
        Some(k) => if k > 1 {
            r == CallPlan::Rejected && p1.memory == p0.memory
                && p1.should_reinstantiate == p0.should_reinstantiate
                && (p1.last_error matches Some(
                HostError::TooManyResults { name: n, count: c },
            ) && n@ == name && c == k)
        } else {
            &&& r == CallPlan::Run {
                reinstantiate: p0.should_reinstantiate,
                results: k,
                timer_id: p0.timer_id,
            }
            &&& !p1.should_reinstantiate
            &&& p1.last_error == p0.last_error
            &&& p1.memory.input@ == input
            &&& p1.memory.size == p0.memory.size
            &&& if p0.should_reinstantiate {
                p1.memory.output_offset == 0 && p1.memory.output_length == 0
            } else {
                p1.memory.output_offset == p0.memory.output_offset
                    && p1.memory.output_length == p0.memory.output_length
            }
        },
    }
}

/// What `Context::finish_call` does to the plugin that ran: `p0` before,
/// `p1` after, for a call of `name` that ended in `outcome` and returned `r`.
pub open spec fn call_finished<M>(
    p0: Plugin<M>,
    p1: Plugin<M>,
    name: Seq<char>,
    outcome: CallOutcome,
    disarmed: bool,
    r: i32,
) -> bool {
    &&& p1.instance == p0.instance
    &&& p1.exports == p0.exports
    &&& p1.memory == p0.memory
    &&& p1.manifest == p0.manifest
    &&& p1.timer_id == p0.timer_id
    &&& p1.should_reinstantiate == (p0.should_reinstantiate || marks_fresh_instance(p0, name))
    &&& !disarmed ==> r == CALL_FAILED && p1.last_error == Some(HostError::TimerStop(p0.timer_id))
    &&& disarmed ==> r == outcome_code(outcome) && if outcome_fails(outcome) {
        p1.last_error == Some(outcome_error(outcome))
    } else {
        p1.last_error == p0.last_error
    }
}

/// Once an index is freed no live plugin has it, so `plugin_exists` is false
/// for it and every operation on it ends in `PluginNotFound`; every other
/// plugin stays as it was.
pub proof fn lemma_freed_index_not_found<M>(
    before: Map<PluginIndex, Plugin<M>>,
    after: Map<PluginIndex, Plugin<M>>,
    index: PluginIndex,
)
    requires
        after == before.remove(index),
    ensures
        !after.contains_key(index),
        forall|k: PluginIndex|
            k != index ==> (after.contains_key(k) <==> before.contains_key(k)),
        forall|k: PluginIndex| k != index && #[trigger] before.contains_key(k) ==> after[k] == before[k],
{
}

/// A function with two or more results is refused before it runs, whatever
/// its name and input: the plan is `Rejected` and the memory is untouched.
pub proof fn lemma_many_results_rejected<M>(
    p0: Plugin<M>,
    p1: Plugin<M>,
    name: Seq<char>,
    input: Seq<u8>,
    r: CallPlan,
)
    requires
        call_begun(p0, p1, name, input, r),
        export_arity(p0.exports@, name) matches Some(k) && k >= 2,
    ensures
        r == CallPlan::Rejected,
        p1.memory == p0.memory,
        p1.last_error matches Some(HostError::TooManyResults { .. }),
{
}

/// A call that timed out returns the failure code and records the timeout,
/// and the plugin then takes the next call of any function it exports with
/// at most one result.
pub proof fn lemma_timeout_leaves_plugin_usable<M>(
    p0: Plugin<M>,
    p1: Plugin<M>,
    p2: Plugin<M>,
    name: Seq<char>,
    outcome: CallOutcome,
    r: i32,
    next: Seq<char>,
    input: Seq<u8>,
    plan: CallPlan,
)
    requires
        outcome matches CallOutcome::Trapped { root_cause, .. } && root_cause@ == timeout_text(),
        call_finished(p0, p1, name, outcome, true, r),
        call_begun(p1, p2, next, input, plan),
        export_arity(p0.exports@, next) matches Some(k) && k <= 1,
    ensures
        r == CALL_FAILED,
        p1.last_error == Some(HostError::Timeout),
        plan is Run,
{
    crate::dispatch::lemma_timeout_classified(outcome);
}

/// A WASI plugin whose start entry point ran gets a fresh instance before
/// that entry point runs again: no output of the first run is left.
pub proof fn lemma_start_twice_reinstantiates<M>(
    p0: Plugin<M>,
    p1: Plugin<M>,
    p2: Plugin<M>,
    outcome: CallOutcome,
    disarmed: bool,
    r: i32,
    input: Seq<u8>,
    plan: CallPlan,
)
    requires
        p0.manifest.has_wasi(),
        call_finished(p0, p1, start_text(), outcome, disarmed, r),
        call_begun(p1, p2, start_text(), input, plan),
        plan is Run,
    ensures
        plan matches CallPlan::Run { reinstantiate, .. } && reinstantiate,
        !p2.should_reinstantiate,
        p2.memory.output_offset == 0,
        p2.memory.output_length == 0,
        p2.memory.input@ == input,
{
}

/// What a call needs after its plugin was resolved and its function checked.
#[derive(Debug, PartialEq, Eq, Structural)]
pub enum CallPlan {
    /// No live plugin has the index; the context error says so.
    NotFound,
    /// The function is missing or returns too many values; the plugin
    /// error says which, and nothing runs.
    Rejected,
    /// Run the function with `results` result slots under the watchdog
    /// timer `timer_id`, after a fresh instance where `reinstantiate`.
    Run { reinstantiate: bool, results: usize, timer_id: u64 },
}

/// The registry of plugins, keyed by index, with a context-level error slot.
pub struct Context<M> {
    pub plugins: BTreeMap<PluginIndex, Plugin<M>>,
    pub next_id: PluginIndex,
    pub reclaimed: Vec<PluginIndex>,
    pub error: Option<HostError>,
}

impl<M> Context<M> {
    pub open spec fn view(self) -> Map<PluginIndex, Plugin<M>> {
        self.plugins@
    }

    pub open spec fn wf(self) -> bool {
        &&& 0 <= self.next_id
        &&& forall|k: PluginIndex| #[trigger]
            self.plugins@.contains_key(k) ==> 0 <= k < self.next_id && self.plugins@[k].wf()
        &&& forall|i: int|
            0 <= i < self.reclaimed@.len() ==> 0 <= #[trigger] self.reclaimed@[i] < self.next_id
                && !self.plugins@.contains_key(self.reclaimed@[i])
        &&& forall|i: int, j: int|
            0 <= i < j < self.reclaimed@.len() ==> self.reclaimed@[i] != self.reclaimed@[j]
    }

    /// Another plugin can still get an index.
    pub open spec fn has_free_index(self) -> bool {
        self.next_id < i32::MAX || self.reclaimed@.len() > 0
    }

    pub fn new() -> (r: Context<M>)
        ensures
            r.wf(),
            r@ == Map::<PluginIndex, Plugin<M>>::empty(),
            r.next_id == 0,
            r.reclaimed@.len() == 0,
            r.error is None,
    {
        Context { plugins: BTreeMap::new(), next_id: 0, reclaimed: Vec::new(), error: None }
    }

    pub fn plugin_exists(&self, index: PluginIndex) -> (r: bool)
        ensures
            r == self@.contains_key(index),
    {
        self.plugins.contains_key(&index)
    }

    /// Overwrites the context error.
    pub fn set_error(&mut self, e: HostError)
        ensures
            final(self).error == Some(e),
            final(self).plugins == old(self).plugins,
            final(self).next_id == old(self).next_id,
            final(self).reclaimed == old(self).reclaimed,
    {
        self.error = Some(e);
    }

    /// Takes a free index: a never used one while there are, then a
    /// reclaimed one.
    fn next_index(&mut self) -> (r: Option<PluginIndex>)
        requires
            old(self).wf(),
        ensures
            final(self).wf(),
            final(self).plugins == old(self).plugins,
            final(self).error == old(self).error,
            r is Some <==> old(self).has_free_index(),
            r matches Some(i) ==> 0 <= i && !old(self)@.contains_key(i) && (forall|j: int|
                0 <= j < final(self).reclaimed@.len() ==> final(self).reclaimed@[j] != i),
            r matches Some(i) ==> i < final(self).next_id,
            final(self).next_id >= old(self).next_id,
            old(self).next_id < i32::MAX ==> r == Some(old(self).next_id),
    {
        if self.next_id < i32::MAX {
            let id = self.next_id;
            self.next_id = self.next_id + 1;
            Some(id)
        } else {
            let r = self.reclaimed.pop();
            proof {
                if r is Some {
                    assert(self.reclaimed@ =~= old(self).reclaimed@.drop_last());
                    let n = old(self).reclaimed@.len() - 1;
                    assert forall|j: int| 0 <= j < self.reclaimed@.len() implies
                        self.reclaimed@[j] != old(self).reclaimed@[n] by {
                        assert(self.reclaimed@[j] == old(self).reclaimed@[j]);
                    }
                }
            }
            r
        }
    }

    /// Registers a plugin built from `compiled`, or records why it cannot be:
    /// the engine's error, or no free index. Returns its index, or `-1`.
    pub fn new_plugin(&mut self, compiled: Result<Compiled<M>, String>, with_wasi: bool) -> (r:
        PluginIndex)
        requires
            old(self).wf(),
        ensures
            final(self).wf(),
            compiled is Err || !old(self).has_free_index() ==> r == -1 && final(self)@ == old(
                self,
            )@,
            compiled matches Err(e) ==> final(self).error == Some(HostError::Compile(e)),
            compiled is Ok && !old(self).has_free_index() ==> final(self).error == Some(
                HostError::IndicesExhausted,
            ),
            compiled is Ok && old(self).has_free_index() ==> {
                let c = compiled->Ok_0;
                &&& 0 <= r
                &&& !old(self)@.contains_key(r)
                &&& final(self)@.dom() == old(self)@.dom().insert(r)
                &&& forall|k: PluginIndex|
                    k != r && #[trigger] old(self)@.contains_key(k) ==> final(self)@[k] == old(
                        self,
                    )@[k]
                &&& final(self)@[r].is_fresh_from(c, with_wasi, r as u64)
                &&& final(self).error == old(self).error
                &&& old(self).next_id < i32::MAX ==> r == old(self).next_id
            },
    {
        let c = match compiled {
            Ok(c) => c,
            Err(e) => {
                self.set_error(HostError::Compile(e));
                return -1;
            },
        };
        let id = match self.next_index() {
            Some(id) => id,
            None => {
                self.set_error(HostError::IndicesExhausted);
                return -1;
            },
        };
        let p = Plugin::from_compiled(c, with_wasi, id as u64);
        let ghost mid = *self;
        self.plugins.insert(id, p);
        assert(self@.dom() =~= old(self)@.dom().insert(id));
        proof {
            assert forall|k: PluginIndex| #[trigger] self.plugins@.contains_key(k) implies 0 <= k
                < self.next_id && self.plugins@[k].wf() by {
                if k != id {
                    assert(old(self).plugins@.contains_key(k));
                }
            }
            assert forall|i: int| 0 <= i < self.reclaimed@.len() implies 0
                <= #[trigger] self.reclaimed@[i] < self.next_id && !self.plugins@.contains_key(
                self.reclaimed@[i],
            ) by {
                assert(!mid.plugins@.contains_key(mid.reclaimed@[i]));
            }
        }
        id
    }

    /// Replaces the plugin at `index` with one built from `compiled`,
    /// keeping the index; its memory and config start afresh.
    pub fn update(
        &mut self,
        index: PluginIndex,
        compiled: Result<Compiled<M>, String>,
        with_wasi: bool,
    ) -> (r: bool)
        requires
            old(self).wf(),
        ensures
            final(self).wf(),
            r <==> compiled is Ok && old(self)@.contains_key(index),
            !r ==> final(self)@ == old(self)@,
            compiled matches Err(e) ==> final(self).error == Some(HostError::Compile(e)),
            compiled is Ok && !old(self)@.contains_key(index) ==> final(self).error == Some(
                HostError::PluginNotFound(index),
            ),
            r ==> {
                let c = compiled->Ok_0;
                &&& final(self)@.dom() == old(self)@.dom()
                &&& final(self)@[index].is_fresh_from(c, with_wasi, index as u64)
                &&& forall|k: PluginIndex|
                    k != index && #[trigger] old(self)@.contains_key(k) ==> final(self)@[k]
                        == old(self)@[k]
            },
    {
        let c = match compiled {
            Ok(c) => c,
            Err(e) => {
                self.set_error(HostError::Compile(e));
                return false;
            },
        };
        if !self.plugins.contains_key(&index) {
            self.set_error(HostError::PluginNotFound(index));
            return false;
        }
        let p = Plugin::from_compiled(c, with_wasi, index as u64);
        self.plugins.insert(index, p);
        assert(self@.dom() =~= old(self)@.dom());
        true
    }

    /// Drops the plugin at `index`; nothing happens where there is none.
    pub fn remove(&mut self, index: PluginIndex)
        requires
            old(self).wf(),
        ensures
            final(self).wf(),
            final(self)@ == old(self)@.remove(index),
            final(self).error == old(self).error,
    {
        let removed = self.plugins.remove(&index);
        if removed.is_some() {
            self.reclaimed.push(index);
        } else {
            assert(self@ =~= old(self)@.remove(index));
        }
    }

    /// Drops every plugin; their indices can be handed out again.
    pub fn reset(&mut self)
        requires
            old(self).wf(),
        ensures
            final(self).wf(),
            final(self)@ == Map::<PluginIndex, Plugin<M>>::empty(),
            final(self).next_id == 0,
            final(self).reclaimed@.len() == 0,
            final(self).error == old(self).error,
    {
        self.plugins.clear();
        self.reclaimed.clear();
        self.next_id = 0;
    }

    /// Resolves `index`: `None`, with the context error set, where no live
    /// plugin has it.
    fn take(&mut self, index: PluginIndex) -> (r: Option<Plugin<M>>)
        requires
            old(self).wf(),
        ensures
            r is Some <==> old(self)@.contains_key(index),
            r matches Some(p) ==> p == old(self)@[index] && p.wf(),
            r is Some ==> final(self).error == old(self).error,
            r is None ==> final(self).error == Some(HostError::PluginNotFound(index)),
            final(self)@ == old(self)@.remove(index),
            final(self).next_id == old(self).next_id,
            final(self).reclaimed == old(self).reclaimed,
    {
        let r = self.plugins.remove(&index);
        if r.is_none() {
            self.set_error(HostError::PluginNotFound(index));
            assert(self@ =~= old(self)@.remove(index));
        }
        r
    }

    /// Puts a plugin taken by `take` back under its index.
    fn put(&mut self, index: PluginIndex, p: Plugin<M>)
        requires
            old(self).wf_without(index),
            p.wf(),
            !old(self)@.contains_key(index),
        ensures
            final(self).wf(),
            final(self)@ == old(self)@.insert(index, p),
            final(self).error == old(self).error,
    {
        self.plugins.insert(index, p);
    }

    /// The invariant of a context from which the plugin at `index` was taken.
    pub open spec fn wf_without(self, index: PluginIndex) -> bool {
        &&& 0 <= index < self.next_id
        &&& forall|i: int| 0 <= i < self.reclaimed@.len() ==> #[trigger] self.reclaimed@[i] != index
        &&& self.wf()
    }

    proof fn lemma_take_keeps(self, old_ctx: Self, index: PluginIndex)
        requires
            old_ctx.wf(),
            old_ctx@.contains_key(index),
            self@ == old_ctx@.remove(index),
            self.next_id == old_ctx.next_id,
            self.reclaimed == old_ctx.reclaimed,
        ensures
            self.wf_without(index),
    {
        assert forall|k: PluginIndex| #[trigger] self.plugins@.contains_key(k) implies 0 <= k
            < self.next_id && self.plugins@[k].wf() by {
            assert(old_ctx.plugins@.contains_key(k));
        }
        assert forall|i: int| 0 <= i < self.reclaimed@.len() implies #[trigger] self.reclaimed@[i]
            != index by {
            assert(!old_ctx.plugins@.contains_key(old_ctx.reclaimed@[i]));
        }
    }

    /// Applies a JSON config update (an object of strings and nulls) to the
    /// plugin at `index`; see `Manifest::merge`. Fails, changing no config,
    /// where the plugin is missing or the bytes do not decode.
    pub fn plugin_config(&mut self, index: PluginIndex, json: &[u8]) -> (r: bool)
        requires
            old(self).wf(),
        ensures
            final(self).wf(),
            r <==> old(self)@.contains_key(index) && config_updates_of(json@) is Some,
            !old(self)@.contains_key(index) ==> final(self)@ == old(self)@ && final(self).error
                == Some(HostError::PluginNotFound(index)),
            old(self)@.contains_key(index) ==> {
                let p0 = old(self)@[index];
                let p1 = final(self)@[index];
                &&& final(self)@ == old(self)@.insert(index, p1)
                &&& final(self).error == old(self).error
                &&& p1.instance == p0.instance
                &&& p1.exports == p0.exports
                &&& p1.memory == p0.memory
                &&& p1.should_reinstantiate == p0.should_reinstantiate
                &&& p1.timer_id == p0.timer_id
                &&& p1.manifest.has_wasi() == p0.manifest.has_wasi()
                &&& match config_updates_of(json@) {
                    None => p1.manifest == p0.manifest && p1.last_error matches Some(
                        HostError::InvalidConfig(_),
                    ),
                    Some(us) => {
                        &&& p1.last_error == p0.last_error
                        &&& p1.manifest.config_view() == apply_updates(
                            p0.manifest.config_view(),
                            us,
                        )
                        &&& p0.manifest.has_wasi() ==> p1.manifest.env_view()
                            == p0.manifest.env_view() + env_pushes(us)
                    },
                }
            },
    {
        let mut p = match self.take(index) {
            Some(p) => p,
            None => {
                assert(self@ =~= old(self)@);
                return false;
            },
        };
        proof {
            self.lemma_take_keeps(*old(self), index);
        }
        let ok = match decode_updates(json) {
            Ok(updates) => {
                p.manifest.merge(updates);
                true
            },
            Err(e) => {
                p.last_error = Some(HostError::InvalidConfig(json_error_text(&e)));
                false
            },
        };
        self.put(index, p);
        ok
    }

    /// Whether the plugin at `index` exports a function named `name`.
    pub fn function_exists(&mut self, index: PluginIndex, name: &String) -> (r: bool)
        requires
            old(self).wf(),
        ensures
            final(self).wf(),
            final(self)@ == old(self)@,
            r <==> old(self)@.contains_key(index) && export_arity(
                old(self)@[index].exports@,
                name@,
            ) is Some,
            !old(self)@.contains_key(index) ==> final(self).error == Some(
                HostError::PluginNotFound(index),
            ),
            old(self)@.contains_key(index) ==> final(self).error == old(self).error,
    {
        let p = match self.take(index) {
            Some(p) => p,
            None => {
                assert(self@ =~= old(self)@);
                return false;
            },
        };
        proof {
            self.lemma_take_keeps(*old(self), index);
        }
        let found = p.find_export(name).is_some();
        self.put(index, p);
        assert(self@ =~= old(self)@);
        found
    }

    /// Resolves the plugin and checks the function before a call. A missing
    /// function, or one with more than one result, is refused with the
    /// plugin untouched but for its error. Otherwise the input is staged,
    /// and where the last call asked for it the memory starts afresh and the
    /// caller must install a fresh instance.
    pub fn begin_call(&mut self, index: PluginIndex, name: &String, input: Vec<u8>) -> (r:
        CallPlan)
        requires
            old(self).wf(),
        ensures
            final(self).wf(),
            final(self)@.dom() == old(self)@.dom(),
            !old(self)@.contains_key(index) ==> r == CallPlan::NotFound && final(self)@ == old(
                self,
            )@ && final(self).error == Some(HostError::PluginNotFound(index)),
            old(self)@.contains_key(index) ==> {
                &&& final(self)@ == old(self)@.insert(index, final(self)@[index])
                &&& final(self).error == old(self).error
                &&& call_begun(old(self)@[index], final(self)@[index], name@, input@, r)
            },
    {
        let mut p = match self.take(index) {
            Some(p) => p,
            None => {
                assert(self@ =~= old(self)@);
                return CallPlan::NotFound;
            },
        };
        proof {
            self.lemma_take_keeps(*old(self), index);
        }
        let plan = match p.find_export(name) {
            None => {
                p.last_error = Some(HostError::FunctionNotFound(name.clone()));
                CallPlan::Rejected
            },
            Some(k) => match check_arity(name, k) {
                Err(e) => {
                    p.last_error = Some(e);
                    CallPlan::Rejected
                },
                Ok(results) => {
                    let reinstantiate = p.should_reinstantiate;
                    if reinstantiate {
                        p.memory = Memory::new(p.memory.size);
                        p.should_reinstantiate = false;
                    }
                    p.memory.input = input;
                    CallPlan::Run { reinstantiate, results, timer_id: p.timer_id }
                },
            },
        };
        self.put(index, p);
        assert(self@.dom() =~= old(self)@.dom());
        plan
    }

    /// Installs a fresh engine instance for the plugin at `index`, as a
    /// `CallPlan::Run` with `reinstantiate` asks; the staged input is kept.
    pub fn install_instance(&mut self, index: PluginIndex, instance: M, memory_size: u64) -> (r:
        bool)
        requires
            old(self).wf(),
        ensures
            final(self).wf(),
            r == old(self)@.contains_key(index),
            !r ==> final(self)@ == old(self)@ && final(self).error == Some(
                HostError::PluginNotFound(index),
            ),
            r ==> {
                let p0 = old(self)@[index];
                let p1 = final(self)@[index];
                &&& final(self)@ == old(self)@.insert(index, p1)
                &&& final(self).error == old(self).error
                &&& p1.instance == instance
                &&& p1.memory.size == memory_size
                &&& p1.memory.input == p0.memory.input
                &&& p1.memory.output_offset == p0.memory.output_offset
                &&& p1.memory.output_length == p0.memory.output_length
                &&& p1.exports == p0.exports
                &&& p1.manifest == p0.manifest
                &&& p1.last_error == p0.last_error
                &&& p1.should_reinstantiate == p0.should_reinstantiate
                &&& p1.timer_id == p0.timer_id
            },
    {
        let mut p = match self.take(index) {
            Some(p) => p,
            None => {
                assert(self@ =~= old(self)@);
                return false;
            },
        };
        proof {
            self.lemma_take_keeps(*old(self), index);
        }
        p.instance = instance;
        p.memory.size = memory_size;
        self.put(index, p);
        true
    }

    /// Records that the watchdog could not be armed; the call does not run.
    pub fn fail_timer_start(&mut self, index: PluginIndex) -> (r: i32)
        requires
            old(self).wf(),
        ensures
            final(self).wf(),
            r == CALL_FAILED,
            !old(self)@.contains_key(index) ==> final(self)@ == old(self)@ && final(self).error
                == Some(HostError::PluginNotFound(index)),
            old(self)@.contains_key(index) ==> final(self)@ == old(self)@.insert(
                index,
                Plugin {
                    last_error: Some(HostError::TimerStart(old(self)@[index].timer_id)),
                    ..old(self)@[index]
                },
            ),
    {
        let mut p = match self.take(index) {
            Some(p) => p,
            None => {
                assert(self@ =~= old(self)@);
                return CALL_FAILED;
            },
        };
        proof {
            self.lemma_take_keeps(*old(self), index);
        }
        p.last_error = Some(HostError::TimerStart(p.timer_id));
        self.put(index, p);
        CALL_FAILED
    }

    /// Settles a call that ran: a WASI start entry point marks the plugin
    /// for a fresh instance; a watchdog that could not be disarmed fails the
    /// call; otherwise the outcome is classified (see `classify`) and a
    /// failure recorded on the plugin.
    pub fn finish_call(
        &mut self,
        index: PluginIndex,
        name: &String,
        outcome: CallOutcome,
        disarmed: bool,
    ) -> (r: i32)
        requires
            old(self).wf(),
        ensures
            final(self).wf(),
            final(self)@.dom() == old(self)@.dom(),
            !old(self)@.contains_key(index) ==> r == CALL_FAILED && final(self)@ == old(self)@
                && final(self).error == Some(HostError::PluginNotFound(index)),
            old(self)@.contains_key(index) ==> {
                &&& final(self)@ == old(self)@.insert(index, final(self)@[index])
                &&& final(self).error == old(self).error
                &&& call_finished(
                    old(self)@[index],
                    final(self)@[index],
                    name@,
                    outcome,
                    disarmed,
                    r,
                )
            },
    {
        let mut p = match self.take(index) {
            Some(p) => p,
            None => {
                assert(self@ =~= old(self)@);
                return CALL_FAILED;
            },
        };
        proof {
            self.lemma_take_keeps(*old(self), index);
        }
        if p.manifest.wasi.is_some() && is_start(name) {
            p.should_reinstantiate = true;
        }
        let code = if !disarmed {
            p.last_error = Some(HostError::TimerStop(p.timer_id));
            CALL_FAILED
        } else {
            let (code, err) = classify(outcome);
            if err.is_some() {
                p.last_error = err;
            }
            code
        };
        self.put(index, p);
        assert(self@.dom() =~= old(self)@.dom());
        code
    }

    /// Records the output block the guest declared during a call.
    pub fn set_output(&mut self, index: PluginIndex, offset: u64, length: u64) -> (r: bool)
        requires
            old(self).wf(),
        ensures
            final(self).wf(),
            r == old(self)@.contains_key(index),
            !r ==> final(self)@ == old(self)@,
            r ==> final(self)@ == old(self)@.insert(
                index,
                Plugin {
                    memory: Memory {
                        output_offset: offset,
                        output_length: length,
                        ..old(self)@[index].memory
                    },
                    ..old(self)@[index]
                },
            ),
    {
        let mut p = match self.take(index) {
            Some(p) => p,
            None => {
                assert(self@ =~= old(self)@);
                return false;
            },
        };
        proof {
            self.lemma_take_keeps(*old(self), index);
        }
        p.memory.output_offset = offset;
        p.memory.output_length = length;
        self.put(index, p);
        true
    }

    /// Records the size of the plugin's linear memory after the guest grew it.
    pub fn set_memory_size(&mut self, index: PluginIndex, size: u64) -> (r: bool)
        requires
            old(self).wf(),
        ensures
            final(self).wf(),
            r == old(self)@.contains_key(index),
            !r ==> final(self)@ == old(self)@,
            r ==> final(self)@ == old(self)@.insert(
                index,
                Plugin { memory: Memory { size, ..old(self)@[index].memory }, ..old(self)@[index] },
            ),
    {
        let mut p = match self.take(index) {
            Some(p) => p,
            None => {
                assert(self@ =~= old(self)@);
                return false;
            },
        };
        proof {
            self.lemma_take_keeps(*old(self), index);
        }
        p.memory.size = size;
        self.put(index, p);
        true
    }

    /// The length of the output of the last call; 0 where there is no such
    /// plugin.
    pub fn output_length(&self, index: PluginIndex) -> (r: u64)
        ensures
            !self@.contains_key(index) ==> r == 0,
            self@.contains_key(index) ==> r == self@[index].memory.output_length,
    {
        match self.plugins.get(&index) {
            Some(p) => p.memory.output_length,
            None => 0,
        }
    }

    /// The host range of the output of the last call, where the plugin
    /// exists and the declared block lies inside its linear memory.
    pub fn output_range(&self, index: PluginIndex) -> (r: Option<(usize, usize)>)
        ensures
            r is Some <==> self@.contains_key(index) && {
                let m = self@[index].memory;
                m.output_block_spec().fits(m.size as nat) && m.output_offset + m.output_length
                    <= usize::MAX
            },
            r matches Some((start, end)) ==> start == self@[index].memory.output_offset && end
                == start + self@[index].memory.output_length,
    {
        match self.plugins.get(&index) {
            Some(p) => p.memory.output_range(),
            None => None,
        }
    }

    /// The error of the plugin at `index`, or the context error where no
    /// live plugin has that index (as for `-1`).
    pub fn error(&self, index: PluginIndex) -> (r: Option<&HostError>)
        ensures
            !self@.contains_key(index) ==> match self.error {
                Some(e) => r == Some(&e),
                None => r is None,
            },
            self@.contains_key(index) ==> match self@[index].last_error {
                Some(e) => r == Some(&e),
                None => r is None,
            },
    {
        match self.plugins.get(&index) {
            Some(p) => p.last_error.as_ref(),
            None => self.error.as_ref(),
        }
    }
}

} // verus!
