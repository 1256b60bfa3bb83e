use vstd::prelude::*;
use crate::assoc::{keys_unique, lemma_map_of_at, lemma_map_of_push, lemma_map_of_remove, lemma_map_of_set, map_of};

verus! {

/// A config entry as plain text values.
pub type Entry = (Seq<char>, Seq<char>);

/// A decoded config update: a key with a new value, or `None` to remove it.
pub type Update = (Seq<char>, Option<Seq<char>>);

pub open spec fn entries_view(v: Seq<(String, String)>) -> Seq<Entry> {
    v.map_values(|p: (String, String)| (p.0@, p.1@))
}

pub open spec fn updates_view(v: Seq<(String, Option<String>)>) -> Seq<Update> {
    v.map_values(
        |p: (String, Option<String>)|
            (
                p.0@,
                match p.1 {
                    Some(s) => Some(s@),
                    None => None,
                },
            ),
    )
}

/// One update applied to a config map.
pub open spec fn apply_update(m: Map<Seq<char>, Seq<char>>, u: Update) -> Map<
    Seq<char>,
    Seq<char>,
> {
    match u.1 {
        Some(v) => m.insert(u.0, v),
        None => m.remove(u.0),
    }
}

/// A batch of updates applied in order.
pub open spec fn apply_updates(m: Map<Seq<char>, Seq<char>>, us: Seq<Update>) -> Map<
    Seq<char>,
    Seq<char>,
>
    decreases us.len(),
{
    if us.len() == 0 {
        m
    } else {
        apply_update(apply_updates(m, us.drop_last()), us.last())
    }
}

/// Two updates of distinct keys give the same config in either order.
pub proof fn lemma_distinct_updates_commute(m: Map<Seq<char>, Seq<char>>, a: Update, b: Update)
    requires
        a.0 != b.0,
    ensures
        apply_updates(m, seq![a, b]) == apply_updates(m, seq![b, a]),
{
    assert(seq![a, b].drop_last() =~= seq![a]);
    assert(seq![b, a].drop_last() =~= seq![b]);
    assert(seq![a].drop_last() =~= Seq::<Update>::empty());
    assert(seq![b].drop_last() =~= Seq::<Update>::empty());
    reveal_with_fuel(apply_updates, 3);
    assert(apply_updates(m, seq![a, b]) == apply_update(apply_update(m, a), b));
    assert(apply_updates(m, seq![b, a]) == apply_update(apply_update(m, b), a));
    assert(apply_update(apply_update(m, a), b) =~= apply_update(apply_update(m, b), a));
}

/// Setting two distinct keys on an empty config and then removing the
/// first leaves exactly the second.
pub proof fn lemma_set_two_remove_one(a: Seq<char>, b: Seq<char>, va: Seq<char>, vb: Seq<char>)
    requires
        a != b,
    ensures
        apply_updates(
            apply_updates(Map::empty(), seq![(a, Some(va)), (b, Some(vb))]),
            seq![(a, None::<Seq<char>>)],
        ) == map![b => vb],
{
    let first = seq![(a, Some(va)), (b, Some(vb))];
    let second = seq![(a, None::<Seq<char>>)];
    assert(first.drop_last() =~= seq![(a, Some(va))]);
    assert(seq![(a, Some(va))].drop_last() =~= Seq::<Update>::empty());
    assert(second.drop_last() =~= Seq::<Update>::empty());
    reveal_with_fuel(apply_updates, 3);
    let e = Map::<Seq<char>, Seq<char>>::empty();
    assert(apply_updates(e, first) == e.insert(a, va).insert(b, vb));
    assert(apply_updates(e.insert(a, va).insert(b, vb), second) == e.insert(a, va).insert(
        b,
        vb,
    ).remove(a));
    assert(e.insert(a, va).insert(b, vb).remove(a) =~= map![b => vb]);
}

/// The environment variables that mirroring a batch into WASI pushes: the
/// new value, or the empty string for a removal.
pub open spec fn env_pushes(us: Seq<Update>) -> Seq<Entry> {
    us.map_values(
        |u: Update|
            (
                u.0,
                match u.1 {
                    Some(v) => v,
                    None => Seq::empty(),
                },
            ),
    )
}

/// The WASI overlay of a plugin: the environment variables pushed so far,
/// in order.
#[derive(Debug)]
pub struct WasiEnv {
    pub env: Vec<(String, String)>,
}

/// The declarative configuration of a plugin.
#[derive(Debug)]
pub struct Manifest {
    pub config: Vec<(String, String)>,
    pub wasi: Option<WasiEnv>,
}

impl Manifest {
    /// A manifest with an empty config, with a WASI overlay iff `with_wasi`.
    pub fn new(with_wasi: bool) -> (r: Manifest)
        ensures
            r.wf(),
            r.config_view() == Map::<Seq<char>, Seq<char>>::empty(),
            r.has_wasi() == with_wasi,
            with_wasi ==> r.env_view() == Seq::<Entry>::empty(),
    {
        let wasi = if with_wasi {
            Some(WasiEnv { env: Vec::new() })
        } else {
            None
        };
        let r = Manifest { config: Vec::new(), wasi };
        assert(r.config_view() =~= Map::<Seq<char>, Seq<char>>::empty());
        r
    }

    pub open spec fn wf(self) -> bool {
        keys_unique(entries_view(self.config@))
    }

    pub open spec fn config_view(self) -> Map<Seq<char>, Seq<char>> {
        map_of(entries_view(self.config@))
    }

    pub open spec fn has_wasi(self) -> bool {
        self.wasi is Some
    }

    pub open spec fn env_view(self) -> Seq<Entry> {
        entries_view(self.wasi->Some_0.env@)
    }

    /// The position of `key` in the config list.
    fn find(&self, key: &String) -> (r: Option<usize>)
        requires
            self.wf(),
        ensures
            r is None <==> !self.config_view().contains_key(key@),
            r matches Some(i) ==> i < self.config@.len() && self.config@[i as int].0@ == key@,
    {
        let mut i: usize = 0;
        while i < self.config.len()
            invariant
                i <= self.config@.len(),
                forall|j: int| 0 <= j < i ==> self.config@[j].0@ != key@,
            decreases self.config@.len() - i,
        {
            if self.config[i].0 == *key {
                assert(entries_view(self.config@)[i as int].0 == key@);
                return Some(i);
            }
            i = i + 1;
        }
        let ghost s = entries_view(self.config@);
        proof {
            if self.config_view().contains_key(key@) {
                let j = choose|j: int| 0 <= j < s.len() && s[j].0 == key@;
                assert(self.config@[j].0@ == key@);
            }
        }
        None
    }

    /// Looks up one config value.
    pub fn get(&self, key: &String) -> (r: Option<String>)
        requires
            self.wf(),
        ensures
            r is Some <==> self.config_view().contains_key(key@),
            r matches Some(v) ==> v@ == self.config_view()[key@],
    {
        match self.find(key) {
            Some(i) => {
                proof {
                    lemma_map_of_at(entries_view(self.config@), i as int);
                }
                Some(self.config[i].1.clone())
            },
            None => None,
        }
    }

    /// Sets `key` to `value`, overwriting any earlier value.
    pub fn insert(&mut self, key: String, value: String)
        requires
            old(self).wf(),
        ensures
            final(self).wf(),
            final(self).config_view() == old(self).config_view().insert(key@, value@),
            final(self).wasi == old(self).wasi,
    {
        let ghost s = entries_view(self.config@);
        match self.find(&key) {
            Some(i) => {
                proof {
                    lemma_map_of_set(s, i as int, value@);
                }
                self.config.set(i, (key, value));
                assert(entries_view(self.config@) =~= s.update(i as int, (s[i as int].0, value@)));
            },
            None => {
                proof {
                    lemma_map_of_push(s, key@, value@);
                }
                self.config.push((key, value));
                assert(entries_view(self.config@) =~= s.push((key@, value@)));
            },
        }
    }

    /// Removes `key`; nothing changes where it is absent.
    pub fn remove(&mut self, key: &String)
        requires
            old(self).wf(),
        ensures
            final(self).wf(),
            final(self).config_view() == old(self).config_view().remove(key@),
            final(self).wasi == old(self).wasi,
    {
        let ghost s = entries_view(self.config@);
        match self.find(key) {
            Some(i) => {
                proof {
                    lemma_map_of_remove(s, i as int);
                }
                self.config.remove(i);
                assert(entries_view(self.config@) =~= s.remove(i as int));
            },
            None => {
                assert(self.config_view() =~= self.config_view().remove(key@));
            },
        }
    }

    /// Pushes one environment variable into the WASI overlay, if there is one.
    fn push_env(&mut self, key: String, value: String)
        ensures
            final(self).config == old(self).config,
            final(self).has_wasi() == old(self).has_wasi(),
            old(self).has_wasi() ==> final(self).env_view() == old(self).env_view().push(
                (key@, value@),
            ),
    {
        match &mut self.wasi {
            Some(w) => {
                let ghost e = entries_view(w.env@);
                w.env.push((key, value));
                assert(entries_view(w.env@) =~= e.push((key@, value@)));
            },
            None => {},
        }
    }

    /// Merges a decoded batch of updates into the config, in order: a value
    /// sets its key, `None` removes it. With WASI enabled every update is
    /// mirrored into the environment, a removal as the empty string.
    pub fn merge(&mut self, updates: Vec<(String, Option<String>)>)
        requires
            old(self).wf(),
        ensures
            final(self).wf(),
            final(self).config_view() == apply_updates(
                old(self).config_view(),
                updates_view(updates@),
            ),
            final(self).has_wasi() == old(self).has_wasi(),
            old(self).has_wasi() ==> final(self).env_view() == old(self).env_view() + env_pushes(
                updates_view(updates@),
            ),
    {
        let ghost us = updates_view(updates@);
        let ghost m0 = self.config_view();
        let ghost e0 = if self.has_wasi() {
            self.env_view()
        } else {
            Seq::empty()
        };
        let mut i: usize = 0;
        while i < updates.len()
            invariant
                i <= updates@.len(),
                us == updates_view(updates@),
                self.wf(),
                self.config_view() == apply_updates(m0, us.take(i as int)),
                self.has_wasi() == old(self).has_wasi(),
                old(self).has_wasi() ==> e0 == old(self).env_view(),
                self.has_wasi() ==> self.env_view() == e0 + env_pushes(us.take(i as int)),
            decreases updates@.len() - i,
        {
            let key = updates[i].0.clone();
            assert(us.take(i as int + 1).drop_last() =~= us.take(i as int));
            assert(env_pushes(us.take(i as int + 1)) =~= env_pushes(us.take(i as int)).push(
                env_pushes(us)[i as int],
            ));
            match &updates[i].1 {
                Some(v) => {
                    self.push_env(key.clone(), v.clone());
                    self.insert(key, v.clone());
                },
                None => {
                    self.push_env(key.clone(), String::new());
                    self.remove(&key);
                },
            }
            i = i + 1;
        }
        assert(us.take(updates@.len() as int) =~= us);
    }
}

} // verus!
