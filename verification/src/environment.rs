//! The chained scope store, realized as an arena: every environment, class
//! instance and array lives in the heap and is named by its index. Parent
//! links always point at older entries, so every chain is acyclic.
use crate::callable::QalamInstance;
use crate::hashable::HashableMap;
use crate::literal::{opt_dup, opt_like, Literal, QalamArray};
use vstd::prelude::*;

verus! {

pub struct Environment {
    pub enclosing: Option<usize>,
    pub values: HashableMap<Option<Literal>>,
}

impl Environment {
    pub open spec fn wf_at(self, i: int) -> bool {
        &&& match self.enclosing {
            Some(j) => (j as int) < i,
            None => true,
        }
        &&& self.values.wf()
    }
}

pub struct Heap {
    pub envs: Vec<Environment>,
    pub instances: Vec<QalamInstance>,
    pub arrays: Vec<QalamArray>,
}

impl Heap {
    pub open spec fn wf(self) -> bool {
        &&& forall|i: int| 0 <= i < self.envs@.len() ==> (#[trigger] self.envs@[i]).wf_at(i)
        &&& forall|i: int|
            0 <= i < self.instances@.len() ==> (#[trigger] self.instances@[i]).fields.wf()
    }

    /// The environments other than the ones listed are unchanged, and no
    /// environment's parent link moved.
    pub open spec fn envs_same_but(self, post: Heap, e: int) -> bool {
        &&& post.envs@.len() == self.envs@.len()
        &&& forall|i: int|
            0 <= i < self.envs@.len() && i != e ==> post.envs@[i] == #[trigger] self.envs@[i]
        &&& 0 <= e < self.envs@.len() ==> post.envs@[e].enclosing == self.envs@[e].enclosing
    }

    pub fn new() -> (r: Self)
        ensures
            r.wf(),
            r.envs@.len() == 0,
            r.instances@.len() == 0,
            r.arrays@.len() == 0,
    {
        Heap { envs: Vec::new(), instances: Vec::new(), arrays: Vec::new() }
    }

    /// Acquires a fresh environment whose parent is the given one.
    pub fn new_env(&mut self, enclosing: Option<usize>) -> (h: usize)
        requires
            old(self).wf(),
            match enclosing {
                Some(j) => j < old(self).envs@.len(),
                None => true,
            },
        ensures
            final(self).wf(),
            h == old(self).envs@.len(),
            final(self).envs@.len() == old(self).envs@.len() + 1,
            forall|i: int|
                0 <= i < old(self).envs@.len() ==> final(self).envs@[i] == #[trigger] old(
                    self,
                ).envs@[i],
            final(self).envs@[h as int].enclosing == enclosing,
            final(self).envs@[h as int].values@ == Map::<Seq<char>, Option<Literal>>::empty(),
            final(self).instances == old(self).instances,
            final(self).arrays == old(self).arrays,
    {
        let h = self.envs.len();
        self.envs.push(Environment { enclosing, values: HashableMap::new() });
        h
    }

    /// Sets the name in the given environment itself, shadowing nothing and
    /// walking nowhere.
    pub fn define(&mut self, env: usize, name: String, value: Option<Literal>)
        requires
            old(self).wf(),
            env < old(self).envs@.len(),
        ensures
            final(self).wf(),
            old(self).envs_same_but(*final(self), env as int),
            final(self).envs@[env as int].values@ == old(self).envs@[env as int].values@.insert(
                name@,
                value,
            ),
            final(self).instances == old(self).instances,
            final(self).arrays == old(self).arrays,
    {
        let e = &mut self.envs[env];
        e.values.insert(name, value);
    }

    /// What reading the name through the chain that starts at env yields:
    /// the nearest binding, or nothing when no environment on the chain
    /// holds one.
    pub open spec fn lookup(self, env: int, name: Seq<char>) -> Option<Option<Literal>>
        decreases env,
    {
        if 0 <= env < self.envs@.len() {
            let e = self.envs@[env];
            if e.values@.contains_key(name) {
                Some(e.values@[name])
            } else {
                match e.enclosing {
                    Some(p) => {
                        if (p as int) < env {
                            self.lookup(p as int, name)
                        } else {
                            None
                        }
                    },
                    None => None,
                }
            }
        } else {
            None
        }
    }

    pub fn get(&self, env: usize, name: &String) -> (r: Option<Option<Literal>>)
        requires
            self.wf(),
            env < self.envs@.len(),
        ensures
            match r {
                Some(v) => self.lookup(env as int, name@) matches Some(w) && opt_like(w, v),
                None => self.lookup(env as int, name@) is None,
            },
        decreases env,
    {
        let e = &self.envs[env];
        match e.values.get(name) {
            Some(v) => Some(opt_dup(v)),
            None => {
                match e.enclosing {
                    Some(p) => {
                        assert((p as int) < env as int);
                        self.get(p, name)
                    },
                    None => None,
                }
            },
        }
    }

    /// The environment on the chain that actually holds the name, where one
    /// does: the one an assignment writes to.
    pub open spec fn assign_target(self, env: int, name: Seq<char>) -> Option<int>
        decreases env,
    {
        if 0 <= env < self.envs@.len() {
            let e = self.envs@[env];
            if e.values@.contains_key(name) {
                Some(env)
            } else {
                match e.enclosing {
                    Some(p) => {
                        if (p as int) < env {
                            self.assign_target(p as int, name)
                        } else {
                            None
                        }
                    },
                    None => None,
                }
            }
        } else {
            None
        }
    }

    /// Walks the chain and replaces the nearest binding; reports whether one
    /// was found.
    pub fn assign(&mut self, env: usize, name: &String, value: Option<Literal>) -> (r: bool)
        requires
            old(self).wf(),
            env < old(self).envs@.len(),
        ensures
            final(self).wf(),
            final(self).instances == old(self).instances,
            final(self).arrays == old(self).arrays,
            match old(self).assign_target(env as int, name@) {
                Some(t) => r && old(self).envs_same_but(*final(self), t) && final(self).envs@[t].values@
                    == old(self).envs@[t].values@.insert(name@, value),
                None => !r && final(self).envs == old(self).envs,
            },
        decreases env,
    {
        let contains = self.envs[env].values.contains_key(name);
        if contains {
            let e = &mut self.envs[env];
            e.values.insert(name.clone(), value);
            true
        } else {
            let parent = self.envs[env].enclosing;
            match parent {
                Some(p) => {
                    assert((p as int) < env as int);
                    self.assign(p, name, value)
                },
                None => false,
            }
        }
    }

    /// The environment exactly depth parents above, where the chain reaches
    /// that far.
    pub open spec fn ancestor_spec(self, env: int, depth: int) -> Option<int>
        decreases depth,
    {
        if !(0 <= env < self.envs@.len()) {
            None
        } else if depth <= 0 {
            Some(env)
        } else {
            match self.envs@[env].enclosing {
                Some(p) => self.ancestor_spec(p as int, depth - 1),
                None => None,
            }
        }
    }

    pub fn ancestor(&self, env: usize, depth: usize) -> (r: Option<usize>)
        requires
            self.wf(),
            env < self.envs@.len(),
        ensures
            match r {
                Some(a) => self.ancestor_spec(env as int, depth as int) == Some(a as int) && a
                    < self.envs@.len(),
                None => self.ancestor_spec(env as int, depth as int) is None,
            },
    {
        let mut cur = env;
        let mut i: usize = 0;
        while i < depth
            invariant
                self.wf(),
                cur < self.envs@.len(),
                i <= depth,
                self.ancestor_spec(env as int, depth as int) == self.ancestor_spec(
                    cur as int,
                    (depth - i) as int,
                ),
            decreases depth - i,
        {
            match self.envs[cur].enclosing {
                Some(p) => {
                    assert((p as int) < cur as int);
                    cur = p;
                },
                None => {
                    return None;
                },
            }
            i = i + 1;
        }
        Some(cur)
    }

    /// What indexed reading yields: the binding of the name in the ancestor
    /// exactly depth links up, where both exist.
    pub open spec fn lookup_at(self, env: int, depth: int, name: Seq<char>) -> Option<
        Option<Literal>,
    > {
        match self.ancestor_spec(env, depth) {
            Some(a) => {
                if self.envs@[a].values@.contains_key(name) {
                    Some(self.envs@[a].values@[name])
                } else {
                    None
                }
            },
            None => None,
        }
    }

    pub fn get_at(&self, env: usize, depth: usize, name: &String) -> (r: Option<Option<Literal>>)
        requires
            self.wf(),
            env < self.envs@.len(),
        ensures
            match r {
                Some(v) => self.lookup_at(env as int, depth as int, name@) matches Some(w)
                    && opt_like(w, v),
                None => self.lookup_at(env as int, depth as int, name@) is None,
            },
    {
        match self.ancestor(env, depth) {
            Some(a) => {
                match self.envs[a].values.get(name) {
                    Some(v) => Some(opt_dup(v)),
                    None => None,
                }
            },
            None => None,
        }
    }

    /// Writes the name in the ancestor exactly depth links up, creating the
    /// binding there if the resolver promised one that is missing; reports
    /// whether the ancestor exists.
    pub fn assign_at(
        &mut self,
        env: usize,
        depth: usize,
        name: &String,
        value: Option<Literal>,
    ) -> (r: bool)
        requires
            old(self).wf(),
            env < old(self).envs@.len(),
        ensures
            final(self).wf(),
            final(self).instances == old(self).instances,
            final(self).arrays == old(self).arrays,
            match old(self).ancestor_spec(env as int, depth as int) {
                Some(a) => r && old(self).envs_same_but(*final(self), a) && final(self).envs@[a].values@
                    == old(self).envs@[a].values@.insert(name@, value),
                None => !r && final(self).envs == old(self).envs,
            },
    {
        match self.ancestor(env, depth) {
            Some(a) => {
                let e = &mut self.envs[a];
                e.values.insert(name.clone(), value);
                true
            },
            None => false,
        }
    }

    pub fn array_len(&self, h: usize) -> (r: usize)
        requires
            h < self.arrays@.len(),
        ensures
            r == self.arrays@[h as int].elements@.len(),
    {
        self.arrays[h].elements.len()
    }

    pub fn array_get(&self, h: usize, i: usize) -> (r: Option<Literal>)
        requires
            h < self.arrays@.len(),
            i < self.arrays@[h as int].elements@.len(),
        ensures
            opt_like(self.arrays@[h as int].elements@[i as int], r),
    {
        opt_dup(&self.arrays[h].elements[i])
    }

    pub fn array_set(&mut self, h: usize, i: usize, v: Option<Literal>)
        requires
            old(self).wf(),
            h < old(self).arrays@.len(),
            i < old(self).arrays@[h as int].elements@.len(),
        ensures
            final(self).wf(),
            final(self).envs == old(self).envs,
            final(self).instances == old(self).instances,
            final(self).arrays@.len() == old(self).arrays@.len(),
            forall|j: int|
                0 <= j < old(self).arrays@.len() && j != h ==> final(self).arrays@[j]
                    == #[trigger] old(self).arrays@[j],
            final(self).arrays@[h as int].elements@ == old(self).arrays@[h as int].elements@.update(
                i as int,
                v,
            ),
    {
        let a = &mut self.arrays[h];
        a.elements[i] = v;
    }

    pub fn array_push(&mut self, h: usize, v: Option<Literal>)
        requires
            old(self).wf(),
            h < old(self).arrays@.len(),
        ensures
            final(self).wf(),
            final(self).envs == old(self).envs,
            final(self).instances == old(self).instances,
            final(self).arrays@.len() == old(self).arrays@.len(),
            forall|j: int|
                0 <= j < old(self).arrays@.len() && j != h ==> final(self).arrays@[j]
                    == #[trigger] old(self).arrays@[j],
            final(self).arrays@[h as int].elements@ == old(self).arrays@[h as int].elements@.push(
                v,
            ),
    {
        let a = &mut self.arrays[h];
        a.elements.push(v);
    }

    pub fn array_pop(&mut self, h: usize) -> (r: Option<Option<Literal>>)
        requires
            old(self).wf(),
            h < old(self).arrays@.len(),
        ensures
            final(self).wf(),
            final(self).envs == old(self).envs,
            final(self).instances == old(self).instances,
            final(self).arrays@.len() == old(self).arrays@.len(),
            forall|j: int|
                0 <= j < old(self).arrays@.len() && j != h ==> final(self).arrays@[j]
                    == #[trigger] old(self).arrays@[j],
            old(self).arrays@[h as int].elements@.len() == 0 ==> r is None
                && final(self).arrays@[h as int].elements@ == old(
                self,
            ).arrays@[h as int].elements@,
            old(self).arrays@[h as int].elements@.len() > 0 ==> r == Some(
                old(self).arrays@[h as int].elements@.last(),
            ) && final(self).arrays@[h as int].elements@
                == old(self).arrays@[h as int].elements@.drop_last(),
    {
        let a = &mut self.arrays[h];
        a.elements.pop()
    }

    /// Sets a field on the instance behind the handle, creating it where it
    /// is absent.
    pub fn instance_set(&mut self, h: usize, name: &String, v: Option<Literal>)
        requires
            old(self).wf(),
            h < old(self).instances@.len(),
        ensures
            final(self).wf(),
            final(self).envs == old(self).envs,
            final(self).arrays == old(self).arrays,
            final(self).instances@.len() == old(self).instances@.len(),
            forall|j: int|
                0 <= j < old(self).instances@.len() && j != h ==> final(self).instances@[j]
                    == #[trigger] old(self).instances@[j],
            final(self).instances@[h as int].fields@ == old(self).instances@[h as int].fields@.insert(
                name@,
                v,
            ),
            final(self).instances@[h as int].class == old(self).instances@[h as int].class,
    {
        let inst = &mut self.instances[h];
        inst.fields.insert(name.clone(), v);
    }

    pub fn alloc_array(&mut self, arr: QalamArray) -> (h: usize)
        requires
            old(self).wf(),
        ensures
            final(self).wf(),
            h == old(self).arrays@.len(),
            final(self).arrays@ == old(self).arrays@.push(arr),
            final(self).envs == old(self).envs,
            final(self).instances == old(self).instances,
    {
        let h = self.arrays.len();
        self.arrays.push(arr);
        h
    }

    pub fn alloc_instance(&mut self, inst: QalamInstance) -> (h: usize)
        requires
            old(self).wf(),
            inst.fields.wf(),
        ensures
            final(self).wf(),
            h == old(self).instances@.len(),
            final(self).instances@ == old(self).instances@.push(inst),
            final(self).envs == old(self).envs,
            final(self).arrays == old(self).arrays,
    {
        let h = self.instances.len();
        self.instances.push(inst);
        h
    }
}

/// An assignment's target, where there is one, is a live environment.
pub proof fn lemma_assign_target_bound(h: Heap, env: int, name: Seq<char>)
    ensures
        (match h.assign_target(env, name) {
            Some(t) => 0 <= t < h.envs@.len(),
            None => true,
        }),
    decreases env,
{
    if 0 <= env < h.envs@.len() {
        if !h.envs@[env].values@.contains_key(name) {
            match h.envs@[env].enclosing {
                Some(p) => {
                    if (p as int) < env {
                        lemma_assign_target_bound(h, p as int, name);
                    }
                },
                None => {},
            }
        }
    }
}

/// Walking to an ancestor looks only at the parent links of environments
/// that already existed, so any later heap that keeps those links (however
/// much else it adds or rebinds) resolves the same ancestor.
pub proof fn lemma_ancestor_stable(h1: Heap, h2: Heap, env: int, depth: int)
    requires
        h1.wf(),
        0 <= env < h1.envs@.len(),
        h2.envs@.len() >= h1.envs@.len(),
        forall|i: int|
            0 <= i < h1.envs@.len() ==> (#[trigger] h2.envs@[i]).enclosing == h1.envs@[i].enclosing,
    ensures
        h1.ancestor_spec(env, depth) == h2.ancestor_spec(env, depth),
    decreases depth,
{
    if depth > 0 {
        match h1.envs@[env].enclosing {
            Some(p) => {
                assert(h1.envs@[env].wf_at(env));
                lemma_ancestor_stable(h1, h2, p as int, depth - 1);
            },
            None => {},
        }
    }
}

/// Writing a name in an environment and then reading the same name through
/// the same environment yields exactly the written value: what a closure
/// captures is the binding, and later writes are observed by later reads.
pub proof fn lemma_env_read_after_write(pre: Heap, post: Heap, env: int, name: Seq<char>, value: Option<Literal>)
    requires
        pre.wf(),
        0 <= env < pre.envs@.len(),
        pre.envs_same_but(post, env),
        post.envs@[env].values@ == pre.envs@[env].values@.insert(name, value),
    ensures
        post.lookup(env, name) == Some(value),
{
}

/// The same write leaves every other name on the chain exactly as it was.
pub proof fn lemma_env_write_frame(
    pre: Heap,
    post: Heap,
    env: int,
    name: Seq<char>,
    value: Option<Literal>,
    read_env: int,
    other: Seq<char>,
)
    requires
        pre.wf(),
        0 <= env < pre.envs@.len(),
        pre.envs_same_but(post, env),
        post.envs@[env].values@ == pre.envs@[env].values@.insert(name, value),
        other != name,
    ensures
        post.lookup(read_env, other) == pre.lookup(read_env, other),
    decreases read_env,
{
    if 0 <= read_env < pre.envs@.len() {
        let e_pre = pre.envs@[read_env];
        let e_post = post.envs@[read_env];
        assert(e_post.enclosing == e_pre.enclosing);
        if read_env == env {
            assert(e_post.values@.contains_key(other) == e_pre.values@.contains_key(other));
        }
        match e_pre.enclosing {
            Some(p) => {
                if (p as int) < read_env {
                    lemma_env_write_frame(pre, post, env, name, value, p as int, other);
                }
            },
            None => {},
        }
    }
}

} // verus!
