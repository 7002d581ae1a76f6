//! The environment manager: environments numbered in the order they are
//! created, each with its bindings and the number of its parent.
use vstd::prelude::*;
use crate::environment::bindings::Bindings;
use crate::text::{decimal, push_decimal, push_str};

verus! {

broadcast use vstd::string::group_string_axioms;

/// The number of an environment.
pub type EnvironmentId = usize;

/// Why an environment operation failed.
#[derive(Debug, PartialEq)]
pub enum EnvError {
    /// No environment has the number given; the message names it.
    RuntimeError(String),
    /// The variable is bound nowhere along the chain of environments.
    UndefinedVariable(String),
    /// As many names as values were expected; the message gives both counts.
    ArityError(String),
}

/// Model of [`EnvError`].
pub ghost enum EnvErrorModel {
    RuntimeError(Seq<char>),
    UndefinedVariable(Seq<char>),
    ArityError(Seq<char>),
}

impl View for EnvError {
    type V = EnvErrorModel;

    open spec fn view(&self) -> EnvErrorModel {
        match self {
            EnvError::RuntimeError(m) => EnvErrorModel::RuntimeError(m@),
            EnvError::UndefinedVariable(n) => EnvErrorModel::UndefinedVariable(n@),
            EnvError::ArityError(m) => EnvErrorModel::ArityError(m@),
        }
    }
}

/// `Environment <id> not found`.
pub open spec fn not_found_message(id: usize) -> Seq<char> {
    "Environment "@ + decimal(id as nat) + " not found"@
}

/// `Expected <names> arguments, got <values>`.
pub open spec fn arity_message(names: nat, values: nat) -> Seq<char> {
    "Expected "@ + decimal(names) + " arguments, got "@ + decimal(values)
}

fn not_found_error(id: usize) -> (e: EnvError)
    ensures
        e@ == EnvErrorModel::RuntimeError(not_found_message(id)),
{
    let mut s = String::new();
    push_str(&mut s, "Environment ");
    push_decimal(&mut s, id as u64);
    push_str(&mut s, " not found");
    assert(s@ =~= not_found_message(id));
    EnvError::RuntimeError(s)
}

/// Model of one environment: its bindings and its parent's number.
pub ghost struct EnvironmentModel<V> {
    pub bindings: Map<Seq<char>, V>,
    pub parent_id: Option<usize>,
}

/// The data of one environment.
#[derive(Debug)]
pub struct EnvironmentData<V> {
    bindings: Bindings<V>,
    parent_id: Option<EnvironmentId>,
}

impl<V> EnvironmentData<V> {
    pub closed spec fn model(&self) -> EnvironmentModel<V> {
        EnvironmentModel { bindings: self.bindings@, parent_id: self.parent_id }
    }

    pub closed spec fn wf(&self) -> bool {
        self.bindings.wf()
    }
}

/// Whether following parents from `id` ends within `fuel` steps, at an
/// environment without parent or at a number no environment has.
pub open spec fn chain_ends<V>(envs: Seq<EnvironmentModel<V>>, id: usize, fuel: nat) -> bool
    decreases fuel,
{
    if id >= envs.len() {
        true
    } else {
        match envs[id as int].parent_id {
            None => true,
            Some(p) => fuel > 0 && chain_ends(envs, p, (fuel - 1) as nat),
        }
    }
}

/// Where a name resolves from an environment.
pub ghost enum Resolution<V> {
    /// Bound in environment `0` to the value `1`.
    Bound(usize, V),
    /// Bound nowhere along the chain.
    Unbound,
    /// The chain reaches the number `0`, which no environment has.
    MissingEnv(usize),
}

/// Where `name` resolves from environment `id`: the first environment along
/// the chain of parents that binds it.
pub open spec fn resolve<V>(envs: Seq<EnvironmentModel<V>>, id: usize, name: Seq<char>, fuel: nat) -> Resolution<V>
    decreases fuel,
{
    if id >= envs.len() {
        Resolution::MissingEnv(id)
    } else if envs[id as int].bindings.dom().contains(name) {
        Resolution::Bound(id, envs[id as int].bindings[name])
    } else {
        match envs[id as int].parent_id {
            None => Resolution::Unbound,
            Some(p) => if fuel > 0 {
                resolve(envs, p, name, (fuel - 1) as nat)
            } else {
                Resolution::Unbound
            },
        }
    }
}

/// The environments after binding `name` to `value` in environment `id`.
pub open spec fn bind<V>(envs: Seq<EnvironmentModel<V>>, id: usize, name: Seq<char>, value: V) -> Seq<EnvironmentModel<V>> {
    envs.update(
        id as int,
        EnvironmentModel {
            bindings: envs[id as int].bindings.insert(name, value),
            parent_id: envs[id as int].parent_id,
        },
    )
}

/// The bindings of `names` to `values`, pairwise in order, a later name
/// winning over an earlier equal one.
pub open spec fn zip_bindings<V>(names: Seq<String>, values: Seq<V>) -> Map<Seq<char>, V>
    decreases names.len(),
{
    if names.len() == 0 || values.len() != names.len() {
        Map::empty()
    } else {
        zip_bindings(names.drop_last(), values.drop_last()).insert(names.last()@, values.last())
    }
}

/// Every environment's parent was created before it.
pub open spec fn parents_precede<V>(envs: Seq<EnvironmentModel<V>>) -> bool {
    forall|i: int| 0 <= i < envs.len() ==> match #[trigger] envs[i].parent_id {
        Some(p) => p < i,
        None => true,
    }
}

proof fn lemma_chain_ends_below<V>(envs: Seq<EnvironmentModel<V>>, id: usize, fuel: nat)
    requires
        parents_precede(envs),
        id < fuel,
    ensures
        chain_ends(envs, id, fuel),
    decreases fuel,
{
    if id < envs.len() {
        match envs[id as int].parent_id {
            Some(p) => {
                lemma_chain_ends_below(envs, p, (fuel - 1) as nat);
            },
            None => {},
        }
    }
}

/// When every environment's parent was created before it, the chain of
/// parents from any environment ends, so lookups and assignments from it
/// are defined.
pub proof fn lemma_chains_end_when_parents_precede<V>(envs: Seq<EnvironmentModel<V>>, id: usize)
    requires
        parents_precede(envs),
    ensures
        chain_ends(envs, id, envs.len()),
{
    if id < envs.len() {
        lemma_chain_ends_below(envs, id, envs.len());
    }
}

/// A definition is seen by a lookup in the same environment: after binding
/// `name` to `value` in environment `id`, `name` resolves there to
/// `value`.
pub proof fn lemma_lookup_sees_define<V>(envs: Seq<EnvironmentModel<V>>, id: usize, name: Seq<char>, value: V, fuel: nat)
    requires
        id < envs.len(),
    ensures
        resolve(bind(envs, id, name, value), id, name, fuel) == Resolution::Bound(id, value),
{
}

pub(crate) proof fn lemma_resolve_bound<V>(envs: Seq<EnvironmentModel<V>>, id: usize, name: Seq<char>, fuel: nat)
    ensures
        resolve(envs, id, name, fuel) matches Resolution::Bound(j, v) ==> (j < envs.len()
            && envs[j as int].bindings.dom().contains(name) && v == envs[j as int].bindings[name]),
    decreases fuel,
{
    if id < envs.len() && !envs[id as int].bindings.dom().contains(name) {
        match envs[id as int].parent_id {
            Some(p) => {
                if fuel > 0 {
                    lemma_resolve_bound(envs, p, name, (fuel - 1) as nat);
                }
            },
            None => {},
        }
    }
}

/// An assignment is seen by later lookups: when `name` resolves from
/// environment `id` to a binding in environment `j`, rebinding it there
/// makes it resolve from `id` to the new value, in the same environment.
pub proof fn lemma_lookup_sees_set<V>(envs: Seq<EnvironmentModel<V>>, id: usize, name: Seq<char>, value: V, fuel: nat)
    requires
        resolve(envs, id, name, fuel) is Bound,
    ensures
        resolve(
            bind(envs, resolve(envs, id, name, fuel)->Bound_0, name, value),
            id,
            name,
            fuel,
        ) == Resolution::Bound(resolve(envs, id, name, fuel)->Bound_0, value),
    decreases fuel,
{
    let j = resolve(envs, id, name, fuel)->Bound_0;
    let after = bind(envs, j, name, value);
    assert(id < envs.len());
    if envs[id as int].bindings.dom().contains(name) {
        assert(j == id);
    } else {
        match envs[id as int].parent_id {
            Some(p) => {
                assert(fuel > 0);
                assert(resolve(envs, p, name, (fuel - 1) as nat) == resolve(envs, id, name, fuel));
                lemma_lookup_sees_set(envs, p, name, value, (fuel - 1) as nat);
                lemma_resolve_bound(envs, p, name, (fuel - 1) as nat);
                assert(j != id);
                assert(after[id as int] == envs[id as int]);
            },
            None => {},
        }
    }
}

/// A child sees its parent's bindings: from a new environment whose parent
/// is `p`, every name resolves as it does from `p`.
pub proof fn lemma_child_sees_parent<V>(envs: Seq<EnvironmentModel<V>>, p: usize, name: Seq<char>, fuel: nat)
    requires
        envs.len() < usize::MAX,
    ensures
        ({
            let grown = envs.push(EnvironmentModel { bindings: Map::<Seq<char>, V>::empty(), parent_id: Some(p) });
            resolve(grown, envs.len() as usize, name, fuel + 1) == resolve(grown, p, name, fuel)
        }),
{
    let grown = envs.push(EnvironmentModel { bindings: Map::<Seq<char>, V>::empty(), parent_id: Some(p) });
    let c = envs.len() as usize;
    assert(c < grown.len());
    assert(grown[c as int].bindings == Map::<Seq<char>, V>::empty());
    assert(!grown[c as int].bindings.dom().contains(name));
    assert(grown[c as int].parent_id == Some(p));
}

proof fn lemma_resolve_ignores_later<V>(envs: Seq<EnvironmentModel<V>>, c: usize, id: usize, name: Seq<char>, value: V, fuel: nat)
    requires
        parents_precede(envs),
        id < c < envs.len(),
    ensures
        resolve(bind(envs, c, name, value), id, name, fuel) == resolve(envs, id, name, fuel),
    decreases fuel,
{
    let after = bind(envs, c, name, value);
    assert(after[id as int] == envs[id as int]);
    match envs[id as int].parent_id {
        Some(p) => {
            if fuel > 0 {
                assert(p < id);
                lemma_resolve_ignores_later(envs, c, p, name, value, (fuel - 1) as nat);
            }
        },
        None => {},
    }
}

/// A definition in a child shadows without touching the parent: when
/// every environment's parent was created before it, binding a name in an
/// environment leaves every lookup from an earlier environment, such as
/// its parent, as it was.
pub proof fn lemma_define_leaves_earlier_envs<V>(envs: Seq<EnvironmentModel<V>>, c: usize, id: usize, name: Seq<char>, value: V, fuel: nat)
    requires
        parents_precede(envs),
        id < c < envs.len(),
    ensures
        resolve(bind(envs, c, name, value), id, name, fuel) == resolve(envs, id, name, fuel),
{
    lemma_resolve_ignores_later(envs, c, id, name, value, fuel);
}

/// Owns every environment; an environment is known by its number.
#[derive(Debug)]
pub struct EnvironmentManager<V> {
    environments: Vec<EnvironmentData<V>>,
    next_id: EnvironmentId,
}

impl<V> View for EnvironmentManager<V> {
    type V = Seq<EnvironmentModel<V>>;

    closed spec fn view(&self) -> Seq<EnvironmentModel<V>> {
        self.environments@.map_values(|d: EnvironmentData<V>| d.model())
    }
}

impl<V> EnvironmentManager<V> {
    /// The manager's invariant: environments are numbered from 0 in the
    /// order they were created, and each binding table is sound.
    pub closed spec fn wf(&self) -> bool {
        &&& self.next_id == self.environments@.len()
        &&& forall|i: int| 0 <= i < self.environments@.len() ==> #[trigger] self.environments@[i].wf()
    }

    /// A manager without environments.
    pub fn new() -> (m: EnvironmentManager<V>)
        ensures
            m.wf(),
            m@ == Seq::<EnvironmentModel<V>>::empty(),
    {
        let m = EnvironmentManager { environments: Vec::new(), next_id: 0 };
        assert(m@ =~= Seq::<EnvironmentModel<V>>::empty());
        m
    }

    fn push_env(&mut self, parent_id: Option<EnvironmentId>) -> (id: EnvironmentId)
        requires
            old(self).wf(),
            old(self)@.len() < usize::MAX,
        ensures
            final(self).wf(),
            id == old(self)@.len(),
            final(self)@ == old(self)@.push(
                EnvironmentModel { bindings: Map::<Seq<char>, V>::empty(), parent_id },
            ),
    {
        let id = self.next_id;
        self.next_id = self.next_id + 1;
        let ghost before = self.environments@;
        self.environments.push(EnvironmentData { bindings: Bindings::new(), parent_id });
        proof {
            assert(self@ =~= old(self)@.push(
                EnvironmentModel { bindings: Map::<Seq<char>, V>::empty(), parent_id },
            )) by {
                assert forall|i: int| 0 <= i < before.len() implies self.environments@[i] == before[i] by {}
            }
            assert forall|i: int| 0 <= i < self.environments@.len() implies #[trigger] self.environments@[i].wf() by {
                if i < before.len() {
                    assert(self.environments@[i] == before[i]);
                }
            }
        }
        id
    }

    /// Creates an environment without parent; returns its number.
    pub fn create_root_env(&mut self) -> (id: EnvironmentId)
        requires
            old(self).wf(),
            old(self)@.len() < usize::MAX,
        ensures
            final(self).wf(),
            id == old(self)@.len(),
            final(self)@ == old(self)@.push(
                EnvironmentModel { bindings: Map::<Seq<char>, V>::empty(), parent_id: None },
            ),
    {
        self.push_env(None)
    }

    /// Creates an environment whose parent is `parent_id`; returns its
    /// number. The parent need not exist.
    pub fn create_child_env(&mut self, parent_id: EnvironmentId) -> (id: EnvironmentId)
        requires
            old(self).wf(),
            old(self)@.len() < usize::MAX,
        ensures
            final(self).wf(),
            id == old(self)@.len(),
            final(self)@ == old(self)@.push(
                EnvironmentModel { bindings: Map::<Seq<char>, V>::empty(), parent_id: Some(parent_id) },
            ),
    {
        self.push_env(Some(parent_id))
    }

    /// Binds `name` to `value` in environment `env_id`, replacing any
    /// binding of `name` there; fails when no environment has that number.
    pub fn define(&mut self, env_id: EnvironmentId, name: String, value: V) -> (r: Result<(), EnvError>)
        requires
            old(self).wf(),
        ensures
            final(self).wf(),
            env_id < old(self)@.len() ==> r is Ok && final(self)@ == bind(old(self)@, env_id, name@, value),
            env_id >= old(self)@.len() ==> final(self)@ == old(self)@,
            env_id >= old(self)@.len() ==> (r matches Err(e) && e@ == EnvErrorModel::RuntimeError(
                not_found_message(env_id),
            )),
    {
        if env_id >= self.environments.len() {
            return Err(not_found_error(env_id));
        }
        let ghost before = self.environments@;
        let ghost key = name@;
        let mut data = self.take_env(env_id);
        data.bindings.insert(name, value);
        self.put_env(env_id, data);
        proof {
            assert(self@ =~= bind(old(self)@, env_id, key, value));
        }
        Ok(())
    }

    /// Moves environment `id` out, leaving an empty one in its place.
    fn take_env(&mut self, id: EnvironmentId) -> (d: EnvironmentData<V>)
        requires
            old(self).wf(),
            id < old(self)@.len(),
        ensures
            d.wf(),
            d.model() == old(self)@[id as int],
            final(self).environments@.len() == old(self).environments@.len(),
            final(self).next_id == old(self).next_id,
            forall|i: int|
                0 <= i < final(self).environments@.len() && i != id ==> #[trigger] final(self).environments@[i] == old(self).environments@[i],
    {
        let mut d = EnvironmentData { bindings: Bindings::new(), parent_id: None };
        let ghost before = self.environments@;
        std::mem::swap(&mut d, &mut self.environments[id]);
        assert(d == before[id as int]);
        d
    }

    /// Puts environment data `d` back as environment `id`.
    fn put_env(&mut self, id: EnvironmentId, d: EnvironmentData<V>)
        requires
            id < old(self).environments@.len(),
            old(self).next_id == old(self).environments@.len(),
            d.wf(),
            forall|i: int|
                0 <= i < old(self).environments@.len() && i != id ==> #[trigger] old(self).environments@[i].wf(),
        ensures
            final(self).wf(),
            final(self).environments@ == old(self).environments@.update(id as int, d),
            final(self)@ == old(self)@.update(id as int, d.model()),
    {
        let ghost before = self.environments@;
        self.environments.set(id, d);
        proof {
            assert forall|i: int| 0 <= i < self.environments@.len() implies #[trigger] self.environments@[i].wf() by {
                if i != id {
                    assert(self.environments@[i] == before[i]);
                }
            }
            assert(self@ =~= old(self)@.update(id as int, d.model()));
        }
    }

    proof fn lemma_wf_at(&self, i: int)
        requires
            self.wf(),
            0 <= i < self@.len(),
        ensures
            self.environments@[i].wf(),
            self.environments@[i].model() == self@[i],
    {
    }

    /// How many environments the manager holds.
    pub fn env_count(&self) -> (n: usize)
        requires
            self.wf(),
        ensures
            n == self@.len(),
    {
        self.environments.len()
    }

    /// Whether the chain of parents from `env_id` ends, at an environment
    /// without parent or at a number no environment has, within as many
    /// steps as there are environments: what [`lookup`](Self::lookup) and
    /// [`set`](Self::set) need of it.
    pub fn chain_ends_from(&self, env_id: EnvironmentId) -> (b: bool)
        requires
            self.wf(),
        ensures
            b == chain_ends(self@, env_id, self@.len()),
    {
        let mut cur = env_id;
        let mut fuel: usize = self.environments.len();
        loop
            invariant
                self.wf(),
                fuel <= self@.len(),
                chain_ends(self@, env_id, self@.len()) == chain_ends(self@, cur, fuel as nat),
            decreases fuel,
        {
            if cur >= self.environments.len() {
                return true;
            }
            proof {
                self.lemma_wf_at(cur as int);
            }
            match self.environments[cur].parent_id {
                None => {
                    return true;
                },
                Some(p) => {
                    if fuel == 0 {
                        return false;
                    }
                    fuel = fuel - 1;
                    cur = p;
                },
            }
        }
    }

    /// The value `name` is bound to, seen from environment `env_id`: the
    /// binding in the first environment along the chain of parents that
    /// binds `name`. Fails with an undefined variable when none does, and
    /// with a missing environment when the chain reaches a number no
    /// environment has. The chain of parents from `env_id` must end (else
    /// the search would not).
    pub fn lookup(&self, env_id: EnvironmentId, name: &str) -> (r: Result<V, EnvError>)
        where V: Clone,
        requires
            self.wf(),
            chain_ends(self@, env_id, self@.len()),
        ensures
            match resolve(self@, env_id, name@, self@.len()) {
                Resolution::Bound(_, v) => r matches Ok(x) && cloned(v, x),
                Resolution::Unbound => r matches Err(e) && e@ == EnvErrorModel::UndefinedVariable(name@),
                Resolution::MissingEnv(k) => r matches Err(e) && e@ == EnvErrorModel::RuntimeError(
                    not_found_message(k),
                ),
            },
    {
        let key = name.to_owned();
        let mut cur = env_id;
        let ghost mut fuel: nat = self@.len();
        loop
            invariant
                self.wf(),
                key@ == name@,
                chain_ends(self@, cur, fuel),
                resolve(self@, env_id, name@, self@.len()) == resolve(self@, cur, name@, fuel),
            decreases fuel,
        {
            if cur >= self.environments.len() {
                return Err(not_found_error(cur));
            }
            proof {
                self.lemma_wf_at(cur as int);
            }
            let data = &self.environments[cur];
            match data.bindings.get(&key) {
                Some(v) => {
                    return Ok(v.clone());
                },
                None => {},
            }
            match data.parent_id {
                Some(p) => {
                    proof {
                        fuel = (fuel - 1) as nat;
                    }
                    cur = p;
                },
                None => {
                    let mut n = String::new();
                    push_str(&mut n, name);
                    return Err(EnvError::UndefinedVariable(n));
                },
            }
        }
    }

    /// Rebinds `name` to `value` in the first environment along the chain
    /// of parents from `env_id` that binds it; fails, changing nothing, as
    /// [`lookup`](Self::lookup) does. The chain of parents from `env_id`
    /// must end.
    pub fn set(&mut self, env_id: EnvironmentId, name: &str, value: V) -> (r: Result<(), EnvError>)
        requires
            old(self).wf(),
            chain_ends(old(self)@, env_id, old(self)@.len()),
        ensures
            final(self).wf(),
            match resolve(old(self)@, env_id, name@, old(self)@.len()) {
                Resolution::Bound(j, _) => r is Ok && final(self)@ == bind(old(self)@, j, name@, value),
                Resolution::Unbound => r matches Err(e) && e@ == EnvErrorModel::UndefinedVariable(name@)
                    && final(self)@ == old(self)@,
                Resolution::MissingEnv(k) => r matches Err(e) && e@ == EnvErrorModel::RuntimeError(
                    not_found_message(k),
                ) && final(self)@ == old(self)@,
            },
    {
        let key = name.to_owned();
        let mut cur = env_id;
        let ghost mut fuel: nat = self@.len();
        loop
            invariant
                self.wf(),
                self@ == old(self)@,
                key@ == name@,
                chain_ends(self@, cur, fuel),
                resolve(self@, env_id, name@, self@.len()) == resolve(self@, cur, name@, fuel),
            decreases fuel,
        {
            if cur >= self.environments.len() {
                return Err(not_found_error(cur));
            }
            proof {
                self.lemma_wf_at(cur as int);
            }
            let found = self.environments[cur].bindings.contains(&key);
            if found {
                let mut data = self.take_env(cur);
                data.bindings.insert(key, value);
                self.put_env(cur, data);
                proof {
                    assert(self@ =~= bind(old(self)@, cur, name@, value));
                }
                return Ok(());
            }
            match self.environments[cur].parent_id {
                Some(p) => {
                    proof {
                        fuel = (fuel - 1) as nat;
                    }
                    cur = p;
                },
                None => {
                    let mut n = String::new();
                    push_str(&mut n, name);
                    return Err(EnvError::UndefinedVariable(n));
                },
            }
        }
    }

    /// Creates a child of `parent_id` binding `names` to `values`
    /// pairwise; returns its number. Fails, creating nothing, when the two
    /// counts differ.
    pub fn extend(&mut self, parent_id: EnvironmentId, names: Vec<String>, values: Vec<V>) -> (r: Result<
        EnvironmentId,
        EnvError,
    >)
        requires
            old(self).wf(),
            old(self)@.len() < usize::MAX,
        ensures
            final(self).wf(),
            names@.len() != values@.len() ==> final(self)@ == old(self)@,
            names@.len() != values@.len() ==> (r matches Err(e) && e@ == EnvErrorModel::ArityError(
                arity_message(names@.len(), values@.len()),
            )),
            names@.len() == values@.len() ==> r == Ok::<EnvironmentId, EnvError>(old(self)@.len() as usize)
                && final(self)@ == old(self)@.push(
                EnvironmentModel {
                    bindings: zip_bindings(names@, values@),
                    parent_id: Some(parent_id),
                },
            ),
    {
        if names.len() != values.len() {
            let mut s = String::new();
            push_str(&mut s, "Expected ");
            push_decimal(&mut s, names.len() as u64);
            push_str(&mut s, " arguments, got ");
            push_decimal(&mut s, values.len() as u64);
            assert(s@ =~= arity_message(names@.len(), values@.len()));
            return Err(EnvError::ArityError(s));
        }
        let ghost all_names = names@;
        let ghost all_values = values@;
        let n = names.len();
        let mut names = names;
        let mut values = values;
        let mut rev_names: Vec<String> = Vec::new();
        let mut rev_values: Vec<V> = Vec::new();
        while names.len() > 0
            invariant
                names@.len() == values@.len(),
                rev_names@.len() == rev_values@.len(),
                names@.len() + rev_names@.len() == n,
                n == all_names.len() == all_values.len(),
                forall|i: int| 0 <= i < names@.len() ==> names@[i] == all_names[i],
                forall|i: int| 0 <= i < names@.len() ==> values@[i] == all_values[i],
                forall|i: int|
                    0 <= i < rev_names@.len() ==> rev_names@[i] == all_names[n - 1 - i],
                forall|i: int|
                    0 <= i < rev_values@.len() ==> rev_values@[i] == all_values[n - 1 - i],
            decreases names@.len(),
        {
            let a = names.pop().unwrap();
            let b = values.pop().unwrap();
            rev_names.push(a);
            rev_values.push(b);
        }
        let id = self.create_child_env(parent_id);
        let mut k: usize = 0;
        while rev_names.len() > 0
            invariant
                self.wf(),
                id < self@.len(),
                self@ == old(self)@.push(
                    EnvironmentModel {
                        bindings: zip_bindings(all_names.take(k as int), all_values.take(k as int)),
                        parent_id: Some(parent_id),
                    },
                ),
                rev_names@.len() == rev_values@.len(),
                rev_names@.len() + k == n,
                n == all_names.len() == all_values.len(),
                id == old(self)@.len(),
                forall|i: int|
                    0 <= i < rev_names@.len() ==> rev_names@[i] == all_names[n - 1 - i],
                forall|i: int|
                    0 <= i < rev_values@.len() ==> rev_values@[i] == all_values[n - 1 - i],
            decreases rev_names@.len(),
        {
            let ghost before = self@;
            let a = rev_names.pop().unwrap();
            let b = rev_values.pop().unwrap();
            let ghost key = a@;
            let res = self.define(id, a, b);
            proof {
                assert(all_names.take(k + 1).drop_last() =~= all_names.take(k as int));
                assert(all_values.take(k + 1).drop_last() =~= all_values.take(k as int));
                assert(self@ =~= old(self)@.push(
                    EnvironmentModel {
                        bindings: zip_bindings(all_names.take(k + 1), all_values.take(k + 1)),
                        parent_id: Some(parent_id),
                    },
                ));
            }
            k = k + 1;
        }
        assert(all_names.take(n as int) =~= all_names);
        assert(all_values.take(n as int) =~= all_values);
        Ok(id)
    }

    /// The names bound in environment `env_id`, each once (none when no
    /// environment has that number).
    pub fn get_local_bindings(&self, env_id: EnvironmentId) -> (r: Vec<String>)
        requires
            self.wf(),
        ensures
            env_id >= self@.len() ==> r@.len() == 0,
            env_id < self@.len() ==> {
                &&& r@.len() == self@[env_id as int].bindings.dom().len()
                &&& forall|i: int|
                    0 <= i < r@.len() ==> self@[env_id as int].bindings.dom().contains(#[trigger] r@[i]@)
                &&& forall|k: Seq<char>| #[trigger]
                    self@[env_id as int].bindings.dom().contains(k) ==> exists|i: int|
                        0 <= i < r@.len() && r@[i]@ == k
                &&& forall|i: int, j: int| 0 <= i < j < r@.len() ==> r@[i]@ != r@[j]@
            },
    {
        if env_id >= self.environments.len() {
            return Vec::new();
        }
        proof {
            self.lemma_wf_at(env_id as int);
        }
        self.environments[env_id].bindings.names()
    }
}

impl<V> Default for EnvironmentManager<V> {
    fn default() -> (m: EnvironmentManager<V>)
        ensures
            m.wf(),
            m@ == Seq::<EnvironmentModel<V>>::empty(),
    {
        EnvironmentManager::new()
    }
}

} // verus!
