//! Persistent environments: each holds its own bindings and shares its
//! parent; defining or assigning yields a new environment and leaves the
//! old one as it was.
use vstd::prelude::*;
use std::rc::Rc;
use crate::environment::bindings::{Bindings, cloned_bindings};
use crate::text::push_str;

verus! {

broadcast use vstd::string::group_string_axioms;

/// Another pointer to the value `r` points to (`Rc::clone`): the value is
/// shared, not copied.
#[verifier::external_body]
fn share<T>(r: &Rc<T>) -> (s: Rc<T>)
    ensures
        *s == **r,
{
    Rc::clone(r)
}

/// The number of frames, counted from the first, passed before one binds
/// `name`; `None` when none does.
pub open spec fn binding_depth<V>(frames: Seq<Map<Seq<char>, V>>, name: Seq<char>) -> Option<nat>
    decreases frames.len(),
{
    if frames.len() == 0 {
        None
    } else if frames[0].dom().contains(name) {
        Some(0)
    } else {
        match binding_depth(frames.drop_first(), name) {
            Some(d) => Some(d + 1),
            None => None,
        }
    }
}

proof fn lemma_binding_depth<V>(frames: Seq<Map<Seq<char>, V>>, name: Seq<char>)
    ensures
        binding_depth(frames, name) matches Some(d) ==> d < frames.len() && frames[d as int].dom().contains(name),
        binding_depth(frames, name) matches Some(d) ==> forall|i: int| 0 <= i < d ==> !(#[trigger] frames[i]).dom().contains(name),
        binding_depth(frames, name) is None ==> forall|i: int| 0 <= i < frames.len() ==> !(#[trigger] frames[i]).dom().contains(name),
    decreases frames.len(),
{
    if frames.len() > 0 && !frames[0].dom().contains(name) {
        let rest = frames.drop_first();
        lemma_binding_depth(rest, name);
        assert forall|i: int| 0 < i < frames.len() implies frames[i] == rest[i - 1] by {}
    }
}

/// What a lookup of `name` finds: its binding in the first frame that binds
/// it.
pub open spec fn lookup_frames<V>(frames: Seq<Map<Seq<char>, V>>, name: Seq<char>) -> Option<V> {
    match binding_depth(frames, name) {
        Some(d) => Some(frames[d as int][name]),
        None => None,
    }
}

/// `b` is `a` with `name` bound to `value` and every other name bound to a
/// clone of its value in `a`.
pub open spec fn rebound<V: Clone>(a: Map<Seq<char>, V>, b: Map<Seq<char>, V>, name: Seq<char>, value: V) -> bool {
    &&& b.dom() == a.dom().insert(name)
    &&& b[name] == value
    &&& forall|k: Seq<char>| #[trigger] a.dom().contains(k) && k != name ==> cloned(a[k], b[k])
}

/// `after` is `before` with `name` defined as `value` in the first frame,
/// the other frames shared.
pub open spec fn defined_frames<V: Clone>(
    before: Seq<Map<Seq<char>, V>>,
    after: Seq<Map<Seq<char>, V>>,
    name: Seq<char>,
    value: V,
) -> bool {
    &&& before.len() > 0
    &&& after.len() == before.len()
    &&& rebound(before[0], after[0], name, value)
    &&& after.drop_first() == before.drop_first()
}

/// `after` is `before` with `name` assigned `value` in frame `d`, the frames
/// before it cloned and those after it shared.
pub open spec fn assigned_frames<V: Clone>(
    before: Seq<Map<Seq<char>, V>>,
    after: Seq<Map<Seq<char>, V>>,
    d: nat,
    name: Seq<char>,
    value: V,
) -> bool {
    &&& d < before.len()
    &&& after.len() == before.len()
    &&& forall|i: int| 0 <= i < d ==> #[trigger] cloned_bindings(before[i], after[i])
    &&& rebound(before[d as int], after[d as int], name, value)
    &&& forall|i: int| d < i < before.len() ==> #[trigger] after[i] == before[i]
}

/// `Undefined variable: <name>`.
pub open spec fn undefined_message(name: Seq<char>) -> Seq<char> {
    "Undefined variable: "@ + name
}

/// A definition is seen by a lookup in the environment it yields: after
/// defining `name` as `value`, looking `name` up finds `value`.
pub proof fn lemma_lookup_sees_define<V: Clone>(
    before: Seq<Map<Seq<char>, V>>,
    after: Seq<Map<Seq<char>, V>>,
    name: Seq<char>,
    value: V,
)
    requires
        defined_frames(before, after, name, value),
    ensures
        lookup_frames(after, name) == Some(value),
{
    assert(after[0].dom().contains(name));
}

/// A definition leaves other names alone: after defining `name`, every
/// other name is found in the same frame as before, bound to a clone of its
/// earlier value, or is still not found.
pub proof fn lemma_define_keeps_other_names<V: Clone>(
    before: Seq<Map<Seq<char>, V>>,
    after: Seq<Map<Seq<char>, V>>,
    name: Seq<char>,
    value: V,
    other: Seq<char>,
)
    requires
        defined_frames(before, after, name, value),
        other != name,
    ensures
        binding_depth(after, other) == binding_depth(before, other),
        lookup_frames(before, other) matches Some(v) ==> (lookup_frames(after, other) matches Some(
            w,
        ) && cloned(v, w)),
        lookup_frames(before, other) is None ==> lookup_frames(after, other) is None,
{
    assert(after[0].dom().contains(other) == before[0].dom().contains(other));
    if !before[0].dom().contains(other) {
        assert(binding_depth(after, other) == binding_depth(before, other));
        lemma_binding_depth(before.drop_first(), other);
        match binding_depth(before.drop_first(), other) {
            Some(d) => {
                assert(after[d + 1 as int] == after.drop_first()[d as int]);
                assert(before[d + 1 as int] == before.drop_first()[d as int]);
            },
            None => {},
        }
    }
}

/// An assignment is seen by later lookups: after assigning `value` to
/// `name` in the frame that binds it, looking `name` up finds `value`.
pub proof fn lemma_lookup_sees_set<V: Clone>(
    before: Seq<Map<Seq<char>, V>>,
    after: Seq<Map<Seq<char>, V>>,
    d: nat,
    name: Seq<char>,
    value: V,
)
    requires
        binding_depth(before, name) == Some(d),
        assigned_frames(before, after, d, name, value),
    ensures
        binding_depth(after, name) == Some(d),
        lookup_frames(after, name) == Some(value),
{
    assert forall|i: int| 0 <= i < d implies #[trigger] after[i].dom() == before[i].dom() by {
        assert(cloned_bindings(before[i], after[i]));
    }
    lemma_depth_of_same_domains(before, after, d, name);
}

proof fn lemma_depth_of_same_domains<V: Clone>(
    before: Seq<Map<Seq<char>, V>>,
    after: Seq<Map<Seq<char>, V>>,
    d: nat,
    name: Seq<char>,
)
    requires
        binding_depth(before, name) == Some(d),
        d < before.len(),
        after.len() == before.len(),
        forall|i: int| 0 <= i < d ==> #[trigger] after[i].dom() == before[i].dom(),
        after[d as int].dom().contains(name),
    ensures
        binding_depth(after, name) == Some(d),
    decreases d,
{
    if d > 0 {
        assert(after[0].dom() == before[0].dom());
        let (b, a) = (before.drop_first(), after.drop_first());
        assert forall|i: int| 0 <= i < d - 1 implies #[trigger] a[i].dom() == b[i].dom() by {
            assert(a[i] == after[i + 1]);
            assert(b[i] == before[i + 1]);
        }
        assert(a[d - 1] == after[d as int]);
        lemma_depth_of_same_domains(b, a, (d - 1) as nat, name);
    }
}

/// A new environment sees its parent: in an environment without bindings
/// of its own, every name is found as it is in its parent.
pub proof fn lemma_child_sees_parent<V>(parent: Seq<Map<Seq<char>, V>>, name: Seq<char>)
    ensures
        lookup_frames(seq![Map::<Seq<char>, V>::empty()] + parent, name) == lookup_frames(parent, name),
{
    let child = seq![Map::<Seq<char>, V>::empty()] + parent;
    assert(child.drop_first() =~= parent);
    lemma_binding_depth(parent, name);
    match binding_depth(parent, name) {
        Some(d) => {
            assert(child[d + 1 as int] == parent[d as int]);
        },
        None => {},
    }
}

/// An environment: its own bindings and, shared, its parent.
#[derive(Debug)]
pub struct Environment<V> {
    bindings: Bindings<V>,
    parent: Option<Rc<Environment<V>>>,
}

impl<V> Environment<V> {
    /// The frames of the environment, its own bindings first and then its
    /// parent's frames.
    pub closed spec fn frames(&self) -> Seq<Map<Seq<char>, V>>
        decreases self,
    {
        match self.parent {
            None => seq![self.bindings@],
            Some(p) => seq![self.bindings@] + (*p).frames(),
        }
    }

    /// The environment's invariant: every binding table along the chain is
    /// sound.
    pub closed spec fn wf(&self) -> bool
        decreases self,
    {
        &&& self.bindings.wf()
        &&& match self.parent {
            None => true,
            Some(p) => (*p).wf(),
        }
    }

    proof fn lemma_frames(&self)
        ensures
            self.frames().len() > 0,
            self.frames()[0] == self.bindings@,
            self.parent is None ==> self.frames().len() == 1,
            self.parent matches Some(p) ==> self.frames().drop_first() == (*p).frames(),
    {
        match self.parent {
            None => {},
            Some(p) => {
                assert(self.frames().drop_first() =~= (*p).frames());
            },
        }
    }

    /// An environment without bindings or parent.
    pub fn new() -> (e: Self)
        ensures
            e.wf(),
            e.frames() == seq![Map::<Seq<char>, V>::empty()],
    {
        Environment { bindings: Bindings::new(), parent: None }
    }

    /// An environment without bindings of its own, whose parent is `parent`.
    pub fn with_parent(parent: Rc<Environment<V>>) -> (e: Self)
        ensures
            (*parent).wf() ==> e.wf(),
            e.frames() == seq![Map::<Seq<char>, V>::empty()] + (*parent).frames(),
    {
        Environment { bindings: Bindings::new(), parent: Some(parent) }
    }

    /// The value `name` is bound to in the first frame that binds it, cloned.
    pub fn lookup(&self, name: &str) -> (r: Option<V>)
        where V: Clone,
        requires
            self.wf(),
        ensures
            match lookup_frames(self.frames(), name@) {
                Some(v) => r matches Some(x) && cloned(v, x),
                None => r is None,
            },
        decreases self,
    {
        proof {
            self.lemma_frames();
        }
        let key = name.to_owned();
        match self.bindings.get(&key) {
            Some(v) => {
                return Some(v.clone());
            },
            None => {},
        }
        match &self.parent {
            Some(p) => {
                proof {
                    (**p).lemma_frames();
                }
                let r = (**p).lookup(name);
                proof {
                    let fs = self.frames();
                    let ps = (**p).frames();
                    assert(fs.drop_first() == ps);
                    assert(!fs[0].dom().contains(name@));
                    lemma_binding_depth(ps, name@);
                    match binding_depth(ps, name@) {
                        Some(d) => {
                            assert(binding_depth(fs, name@) == Some(d + 1));
                            assert(fs[d + 1 as int] == ps[d as int]);
                        },
                        None => {
                            assert(binding_depth(fs, name@) is None);
                        },
                    }
                }
                r
            },
            None => {
                proof {
                    assert(self.frames().drop_first().len() == 0);
                    assert(binding_depth(self.frames().drop_first(), name@) is None);
                }
                None
            },
        }
    }

    /// A new environment: this one with `name` bound to `value` in its own
    /// bindings (replacing any binding of `name` there), the other bindings
    /// cloned and the parent shared.
    pub fn define(&self, name: String, value: V) -> (e: Self)
        where V: Clone,
        requires
            self.wf(),
        ensures
            e.wf(),
            defined_frames(self.frames(), e.frames(), name@, value),
    {
        proof {
            self.lemma_frames();
        }
        let ghost key = name@;
        let mut bindings = self.bindings.clone();
        let ghost copied = bindings@;
        bindings.insert(name, value);
        let parent = match &self.parent {
            Some(p) => Some(share(p)),
            None => None,
        };
        let e = Environment { bindings, parent };
        proof {
            e.lemma_frames();
            assert(e.bindings@.dom() =~= self.bindings@.dom().insert(key));
            let (a, b) = (self.frames(), e.frames());
            assert(cloned_bindings(self.bindings@, copied));
            assert forall|k: Seq<char>| #[trigger] a[0].dom().contains(k) && k != key implies cloned(
                a[0][k],
                b[0][k],
            ) by {
                assert(copied.dom().contains(k));
            }
            assert(b.drop_first() =~= a.drop_first());
        }
        e
    }

    /// A new environment in which `name`, bound in the first frame that binds
    /// it, is bound to `value` there; the frames before it are cloned and
    /// those after it shared. Fails with `Undefined variable: <name>` when
    /// no frame binds `name`.
    pub fn set(&self, name: &str, value: V) -> (r: Result<Self, String>)
        where V: Clone,
        requires
            self.wf(),
        ensures
            match binding_depth(self.frames(), name@) {
                Some(d) => r matches Ok(e) && e.wf() && assigned_frames(
                    self.frames(),
                    e.frames(),
                    d,
                    name@,
                    value,
                ),
                None => r matches Err(m) && m@ == undefined_message(name@),
            },
        decreases self,
    {
        proof {
            self.lemma_frames();
        }
        let key = name.to_owned();
        if self.bindings.contains(&key) {
            let mut bindings = self.bindings.clone();
            let ghost copied = bindings@;
            bindings.insert(key, value);
            let parent = match &self.parent {
                Some(p) => Some(share(p)),
                None => None,
            };
            let e = Environment { bindings, parent };
            proof {
                e.lemma_frames();
                assert(e.bindings@.dom() =~= self.bindings@.dom().insert(name@));
                let (a, b) = (self.frames(), e.frames());
                assert forall|k: Seq<char>| #[trigger] a[0].dom().contains(k) && k != name@ implies cloned(
                    a[0][k],
                    b[0][k],
                ) by {
                    assert(copied.dom().contains(k));
                }
                assert(binding_depth(a, name@) == Some(0nat));
                lemma_binding_depth(a, name@);
                assert(a.len() == b.len());
                assert forall|i: int| 0 < i < a.len() implies #[trigger] b[i] == a[i] by {
                    assert(b[i] == b.drop_first()[i - 1]);
                    assert(a[i] == a.drop_first()[i - 1]);
                }
            }
            return Ok(e);
        }
        match &self.parent {
            Some(p) => {
                proof {
                    (**p).lemma_frames();
                }
                match (**p).set(name, value) {
                    Ok(new_parent) => {
                        let bindings = self.bindings.clone();
                        let e = Environment { bindings, parent: Some(Rc::new(new_parent)) };
                        proof {
                            e.lemma_frames();
                            let (a, b) = (self.frames(), e.frames());
                            let (pa, pb) = ((**p).frames(), new_parent.frames());
                            lemma_binding_depth(pa, name@);
                            let d = binding_depth(pa, name@)->0;
                            assert(pa == a.drop_first());
                            assert(pb == b.drop_first());
                            assert(binding_depth(a, name@) == Some(d + 1));
                            assert forall|i: int| 0 <= i < d + 1 implies #[trigger] cloned_bindings(a[i], b[i]) by {
                                if i > 0 {
                                    assert(a[i] == pa[i - 1]);
                                    assert(b[i] == pb[i - 1]);
                                }
                            }
                            assert(a[d + 1 as int] == pa[d as int]);
                            assert(b[d + 1 as int] == pb[d as int]);
                            assert forall|i: int| d + 1 < i < a.len() implies #[trigger] b[i] == a[i] by {
                                assert(a[i] == pa[i - 1]);
                                assert(b[i] == pb[i - 1]);
                            }
                        }
                        Ok(e)
                    },
                    Err(m) => {
                        proof {
                            assert(self.frames().drop_first() == (**p).frames());
                        }
                        Err(m)
                    },
                }
            },
            None => {
                proof {
                    assert(self.frames().drop_first().len() == 0);
                    assert(binding_depth(self.frames().drop_first(), name@) is None);
                }
                let mut m = String::new();
                push_str(&mut m, "Undefined variable: ");
                push_str(&mut m, name);
                Err(m)
            },
        }
    }
}

} // verus!
