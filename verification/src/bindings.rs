use vstd::prelude::*;
use std::rc::Rc;

use crate::ast::{Expr, ExprV};
use crate::error::Error;

verus! {

/// One lexical scope: an unordered mapping from variable names to shared,
/// reference-counted value handles.  Within one frame, names are unique.
pub struct Frame {
    pub entries: Vec<(String, Rc<Expr>)>,
}

/// The abstract contents of a run of entries, later entries taking precedence
/// (well-formed frames have no repeated name, so precedence never matters).
pub open spec fn entries_map(s: Seq<(String, Rc<Expr>)>) -> Map<Seq<char>, ExprV>
    decreases s.len(),
{
    if s.len() == 0 {
        Map::empty()
    } else {
        entries_map(s.drop_last()).insert(s.last().0@, s.last().1@)
    }
}

/// No two entries carry the same name.
pub open spec fn distinct_keys(s: Seq<(String, Rc<Expr>)>) -> bool {
    forall|i: int, j: int| 0 <= i < j < s.len() ==> s[i].0@ != s[j].0@
}

/// A key is in the map exactly when some entry carries it.
pub proof fn lemma_entries_map_key(s: Seq<(String, Rc<Expr>)>, k: Seq<char>)
    ensures
        entries_map(s).contains_key(k) <==> (exists|i: int|
            0 <= i < s.len() && s[i].0@ == k),
    decreases s.len(),
{
    if s.len() > 0 {
        lemma_entries_map_key(s.drop_last(), k);
        if entries_map(s).contains_key(k) {
            if s.last().0@ == k {
                assert(s[s.len() - 1].0@ == k);
            } else {
                let i = choose|i: int| 0 <= i < s.len() - 1 && s.drop_last()[i].0@ == k;
                assert(s[i].0@ == k);
            }
        }
        if exists|i: int| 0 <= i < s.len() && s[i].0@ == k {
            let i = choose|i: int| 0 <= i < s.len() && s[i].0@ == k;
            if i < s.len() - 1 {
                assert(s.drop_last()[i].0@ == k);
            }
        }
    }
}

/// In a frame without repeated names, the map sends each entry's name to that
/// entry's value.
pub proof fn lemma_entries_map_at(s: Seq<(String, Rc<Expr>)>, i: int)
    requires
        distinct_keys(s),
        0 <= i < s.len(),
    ensures
        entries_map(s).contains_key(s[i].0@),
        entries_map(s)[s[i].0@] == s[i].1@,
    decreases s.len(),
{
    if i < s.len() - 1 {
        assert(distinct_keys(s.drop_last()));
        lemma_entries_map_at(s.drop_last(), i);
        assert(s[i].0@ != s.last().0@);
    }
}

impl View for Frame {
    type V = Map<Seq<char>, ExprV>;

    open spec fn view(&self) -> Map<Seq<char>, ExprV> {
        entries_map(self.entries@)
    }
}

impl Frame {
    /// Names are unique within the frame.
    pub open spec fn wf(&self) -> bool {
        distinct_keys(self.entries@)
    }

    /// An empty scope.
    pub fn new() -> (r: Frame)
        ensures
            r.wf(),
            r@ == Map::<Seq<char>, ExprV>::empty(),
    {
        Frame { entries: Vec::new() }
    }

    /// The value bound to `name` in this frame, if any.
    pub fn lookup(&self, name: &String) -> (r: Option<Rc<Expr>>)
        requires
            self.wf(),
        ensures
            match r {
                Some(v) => self@.contains_key(name@) && v@ == self@[name@],
                None => !self@.contains_key(name@),
            },
    {
        let n = self.entries.len();
        let mut j: usize = 0;
        while j < n
            invariant
                n == self.entries@.len(),
                j <= n,
                self.wf(),
                forall|k: int| 0 <= k < j ==> self.entries@[k].0@ != name@,
            decreases n - j,
        {
            if self.entries[j].0 == *name {
                proof {
                    lemma_entries_map_at(self.entries@, j as int);
                }
                return Some(self.entries[j].1.clone());
            }
            j += 1;
        }
        proof {
            lemma_entries_map_key(self.entries@, name@);
        }
        None
    }

    /// Whether `name` is bound in this frame.
    pub fn contains(&self, name: &String) -> (r: bool)
        requires
            self.wf(),
        ensures
            r == self@.contains_key(name@),
    {
        self.lookup(name).is_some()
    }

    /// Bind a fresh name.  The caller has ruled the name out of the frame.
    pub fn insert(&mut self, name: String, value: Rc<Expr>)
        requires
            old(self).wf(),
            !old(self)@.contains_key(name@),
        ensures
            final(self).wf(),
            final(self)@ == old(self)@.insert(name@, value@),
    {
        proof {
            lemma_entries_map_key(self.entries@, name@);
        }
        self.entries.push((name, value));
        proof {
            assert(self.entries@.drop_last() =~= old(self).entries@);
        }
    }

    /// Replace the value of a name that is bound in this frame.
    pub fn set(&mut self, name: &String, value: Rc<Expr>)
        requires
            old(self).wf(),
            old(self)@.contains_key(name@),
        ensures
            final(self).wf(),
            final(self)@ == old(self)@.insert(name@, value@),
    {
        let n = self.entries.len();
        let mut j: usize = 0;
        proof {
            lemma_entries_map_key(self.entries@, name@);
        }
        while j < n
            invariant
                n == self.entries@.len(),
                j <= n,
                self.wf(),
                self == old(self),
                exists|i: int| 0 <= i < n && self.entries@[i].0@ == name@,
                forall|k: int| 0 <= k < j ==> self.entries@[k].0@ != name@,
            decreases n - j,
        {
            if self.entries[j].0 == *name {
                let nm = self.entries[j].0.clone();
                self.entries[j] = (nm, value);
                proof {
                    lemma_set_entry(old(self).entries@, self.entries@, j as int, name@, value@);
                }
                return ;
            }
            j += 1;
        }
        proof {
            assert(false);
        }
    }

    /// A frame with the same bindings, sharing the value handles.
    pub fn duplicate(&self) -> (r: Frame)
        ensures
            r.entries@ == self.entries@,
            r@ == self@,
            r.wf() == self.wf(),
    {
        let n = self.entries.len();
        let mut v: Vec<(String, Rc<Expr>)> = Vec::new();
        let mut j: usize = 0;
        while j < n
            invariant
                n == self.entries@.len(),
                j <= n,
                v@.len() == j,
                forall|k: int| 0 <= k < j ==> v@[k] == self.entries@[k],
            decreases n - j,
        {
            v.push((self.entries[j].0.clone(), self.entries[j].1.clone()));
            j += 1;
        }
        proof {
            assert(v@ =~= self.entries@);
        }
        Frame { entries: v }
    }
}

/// The abstract state of an environment: the stack of frame contents, the
/// global frame at index 0, the innermost local frame last.
pub type EnvV = Seq<Map<Seq<char>, ExprV>>;

/// The index of the innermost frame binding `n`, scanning all frames.
pub open spec fn lookup_idx(env: EnvV, n: Seq<char>) -> Option<int>
    decreases env.len(),
{
    if env.len() == 0 {
        None
    } else if env.last().contains_key(n) {
        Some(env.len() - 1)
    } else {
        lookup_idx(env.drop_last(), n)
    }
}

/// The value seen for `n`: the binding of the innermost frame that has one.
pub open spec fn lookup(env: EnvV, n: Seq<char>) -> Option<ExprV> {
    match lookup_idx(env, n) {
        Some(i) => Some(env[i][n]),
        None => None,
    }
}

/// The index of the innermost *local* frame binding `n`: the global frame,
/// index 0, is never eligible for mutation.
pub open spec fn change_idx(env: EnvV, n: Seq<char>) -> Option<int>
    decreases env.len(),
{
    if env.len() <= 1 {
        None
    } else if env.last().contains_key(n) {
        Some(env.len() - 1)
    } else {
        change_idx(env.drop_last(), n)
    }
}

/// What the lookup index means: it names the innermost frame that binds `n`,
/// and no frame binds `n` when it is absent.
pub proof fn lemma_lookup_idx(env: EnvV, n: Seq<char>)
    ensures
        match lookup_idx(env, n) {
            Some(i) => 0 <= i < env.len() && env[i].contains_key(n) && (forall|j: int|
                i < j < env.len() ==> !(#[trigger] env[j]).contains_key(n)),
            None => forall|j: int| 0 <= j < env.len() ==> !(#[trigger] env[j]).contains_key(n),
        },
    decreases env.len(),
{
    if env.len() > 0 && !env.last().contains_key(n) {
        lemma_lookup_idx(env.drop_last(), n);
        assert(forall|j: int| 0 <= j < env.len() - 1 ==> env.drop_last()[j] == env[j]);
    }
}

/// The same reading for the mutation scan: it never names the global frame,
/// and when it fails no local frame binds `n`.
pub proof fn lemma_change_idx(env: EnvV, n: Seq<char>)
    ensures
        match change_idx(env, n) {
            Some(i) => 1 <= i < env.len() && env[i].contains_key(n) && (forall|j: int|
                i < j < env.len() ==> !(#[trigger] env[j]).contains_key(n)),
            None => forall|j: int| 1 <= j < env.len() ==> !(#[trigger] env[j]).contains_key(n),
        },
    decreases env.len(),
{
    if env.len() > 1 && !env.last().contains_key(n) {
        lemma_change_idx(env.drop_last(), n);
        assert(forall|j: int| 0 <= j < env.len() - 1 ==> env.drop_last()[j] == env[j]);
    }
}

/// The ordered stack of frames defining current visibility.
pub struct Bindings {
    pub frames: Vec<Frame>,
}

impl View for Bindings {
    type V = EnvV;

    open spec fn view(&self) -> EnvV {
        Seq::new(self.frames@.len(), |i: int| self.frames@[i]@)
    }
}

impl Bindings {
    /// Every frame is well-formed.
    pub open spec fn wf(&self) -> bool {
        forall|i: int| 0 <= i < self.frames@.len() ==> (#[trigger] self.frames@[i]).wf()
    }

    /// An environment with no frames at all; the driver pushes the global
    /// frame before seeding it.
    pub fn new() -> (r: Bindings)
        ensures
            r.wf(),
            r@ =~= Seq::<Map<Seq<char>, ExprV>>::empty(),
    {
        Bindings { frames: Vec::new() }
    }

    /// The environment a function body runs in: only the global frame is
    /// visible, never the caller's locals.
    pub fn new_with_globals(&self) -> (r: Bindings)
        requires
            self.wf(),
            self@.len() >= 1,
        ensures
            r.wf(),
            r@ =~= seq![self@[0]],
    {
        let g = self.frames[0].duplicate();
        let mut frames: Vec<Frame> = Vec::new();
        frames.push(g);
        Bindings { frames }
    }

    /// Push an empty frame: block entry, or a fresh activation record.
    pub fn new_frame(&mut self)
        requires
            old(self).wf(),
        ensures
            final(self).wf(),
            final(self)@ =~= old(self)@.push(Map::<Seq<char>, ExprV>::empty()),
    {
        self.frames.push(Frame::new());
    }

    /// Drop the innermost frame: block exit tears its scope down.
    pub fn pop_frame(&mut self)
        requires
            old(self).wf(),
            old(self)@.len() >= 1,
        ensures
            final(self).wf(),
            final(self)@ =~= old(self)@.drop_last(),
    {
        let _ = self.frames.pop();
    }

    /// Insert into the topmost frame; a name already present there is a
    /// `DuplicateBinding` and leaves the environment unchanged.
    pub fn add(&mut self, name: String, value: Rc<Expr>) -> (r: Result<(), Error>)
        requires
            old(self).wf(),
            old(self)@.len() >= 1,
        ensures
            final(self).wf(),
            match r {
                Ok(_) => !old(self)@.last().contains_key(name@) && final(self)@ =~= old(
                    self,
                )@.update(old(self)@.len() - 1, old(self)@.last().insert(name@, value@)),
                Err(e) => e == Error::DuplicateBinding && old(self)@.last().contains_key(name@)
                    && final(self)@ =~= old(self)@,
            },
    {
        let top = self.frames.len() - 1;
        if self.frames[top].contains(&name) {
            return Err(Error::DuplicateBinding);
        }
        let fr = &mut self.frames[top];
        fr.insert(name, value);
        Ok(())
    }

    /// Locate `name` innermost-first across every frame and hand back a
    /// shared handle to its value; absence everywhere is `UnboundName`.
    pub fn get(&self, name: &String) -> (r: Result<Rc<Expr>, Error>)
        requires
            self.wf(),
        ensures
            match r {
                Ok(v) => lookup(self@, name@) == Some(v@),
                Err(e) => e == Error::UnboundName && lookup(self@, name@) is None,
            },
    {
        let n = self.frames.len();
        let mut j: usize = n;
        proof {
            assert(self@.subrange(0, n as int) =~= self@);
        }
        while j > 0
            invariant
                n == self.frames@.len(),
                j <= n,
                self.wf(),
                lookup_idx(self@, name@) == lookup_idx(self@.subrange(0, j as int), name@),
            decreases j,
        {
            j -= 1;
            let found = self.frames[j].lookup(name);
            proof {
                assert(self@.subrange(0, j + 1).drop_last() =~= self@.subrange(0, j as int));
                assert(self@.subrange(0, j + 1).last() == self@[j as int]);
            }
            match found {
                Some(v) => {
                    return Ok(v);
                },
                None => {},
            }
        }
        proof {
            assert(self@.subrange(0, 0) =~= Seq::<Map<Seq<char>, ExprV>>::empty());
        }
        Err(Error::UnboundName)
    }

    /// Replace the value of `name` in the innermost *local* frame that binds
    /// it.  The global frame is immutable after program start: a name found
    /// only there is `ImmutableGlobal`, one found nowhere is `UnboundName`.
    pub fn change(&mut self, name: &String, value: Rc<Expr>) -> (r: Result<(), Error>)
        requires
            old(self).wf(),
        ensures
            final(self).wf(),
            match r {
                Ok(_) => change_idx(old(self)@, name@) is Some && final(self)@ =~= old(
                    self,
                )@.update(
                    change_idx(old(self)@, name@).unwrap(),
                    old(self)@[change_idx(old(self)@, name@).unwrap()].insert(name@, value@),
                ),
                Err(e) => final(self)@ =~= old(self)@ && change_idx(old(self)@, name@) is None && e
                    == (if old(self)@.len() >= 1 && old(self)@[0].contains_key(name@) {
                    Error::ImmutableGlobal
                } else {
                    Error::UnboundName
                }),
            },
    {
        let n = self.frames.len();
        let mut j: usize = n;
        proof {
            assert(self@.subrange(0, n as int) =~= self@);
        }
        while j > 1
            invariant
                n == self.frames@.len(),
                j <= n,
                self.wf(),
                self == old(self),
                change_idx(self@, name@) == change_idx(self@.subrange(0, j as int), name@),
            decreases j,
        {
            j -= 1;
            proof {
                assert(self@.subrange(0, j + 1).drop_last() =~= self@.subrange(0, j as int));
                assert(self@.subrange(0, j + 1).last() == self@[j as int]);
            }
            if self.frames[j].contains(name) {
                let fr = &mut self.frames[j];
                fr.set(name, value);
                return Ok(());
            }
        }
        proof {
            if n >= 1 {
                assert(change_idx(self@.subrange(0, 1), name@) is None);
            } else {
                assert(self@.subrange(0, 0) =~= Seq::<Map<Seq<char>, ExprV>>::empty());
            }
        }
        if self.frames.len() >= 1 && self.frames[0].contains(name) {
            Err(Error::ImmutableGlobal)
        } else {
            Err(Error::UnboundName)
        }
    }
}

/// Updating one entry's value in place updates the map at its key.
proof fn lemma_set_entry(
    s1: Seq<(String, Rc<Expr>)>,
    s2: Seq<(String, Rc<Expr>)>,
    j: int,
    k: Seq<char>,
    v: ExprV,
)
    requires
        distinct_keys(s1),
        0 <= j < s1.len(),
        s2.len() == s1.len(),
        s1[j].0@ == k,
        s2[j].0@ == k,
        s2[j].1@ == v,
        forall|i: int| 0 <= i < s1.len() && i != j ==> s2[i] == s1[i],
    ensures
        distinct_keys(s2),
        entries_map(s2) == entries_map(s1).insert(k, v),
    decreases s1.len(),
{
    assert forall|a: int, b: int| 0 <= a < b < s2.len() implies s2[a].0@ != s2[b].0@ by {
        assert(s1[a].0@ != s1[b].0@);
        assert(s2[a].0@ == s1[a].0@);
        assert(s2[b].0@ == s1[b].0@);
    }
    if j == s1.len() - 1 {
        assert(s2.drop_last() =~= s1.drop_last());
        assert(entries_map(s2) == entries_map(s1.drop_last()).insert(k, v));
        assert(entries_map(s1).insert(k, v) =~= entries_map(s1.drop_last()).insert(k, v));
    } else {
        lemma_set_entry(s1.drop_last(), s2.drop_last(), j, k, v);
        assert(s2.last() == s1.last());
        assert(s1[j].0@ != s1.last().0@);
        assert(entries_map(s2) == entries_map(s1.drop_last()).insert(k, v).insert(
            s1.last().0@,
            s1.last().1@,
        ));
        assert(entries_map(s1.drop_last()).insert(k, v).insert(s1.last().0@, s1.last().1@)
            =~= entries_map(s1.drop_last()).insert(s1.last().0@, s1.last().1@).insert(k, v));
    }
}

} // verus!
