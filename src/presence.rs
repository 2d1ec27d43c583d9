//! Voicecall in a shared session: which subject each transient source
//! belongs to, and who hears of a source's activity.
use vstd::prelude::*;

verus! {

/// A presence adjustment addressed to one subject.
#[derive(Debug, Clone, Copy, PartialEq, Eq, Structural)]
pub struct Adjustment {
    /// The subject to adjust.
    pub subject: u64,
    /// One more active source when true, one fewer when false.
    pub up: bool,
}

/// Whether `source` is bound in `b`.
pub open spec fn bound(b: Seq<(u32, u64)>, source: u32) -> bool {
    exists|i: int| 0 <= i < b.len() && #[trigger] b[i].0 == source
}

/// The position of `source` in `b`, where it is bound.
pub open spec fn position(b: Seq<(u32, u64)>, source: u32) -> int {
    choose|i: int| 0 <= i < b.len() && #[trigger] b[i].0 == source
}

/// The subject that `source` is bound to, if any.
pub open spec fn subject_of(b: Seq<(u32, u64)>, source: u32) -> Option<u64> {
    if bound(b, source) {
        Some(b[position(b, source)].1)
    } else {
        None
    }
}

/// The subjects bound in `b` other than `me`, each once, in order of first binding.
pub open spec fn others(b: Seq<(u32, u64)>, me: u64) -> Seq<u64>
    decreases b.len(),
{
    if b.len() == 0 {
        Seq::empty()
    } else {
        let rest = others(b.drop_last(), me);
        let s = b.last().1;
        if s == me || rest.contains(s) {
            rest
        } else {
            rest.push(s)
        }
    }
}

/// An activity change reaches each other subject of the session exactly
/// once: the targets hold no duplicates, and a subject is among them exactly
/// when it is bound in the session and is not the speaker's.
pub proof fn lemma_others_exact(b: Seq<(u32, u64)>, me: u64)
    ensures
        others(b, me).no_duplicates(),
        forall|s: u64|
            #[trigger] others(b, me).contains(s) <==> (s != me && exists|i: int|
                0 <= i < b.len() && #[trigger] b[i].1 == s),
    decreases b.len(),
{
    if b.len() > 0 {
        let p = b.drop_last();
        lemma_others_exact(p, me);
        let rest = others(p, me);
        let x = b.last().1;
        assert forall|s: u64|
            #[trigger] others(b, me).contains(s) <==> (s != me && exists|i: int|
                0 <= i < b.len() && #[trigger] b[i].1 == s) by {
            if others(b, me).contains(s) {
                if rest.contains(s) {
                    let i = choose|i: int| 0 <= i < p.len() && #[trigger] p[i].1 == s;
                    assert(b[i].1 == s);
                } else {
                    assert(others(b, me) == rest.push(x));
                    let w = choose|w: int| 0 <= w < rest.push(x).len() && rest.push(x)[w] == s;
                    assert(w == rest.len());
                    assert(b[b.len() - 1].1 == s);
                }
            }
            if s != me && exists|i: int| 0 <= i < b.len() && #[trigger] b[i].1 == s {
                let i = choose|i: int| 0 <= i < b.len() && #[trigger] b[i].1 == s;
                if i < b.len() - 1 {
                    assert(p[i].1 == s);
                    assert(rest.contains(s));
                    if !(x == me || rest.contains(x)) {
                        let w = choose|w: int| 0 <= w < rest.len() && rest[w] == s;
                        assert(rest.push(x)[w] == s);
                    }
                } else {
                    assert(s == x);
                    if !rest.contains(x) {
                        assert(rest.push(x)[rest.len() as int] == s);
                    }
                }
            }
        }
        if !(x == me || rest.contains(x)) {
            assert(rest.push(x).no_duplicates()) by {
                assert forall|i: int, j: int|
                    0 <= i < rest.push(x).len() && 0 <= j < rest.push(x).len() && i != j
                    implies rest.push(x)[i] != rest.push(x)[j] by {
                    if i < rest.len() && j == rest.len() {
                        assert(rest.contains(rest[i]));
                    } else if j < rest.len() && i == rest.len() {
                        assert(rest.contains(rest[j]));
                    }
                }
            }
        }
    }
}

/// The bindings of sources to subjects in one session.
#[derive(Debug)]
pub struct Voicecall {
    /// Source and subject, one entry per source, in order of binding.
    pub bindings: Vec<(u32, u64)>,
    /// The bound sources that are active, each once.
    pub speaking: Vec<u32>,
}

impl Voicecall {
    /// Each source is bound at most once; the active ones are bound and
    /// listed once each.
    pub open spec fn wf(&self) -> bool {
        &&& forall|i: int, j: int|
            0 <= i < self.bindings@.len() && 0 <= j < self.bindings@.len() && i != j
                ==> self.bindings@[i].0 != self.bindings@[j].0
        &&& self.speaking@.no_duplicates()
        &&& forall|s: u32| #[trigger] self.speaking@.contains(s) ==> bound(self.bindings@, s)
    }

    /// An empty session.
    pub fn new() -> (p: Voicecall)
        ensures
            p.wf(),
            p.bindings@.len() == 0,
            p.speaking@.len() == 0,
    {
        Voicecall { bindings: Vec::new(), speaking: Vec::new() }
    }

    fn find(&self, source: u32) -> (r: Option<usize>)
        requires
            self.wf(),
        ensures
            match r {
                Some(i) => i < self.bindings@.len() && self.bindings@[i as int].0 == source
                    && i == position(self.bindings@, source),
                None => !bound(self.bindings@, source),
            },
    {
        let mut i: usize = 0;
        while i < self.bindings.len()
            invariant
                self.wf(),
                0 <= i <= self.bindings@.len(),
                forall|j: int| 0 <= j < i ==> self.bindings@[j].0 != source,
            decreases self.bindings@.len() - i,
        {
            if self.bindings[i].0 == source {
                proof {
                    assert(self.bindings@[i as int].0 == source);
                    assert(bound(self.bindings@, source));
                    let k = position(self.bindings@, source);
                    assert(self.bindings@[k].0 == source);
                    assert(k == i as int);
                }
                return Some(i);
            }
            i = i + 1;
        }
        None
    }

    /// The subject that `source` is bound to.
    pub fn resolve(&self, source: u32) -> (r: Option<u64>)
        requires
            self.wf(),
        ensures
            r == subject_of(self.bindings@, source),
    {
        match self.find(source) {
            Some(i) => Some(self.bindings[i].1),
            None => None,
        }
    }

    /// Binds `source` to `subject`; a source already bound is rebound in place.
    pub fn join(&mut self, source: u32, subject: u64)
        requires
            old(self).wf(),
        ensures
            final(self).wf(),
            final(self).bindings@ == if bound(old(self).bindings@, source) {
                old(self).bindings@.update(position(old(self).bindings@, source), (source, subject))
            } else {
                old(self).bindings@.push((source, subject))
            },
            final(self).speaking@ == old(self).speaking@,
    {
        match self.find(source) {
            Some(i) => {
                self.bindings.set(i, (source, subject));
                assert forall|a: int, b: int|
                    0 <= a < self.bindings@.len() && 0 <= b < self.bindings@.len() && a != b
                    implies self.bindings@[a].0 != self.bindings@[b].0 by {
                    assert(old(self).bindings@[a].0 != old(self).bindings@[b].0);
                }
                assert forall|s: u32| #[trigger] self.speaking@.contains(s) implies bound(self.bindings@, s) by {
                    assert(bound(old(self).bindings@, s));
                    let k = choose|k: int| 0 <= k < old(self).bindings@.len() && #[trigger] old(self).bindings@[k].0 == s;
                    assert(self.bindings@[k].0 == s);
                }
            },
            None => {
                self.bindings.push((source, subject));
                assert forall|s: u32| #[trigger] self.speaking@.contains(s) implies bound(self.bindings@, s) by {
                    assert(bound(old(self).bindings@, s));
                    let k = choose|k: int| 0 <= k < old(self).bindings@.len() && #[trigger] old(self).bindings@[k].0 == s;
                    assert(self.bindings@[k].0 == s);
                }
            },
        }
    }

    /// Position of `source` among the active sources.
    fn find_speaking(&self, source: u32) -> (r: Option<usize>)
        ensures
            match r {
                Some(i) => i < self.speaking@.len() && self.speaking@[i as int] == source,
                None => !self.speaking@.contains(source),
            },
    {
        let mut i: usize = 0;
        while i < self.speaking.len()
            invariant
                0 <= i <= self.speaking@.len(),
                forall|j: int| 0 <= j < i ==> self.speaking@[j] != source,
            decreases self.speaking@.len() - i,
        {
            if self.speaking[i] == source {
                return Some(i);
            }
            i = i + 1;
        }
        None
    }

    /// Marks `source` active or not, keeping each listed once.
    fn set_speaking(&mut self, source: u32, active: bool)
        requires
            old(self).speaking@.no_duplicates(),
        ensures
            final(self).bindings@ == old(self).bindings@,
            final(self).speaking@.no_duplicates(),
            forall|s: u32|
                #[trigger] final(self).speaking@.contains(s) <==> if s == source {
                    active
                } else {
                    old(self).speaking@.contains(s)
                },
    {
        match self.find_speaking(source) {
            Some(i) => {
                if !active {
                    self.speaking.remove(i);
                    assert forall|s: u32|
                        #[trigger] self.speaking@.contains(s) <==> if s == source {
                            active
                        } else {
                            old(self).speaking@.contains(s)
                        } by {
                        if self.speaking@.contains(s) {
                            let w = choose|w: int| 0 <= w < self.speaking@.len() && self.speaking@[w] == s;
                            let w0 = if w < i { w } else { w + 1 };
                            assert(old(self).speaking@[w0] == s);
                            assert(w0 != i);
                        }
                        if s != source && old(self).speaking@.contains(s) {
                            let w = choose|w: int| 0 <= w < old(self).speaking@.len() && old(self).speaking@[w] == s;
                            assert(w != i);
                            let w1 = if w < i { w } else { w - 1 };
                            assert(self.speaking@[w1] == s);
                        }
                    }
                }
            },
            None => {
                if active {
                    self.speaking.push(source);
                    assert forall|s: u32|
                        #[trigger] self.speaking@.contains(s) <==> if s == source {
                            active
                        } else {
                            old(self).speaking@.contains(s)
                        } by {
                        if self.speaking@.contains(s) && s != source {
                            let w = choose|w: int| 0 <= w < self.speaking@.len() && self.speaking@[w] == s;
                            assert(old(self).speaking@[w] == s);
                        }
                        if old(self).speaking@.contains(s) {
                            let w = choose|w: int| 0 <= w < old(self).speaking@.len() && old(self).speaking@[w] == s;
                            assert(self.speaking@[w] == s);
                        }
                        if s == source {
                            assert(self.speaking@[self.speaking@.len() - 1] == s);
                        }
                    }
                    assert(self.speaking@.no_duplicates()) by {
                        assert forall|a: int, b: int|
                            0 <= a < self.speaking@.len() && 0 <= b < self.speaking@.len() && a != b
                            implies self.speaking@[a] != self.speaking@[b] by {
                            if a == self.speaking@.len() - 1 {
                                assert(old(self).speaking@.contains(self.speaking@[b]));
                            } else if b == self.speaking@.len() - 1 {
                                assert(old(self).speaking@.contains(self.speaking@[a]));
                            }
                        }
                    }
                }
            },
        }
    }

    /// How many bound sources are active.
    pub fn active_count(&self) -> (n: usize)
        ensures
            n == self.speaking@.len(),
    {
        self.speaking.len()
    }

    /// Unbinds `source`, which is no longer active; an unknown source is a no-op.
    pub fn leave(&mut self, source: u32)
        requires
            old(self).wf(),
        ensures
            final(self).wf(),
            final(self).bindings@ == if bound(old(self).bindings@, source) {
                old(self).bindings@.remove(position(old(self).bindings@, source))
            } else {
                old(self).bindings@
            },
            forall|s: u32|
                #[trigger] final(self).speaking@.contains(s) <==> s != source
                    && old(self).speaking@.contains(s),
    {
        match self.find(source) {
            Some(i) => {
                self.bindings.remove(i);
                assert forall|a: int, b: int|
                    0 <= a < self.bindings@.len() && 0 <= b < self.bindings@.len() && a != b
                    implies self.bindings@[a].0 != self.bindings@[b].0 by {
                    let a0 = if a < i { a } else { a + 1 };
                    let b0 = if b < i { b } else { b + 1 };
                    assert(old(self).bindings@[a0].0 != old(self).bindings@[b0].0);
                }
                self.set_speaking(source, false);
                assert forall|s: u32| #[trigger] self.speaking@.contains(s) implies bound(self.bindings@, s) by {
                    assert(old(self).speaking@.contains(s));
                    assert(bound(old(self).bindings@, s));
                    let k = choose|k: int| 0 <= k < old(self).bindings@.len() && #[trigger] old(self).bindings@[k].0 == s;
                    assert(k != i);
                    let k1 = if k < i { k } else { k - 1 };
                    assert(self.bindings@[k1].0 == s);
                }
            },
            None => {
                assert forall|s: u32| #[trigger] self.speaking@.contains(s) implies s != source by {
                    assert(bound(self.bindings@, s));
                }
            },
        }
    }

    /// A source started (`active`) or stopped being active: it is counted
    /// as active or not, and every other subject bound in the session gets
    /// one adjustment, in order of first binding. An unknown source is a
    /// no-op.
    pub fn activity(&mut self, source: u32, active: bool) -> (r: Vec<Adjustment>)
        requires
            old(self).wf(),
        ensures
            final(self).wf(),
            final(self).bindings@ == old(self).bindings@,
            match subject_of(old(self).bindings@, source) {
                None => r@.len() == 0 && final(self).speaking@ == old(self).speaking@,
                Some(me) => {
                    &&& r@ == others(old(self).bindings@, me).map_values(
                        |s: u64| Adjustment { subject: s, up: active },
                    )
                    &&& forall|s: u32|
                        #[trigger] final(self).speaking@.contains(s) <==> if s == source {
                            active
                        } else {
                            old(self).speaking@.contains(s)
                        }
                },
            },
    {
        let me = match self.resolve(source) {
            Some(me) => me,
            None => {
                return Vec::new();
            },
        };
        self.set_speaking(source, active);
        let mut targets: Vec<u64> = Vec::new();
        let mut i: usize = 0;
        while i < self.bindings.len()
            invariant
                0 <= i <= self.bindings@.len(),
                targets@ == others(self.bindings@.subrange(0, i as int), me),
            decreases self.bindings@.len() - i,
        {
            let s = self.bindings[i].1;
            let ghost pre = self.bindings@.subrange(0, i as int + 1);
            assert(pre.drop_last() =~= self.bindings@.subrange(0, i as int));
            let mut seen = s == me;
            let mut j: usize = 0;
            while j < targets.len()
                invariant
                    0 <= j <= targets@.len(),
                    seen == (s == me || targets@.subrange(0, j as int).contains(s)),
                decreases targets@.len() - j,
            {
                let ghost before = targets@.subrange(0, j as int);
                let ghost after = targets@.subrange(0, j as int + 1);
                assert(after =~= before.push(targets@[j as int]));
                assert(after.contains(s) == (before.contains(s) || targets@[j as int] == s)) by {
                    if after.contains(s) {
                        let w = choose|w: int| 0 <= w < after.len() && after[w] == s;
                        if w < j {
                            assert(before[w] == s);
                        }
                    }
                    if before.contains(s) {
                        let w = choose|w: int| 0 <= w < before.len() && before[w] == s;
                        assert(after[w] == s);
                    }
                    if targets@[j as int] == s {
                        assert(after[j as int] == s);
                    }
                }
                if targets[j] == s {
                    seen = true;
                }
                j = j + 1;
            }
            assert(targets@.subrange(0, targets@.len() as int) =~= targets@);
            if !seen {
                targets.push(s);
            }
            i = i + 1;
        }
        assert(self.bindings@.subrange(0, self.bindings@.len() as int) =~= self.bindings@);
        let mut r: Vec<Adjustment> = Vec::new();
        let mut k: usize = 0;
        while k < targets.len()
            invariant
                0 <= k <= targets@.len(),
                r@ == targets@.subrange(0, k as int).map_values(
                    |s: u64| Adjustment { subject: s, up: active },
                ),
            decreases targets@.len() - k,
        {
            r.push(Adjustment { subject: targets[k], up: active });
            assert(targets@.subrange(0, k as int + 1) =~= targets@.subrange(0, k as int).push(targets@[k as int]));
            k = k + 1;
        }
        assert(targets@.subrange(0, targets@.len() as int) =~= targets@);
        r
    }
}

} // verus!
