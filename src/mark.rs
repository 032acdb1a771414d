//! The mark status effect. A mark on an enemy comes with a sensor that
//! follows it; triggering a mark chains through every sensor reachable by
//! overlap, each exactly once, damaging the targets they follow.
use vstd::prelude::*;
use crate::health::{mutated, Health};

verus! {

/// Damage dealt to the target of every sensor a triggered mark reaches.
pub const MARK_DAMAGE: i16 = 10;

/// A combatant as the mark network sees it.
#[derive(Clone, Copy, Debug, PartialEq, Eq, Structural)]
pub struct Target {
    pub health: Health,
    pub enemy: bool,
    pub marked: bool,
}

/// A sensor that follows one combatant, with the sensors it currently
/// overlaps, as the physics layer last reported them.
#[derive(Clone, Debug, PartialEq, Eq)]
pub struct MarkSensor {
    pub following: usize,
    pub colliding: Vec<usize>,
}

/// Combatants and mark sensors, each in an arena whose slots are never
/// reused; a despawned entity leaves `None` behind.
#[derive(Clone, Debug)]
pub struct MarkNetwork {
    pub targets: Vec<Option<Target>>,
    pub sensors: Vec<Option<MarkSensor>>,
}

pub open spec fn count_false(s: Seq<bool>) -> nat
    decreases s.len(),
{
    if s.len() == 0 {
        0
    } else {
        count_false(s.drop_last()) + if s.last() {
            0nat
        } else {
            1nat
        }
    }
}

proof fn lemma_count_false_set(s: Seq<bool>, i: int)
    requires
        0 <= i < s.len(),
        !s[i],
    ensures
        count_false(s.update(i, true)) + 1 == count_false(s),
    decreases s.len(),
{
    let u = s.update(i, true);
    if i == s.len() - 1 {
        assert(u.drop_last() =~= s.drop_last());
    } else {
        assert(u.drop_last() =~= s.drop_last().update(i, true));
        lemma_count_false_set(s.drop_last(), i);
    }
}

proof fn lemma_count_false_all(n: nat)
    ensures
        count_false(Seq::new(n, |i: int| false)) == n,
    decreases n,
{
    if n > 0 {
        assert(Seq::new(n, |i: int| false).drop_last() =~= Seq::new((n - 1) as nat, |i: int| false));
        lemma_count_false_all((n - 1) as nat);
    }
}

impl MarkNetwork {
    pub open spec fn live_target(self, t: int) -> bool {
        0 <= t < self.targets.len() && self.targets@[t] is Some
    }

    pub open spec fn live(self, s: int) -> bool {
        0 <= s < self.sensors.len() && self.sensors@[s] is Some
    }

    pub open spec fn follows(self, s: int) -> int {
        self.sensors@[s].unwrap().following as int
    }

    /// Sensor `a` reports an overlap with live sensor `b`.
    pub open spec fn adjacent(self, a: int, b: int) -> bool {
        self.live(a) && self.live(b) && self.sensors@[a].unwrap().colliding@.contains(b as usize)
    }

    /// Entry `k` of `r` is overlapped by an entry before it.
    pub open spec fn reached_earlier(self, r: Seq<usize>, k: int) -> bool {
        exists|j: int| 0 <= j < k && #[trigger] self.adjacent(r[j] as int, r[k] as int)
    }

    pub open spec fn wf(self) -> bool {
        &&& forall|t: int| #[trigger] self.live_target(t) ==> self.targets@[t].unwrap().health.wf()
        &&& forall|s: int| #[trigger] self.live(s) ==> self.follows(s) < self.targets.len()
        &&& forall|s: int| #[trigger] self.live(s) && self.live_target(self.follows(s))
            ==> self.targets@[self.follows(s)].unwrap().marked
        &&& forall|s1: int, s2: int|
            #[trigger] self.live(s1) && #[trigger] self.live(s2) && s1 != s2 ==> self.follows(s1)
                != self.follows(s2)
    }

    pub fn new() -> (r: MarkNetwork)
        ensures
            r.wf(),
            r.targets.len() == 0,
            r.sensors.len() == 0,
    {
        MarkNetwork { targets: Vec::new(), sensors: Vec::new() }
    }

    /// Adds an unmarked combatant and returns its slot.
    pub fn add_target(&mut self, health: Health, enemy: bool) -> (r: usize)
        requires
            old(self).wf(),
            health.wf(),
        ensures
            final(self).wf(),
            r == old(self).targets.len(),
            final(self).targets@ == old(self).targets@.push(
                Some(Target { health, enemy, marked: false }),
            ),
            final(self).sensors@ == old(self).sensors@,
    {
        let r = self.targets.len();
        self.targets.push(Some(Target { health, enemy, marked: false }));
        proof {
            let o = *old(self);
            assert forall|u: int| 0 <= u < o.targets.len() && #[trigger] self.live_target(u) implies o.live_target(u)
                && self.targets@[u] == o.targets@[u] by {}
            self.lemma_wf_kept(o);
        }
        r
    }

    /// Removes a combatant (it died). Sensors that follow it stay until their
    /// own end.
    pub fn despawn_target(&mut self, t: usize)
        requires
            old(self).wf(),
            t < old(self).targets.len(),
        ensures
            final(self).wf(),
            final(self).targets@ == old(self).targets@.update(t as int, None),
            final(self).sensors@ == old(self).sensors@,
    {
        self.targets.set(t, None);
        proof {
            let o = *old(self);
            assert forall|u: int| 0 <= u < o.targets.len() && #[trigger] self.live_target(u) implies o.live_target(u)
                && self.targets@[u] == o.targets@[u] by {}
            self.lemma_wf_kept(o);
        }
    }

    /// Whether `t` is a live enemy without a mark: the only combatants a mark
    /// applies to.
    pub open spec fn can_mark(self, t: int) -> bool {
        self.live_target(t) && self.targets@[t].unwrap().enemy && !self.targets@[t].unwrap().marked
    }

    /// Marks target `t` and spawns a sensor that follows it, returning the
    /// sensor's slot. Marking a combatant that is already marked, missing or
    /// not an enemy changes nothing and spawns no sensor.
    pub fn apply_mark(&mut self, t: usize) -> (r: Option<usize>)
        requires
            old(self).wf(),
        ensures
            final(self).wf(),
            old(self).can_mark(t as int) ==> {
                &&& r == Some(old(self).sensors.len())
                &&& final(self).targets@ == old(self).targets@.update(
                    t as int,
                    Some(Target { marked: true, ..old(self).targets@[t as int].unwrap() }),
                )
                &&& final(self).sensors@.len() == old(self).sensors@.len() + 1
                &&& final(self).sensors@.drop_last() == old(self).sensors@
                &&& final(self).sensors@.last() is Some
                &&& final(self).sensors@.last().unwrap().following == t
                &&& final(self).sensors@.last().unwrap().colliding@.len() == 0
            },
            !old(self).can_mark(t as int) ==> {
                &&& r.is_none()
                &&& final(self).targets@ == old(self).targets@
                &&& final(self).sensors@ == old(self).sensors@
            },
    {
        if t >= self.targets.len() {
            return None;
        }
        let cur = self.targets[t];
        match cur {
            Some(target) => {
                if !target.enemy || target.marked {
                    return None;
                }
                let ghost o = *old(self);
                proof {
                    assert forall|s: int| #[trigger] o.live(s) implies o.follows(s) != t by {
                        if o.follows(s) == t {
                            assert(o.live_target(t as int));
                        }
                    }
                }
                self.targets.set(t, Some(Target { marked: true, ..target }));
                let idx = self.sensors.len();
                let sensor = MarkSensor { following: t, colliding: Vec::new() };
                self.sensors.push(Some(sensor));
                proof {
                    assert forall|s: int| #[trigger] self.live(s) implies self.follows(s) < self.targets.len() by {
                        if s < idx {
                            assert(o.live(s));
                        }
                    }
                    assert forall|u: int| #[trigger] self.live_target(u) implies self.targets@[u].unwrap().health.wf() by {
                        assert(o.live_target(u));
                    }
                    assert forall|s: int| #[trigger] self.live(s) && self.live_target(self.follows(s)) implies self.targets@[self.follows(s)].unwrap().marked by {
                        if s < idx {
                            assert(o.live(s));
                            if self.follows(s) != t {
                                assert(o.live_target(self.follows(s)));
                            }
                        }
                    }
                    assert forall|s1: int, s2: int|
                        #[trigger] self.live(s1) && #[trigger] self.live(s2) && s1 != s2 implies self.follows(s1) != self.follows(s2) by {
                        if s1 < idx && s2 < idx {
                            assert(o.live(s1) && o.live(s2));
                        } else if s1 < idx {
                            assert(o.live(s1));
                        } else {
                            assert(o.live(s2));
                        }
                    }
                    assert(self.sensors@.drop_last() =~= o.sensors@);
                }
                Some(idx)
            },
            None => None,
        }
    }

    /// Records the sensors that sensor `s` overlaps now.
    pub fn set_colliding(&mut self, s: usize, colliding: Vec<usize>)
        requires
            old(self).wf(),
        ensures
            final(self).wf(),
            final(self).targets@ == old(self).targets@,
            old(self).live(s as int) ==> final(self).sensors@ == old(self).sensors@.update(
                s as int,
                Some(MarkSensor { following: old(self).sensors@[s as int].unwrap().following, colliding }),
            ),
            !old(self).live(s as int) ==> final(self).sensors@ == old(self).sensors@,
    {
        if s >= self.sensors.len() {
            return;
        }
        let following = match &self.sensors[s] {
            Some(sensor) => sensor.following,
            None => {
                return;
            },
        };
        let ghost o = *old(self);
        self.sensors.set(s, Some(MarkSensor { following, colliding }));
        proof {
            assert forall|u: int| 0 <= u < o.targets.len() && #[trigger] self.live_target(u) implies o.live_target(u)
                && self.targets@[u] == o.targets@[u] by {}
            self.lemma_wf_kept(o);
        }
    }

    /// Well-formedness survives a change that keeps every live sensor as it
    /// was (or removes it) and every existing live combatant as it was, and
    /// adds only combatants with consistent health.
    proof fn lemma_wf_kept(self, o: MarkNetwork)
        requires
            o.wf(),
            o.targets.len() <= self.targets.len(),
            self.sensors.len() == o.sensors.len(),
            forall|s: int| #[trigger] self.live(s) ==> o.live(s) && self.follows(s) == o.follows(s),
            forall|u: int|
                0 <= u < o.targets.len() && #[trigger] self.live_target(u) ==> o.live_target(u)
                    && self.targets@[u] == o.targets@[u],
            forall|u: int|
                o.targets.len() <= u && #[trigger] self.live_target(u) ==> self.targets@[u].unwrap().health.wf(),
        ensures
            self.wf(),
    {
        assert forall|s: int| #[trigger] self.live(s) && self.live_target(self.follows(s)) implies self.targets@[self.follows(s)].unwrap().marked by {
            assert(o.live(s));
            assert(o.live_target(self.follows(s)));
        }
        assert forall|u: int| #[trigger] self.live_target(u) implies self.targets@[u].unwrap().health.wf() by {
            if u < o.targets.len() {
                assert(o.live_target(u));
            }
        }
        assert forall|s1: int, s2: int|
            #[trigger] self.live(s1) && #[trigger] self.live(s2) && s1 != s2 implies self.follows(s1) != self.follows(s2) by {
            assert(o.live(s1) && o.live(s2));
        }
        assert forall|s: int| #[trigger] self.live(s) implies self.follows(s) < self.targets.len() by {
            assert(o.live(s));
        }
    }

    /// The sensors a trigger at sensor `origin` reaches, in breadth-first
    /// order: `origin` first, then each live sensor that an earlier one
    /// overlaps, every one exactly once. Empty when `origin` is not a live
    /// sensor.
    pub fn chain(&self, origin: usize) -> (r: Vec<usize>)
        requires
            self.wf(),
        ensures
            !self.live(origin as int) ==> r@.len() == 0,
            self.live(origin as int) ==> r@.len() > 0 && r@[0] == origin,
            r@.no_duplicates(),
            forall|k: int| 0 <= k < r@.len() ==> self.live(#[trigger] r@[k] as int),
            forall|k: int, c: int|
                0 <= k < r@.len() && #[trigger] self.adjacent(r@[k] as int, c) ==> r@.contains(
                    c as usize,
                ),
            forall|k: int| 0 < k < r@.len() ==> #[trigger] self.reached_earlier(r@, k),
    {
        let n = self.sensors.len();
        let mut out: Vec<usize> = Vec::new();
        if origin >= n || self.sensors[origin].is_none() {
            return out;
        }
        let mut visited: Vec<bool> = Vec::new();
        let mut i: usize = 0;
        while i < n
            invariant
                i <= n,
                visited@ == Seq::new(i as nat, |j: int| false),
            decreases n - i,
        {
            visited.push(false);
            i = i + 1;
            assert(visited@ =~= Seq::new(i as nat, |j: int| false));
        }
        proof {
            lemma_count_false_all(n as nat);
            lemma_count_false_set(visited@, origin as int);
        }
        visited.set(origin, true);
        out.push(origin);
        let ghost mut parent: Seq<int> = seq![0int];
        proof {
            assert forall|j: int| 0 <= j < n implies (visited@[j] <==> out@.contains(j as usize)) by {
                if j == origin {
                    assert(out@[0] == origin);
                } else if out@.contains(j as usize) {
                    assert(out@[0] == j as usize);
                }
            }
        }
        let mut head: usize = 0;
        while head < out.len()
            invariant
                n == self.sensors.len(),
                self.wf(),
                self.live(origin as int),
                visited@.len() == n,
                head <= out@.len(),
                out@.len() + count_false(visited@) == n,
                out@.len() > 0 && out@[0] == origin,
                out@.no_duplicates(),
                forall|j: int| 0 <= j < n ==> (visited@[j] <==> out@.contains(j as usize)),
                forall|k: int| 0 <= k < out@.len() ==> self.live(#[trigger] out@[k] as int),
                parent.len() == out@.len(),
                forall|k: int|
                    0 < k < out@.len() ==> 0 <= #[trigger] parent[k] < k && self.adjacent(
                        out@[parent[k]] as int,
                        out@[k] as int,
                    ),
                forall|k: int, c: int|
                    0 <= k < head && #[trigger] self.adjacent(out@[k] as int, c) ==> visited@[c],
            decreases n - head,
        {
            let s = out[head];
            assert(self.live(out@[head as int] as int));
            let cs: &Vec<usize> = match &self.sensors[s] {
                Some(sensor) => &sensor.colliding,
                None => {
                    proof {
                        assert(false);
                    }
                    return out;
                },
            };
            let mut m: usize = 0;
            while m < cs.len()
                invariant
                    n == self.sensors.len(),
                    self.wf(),
                    s == out@[head as int],
                    head < out@.len(),
                    self.live(s as int),
                    cs@ == self.sensors@[s as int].unwrap().colliding@,
                    m <= cs.len(),
                    visited@.len() == n,
                    out@.len() + count_false(visited@) == n,
                    out@.len() > 0 && out@[0] == origin,
                    out@.no_duplicates(),
                    forall|j: int| 0 <= j < n ==> (visited@[j] <==> out@.contains(j as usize)),
                    forall|k: int| 0 <= k < out@.len() ==> self.live(#[trigger] out@[k] as int),
                    parent.len() == out@.len(),
                    forall|k: int|
                        0 < k < out@.len() ==> 0 <= #[trigger] parent[k] < k && self.adjacent(
                            out@[parent[k]] as int,
                            out@[k] as int,
                        ),
                    forall|k: int, c: int|
                        0 <= k < head && #[trigger] self.adjacent(out@[k] as int, c) ==> visited@[c],
                    forall|q: int|
                        0 <= q < m && self.live(#[trigger] cs@[q] as int) ==> visited@[cs@[q] as int],
                decreases cs.len() - m,
            {
                let c = cs[m];
                if c < n && self.sensors[c].is_some() && !visited[c] {
                    proof {
                        lemma_count_false_set(visited@, c as int);
                        assert(!out@.contains(c));
                    }
                    visited.set(c, true);
                    let ghost old_out = out@;
                    out.push(c);
                    proof {
                        parent = parent.push(head as int);
                        assert(cs@[m as int] == c);
                        assert(self.adjacent(s as int, c as int));
                        assert forall|j: int| 0 <= j < n implies (visited@[j] <==> out@.contains(j as usize)) by {
                            if j == c {
                                assert(out@[old_out.len() as int] == c);
                            } else if visited@[j] {
                                assert(old_out.contains(j as usize));
                                let w = choose|w: int| 0 <= w < old_out.len() && old_out[w] == j as usize;
                                assert(out@[w] == j as usize);
                            } else {
                                if out@.contains(j as usize) {
                                    let w = choose|w: int| 0 <= w < out@.len() && out@[w] == j as usize;
                                    assert(w < old_out.len());
                                    assert(old_out.contains(j as usize));
                                }
                            }
                        }
                        assert forall|k: int| 0 < k < out@.len() implies 0 <= #[trigger] parent[k] < k && self.adjacent(
                            out@[parent[k]] as int,
                            out@[k] as int,
                        ) by {
                            if k < old_out.len() {
                                assert(out@[k] == old_out[k]);
                                assert(out@[parent[k]] == old_out[parent[k]]);
                            }
                        }
                    }
                }
                m = m + 1;
            }
            proof {
                assert forall|k: int, c: int|
                    0 <= k < head + 1 && #[trigger] self.adjacent(out@[k] as int, c) implies visited@[c] by {
                    if k == head {
                        let q = choose|q: int| 0 <= q < cs@.len() && cs@[q] == c as usize;
                        assert(self.live(cs@[q] as int));
                    }
                }
            }
            head = head + 1;
        }
        proof {
            assert forall|k: int, c: int|
                0 <= k < out@.len() && #[trigger] self.adjacent(out@[k] as int, c) implies out@.contains(
                    c as usize,
                ) by {
                assert(visited@[c]);
            }
            assert forall|k: int| 0 < k < out@.len() implies #[trigger] self.reached_earlier(out@, k) by {
                let j = parent[k];
                assert(0 <= j < k);
                assert(self.adjacent(out@[j] as int, out@[k] as int));
            }
        }
        out
    }

    /// A live, marked enemy: what a mark-triggering hitbox reacts to.
    pub open spec fn is_marked_enemy(self, t: int) -> bool {
        self.live_target(t) && self.targets@[t].unwrap().enemy && self.targets@[t].unwrap().marked
    }

    /// The first of the combatants a mark-triggering hitbox touches that is
    /// a marked enemy, if any.
    pub fn first_marked(&self, colliding: &Vec<usize>) -> (r: Option<usize>)
        ensures
            r is None ==> forall|k: int|
                0 <= k < colliding@.len() ==> !self.is_marked_enemy(#[trigger] colliding@[k] as int),
            r is Some ==> exists|k: int|
                0 <= k < colliding@.len() && colliding@[k] == r.unwrap() && self.is_marked_enemy(
                    r.unwrap() as int,
                ) && forall|j: int|
                    0 <= j < k ==> !self.is_marked_enemy(#[trigger] colliding@[j] as int),
    {
        let mut k: usize = 0;
        while k < colliding.len()
            invariant
                k <= colliding.len(),
                forall|j: int| 0 <= j < k ==> !self.is_marked_enemy(#[trigger] colliding@[j] as int),
            decreases colliding.len() - k,
        {
            let c = colliding[k];
            if c < self.targets.len() {
                if let Some(target) = self.targets[c] {
                    if target.enemy && target.marked {
                        return Some(c);
                    }
                }
            }
            k = k + 1;
        }
        None
    }

    /// The combatant sensor `s` follows, if `s` is live.
    pub fn following(&self, s: usize) -> (r: Option<usize>)
        ensures
            self.live(s as int) ==> r == Some(self.sensors@[s as int].unwrap().following),
            !self.live(s as int) ==> r is None,
    {
        if s >= self.sensors.len() {
            return None;
        }
        match &self.sensors[s] {
            Some(sensor) => Some(sensor.following),
            None => None,
        }
    }

    /// Some entry of `r` before position `k` follows target `u`.
    pub open spec fn struck(self, r: Seq<usize>, k: int, u: int) -> bool {
        exists|j: int| 0 <= j < k && #[trigger] self.follows(r[j] as int) == u
    }

    /// The live sensors that follow target `t`.
    pub fn followed_by(&self, t: usize) -> (r: Vec<usize>)
        ensures
            forall|k: int|
                0 <= k < r@.len() ==> self.live(#[trigger] r@[k] as int) && self.follows(r@[k] as int)
                    == t,
            forall|s: int| #[trigger] self.live(s) && self.follows(s) == t ==> r@.contains(s as usize),
    {
        let mut out: Vec<usize> = Vec::new();
        let mut i: usize = 0;
        while i < self.sensors.len()
            invariant
                i <= self.sensors.len(),
                forall|k: int|
                    0 <= k < out@.len() ==> self.live(#[trigger] out@[k] as int) && self.follows(
                        out@[k] as int,
                    ) == t,
                forall|s: int|
                    0 <= s < i && #[trigger] self.live(s) && self.follows(s) == t ==> out@.contains(
                        s as usize,
                    ),
            decreases self.sensors.len() - i,
        {
            if let Some(sensor) = &self.sensors[i] {
                if sensor.following == t {
                    let ghost before = out@;
                    out.push(i);
                    proof {
                        assert(out@[before.len() as int] == i);
                        assert forall|s: int|
                            0 <= s < i + 1 && #[trigger] self.live(s) && self.follows(s) == t implies out@.contains(
                                s as usize,
                            ) by {
                            if s < i {
                                let w = choose|w: int| 0 <= w < before.len() && before[w] == s as usize;
                                assert(out@[w] == s as usize);
                            }
                        }
                    }
                }
            }
            i = i + 1;
        }
        out
    }

    /// Triggers the mark on target `t`: from the sensor that follows it, the
    /// chain of overlapping sensors is walked once; every sensor on it is
    /// despawned, and every live target they follow takes `MARK_DAMAGE` and
    /// loses its mark, once. Returns the chain, empty (and nothing changed)
    /// when no live sensor follows `t`.
    pub fn trigger_mark(&mut self, t: usize) -> (r: Vec<usize>)
        requires
            old(self).wf(),
        ensures
            final(self).wf(),
            (forall|s: int| #[trigger] old(self).live(s) ==> old(self).follows(s) != t) ==> r@.len()
                == 0,
            r@.len() > 0 ==> old(self).follows(r@[0] as int) == t,
            forall|s: int|
                #[trigger] old(self).live(s) && old(self).follows(s) == t ==> r@.len() > 0 && r@[0]
                    == s,
            r@.no_duplicates(),
            forall|k: int| 0 <= k < r@.len() ==> old(self).live(#[trigger] r@[k] as int),
            forall|k: int, c: int|
                0 <= k < r@.len() && #[trigger] old(self).adjacent(r@[k] as int, c) ==> r@.contains(
                    c as usize,
                ),
            forall|k: int| 0 < k < r@.len() ==> #[trigger] old(self).reached_earlier(r@, k),
            final(self).sensors@.len() == old(self).sensors@.len(),
            forall|i: int|
                0 <= i < old(self).sensors@.len() ==> if r@.contains(i as usize) {
                    #[trigger] final(self).sensors@[i] is None
                } else {
                    final(self).sensors@[i] == old(self).sensors@[i]
                },
            final(self).targets@.len() == old(self).targets@.len(),
            forall|u: int|
                0 <= u < old(self).targets@.len() ==> #[trigger] final(self).targets@[u] == if old(
                    self,
                ).struck(r@, r@.len() as int, u) && old(self).live_target(u) {
                    Some(hit_by_mark(old(self).targets@[u].unwrap()))
                } else {
                    old(self).targets@[u]
                },
    {
        let origins = self.followed_by(t);
        if origins.len() == 0 {
            let r: Vec<usize> = Vec::new();
            proof {
                assert forall|u: int|
                    0 <= u < old(self).targets@.len() implies !old(self).struck(r@, r@.len() as int, u) by {}
            }
            return r;
        }
        let origin = origins[0];
        let chain = self.chain(origin);
        let ghost o = *old(self);
        proof {
            assert(o.live(origin as int) && o.follows(origin as int) == t);
            assert forall|s: int| #[trigger] o.live(s) && o.follows(s) == t implies s == origin by {
                if s != origin {
                    assert(o.follows(s) != o.follows(origin as int));
                }
            }
        }
        let mut k: usize = 0;
        while k < chain.len()
            invariant
                o.wf(),
                k <= chain@.len(),
                chain@.no_duplicates(),
                forall|j: int| 0 <= j < chain@.len() ==> o.live(#[trigger] chain@[j] as int),
                self.sensors@.len() == o.sensors@.len(),
                self.targets@.len() == o.targets@.len(),
                forall|i: int|
                    0 <= i < o.sensors@.len() ==> if chain@.subrange(0, k as int).contains(i as usize) {
                        #[trigger] self.sensors@[i] is None
                    } else {
                        self.sensors@[i] == o.sensors@[i]
                    },
                forall|u: int|
                    0 <= u < o.targets@.len() ==> #[trigger] self.targets@[u] == if o.struck(
                        chain@,
                        k as int,
                        u,
                    ) && o.live_target(u) {
                        Some(hit_by_mark(o.targets@[u].unwrap()))
                    } else {
                        o.targets@[u]
                    },
            decreases chain@.len() - k,
        {
            let s = chain[k];
            assert(o.live(s as int));
            assert(!chain@.subrange(0, k as int).contains(s)) by {
                if chain@.subrange(0, k as int).contains(s) {
                    let w = choose|w: int| 0 <= w < k && #[trigger] chain@.subrange(0, k as int)[w] == s;
                    assert(chain@[w] == chain@[k as int]);
                }
            }
            assert(self.sensors@[s as int] == o.sensors@[s as int]);
            let u: usize = match &self.sensors[s] {
                Some(sensor) => sensor.following,
                None => {
                    proof {
                        assert(false);
                    }
                    0
                },
            };
            assert(u == o.follows(s as int));
            assert(!o.struck(chain@, k as int, u as int)) by {
                if o.struck(chain@, k as int, u as int) {
                    let j = choose|j: int| 0 <= j < k && #[trigger] o.follows(chain@[j] as int) == u;
                    assert(chain@[j] != chain@[k as int]);
                    assert(o.live(chain@[j] as int));
                }
            }
            let ghost before_targets = self.targets@;
            if let Some(target) = self.targets[u] {
                let mut c = target;
                assert(o.live_target(u as int));
                c.health.mutate(-MARK_DAMAGE);
                c.marked = false;
                self.targets.set(u, Some(c));
                assert(c == hit_by_mark(o.targets@[u as int].unwrap()));
            }
            self.sensors.set(s, None);
            proof {
                assert forall|v: int| 0 <= v < o.targets@.len() implies #[trigger] self.targets@[v] == if o.struck(
                    chain@,
                    k + 1,
                    v,
                ) && o.live_target(v) {
                    Some(hit_by_mark(o.targets@[v].unwrap()))
                } else {
                    o.targets@[v]
                } by {
                    if v == u {
                        assert(o.follows(chain@[k as int] as int) == v);
                        assert(o.struck(chain@, k + 1, v));
                    } else {
                        if o.struck(chain@, k + 1, v) {
                            let j = choose|j: int| 0 <= j < k + 1 && #[trigger] o.follows(chain@[j] as int) == v;
                            assert(j != k);
                            assert(o.struck(chain@, k as int, v));
                        }
                        if o.struck(chain@, k as int, v) {
                            let j = choose|j: int| 0 <= j < k && #[trigger] o.follows(chain@[j] as int) == v;
                            assert(o.struck(chain@, k + 1, v));
                        }
                    }
                }
                assert forall|i: int| 0 <= i < o.sensors@.len() implies if chain@.subrange(0, k + 1).contains(i as usize) {
                    #[trigger] self.sensors@[i] is None
                } else {
                    self.sensors@[i] == o.sensors@[i]
                } by {
                    if chain@.subrange(0, k + 1).contains(i as usize) && i != s {
                        let w = choose|w: int| 0 <= w < k + 1 && #[trigger] chain@.subrange(0, k + 1)[w] == i as usize;
                        assert(chain@.subrange(0, k as int)[w] == i as usize);
                    }
                    if i == s {
                        assert(chain@.subrange(0, k + 1)[k as int] == s);
                    }
                    if chain@.subrange(0, k as int).contains(i as usize) {
                        let w = choose|w: int| 0 <= w < k && #[trigger] chain@.subrange(0, k as int)[w] == i as usize;
                        assert(chain@.subrange(0, k + 1)[w] == i as usize);
                    }
                }
            }
            k = k + 1;
        }
        assert(chain@.subrange(0, chain@.len() as int) == chain@);
        proof {
            self.lemma_trigger_keeps_wf(o, chain@);
        }
        chain
    }

    proof fn lemma_trigger_keeps_wf(self, o: MarkNetwork, chain: Seq<usize>)
        requires
            o.wf(),
            self.sensors@.len() == o.sensors@.len(),
            self.targets@.len() == o.targets@.len(),
            forall|j: int| 0 <= j < chain.len() ==> o.live(#[trigger] chain[j] as int),
            forall|i: int|
                0 <= i < o.sensors@.len() ==> if chain.contains(i as usize) {
                    #[trigger] self.sensors@[i] is None
                } else {
                    self.sensors@[i] == o.sensors@[i]
                },
            forall|u: int|
                0 <= u < o.targets@.len() ==> #[trigger] self.targets@[u] == if o.struck(
                    chain,
                    chain.len() as int,
                    u,
                ) && o.live_target(u) {
                    Some(hit_by_mark(o.targets@[u].unwrap()))
                } else {
                    o.targets@[u]
                },
        ensures
            self.wf(),
    {
        assert forall|s: int| #[trigger] self.live(s) implies o.live(s) && !chain.contains(s as usize)
            && self.follows(s) == o.follows(s) by {
            if chain.contains(s as usize) {
                assert(self.sensors@[s] is None);
            }
        }
        assert forall|t: int| #[trigger] self.live_target(t) implies self.targets@[t].unwrap().health.wf() by {
            if o.struck(chain, chain.len() as int, t) && o.live_target(t) {
                assert(o.targets@[t].unwrap().health.wf());
            } else {
                assert(o.live_target(t));
            }
        }
        assert forall|s: int| #[trigger] self.live(s) implies self.follows(s) < self.targets.len() by {
            assert(o.live(s));
        }
        assert forall|s: int| #[trigger] self.live(s) && self.live_target(self.follows(s)) implies self.targets@[self.follows(s)].unwrap().marked by {
            let u = self.follows(s);
            assert(o.live(s));
            if o.struck(chain, chain.len() as int, u) {
                let j = choose|j: int| 0 <= j < chain.len() && #[trigger] o.follows(chain[j] as int) == u;
                assert(o.live(chain[j] as int));
                assert(chain[j] as int != s);
            }
            assert(o.live_target(u));
        }
        assert forall|s1: int, s2: int|
            #[trigger] self.live(s1) && #[trigger] self.live(s2) && s1 != s2 implies self.follows(s1) != self.follows(s2) by {
            assert(o.live(s1) && o.live(s2));
        }
    }
}

/// A target after a triggered mark reaches it: `MARK_DAMAGE` less health, no
/// mark.
pub open spec fn hit_by_mark(c: Target) -> Target {
    Target {
        health: Health {
            current: mutated(c.health.current as int, c.health.max as int, -MARK_DAMAGE as int) as i16,
            max: c.health.max,
        },
        enemy: c.enemy,
        marked: false,
    }
}

/// A chain hits each target at most once: in a well-formed network no two
/// distinct sensors of a duplicate-free list of live sensors follow the same
/// combatant, so a triggered mark cannot damage a combatant twice.
pub proof fn lemma_each_target_struck_once(net: MarkNetwork, chain: Seq<usize>, j1: int, j2: int)
    requires
        net.wf(),
        chain.no_duplicates(),
        forall|k: int| 0 <= k < chain.len() ==> net.live(#[trigger] chain[k] as int),
        0 <= j1 < chain.len(),
        0 <= j2 < chain.len(),
        net.follows(chain[j1] as int) == net.follows(chain[j2] as int),
    ensures
        j1 == j2,
{
    if j1 != j2 {
        assert(chain[j1] != chain[j2]);
        assert(net.live(chain[j1] as int) && net.live(chain[j2] as int));
    }
}

} // verus!
