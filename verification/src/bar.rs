//! A bar: a stretch of time cut into equal slots, some of which hold a chord.

use std::collections::BTreeMap;
use vstd::prelude::*;
use vstd::set_lib::*;
use vstd::relations::*;
use crate::chord::Chord;

verus! {

/// The subdivisions a bar may have: the powers of two up to 16.
pub open spec fn valid_subdivision(n: int) -> bool {
    n == 1 || n == 2 || n == 4 || n == 8 || n == 16
}

/// The slots of a chord map, keyed by mathematical integers.
pub open spec fn slots_of(m: Map<usize, Chord>) -> Map<int, Chord> {
    Map::new(
        |k: int| 0 <= k <= usize::MAX && m.contains_key(k as usize),
        |k: int| m[k as usize],
    )
}

/// The slots after the subdivision is doubled: slot `k` moves to `2 * k`.
pub open spec fn doubled_slots(m: Map<int, Chord>) -> Map<int, Chord> {
    Map::new(|k: int| k % 2 == 0 && m.contains_key(k / 2), |k: int| m[k / 2])
}

/// The slots after the subdivision is halved: slots `2 * k` and `2 * k + 1`
/// both move to `k`, and where both hold a chord the later one stays.
pub open spec fn halved_slots(m: Map<int, Chord>) -> Map<int, Chord> {
    Map::new(
        |k: int| m.contains_key(2 * k) || m.contains_key(2 * k + 1),
        |k: int|
            if m.contains_key(2 * k + 1) {
                m[2 * k + 1]
            } else {
                m[2 * k]
            },
    )
}

/// The keys of a chord map that are below `k`.
pub open spec fn keys_below(keys: Set<usize>, k: usize) -> Set<usize> {
    Set::new(|j: usize| keys.contains(j) && j < k)
}

/// What a bar is: its beats, its subdivision, and the chords in its slots.
pub struct BarView {
    pub beats: int,
    pub subdivision: int,
    pub slots: Map<int, Chord>,
}

impl BarView {
    /// A bar without chords.
    pub open spec fn empty(beats: int, subdivision: int) -> BarView {
        BarView { beats, subdivision, slots: Map::empty() }
    }

    /// The bar's invariant: a positive number of beats, a subdivision that is
    /// a power of two up to 16, and chords only in slots below it.
    pub open spec fn wf(self) -> bool {
        &&& self.beats >= 1
        &&& valid_subdivision(self.subdivision)
        &&& forall|k: int| self.slots.contains_key(k) ==> 0 <= k < self.subdivision
    }

    /// The number of slots that hold a chord.
    pub open spec fn occupied(self) -> nat {
        self.slots.dom().len()
    }

    /// The bar with `chord` in slot `index`.
    pub open spec fn with_chord(self, index: int, chord: Chord) -> BarView {
        BarView { slots: self.slots.insert(index, chord), ..self }
    }

    /// The bar with slot `index` empty.
    pub open spec fn without_chord(self, index: int) -> BarView {
        BarView { slots: self.slots.remove(index), ..self }
    }

    /// The bar with twice the subdivision, each chord at twice its slot; the
    /// bar itself where the subdivision is 16 or more.
    pub open spec fn doubled(self) -> BarView {
        if self.subdivision >= 16 {
            self
        } else {
            BarView {
                beats: self.beats,
                subdivision: 2 * self.subdivision,
                slots: doubled_slots(self.slots),
            }
        }
    }

    /// Whether the subdivision can be halved: it is not 1, and half of it is
    /// no less than the number of occupied slots.
    pub open spec fn can_reduce(self) -> bool {
        self.subdivision != 1 && self.occupied() <= self.subdivision / 2
    }

    /// The bar with half the subdivision, each chord at half its slot.
    pub open spec fn reduced(self) -> BarView {
        BarView {
            beats: self.beats,
            subdivision: self.subdivision / 2,
            slots: halved_slots(self.slots),
        }
    }
}

/// One bar of a section.
pub struct Bar {
    pub beats: usize,
    pub subdivision: usize,
    /// The chords of the bar, each keyed by the slot it stands in.
    pub chords: BTreeMap<usize, Chord>,
}

impl View for Bar {
    type V = BarView;

    open spec fn view(&self) -> BarView {
        BarView {
            beats: self.beats as int,
            subdivision: self.subdivision as int,
            slots: slots_of(self.chords@),
        }
    }
}

/// Putting a chord into a chord map puts it into the map's slots.
proof fn lemma_slots_insert(m: Map<usize, Chord>, k: usize, c: Chord)
    ensures
        slots_of(m.insert(k, c)) == slots_of(m).insert(k as int, c),
{
    assert(slots_of(m.insert(k, c)) =~= slots_of(m).insert(k as int, c));
}

/// Taking a key out of a chord map empties its slot.
proof fn lemma_slots_remove(m: Map<usize, Chord>, k: usize)
    ensures
        slots_of(m.remove(k)) == slots_of(m).remove(k as int),
{
    assert(slots_of(m.remove(k)) =~= slots_of(m).remove(k as int));
}

/// A finite chord map has as many slots as it has keys.
proof fn lemma_slots_len(m: Map<usize, Chord>)
    requires
        m.dom().finite(),
    ensures
        slots_of(m).dom().finite(),
        slots_of(m).dom().len() == m.dom().len(),
{
    let f = |k: usize| k as int;
    assert(injective_on(f, m.dom()));
    assert(m.dom().map(f) =~= slots_of(m).dom()) by {
        assert forall|j: int| slots_of(m).dom().contains(j) implies m.dom().map(f).contains(
            j,
        ) by {
            assert(m.dom().contains(j as usize) && f(j as usize) == j);
        }
    }
    lemma_map_size(m.dom(), slots_of(m).dom(), f);
}

/// `BTreeMap::get_mut` on a chord map: a mutable reference to the chord under
/// `key` where the map holds one, through which that chord and nothing else
/// of the map can be changed; `None`, and the map as it was, where it holds
/// none.
#[verifier::external_body]
fn chord_slot_mut(chords: &mut BTreeMap<usize, Chord>, key: usize) -> (r: Option<&mut Chord>)
    ensures
        match r {
            Some(c) => {
                &&& old(chords)@.contains_key(key)
                &&& *c == old(chords)@[key]
                &&& final(chords)@ == old(chords)@.insert(key, *final(c))
            },
            None => !old(chords)@.contains_key(key) && final(chords)@ == old(chords)@,
        },
{
    chords.get_mut(&key)
}

impl Default for Bar {
    /// A bar of four beats in four slots, without chords.
    fn default() -> (bar: Bar)
        ensures
            bar@ == BarView::empty(4, 4),
    {
        let bar = Bar { beats: 4, subdivision: 4, chords: BTreeMap::new() };
        assert(bar@.slots =~= Map::<int, Chord>::empty());
        bar
    }
}

impl Bar {
    /// The bar's invariant, which is that of its view.
    pub open spec fn wf(&self) -> bool {
        self@.wf()
    }

    /// A bar of the given beats and subdivision, without chords.
    pub fn new(beats: usize, subdivision: usize) -> (bar: Bar)
        ensures
            bar@ == BarView::empty(beats as int, subdivision as int),
    {
        let bar = Bar { beats, subdivision, chords: BTreeMap::new() };
        assert(bar@.slots =~= Map::<int, Chord>::empty());
        bar
    }

    /// The chord in slot `subdivision`, if the slot holds one.
    pub fn get_chord(&self, subdivision: usize) -> (r: Option<&Chord>)
        ensures
            r == (if self@.slots.contains_key(subdivision as int) {
                Some(&self@.slots[subdivision as int])
            } else {
                None
            }),
    {
        self.chords.get(&subdivision)
    }

    /// The chord in slot `subdivision`, to be changed in place, if the slot
    /// holds one. Nothing else of the bar changes.
    pub fn get_chord_mut(&mut self, subdivision: usize) -> (r: Option<&mut Chord>)
        ensures
            match r {
                Some(c) => {
                    &&& old(self)@.slots.contains_key(subdivision as int)
                    &&& *c == old(self)@.slots[subdivision as int]
                    &&& final(self)@ == old(self)@.with_chord(subdivision as int, *final(c))
                },
                None => {
                    &&& !old(self)@.slots.contains_key(subdivision as int)
                    &&& final(self)@ == old(self)@
                },
            },
    {
        let r = chord_slot_mut(&mut self.chords, subdivision);
        proof {
            let m = old(self).chords@;
            assert forall|c: Chord| #[trigger]
                slots_of(m.insert(subdivision, c)) == slots_of(m).insert(subdivision as int, c) by {
                lemma_slots_insert(m, subdivision, c);
            }
        }
        r
    }

    /// The number of slots that hold a chord.
    pub fn occupied(&self) -> (n: usize)
        ensures
            n == self@.occupied(),
    {
        proof {
            lemma_slots_len(self.chords@);
        }
        self.chords.len()
    }

    /// Whether no slot holds a chord.
    pub fn is_empty(&self) -> (r: bool)
        ensures
            r == (self@.occupied() == 0),
            r == (self@.slots == Map::<int, Chord>::empty()),
    {
        proof {
            lemma_slots_len(self.chords@);
            if self.chords@.dom().len() == 0 {
                assert(self@.slots =~= Map::<int, Chord>::empty());
            }
        }
        self.chords.len() == 0
    }

    /// Puts `chord` into slot `index`, in place of what the slot held.
    pub fn insert_chord(&mut self, index: usize, chord: Chord)
        ensures
            final(self)@ == old(self)@.with_chord(index as int, chord),
    {
        proof {
            lemma_slots_insert(self.chords@, index, chord);
        }
        self.chords.insert(index, chord);
    }

    /// Empties slot `index`, and returns the chord it held.
    pub fn remove_chord(&mut self, index: usize) -> (r: Option<Chord>)
        ensures
            final(self)@ == old(self)@.without_chord(index as int),
            r == (if old(self)@.slots.contains_key(index as int) {
                Some(old(self)@.slots[index as int])
            } else {
                None
            }),
    {
        proof {
            lemma_slots_remove(self.chords@, index);
        }
        self.chords.remove(&index)
    }

    /// Whether the bar keeps its invariant.
    pub fn is_valid(&self) -> (r: bool)
        ensures
            r == self.wf(),
    {
        let n = self.subdivision;
        if self.beats < 1 || !(n == 1 || n == 2 || n == 4 || n == 8 || n == 16) {
            return false;
        }
        let ghost keys = self.chords@.dom();
        let mut count: usize = 0;
        let mut k: usize = 0;
        assert(keys_below(keys, 0) =~= Set::<usize>::empty());
        while k < n
            invariant
                k <= n <= 16,
                keys == self.chords@.dom(),
                keys.finite(),
                keys_below(keys, k).finite(),
                count == keys_below(keys, k).len(),
                count <= k,
            decreases n - k,
        {
            let ghost sofar = keys_below(keys, k);
            if self.chords.contains_key(&k) {
                assert(keys_below(keys, (k + 1) as usize) =~= sofar.insert(k));
                count = count + 1;
            } else {
                assert(keys_below(keys, (k + 1) as usize) =~= sofar);
            }
            k = k + 1;
        }
        proof {
            let low = keys_below(keys, n);
            assert(low.subset_of(keys));
            if count == keys.len() {
                lemma_subset_equality(low, keys);
                assert forall|j: int| self@.slots.contains_key(j) implies 0 <= j
                    < self@.subdivision by {
                    assert(low.contains(j as usize));
                }
            } else {
                if self.wf() {
                    assert forall|j: usize| keys.contains(j) implies low.contains(j) by {
                        assert(self@.slots.contains_key(j as int));
                    }
                    assert(low =~= keys);
                }
            }
        }
        count == self.chords.len()
    }

    /// Halves the subdivision, if that loses no room: not below 1, and not
    /// below the number of occupied slots. Each chord moves to half its slot;
    /// of two chords that meet in one slot the later one stays.
    ///
    /// Answers whether the bar was changed; a bar that is not changed is left
    /// as it was.
    pub fn try_reduce_subdivision(&mut self) -> (ok: bool)
        requires
            old(self).wf(),
        ensures
            ok == old(self)@.can_reduce(),
            ok ==> final(self)@ == old(self)@.reduced(),
            !ok ==> final(self)@ == old(self)@,
            ok ==> old(self)@.occupied() <= final(self)@.subdivision,
            final(self)@.occupied() <= final(self)@.subdivision,
            final(self).wf(),
    {
        proof {
            lemma_slots_len(self.chords@);
            lemma_occupied_bound(self@);
        }
        if self.subdivision == 1 {
            return false;
        }
        let half = self.subdivision / 2;
        if self.chords.len() > half {
            return false;
        }
        let n = self.subdivision;
        let ghost src = self@.slots;
        let mut moved: BTreeMap<usize, Chord> = BTreeMap::new();
        let mut k: usize = 0;
        assert(slots_of(moved@) =~= Map::<int, Chord>::empty());
        while k < n
            invariant
                k <= n <= 16,
                n == self.subdivision,
                src == slots_of(self.chords@),
                forall|j: int|
                    slots_of(moved@).contains_key(j) <==> ((2 * j < k && src.contains_key(2 * j))
                        || (2 * j + 1 < k && src.contains_key(2 * j + 1))),
                forall|j: int|
                    slots_of(moved@).contains_key(j) ==> slots_of(moved@)[j] == (if 2 * j + 1 < k
                        && src.contains_key(2 * j + 1) {
                        src[2 * j + 1]
                    } else {
                        src[2 * j]
                    }),
            decreases n - k,
        {
            match self.chords.get(&k) {
                Some(c) => {
                    let to: usize = k / 2;
                    proof {
                        lemma_slots_insert(moved@, to, *c);
                    }
                    moved.insert(to, *c);
                },
                None => {},
            }
            k = k + 1;
        }
        self.subdivision = half;
        self.chords = moved;
        proof {
            assert(self@.slots =~= halved_slots(src));
            lemma_reduced_holds_chords(old(self)@);
        }
        true
    }

    /// Doubles the subdivision, each chord moving to twice its slot; does
    /// nothing to a bar whose subdivision is 16 already.
    pub fn double_subdivision(&mut self)
        requires
            old(self).wf(),
        ensures
            final(self)@ == old(self)@.doubled(),
            final(self).wf(),
    {
        if self.subdivision >= 16 {
            return;
        }
        let n = self.subdivision;
        let ghost src = self@.slots;
        let mut moved: BTreeMap<usize, Chord> = BTreeMap::new();
        let mut k: usize = 0;
        assert(slots_of(moved@) =~= Map::<int, Chord>::empty());
        while k < n
            invariant
                k <= n < 16,
                n == self.subdivision,
                src == slots_of(self.chords@),
                forall|j: int|
                    slots_of(moved@).contains_key(j) <==> (j % 2 == 0 && j / 2 < k
                        && src.contains_key(j / 2)),
                forall|j: int| slots_of(moved@).contains_key(j) ==> slots_of(moved@)[j] == src[j / 2],
            decreases n - k,
        {
            match self.chords.get(&k) {
                Some(c) => {
                    let to: usize = 2 * k;
                    proof {
                        lemma_slots_insert(moved@, to, *c);
                    }
                    moved.insert(to, *c);
                },
                None => {},
            }
            k = k + 1;
        }
        self.subdivision = n * 2;
        self.chords = moved;
        proof {
            assert(self@.slots =~= doubled_slots(src));
        }
    }
}

/// A bar that keeps its invariant holds no more chords than it has slots.
pub proof fn lemma_occupied_bound(b: BarView)
    requires
        b.wf(),
    ensures
        b.slots.dom().finite(),
        b.occupied() <= b.subdivision,
{
    lemma_int_range(0, b.subdivision);
    let r = set_int_range(0, b.subdivision);
    assert(b.slots.dom().subset_of(r));
    lemma_len_subset(b.slots.dom(), r);
}

/// Halving never leaves a bar with fewer slots than chords: where the
/// subdivision can be halved, the chords that are left, and even the chords
/// that were there, are no more than the new subdivision.
pub proof fn lemma_reduced_holds_chords(b: BarView)
    requires
        b.slots.dom().finite(),
        b.can_reduce(),
    ensures
        b.reduced().slots.dom().finite(),
        b.reduced().occupied() <= b.occupied() <= b.reduced().subdivision,
{
    let f = |k: int| k / 2;
    let d = b.slots.dom();
    let h = halved_slots(b.slots).dom();
    assert(d.map(f) =~= h) by {
        assert forall|j: int| h.contains(j) implies d.map(f).contains(j) by {
            if b.slots.contains_key(2 * j) {
                assert(d.contains(2 * j) && f(2 * j) == j);
            } else {
                assert(d.contains(2 * j + 1) && f(2 * j + 1) == j);
            }
        }
    }
    lemma_map_size_bound(d, h, f);
}

/// Doubling and then halving gives the bar back: for every bar whose
/// subdivision is below 16 and whose chords are no more than its subdivision,
/// which is half the doubled one, the doubled bar can be halved, and halving
/// it yields the bar itself. A bar that keeps its invariant is such a bar
/// whenever its subdivision is below 16, and doubling keeps the invariant.
pub proof fn lemma_double_then_reduce(b: BarView)
    requires
        b.subdivision < 16,
        b.slots.dom().finite(),
        b.occupied() <= b.subdivision,
    ensures
        b.doubled().can_reduce(),
        b.doubled().reduced() == b,
        b.doubled().occupied() == b.occupied(),
        b.wf() ==> b.doubled().wf(),
{
    let d = b.doubled();
    assert(halved_slots(d.slots) =~= b.slots);
    let f = |k: int| 2 * k;
    assert(injective_on(f, b.slots.dom()));
    assert(b.slots.dom().map(f) =~= d.slots.dom()) by {
        assert forall|j: int| d.slots.dom().contains(j) implies b.slots.dom().map(f).contains(
            j,
        ) by {
            assert(b.slots.dom().contains(j / 2) && f(j / 2) == j);
        }
    }
    lemma_map_size(b.slots.dom(), d.slots.dom(), f);
}

} // verus!
