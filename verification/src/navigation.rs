//! Moving the cursor over the song. Moving forward past the end of the song
//! makes it grow: a new bar, or a new section.

use vstd::prelude::*;
use crate::state::{State, StateView};

verus! {

impl StateView {
    /// One bar forward within the section; from the section's last bar, and
    /// from one past it, to the last slot of the last bar instead.
    pub open spec fn next_bar(self) -> StateView {
        if self.cursor.bar + 1 >= self.section().bars.len() {
            self.at(
                self.cursor.section,
                self.section().bars.len() - 1,
                self.section().bars.last().subdivision - 1,
            )
        } else {
            self.at(self.cursor.section, self.cursor.bar + 1, self.cursor.subdivision)
        }
    }

    /// To the first slot of the next section, which is appended to the song
    /// where the cursor's section is the last.
    pub open spec fn next_or_create_section(self) -> StateView {
        let moved = self.at(self.cursor.section + 1, 0, 0);
        if self.cursor.section + 1 < self.song.sections.len() {
            moved
        } else {
            StateView { song: self.song.with_new_section(), ..moved }
        }
    }

    /// To the first slot of the next bar. From the last bar of a section, and
    /// from one past it, that is the first bar of the next section; in the
    /// last section it is a bar that is appended to the section, and the
    /// screen is then to be cleared.
    pub open spec fn next_or_create_bar(self) -> StateView {
        let last_bar = self.cursor.bar + 1 >= self.section().bars.len();
        let last_section = self.song.sections.len() == self.cursor.section + 1;
        if last_bar && last_section {
            StateView {
                song: self.song.with_section(self.cursor.section, self.section().with_new_bar()),
                should_clear: true,
                ..self.at(self.cursor.section, self.section().bars.len() as int, 0)
            }
        } else if last_bar {
            self.next_or_create_section()
        } else {
            self.at(self.cursor.section, self.cursor.bar + 1, 0)
        }
    }

    /// One slot forward within the bar; from the last slot of a bar, and from
    /// one past the last bar, where there is no slot, on to the next bar as
    /// [`Self::next_or_create_bar`] goes.
    pub open spec fn next_subdivision(self) -> StateView {
        if self.on_bar() && self.cursor.subdivision + 1 != self.bar().subdivision {
            self.at(self.cursor.section, self.cursor.bar, self.cursor.subdivision + 1)
        } else {
            self.next_or_create_bar()
        }
    }

    /// One section back, with the bar index set to the number of bars of that
    /// section, which is one past its last bar; nothing from the first
    /// section.
    pub open spec fn prev_section(self) -> StateView {
        if self.cursor.section > 0 {
            self.at(
                self.cursor.section - 1,
                self.song.sections[self.cursor.section - 1].bars.len() as int,
                self.cursor.subdivision,
            )
        } else {
            self
        }
    }

    /// One bar back. Within the first bar of a section, to its first slot;
    /// from that slot, one section back as [`Self::prev_section`] goes, which
    /// leaves the bar index one past the last bar of that section; otherwise
    /// to the bar before, in the slot of the same number.
    pub open spec fn prev_bar(self) -> StateView {
        if self.cursor.bar == 0 && self.cursor.subdivision > 0 {
            self.at(self.cursor.section, 0, 0)
        } else if self.cursor.bar == 0 {
            self.prev_section()
        } else {
            self.at(self.cursor.section, self.cursor.bar - 1, self.cursor.subdivision)
        }
    }

    /// One slot back within the bar; from the first slot, to where
    /// [`Self::prev_bar`] goes, and to the last slot of the bar there. One
    /// past the last bar of a section there is no bar, and the slot number
    /// stays as it is.
    pub open spec fn prev_subdivision(self) -> StateView {
        if self.cursor.subdivision == 0 {
            let s = self.prev_bar();
            if s.on_bar() {
                s.at(s.cursor.section, s.cursor.bar, s.bar().subdivision - 1)
            } else {
                s
            }
        } else {
            self.at(self.cursor.section, self.cursor.bar, self.cursor.subdivision - 1)
        }
    }

    /// `n` times one bar forward.
    pub open spec fn next_bar_times(self, n: nat) -> StateView
        decreases n,
    {
        if n == 0 {
            self
        } else {
            self.next_bar().next_bar_times((n - 1) as nat)
        }
    }

    /// `n` times one bar back.
    pub open spec fn prev_bar_times(self, n: nat) -> StateView
        decreases n,
    {
        if n == 0 {
            self
        } else {
            self.prev_bar().prev_bar_times((n - 1) as nat)
        }
    }

    /// `n` times one slot forward.
    pub open spec fn next_subdivision_times(self, n: nat) -> StateView
        decreases n,
    {
        if n == 0 {
            self
        } else {
            self.next_subdivision().next_subdivision_times((n - 1) as nat)
        }
    }

    /// One row down: as many bars forward as the section has bars to a row.
    pub open spec fn row_down(self) -> StateView {
        self.next_bar_times(self.section().wrap as nat)
    }

    /// One row up: as many bars back as the section has bars to a row.
    pub open spec fn row_up(self) -> StateView {
        self.prev_bar_times(self.section().wrap as nat)
    }
}

impl State {
    /// One bar forward within the section; from the section's last bar, and
    /// from one past it, to the last slot of the last bar instead.
    pub fn next_bar(&mut self)
        requires
            old(self).wf(),
            old(self)@.on_bar_or_end(),
        ensures
            final(self)@ == old(self)@.next_bar(),
            final(self).wf(),
            final(self)@.on_bar(),
    {
        let section = self.current_section();
        let n = section.bars.len();
        proof {
            assert(section@.wf());
        }
        if self.cursor.bar >= n - 1 {
            let end = section.bars[n - 1].subdivision - 1;
            self.cursor.bar = n - 1;
            self.cursor.subdivision = end;
            return;
        }
        self.cursor.bar = self.cursor.bar + 1;
    }

    /// To the first slot of the next section, which is appended to the song
    /// where the cursor's section is the last.
    pub fn next_or_create_section(&mut self)
        requires
            old(self).wf(),
            old(self)@.in_section(),
        ensures
            final(self)@ == old(self)@.next_or_create_section(),
            final(self).wf(),
            final(self)@.on_slot(),
    {
        assert(self@.song.sections.len() == self.song.sections.len());
        if self.cursor.section + 1 < self.song.sections.len() {
            self.cursor.section = self.cursor.section + 1;
            self.cursor.bar = 0;
            self.cursor.subdivision = 0;
            return;
        }
        self.song.append_section();
        self.cursor.section = self.cursor.section + 1;
        self.cursor.bar = 0;
        self.cursor.subdivision = 0;
    }

    /// To the first slot of the next bar, which is appended to the song where
    /// the cursor is on the last bar of the last section, or one past it.
    pub fn next_or_create_bar(&mut self)
        requires
            old(self).wf(),
            old(self)@.on_bar_or_end(),
        ensures
            final(self)@ == old(self)@.next_or_create_bar(),
            final(self).wf(),
            final(self)@.on_slot(),
    {
        let cursor = self.cursor;
        let bars = self.current_section().bars.len();
        proof {
            assert(self@.section().wf());
        }
        if cursor.bar >= bars - 1 && self.song.sections.len() == cursor.section + 1 {
            self.current_section_mut().append_bar();
            self.cursor.bar = bars;
            self.cursor.subdivision = 0;
            self.schedule_clear();
        } else if cursor.bar >= bars - 1 {
            self.next_or_create_section();
        } else {
            self.cursor.bar = self.cursor.bar + 1;
            self.cursor.subdivision = 0;
        }
    }

    /// One slot forward; from the last slot of a bar, and from one past the
    /// last bar, on to the next bar.
    pub fn next_subdivision(&mut self)
        requires
            old(self).wf(),
            old(self)@.on_bar_or_end(),
            old(self).cursor.subdivision < usize::MAX,
        ensures
            final(self)@ == old(self)@.next_subdivision(),
            final(self).wf(),
            final(self)@.on_bar(),
            old(self)@.on_slot() || !old(self)@.on_bar() ==> final(self)@.on_slot(),
    {
        let current_bar = self.cursor.bar;
        let current_sub = self.cursor.subdivision;
        let section = self.current_section();
        if current_bar < section.bars.len() && current_sub + 1
            != section.bars[current_bar].subdivision {
            self.cursor.subdivision = self.cursor.subdivision + 1;
        } else {
            self.next_or_create_bar();
        }
    }

    /// One section back, with the bar index set to the number of bars of that
    /// section, which is one past its last bar; nothing from the first
    /// section.
    pub fn prev_section(&mut self)
        requires
            old(self)@.in_section(),
        ensures
            final(self)@ == old(self)@.prev_section(),
            final(self)@.in_section(),
            old(self)@.on_bar_or_end() ==> final(self)@.on_bar_or_end(),
    {
        if self.cursor.section > 0 {
            self.cursor.section = self.cursor.section - 1;
            self.cursor.bar = self.song.sections[self.cursor.section].bars.len();
        }
    }

    /// One bar back. Within the first bar of a section, to its first slot;
    /// from that slot, one section back, which leaves the bar index one past
    /// the last bar of that section; otherwise to the bar before, in the slot
    /// of the same number.
    pub fn prev_bar(&mut self)
        requires
            old(self)@.in_section(),
        ensures
            final(self)@ == old(self)@.prev_bar(),
            final(self)@.in_section(),
            old(self)@.on_bar_or_end() ==> final(self)@.on_bar_or_end(),
            old(self)@.on_bar() && (old(self).cursor.bar > 0 || old(self).cursor.subdivision > 0
                || old(self).cursor.section == 0) ==> final(self)@.on_bar(),
    {
        if self.cursor.bar == 0 && self.cursor.subdivision > 0 {
            self.cursor.subdivision = 0;
        } else if self.cursor.bar == 0 {
            self.prev_section();
        } else {
            self.cursor.bar = self.cursor.bar - 1;
        }
    }

    /// One slot back; from the first slot of a bar, to the last slot of the
    /// bar before. Where that leaves the cursor one past the last bar of the
    /// section before, the slot number stays as it is.
    pub fn prev_subdivision(&mut self)
        requires
            old(self).wf(),
            old(self)@.on_bar_or_end(),
        ensures
            final(self)@ == old(self)@.prev_subdivision(),
            final(self).wf(),
            final(self)@.on_bar_or_end(),
            old(self)@.on_slot() && final(self)@.on_bar() ==> final(self)@.on_slot(),
    {
        if self.cursor.subdivision == 0 {
            self.prev_bar();
            if self.on_bar() {
                let current_bar = self.cursor.bar;
                proof {
                    assert(self@.section().wf());
                    assert(self@.bar().wf());
                }
                self.cursor.subdivision = self.current_section().bars[current_bar].subdivision
                    - 1;
            }
        } else {
            self.cursor.subdivision = self.cursor.subdivision - 1;
        }
    }

    /// One row down: as many bars forward as the section has bars to a row.
    pub fn row_down(&mut self)
        requires
            old(self).wf(),
            old(self)@.on_bar_or_end(),
        ensures
            final(self)@ == old(self)@.row_down(),
            final(self).wf(),
            final(self)@.on_bar(),
    {
        let wrap = self.current_section().wrap;
        proof {
            assert(self@.section().wf());
        }
        let mut i: usize = 0;
        while i < wrap
            invariant
                i <= wrap,
                wrap >= 1,
                self.wf(),
                self@.on_bar_or_end(),
                i > 0 ==> self@.on_bar(),
                self@.next_bar_times((wrap - i) as nat) == old(self)@.next_bar_times(wrap as nat),
            decreases wrap - i,
        {
            self.next_bar();
            i = i + 1;
        }
    }

    /// One row up: as many bars back as the section has bars to a row.
    pub fn row_up(&mut self)
        requires
            old(self).wf(),
            old(self)@.on_bar_or_end(),
        ensures
            final(self)@ == old(self)@.row_up(),
            final(self).wf(),
            final(self)@.on_bar_or_end(),
    {
        let wrap = self.current_section().wrap;
        let mut i: usize = 0;
        while i < wrap
            invariant
                i <= wrap,
                self.wf(),
                self@.on_bar_or_end(),
                self@.prev_bar_times((wrap - i) as nat) == old(self)@.prev_bar_times(wrap as nat),
            decreases wrap - i,
        {
            self.prev_bar();
            i = i + 1;
        }
    }
}

/// Moving never takes the cursor off its section: from a cursor on a bar, or
/// one past the last bar, of a song that keeps its invariant, every move
/// leaves the cursor on a bar or one past the last bar of its section, and
/// the song keeps its invariant. The moves forward leave it on a bar, and
/// the two that may make the song grow leave it on a slot.
pub proof fn lemma_moves_stay(st: StateView)
    requires
        st.song.wf(),
        st.on_bar_or_end(),
    ensures
        st.next_bar().on_bar() && st.next_bar().song == st.song,
        st.next_or_create_section().on_slot() && st.next_or_create_section().song.wf(),
        st.next_or_create_bar().on_slot() && st.next_or_create_bar().song.wf(),
        st.next_subdivision().on_bar() && st.next_subdivision().song.wf(),
        st.prev_section().on_bar_or_end() && st.prev_section().song == st.song,
        st.prev_bar().on_bar_or_end() && st.prev_bar().song == st.song,
        st.prev_subdivision().on_bar_or_end() && st.prev_subdivision().song == st.song,
{
    let s = st.cursor.section;
    let n = st.song.sections.len() as int;
    assert(st.section().wf());
    assert(st.section().bars.last().wf());
    if s + 1 < n {
        assert(st.song.sections[s + 1].wf());
        assert(st.song.sections[s + 1].bars[0].wf());
    } else {
        let grown = st.song.with_new_section();
        let made = st.section().successor();
        assert(made.bars[0].wf());
        assert(made.wf());
        assert forall|i: int| 0 <= i < grown.sections.len() implies (
        #[trigger] grown.sections[i]).wf() by {
            if i < n {
                assert(grown.sections[i] == st.song.sections[i]);
            }
        }
        let longer = st.section().with_new_bar();
        assert(longer.bars.last().wf());
        assert forall|i: int| 0 <= i < longer.bars.len() implies (
        #[trigger] longer.bars[i]).wf() by {
            if i < st.section().bars.len() {
                assert(longer.bars[i] == st.section().bars[i]);
            }
        }
        assert(longer.wf());
        let song = st.song.with_section(s, longer);
        assert forall|i: int| 0 <= i < song.sections.len() implies (
        #[trigger] song.sections[i]).wf() by {
            if i != s {
                assert(song.sections[i] == st.song.sections[i]);
            }
        }
    }
    if st.cursor.bar + 1 < st.section().bars.len() {
        assert(st.section().bars[st.cursor.bar + 1].wf());
    }
    if s > 0 {
        assert(st.song.sections[s - 1].wf());
    }
    if st.cursor.bar >= 1 {
        assert(st.section().bars[st.cursor.bar - 1].wf());
    }
}

/// Going one slot forward is always possible and never leaves the song: from
/// a cursor on a slot of a song that keeps its invariant, the cursor is again
/// on a slot, and the song again keeps its invariant.
pub proof fn lemma_next_subdivision_stays(st: StateView)
    requires
        st.song.wf(),
        st.on_slot(),
    ensures
        st.next_subdivision().song.wf(),
        st.next_subdivision().on_slot(),
{
    let t = st.next_subdivision();
    let s = st.cursor.section;
    if st.cursor.subdivision + 1 == st.bar().subdivision {
        let last_bar = st.section().bars.len() == st.cursor.bar + 1;
        let last_section = st.song.sections.len() == s + 1;
        if last_bar && last_section {
            let grown = st.section().with_new_bar();
            assert(grown.wf()) by {
                assert forall|i: int| 0 <= i < grown.bars.len() implies (#[trigger] grown.bars[i]).wf() by {
                    if i < st.section().bars.len() {
                        assert(grown.bars[i] == st.section().bars[i]);
                    } else {
                        assert(st.section().bars.last().wf());
                    }
                }
            }
            assert(t.song.sections[s] == grown);
            assert forall|i: int| 0 <= i < t.song.sections.len() implies (
            #[trigger] t.song.sections[i]).wf() by {
                if i != s {
                    assert(t.song.sections[i] == st.song.sections[i]);
                }
            }
        } else if last_bar {
            assert(t.song == st.song);
            assert(st.song.sections[s + 1].wf());
            assert(st.song.sections[s + 1].bars[0].wf());
        } else {
            assert(st.section().bars[st.cursor.bar + 1].wf());
        }
    }
}

/// In a song of one section with one bar, going forward slot by slot makes
/// the song grow: from a cursor on slot `k` of a bar of `n` slots, the first
/// `n - k - 1` steps stay in the bar and leave the song as it is, and step
/// `n - k` appends a second bar and puts the cursor on its first slot.
pub proof fn lemma_next_subdivision_grows(st: StateView)
    requires
        st.song.wf(),
        st.on_slot(),
        st.song.sections.len() == 1,
        st.song.sections[0].bars.len() == 1,
    ensures
        forall|m: nat|
            m < st.bar().subdivision - st.cursor.subdivision ==> #[trigger] st.next_subdivision_times(
                m,
            ) == st.at(0, 0, st.cursor.subdivision + m),
        ({
            let end = st.next_subdivision_times(
                (st.bar().subdivision - st.cursor.subdivision) as nat,
            );
            &&& end.song.sections.len() == 1
            &&& end.song.sections[0] == st.song.sections[0].with_new_bar()
            &&& end.song.sections[0].bars.len() == 2
            &&& end.cursor.section == 0 && end.cursor.bar == 1 && end.cursor.subdivision == 0
            &&& end.on_slot()
            &&& end.song.wf()
        }),
    decreases st.bar().subdivision - st.cursor.subdivision,
{
    let n = st.bar().subdivision;
    let k = st.cursor.subdivision;
    let next = st.next_subdivision();
    lemma_next_subdivision_stays(st);
    assert(st.at(0, 0, k) == st);
    if k + 1 == n {
        reveal_with_fuel(StateView::next_subdivision_times, 2);
        assert(next.song.sections =~= seq![st.song.sections[0].with_new_bar()]);
        assert forall|m: nat| m < n - k implies #[trigger] st.next_subdivision_times(m) == st.at(
            0,
            0,
            k + m,
        ) by {
            assert(m == 0);
        }
    } else {
        assert(next == st.at(0, 0, k + 1));
        lemma_next_subdivision_grows(next);
        assert forall|m: nat| m < n - k implies #[trigger] st.next_subdivision_times(m) == st.at(
            0,
            0,
            k + m,
        ) by {
            if m > 0 {
                let m1 = (m - 1) as nat;
                assert(next.next_subdivision_times(m1) == next.at(0, 0, k + 1 + m1));
                assert(next.at(0, 0, k + 1 + m1) == st.at(0, 0, k + m));
            }
        }
        assert(st.next_subdivision_times((n - k) as nat) == next.next_subdivision_times(
            (n - k - 1) as nat,
        ));
    }
}

} // verus!
