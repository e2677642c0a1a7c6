//! A fixed-capacity ring of the most recent samples.
use vstd::prelude::*;

verus! {

/// Number of samples the history holds.
pub const HISTORY_SIZE: usize = 2048;

/// What a history holds: its slots and the slot written last.
pub struct HistoryView {
    pub samples: Seq<i16>,
    pub cursor: int,
}

impl HistoryView {
    pub open spec fn wf(self) -> bool {
        self.samples.len() == HISTORY_SIZE && 0 <= self.cursor < HISTORY_SIZE
    }

    /// The sample `back` positions behind the cursor.
    pub open spec fn at(self, back: int) -> int {
        self.samples[(HISTORY_SIZE + self.cursor - back) % (HISTORY_SIZE as int)] as int
    }

    /// The history after `s` overwrites the slot after the cursor.
    pub open spec fn push(self, s: i16) -> HistoryView {
        let c = (self.cursor + 1) % (HISTORY_SIZE as int);
        HistoryView { samples: self.samples.update(c, s), cursor: c }
    }

    /// The history after pushing each of `ss` in order.
    pub open spec fn push_all(self, ss: Seq<i16>) -> HistoryView
        decreases ss.len(),
    {
        if ss.len() == 0 {
            self
        } else {
            self.push_all(ss.drop_last()).push(ss.last())
        }
    }
}

pub struct History {
    samples: Vec<i16>,
    cursor: usize,
}

impl View for History {
    type V = HistoryView;

    closed spec fn view(&self) -> HistoryView {
        HistoryView { samples: self.samples@, cursor: self.cursor as int }
    }
}

/// Pushing a sample makes it the newest and moves every other one a
/// place further back; the oldest one is dropped.
pub proof fn lemma_push_shifts(h: HistoryView, s: i16)
    requires
        h.wf(),
    ensures
        h.push(s).wf(),
        h.push(s).at(0) == s as int,
        forall|k: int| 0 <= k < HISTORY_SIZE - 1 ==> #[trigger] h.push(s).at(k + 1) == h.at(k),
{
    let n = HISTORY_SIZE as int;
    let c = (h.cursor + 1) % n;
    assert forall|k: int| 0 <= k < HISTORY_SIZE - 1 implies #[trigger] h.push(s).at(k + 1) == h.at(k) by {
        let i = (n + c - (k + 1)) % n;
        let j = (n + h.cursor - k) % n;
        if h.cursor + 1 < n {
            assert(c == h.cursor + 1);
        } else {
            assert(c == 0);
        }
        assert(i == j);
        assert(i != c);
    }
}

/// After pushing `ss`, the sample `k` places behind the cursor is the
/// `k`-th newest of `ss`, for as many of them as the history holds.
pub proof fn lemma_push_all_recent(h: HistoryView, ss: Seq<i16>)
    requires
        h.wf(),
    ensures
        h.push_all(ss).wf(),
        forall|k: int|
            0 <= k < ss.len() && k < HISTORY_SIZE ==> #[trigger] h.push_all(ss).at(k)
                == ss[ss.len() - 1 - k] as int,
    decreases ss.len(),
{
    if ss.len() > 0 {
        let p = ss.drop_last();
        lemma_push_all_recent(h, p);
        lemma_push_shifts(h.push_all(p), ss.last());
        assert forall|k: int| 0 <= k < ss.len() && k < HISTORY_SIZE implies #[trigger] h.push_all(
            ss,
        ).at(k) == ss[ss.len() - 1 - k] as int by {
            if k > 0 {
                assert(h.push_all(ss).at((k - 1) + 1) == h.push_all(p).at(k - 1));
                assert(p[p.len() - 1 - (k - 1)] == ss[ss.len() - 1 - k]);
            }
        }
    }
}

impl History {
    pub open spec fn wf(&self) -> bool {
        self@.wf()
    }

    /// A history of silence, with the cursor at the first slot.
    pub fn new() -> (r: History)
        ensures
            r.wf(),
            r@.cursor == 0,
            forall|k: int| 0 <= k < HISTORY_SIZE ==> #[trigger] r@.samples[k] == 0,
    {
        let mut samples: Vec<i16> = Vec::new();
        while samples.len() < HISTORY_SIZE
            invariant
                samples@.len() <= HISTORY_SIZE,
                forall|k: int| 0 <= k < samples@.len() ==> #[trigger] samples@[k] == 0,
            decreases HISTORY_SIZE - samples@.len(),
        {
            samples.push(0);
        }
        History { samples, cursor: 0 }
    }

    /// Writes `s` into the slot after the cursor and moves the cursor there.
    pub fn push(&mut self, s: i16)
        requires
            old(self).wf(),
        ensures
            final(self).wf(),
            final(self)@ == old(self)@.push(s),
    {
        let c = (self.cursor + 1) % HISTORY_SIZE;
        self.samples.set(c, s);
        self.cursor = c;
    }

    /// The sample `back` positions behind the cursor.
    pub fn at(&self, back: usize) -> (r: i16)
        requires
            self.wf(),
            back < HISTORY_SIZE,
        ensures
            r as int == self@.at(back as int),
    {
        self.samples[(HISTORY_SIZE + self.cursor - back) % HISTORY_SIZE]
    }
}

} // verus!
