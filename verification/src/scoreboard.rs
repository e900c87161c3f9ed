//! Per-player scoreboard: identity, display name, palette colour and score,
//! plus the one-shot winner presentation flag.

use vstd::prelude::*;

verus! {

/// One scoreboard row.
pub struct Entry {
    /// Controller id of the player this row belongs to.
    pub id: u64,
    /// Display name, always `Ferris` followed by the decimal id.
    pub name: String,
    /// Palette index, derived deterministically from the controller id.
    pub color_index: u64,
    /// Points collected so far.
    pub score: u64,
}

/// The scoreboard: one row per registered player, and the winner flag,
/// set at most once per session.
pub struct Scoreboard {
    pub entries: Vec<Entry>,
    /// `Some(id)` once a player has been presented as the winner.
    pub winner: Option<u64>,
}

/// No two rows share an id.
pub open spec fn sb_wf(s: Seq<Entry>) -> bool {
    forall|i: int, j: int|
        0 <= i < j < s.len() ==> #[trigger] s[i].id != #[trigger] s[j].id
}

/// Some row carries this id.
pub open spec fn sb_has(s: Seq<Entry>, id: u64) -> bool {
    exists|i: int| 0 <= i < s.len() && #[trigger] s[i].id == id
}

/// The index of the row carrying this id (unique when `sb_wf` holds).
pub open spec fn sb_idx(s: Seq<Entry>, id: u64) -> int {
    choose|i: int| 0 <= i < s.len() && #[trigger] s[i].id == id
}

/// The score recorded for this id.
pub open spec fn sb_score(s: Seq<Entry>, id: u64) -> u64 {
    s[sb_idx(s, id)].score
}

impl Scoreboard {
    /// An empty scoreboard with no winner declared.
    pub fn new() -> (r: Scoreboard)
        ensures
            r.entries@ =~= Seq::<Entry>::empty(),
            r.winner is None,
            sb_wf(r.entries@),
    {
        Scoreboard { entries: Vec::new(), winner: None }
    }

    /// Register a new player under the given display name and colour, with
    /// score 0.
    pub fn add_player(&mut self, id: u64, name: String, color_index: u64)
        requires
            sb_wf(old(self).entries@),
            !sb_has(old(self).entries@, id),
        ensures
            final(self).entries@.len() == old(self).entries@.len() + 1,
            final(self).entries@[old(self).entries@.len() as int].id == id,
            final(self).entries@[old(self).entries@.len() as int].name@ == name@,
            final(self).entries@[old(self).entries@.len() as int].color_index == color_index,
            final(self).entries@[old(self).entries@.len() as int].score == 0,
            forall|i: int|
                0 <= i < old(self).entries@.len() ==> final(self).entries@[i]
                    == old(self).entries@[i],
            final(self).winner == old(self).winner,
            sb_wf(final(self).entries@),
            sb_has(final(self).entries@, id),
    {
        self.entries.push(Entry { id, name, color_index, score: 0 });
        proof {
            assert(self.entries@[old(self).entries@.len() as int].id == id);
            assert(sb_wf(self.entries@)) by {
                assert(forall|i: int|
                    0 <= i < old(self).entries@.len() ==> #[trigger] self.entries@[i].id
                        == old(self).entries@[i].id);
            }
        }
    }

    /// Whether a row for `id` exists.
    pub fn has_player(&self, id: u64) -> (r: bool)
        ensures
            r == sb_has(self.entries@, id),
    {
        let mut k: usize = 0;
        while k < self.entries.len()
            invariant
                k <= self.entries@.len(),
                forall|i: int| 0 <= i < k ==> #[trigger] self.entries@[i].id != id,
            decreases self.entries@.len() - k,
        {
            if self.entries[k].id == id {
                return true;
            }
            k = k + 1;
        }
        false
    }

    /// Add `amount` points to the row for `id`; every other row is untouched.
    pub fn increment(&mut self, id: u64, amount: u64)
        requires
            sb_wf(old(self).entries@),
            sb_has(old(self).entries@, id),
            sb_score(old(self).entries@, id) + amount <= u64::MAX,
        ensures
            final(self).entries@.len() == old(self).entries@.len(),
            forall|i: int|
                0 <= i < old(self).entries@.len() ==> {
                    let e = old(self).entries@[i];
                    let f = #[trigger] final(self).entries@[i];
                    f.id == e.id && f.name == e.name && f.color_index == e.color_index
                        && f.score == if e.id == id {
                        (e.score + amount) as u64
                    } else {
                        e.score
                    }
                },
            final(self).winner == old(self).winner,
            sb_wf(final(self).entries@),
            sb_score(final(self).entries@, id) == sb_score(old(self).entries@, id) + amount,
    {
        let ghost s0 = old(self).entries@;
        let mut k: usize = 0;
        while k < self.entries.len()
            invariant
                s0 == old(self).entries@,
                sb_wf(s0),
                sb_has(s0, id),
                sb_score(s0, id) + amount <= u64::MAX,
                self.entries@ == s0,
                self.winner == old(self).winner,
                k <= s0.len(),
                forall|i: int| 0 <= i < k ==> #[trigger] s0[i].id != id,
            decreases s0.len() - k,
        {
            if self.entries[k].id == id {
                proof {
                    let w = sb_idx(s0, id);
                    assert(0 <= w < s0.len() && s0[w].id == id);
                    assert(w == k);
                }
                let new_score = self.entries[k].score + amount;
                self.entries[k].score = new_score;
                proof {
                    assert(self.entries@.len() == s0.len());
                    assert(forall|i: int| 0 <= i < s0.len() && i != k ==> self.entries@[i] == s0[i]);
                    assert(self.entries@[k as int].id == id);
                    assert(self.entries@[k as int].score == new_score);
                    assert(forall|i: int|
                        0 <= i < s0.len() ==> #[trigger] self.entries@[i].id == s0[i].id);
                    assert(sb_wf(self.entries@));
                    assert(sb_has(self.entries@, id));
                    let w2 = sb_idx(self.entries@, id);
                    assert(0 <= w2 < self.entries@.len() && self.entries@[w2].id == id);
                    assert(w2 == k);
                }
                return ;
            }
            k = k + 1;
        }
        proof {
            let w = sb_idx(s0, id);
            assert(0 <= w < s0.len() && s0[w].id == id);
            assert(false);
        }
        unreached::<()>()
    }

    /// Read the score recorded for `id`.
    pub fn get_score(&self, id: u64) -> (r: u64)
        requires
            sb_wf(self.entries@),
            sb_has(self.entries@, id),
        ensures
            r == sb_score(self.entries@, id),
    {
        let mut k: usize = 0;
        while k < self.entries.len()
            invariant
                sb_wf(self.entries@),
                sb_has(self.entries@, id),
                k <= self.entries@.len(),
                forall|i: int| 0 <= i < k ==> #[trigger] self.entries@[i].id != id,
            decreases self.entries@.len() - k,
        {
            if self.entries[k].id == id {
                proof {
                    let w = sb_idx(self.entries@, id);
                    assert(0 <= w < self.entries@.len() && self.entries@[w].id == id);
                    assert(w == k);
                }
                return self.entries[k].score;
            }
            k = k + 1;
        }
        proof {
            let w = sb_idx(self.entries@, id);
            assert(0 <= w < self.entries@.len() && self.entries@[w].id == id);
            assert(false);
        }
        unreached::<u64>()
    }

    /// Declare `id` the winner, unless a winner was already presented:
    /// the presentation is one-shot for the whole session. Returns whether
    /// the winner was newly declared.
    pub fn show_winner_screen(&mut self, id: u64) -> (newly: bool)
        ensures
            newly == (old(self).winner is None),
            final(self).winner == if old(self).winner is None {
                Some(id)
            } else {
                old(self).winner
            },
            final(self).entries@ == old(self).entries@,
    {
        match self.winner {
            None => {
                self.winner = Some(id);
                true
            },
            Some(_) => false,
        }
    }
}

} // verus!
