//! The menu model: an ordered list of entries and a cursor that is always on
//! a selectable (non-separator) entry.

use vstd::prelude::*;

verus! {

/// An entry is a separator exactly when its label is empty.
pub open spec fn is_sep(label: Seq<char>) -> bool {
    label.len() == 0
}

/// The index `k` steps before `c` in a list of length `len`, wrapping at 0.
/// For `0 <= c < len` and `0 <= k <= len` this is `(c - k) mod len`.
pub open spec fn back_idx(c: int, k: int, len: int) -> int {
    if c - k >= 0 {
        c - k
    } else {
        c - k + len
    }
}

/// The index `k` steps after `c` in a list of length `len`, wrapping at the
/// end. For `0 <= c < len` and `0 <= k <= len` this is `(c + k) mod len`.
pub open spec fn fwd_idx(c: int, k: int, len: int) -> int {
    if c + k < len {
        c + k
    } else {
        c + k - len
    }
}

/// Every entry strictly between `c` and the point `k` steps back (walking
/// backward with wrap-around) is a separator.
pub open spec fn sep_run_back(labels: Seq<Seq<char>>, c: int, k: int) -> bool {
    forall|j: int| 1 <= j < k ==> is_sep(#[trigger] labels[back_idx(c, j, labels.len() as int)])
}

/// Every entry strictly between `c` and the point `k` steps forward (walking
/// forward with wrap-around) is a separator.
pub open spec fn sep_run_fwd(labels: Seq<Seq<char>>, c: int, k: int) -> bool {
    forall|j: int| 1 <= j < k ==> is_sep(#[trigger] labels[fwd_idx(c, j, labels.len() as int)])
}

/// `r` is the nearest selectable entry strictly before `c` (wrapping), reached
/// after exactly `k` backward steps: it is selectable, and every entry skipped
/// on the way is a separator.
pub open spec fn up_step(labels: Seq<Seq<char>>, c: int, r: int, k: int) -> bool {
    &&& 1 <= k <= labels.len()
    &&& r == back_idx(c, k, labels.len() as int)
    &&& !is_sep(labels[r])
    &&& sep_run_back(labels, c, k)
}

/// `r` is the nearest selectable entry strictly after `c` (wrapping), reached
/// after exactly `k` forward steps: it is selectable, and every entry skipped
/// on the way is a separator.
pub open spec fn down_step(labels: Seq<Seq<char>>, c: int, r: int, k: int) -> bool {
    &&& 1 <= k <= labels.len()
    &&& r == fwd_idx(c, k, labels.len() as int)
    &&& !is_sep(labels[r])
    &&& sep_run_fwd(labels, c, k)
}

/// The list holds at least one selectable entry: the precondition under
/// which a move is guaranteed to terminate.
pub open spec fn has_selectable(labels: Seq<Seq<char>>) -> bool {
    exists|i: int| 0 <= i < labels.len() && !is_sep(#[trigger] labels[i])
}

/// The list holds at least two selectable entries.
pub open spec fn at_least_two_selectable(labels: Seq<Seq<char>>) -> bool {
    exists|i: int, j: int|
        0 <= i < j < labels.len() && !is_sep(labels[i]) && !is_sep(labels[j])
}

/// Every selectable entry of the list lies a whole number of backward steps
/// from `c`, at most the list's length.
proof fn lemma_selectable_within_back_steps(labels: Seq<Seq<char>>, c: int, i: int)
    requires
        0 <= c < labels.len(),
        0 <= i < labels.len(),
    ensures
        exists|k0: int|
            1 <= k0 <= labels.len() && #[trigger] back_idx(c, k0, labels.len() as int) == i,
{
    let len = labels.len() as int;
    if i == c {
        assert(back_idx(c, len, len) == i);
    } else if i < c {
        assert(back_idx(c, c - i, len) == i);
    } else {
        assert(back_idx(c, c + len - i, len) == i);
    }
}

/// Every selectable entry of the list lies a whole number of forward steps
/// from `c`, at most the list's length.
proof fn lemma_selectable_within_fwd_steps(labels: Seq<Seq<char>>, c: int, i: int)
    requires
        0 <= c < labels.len(),
        0 <= i < labels.len(),
    ensures
        exists|k0: int|
            1 <= k0 <= labels.len() && #[trigger] fwd_idx(c, k0, labels.len() as int) == i,
{
    let len = labels.len() as int;
    if i == c {
        assert(fwd_idx(c, len, len) == i);
    } else if i > c {
        assert(fwd_idx(c, i - c, len) == i);
    } else {
        assert(fwd_idx(c, i + len - c, len) == i);
    }
}

/// The backward move target is unique: its description pins one index and one
/// step count.
pub proof fn lemma_up_step_unique(labels: Seq<Seq<char>>, c: int, r1: int, k1: int, r2: int, k2: int)
    requires
        up_step(labels, c, r1, k1),
        up_step(labels, c, r2, k2),
    ensures
        r1 == r2,
        k1 == k2,
{
    let len = labels.len() as int;
    if k1 < k2 {
        assert(is_sep(labels[back_idx(c, k1, len)]));
    } else if k2 < k1 {
        assert(is_sep(labels[back_idx(c, k2, len)]));
    }
}

/// The forward move target is unique: its description pins one index and one
/// step count.
pub proof fn lemma_down_step_unique(
    labels: Seq<Seq<char>>,
    c: int,
    r1: int,
    k1: int,
    r2: int,
    k2: int,
)
    requires
        down_step(labels, c, r1, k1),
        down_step(labels, c, r2, k2),
    ensures
        r1 == r2,
        k1 == k2,
{
    let len = labels.len() as int;
    if k1 < k2 {
        assert(is_sep(labels[fwd_idx(c, k1, len)]));
    } else if k2 < k1 {
        assert(is_sep(labels[fwd_idx(c, k2, len)]));
    }
}

/// Wherever a move lands — in particular moving up from index 0 or moving
/// down from the last index — the landing index is in range and never a
/// separator.
pub proof fn lemma_move_lands_on_selectable(labels: Seq<Seq<char>>, c: int, r: int, k: int)
    requires
        0 <= c < labels.len(),
        up_step(labels, c, r, k) || down_step(labels, c, r, k),
    ensures
        0 <= r < labels.len(),
        !is_sep(labels[r]),
{
}

/// On a list with at least two selectable entries, moving up and then moving
/// down from the same starting cursor returns to that cursor.
pub proof fn lemma_up_then_down_round_trip(
    labels: Seq<Seq<char>>,
    c: int,
    r: int,
    k: int,
    c2: int,
    k2: int,
)
    requires
        0 <= c < labels.len(),
        !is_sep(labels[c]),
        at_least_two_selectable(labels),
        up_step(labels, c, r, k),
        down_step(labels, r, c2, k2),
    ensures
        c2 == c,
{
    let len = labels.len() as int;
    assert(fwd_idx(r, k, len) == c);
    assert forall|j: int| 1 <= j < k implies is_sep(#[trigger] labels[fwd_idx(r, j, len)]) by {
        assert(fwd_idx(r, j, len) == back_idx(c, k - j, len));
        assert(is_sep(labels[back_idx(c, k - j, len)]));
    }
    assert(down_step(labels, r, c, k));
    lemma_down_step_unique(labels, r, c2, k2, c, k);
}

/// On a list with at least two selectable entries, moving down and then
/// moving up from the same starting cursor returns to that cursor.
pub proof fn lemma_down_then_up_round_trip(
    labels: Seq<Seq<char>>,
    c: int,
    r: int,
    k: int,
    c2: int,
    k2: int,
)
    requires
        0 <= c < labels.len(),
        !is_sep(labels[c]),
        at_least_two_selectable(labels),
        down_step(labels, c, r, k),
        up_step(labels, r, c2, k2),
    ensures
        c2 == c,
{
    let len = labels.len() as int;
    assert(back_idx(r, k, len) == c);
    assert forall|j: int| 1 <= j < k implies is_sep(#[trigger] labels[back_idx(r, j, len)]) by {
        assert(back_idx(r, j, len) == fwd_idx(c, k - j, len));
        assert(is_sep(labels[fwd_idx(c, k - j, len)]));
    }
    assert(up_step(labels, r, c, k));
    lemma_up_step_unique(labels, r, c2, k2, c, k);
}

/// The menu state: the fixed entry list and the cursor index.
pub struct MenuState {
    pub entries: Vec<String>,
    pub cursor: usize,
}

/// True when `label` is the empty string, i.e. the entry is a separator.
pub fn is_sep_entry(label: &String) -> (r: bool)
    ensures
        r == is_sep(label@),
{
    label.as_str().is_empty()
}

impl MenuState {
    /// The entry labels as a sequence of character sequences.
    pub open spec fn labels(self) -> Seq<Seq<char>> {
        self.entries@.map(|i: int, s: String| s@)
    }

    /// Well-formedness: the cursor is in range and rests on a selectable entry.
    pub open spec fn wf(self) -> bool {
        &&& self.cursor < self.entries.len()
        &&& !is_sep(self.labels()[self.cursor as int])
    }

    /// Builds the menu with the cursor on the first entry, which must be
    /// selectable.
    pub fn new(entries: Vec<String>) -> (s: MenuState)
        requires
            entries.len() > 0,
            !is_sep(entries@[0]@),
        ensures
            s.wf(),
            s.entries@ == entries@,
            s.cursor == 0,
    {
        let s = MenuState { entries, cursor: 0 };
        proof {
            assert(s.labels()[0] == s.entries@[0]@);
        }
        s
    }

    /// The label under the cursor: the choice that a commit fixes.
    pub fn committed_label(&self) -> (label: &String)
        requires
            self.wf(),
        ensures
            label@ == self.labels()[self.cursor as int],
            !is_sep(label@),
    {
        proof {
            assert(self.labels()[self.cursor as int] == self.entries@[self.cursor as int]@);
        }
        &self.entries[self.cursor]
    }

    /// Steps the cursor backward with wrap-around (index 0 wraps to the last
    /// index) until it lands on a selectable entry: the nearest selectable
    /// entry before the cursor. Terminates for any starting cursor because
    /// the list holds at least one selectable entry.
    #[verifier::loop_isolation(false)]
    pub fn move_up(&mut self)
        requires
            old(self).cursor < old(self).entries.len(),
            has_selectable(old(self).labels()),
        ensures
            final(self).entries@ == old(self).entries@,
            final(self).wf(),
            exists|k: int|
                up_step(
                    old(self).labels(),
                    old(self).cursor as int,
                    final(self).cursor as int,
                    k,
                ),
    {
        let len = self.entries.len();
        let ghost labels = self.labels();
        let ghost c = self.cursor as int;
        let mut idx: usize = if self.cursor == 0 {
            len - 1
        } else {
            self.cursor - 1
        };
        let mut k: usize = 1;
        while is_sep_entry(&self.entries[idx])
            invariant
                1 <= k <= len,
                idx < len,
                idx as int == back_idx(c, k as int, len as int),
                sep_run_back(labels, c, k as int),
            decreases len - k,
        {
            proof {
                assert(labels[idx as int] == self.entries@[idx as int]@);
                let i = choose|i: int| 0 <= i < labels.len() && !is_sep(#[trigger] labels[i]);
                lemma_selectable_within_back_steps(labels, c, i);
                let k0 = choose|k0: int|
                    1 <= k0 <= labels.len() && #[trigger] back_idx(
                        c,
                        k0,
                        labels.len() as int,
                    ) == i;
                if k0 < k as int {
                    assert(is_sep(labels[back_idx(c, k0, labels.len() as int)]));
                }
                assert(k < len);
            }
            k = k + 1;
            idx = if idx == 0 {
                len - 1
            } else {
                idx - 1
            };
        }
        proof {
            assert(labels[idx as int] == self.entries@[idx as int]@);
        }
        self.cursor = idx;
        proof {
            assert(up_step(old(self).labels(), old(self).cursor as int, self.cursor as int, k as int));
        }
    }

    /// Steps the cursor forward with wrap-around (the last index wraps to 0)
    /// until it lands on a selectable entry: the nearest selectable entry
    /// after the cursor. Terminates for any starting cursor because the list
    /// holds at least one selectable entry.
    #[verifier::loop_isolation(false)]
    pub fn move_down(&mut self)
        requires
            old(self).cursor < old(self).entries.len(),
            has_selectable(old(self).labels()),
        ensures
            final(self).entries@ == old(self).entries@,
            final(self).wf(),
            exists|k: int|
                down_step(
                    old(self).labels(),
                    old(self).cursor as int,
                    final(self).cursor as int,
                    k,
                ),
    {
        let len = self.entries.len();
        let ghost labels = self.labels();
        let ghost c = self.cursor as int;
        let mut idx: usize = if self.cursor == len - 1 {
            0
        } else {
            self.cursor + 1
        };
        let mut k: usize = 1;
        while is_sep_entry(&self.entries[idx])
            invariant
                1 <= k <= len,
                idx < len,
                idx as int == fwd_idx(c, k as int, len as int),
                sep_run_fwd(labels, c, k as int),
            decreases len - k,
        {
            proof {
                assert(labels[idx as int] == self.entries@[idx as int]@);
                let i = choose|i: int| 0 <= i < labels.len() && !is_sep(#[trigger] labels[i]);
                lemma_selectable_within_fwd_steps(labels, c, i);
                let k0 = choose|k0: int|
                    1 <= k0 <= labels.len() && #[trigger] fwd_idx(
                        c,
                        k0,
                        labels.len() as int,
                    ) == i;
                if k0 < k as int {
                    assert(is_sep(labels[fwd_idx(c, k0, labels.len() as int)]));
                }
                assert(k < len);
            }
            k = k + 1;
            idx = if idx == len - 1 {
                0
            } else {
                idx + 1
            };
        }
        proof {
            assert(labels[idx as int] == self.entries@[idx as int]@);
        }
        self.cursor = idx;
        proof {
            assert(down_step(old(self).labels(), old(self).cursor as int, self.cursor as int, k as int));
        }
    }

    /// Moves the cursor to `index` if that entry exists and is selectable;
    /// otherwise leaves the state unchanged and reports the miss.
    pub fn select_at(&mut self, index: usize) -> (selected: bool)
        requires
            old(self).wf(),
        ensures
            final(self).entries@ == old(self).entries@,
            final(self).wf(),
            selected == (index < old(self).entries.len() && !is_sep(
                old(self).labels()[index as int],
            )),
            selected ==> final(self).cursor == index,
            !selected ==> *final(self) == *old(self),
    {
        proof {
            if index < self.entries.len() {
                assert(self.labels()[index as int] == self.entries@[index as int]@);
            }
        }
        if index < self.entries.len() && !is_sep_entry(&self.entries[index]) {
            self.cursor = index;
            true
        } else {
            false
        }
    }
}

} // verus!
