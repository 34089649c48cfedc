//! Selecting buttons by clicking: a plain click selects one button, a click with
//! control toggles one, and a click with shift adds the range from the last
//! clicked button.
use vstd::prelude::*;
use vstd::std_specs::hash::group_hash_axioms;
use std::collections::HashSet;

verus! {

broadcast use group_hash_axioms;

pub struct ButtonSelection {
    selected: HashSet<usize>,
    last_clicked: Option<usize>,
}

/// The positions from `a` to `b`, both included, whichever is larger.
pub open spec fn span(a: usize, b: usize) -> Set<usize> {
    Set::new(|i: usize| (a <= i <= b) || (b <= i <= a))
}

/// The selection after a click on `index`.
pub open spec fn after_click(
    selected: Set<usize>,
    last: Option<usize>,
    index: usize,
    shift: bool,
    ctrl: bool,
) -> Set<usize> {
    if shift {
        match last {
            Some(l) => selected.union(span(l, index)),
            None => selected.insert(index),
        }
    } else if ctrl {
        if selected.contains(index) {
            selected.remove(index)
        } else {
            selected.insert(index)
        }
    } else {
        set![index]
    }
}

impl ButtonSelection {
    pub closed spec fn selected(&self) -> Set<usize> {
        self.selected@
    }

    pub closed spec fn last(&self) -> Option<usize> {
        self.last_clicked
    }

    pub fn new() -> (r: ButtonSelection)
        ensures
            r.selected() == Set::<usize>::empty(),
            r.last() is None,
    {
        ButtonSelection { selected: HashSet::new(), last_clicked: None }
    }

    pub fn is_selected(&self, index: usize) -> (r: bool)
        ensures
            r == self.selected().contains(index),
    {
        self.selected.contains(&index)
    }

    /// The selected positions, in increasing order.
    pub fn selected_indices(&self, count: usize) -> (r: Vec<usize>)
        ensures
            forall|k: int| 0 <= k < r@.len() ==> #[trigger] r@[k] < count && self.selected().contains(
                r@[k],
            ),
            forall|k: int, l: int| 0 <= k < l < r@.len() ==> r@[k] < r@[l],
            forall|i: usize| i < count && self.selected().contains(i) ==> r@.contains(i),
    {
        let mut out: Vec<usize> = Vec::new();
        let mut i: usize = 0;
        while i < count
            invariant
                i <= count,
                forall|k: int| 0 <= k < out@.len() ==> #[trigger] out@[k] < i && self.selected().contains(
                    out@[k],
                ),
                forall|k: int, l: int| 0 <= k < l < out@.len() ==> out@[k] < out@[l],
                forall|j: usize| j < i && self.selected().contains(j) ==> out@.contains(j),
            decreases count - i,
        {
            let ghost prev = out@;
            if self.selected.contains(&i) {
                out.push(i);
                assert(out@[out@.len() - 1] == i);
            }
            proof {
                assert forall|j: usize| j < i + 1 && self.selected().contains(j) implies out@.contains(j) by {
                    if j == i {
                        assert(out@[out@.len() - 1] == i);
                    } else {
                        let k = choose|k: int| 0 <= k < prev.len() && prev[k] == j;
                        assert(out@[k] == j);
                    }
                }
            }
            i = i + 1;
        }
        out
    }

    /// Applies a click on `index` with the given modifier keys.
    pub fn click(&mut self, index: usize, shift: bool, ctrl: bool)
        ensures
            final(self).selected() == after_click(
                old(self).selected(),
                old(self).last(),
                index,
                shift,
                ctrl,
            ),
            final(self).last() == Some(index),
    {
        if shift {
            match self.last_clicked {
                Some(last) => {
                    let (start, end) = if last <= index { (last, index) } else { (index, last) };
                    let ghost before = self.selected@;
                    let mut i: usize = start;
                    loop
                        invariant_except_break
                            start <= i <= end,
                            start == if last <= index { last } else { index },
                            end == if last <= index { index } else { last },
                            self.selected@ == before.union(Set::new(|k: usize| start <= k < i)),
                        ensures
                            self.selected@ == before.union(span(last, index)),
                        decreases end - i,
                    {
                        let ghost prev = self.selected@;
                        self.selected.insert(i);
                        assert(self.selected@ == prev.insert(i));
                        if i == end {
                            assert forall|k: usize| #[trigger] self.selected@.contains(k) <==> before.union(span(last, index)).contains(k) by {
                                if start <= k < i {
                                    assert(Set::new(|k: usize| start <= k < i).contains(k));
                                }
                            }
                            assert(self.selected@ =~= before.union(span(last, index)));
                            break ;
                        }
                        assert forall|k: usize| #[trigger] self.selected@.contains(k) <==> before.union(Set::new(|k: usize| start <= k < i + 1)).contains(k) by {
                            if start <= k < i {
                                assert(Set::new(|k: usize| start <= k < i).contains(k));
                            }
                        }
                        assert(self.selected@ =~= before.union(Set::new(|k: usize| start <= k < i + 1)));
                        i = i + 1;
                    }
                },
                None => {
                    self.selected.insert(index);
                },
            }
        } else if ctrl {
            if self.selected.contains(&index) {
                self.selected.remove(&index);
            } else {
                self.selected.insert(index);
            }
        } else {
            self.selected.clear();
            self.selected.insert(index);
            assert(self.selected@ =~= set![index]);
        }
        self.last_clicked = Some(index);
    }
}

} // verus!
