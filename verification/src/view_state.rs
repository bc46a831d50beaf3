use vstd::prelude::*;

use crate::errors::TableError;

verus! {

/// Where the row shown at `logical` sits in the table as loaded: the
/// identity map when the sort direction is forward, the mirror map when it
/// is reversed. Total over `[0, row_count)`.
pub open spec fn spec_logical_to_physical(reversed: bool, row_count: int, logical: int) -> int {
    if reversed {
        row_count - 1 - logical
    } else {
        logical
    }
}

/// One toggle's effect on the selected set: the index leaves the set if it
/// was in it, and enters it otherwise.
pub open spec fn spec_toggle_selection(sel: Set<int>, physical: int) -> Set<int> {
    if sel.contains(physical) {
        sel.remove(physical)
    } else {
        sel.insert(physical)
    }
}

/// The selection as a set of indices, from the order it is stored in.
pub open spec fn index_set(s: Seq<usize>) -> Set<int> {
    s.map_values(|i: usize| i as int).to_set()
}

/// For every `row_count` and either sort direction, the logical-to-physical
/// map is a bijection over `[0, row_count)`, and applying it twice gives the
/// original index back.
pub proof fn lemma_logical_to_physical_bijective(reversed: bool, row_count: int)
    ensures
        forall|l: int|
            0 <= l < row_count ==> 0 <= #[trigger] spec_logical_to_physical(
                reversed,
                row_count,
                l,
            ) < row_count,
        forall|a: int, b: int|
            0 <= a < row_count && 0 <= b < row_count && spec_logical_to_physical(
                reversed,
                row_count,
                a,
            ) == spec_logical_to_physical(reversed, row_count, b) ==> a == b,
        forall|l: int|
            0 <= l < row_count ==> spec_logical_to_physical(
                reversed,
                row_count,
                #[trigger] spec_logical_to_physical(reversed, row_count, l),
            ) == l,
{
}

/// Toggling the same row twice with nothing in between restores the
/// selection exactly as it was.
pub proof fn lemma_toggle_selection_pair(sel: Set<int>, physical: int)
    ensures
        spec_toggle_selection(spec_toggle_selection(sel, physical), physical) == sel,
{
    assert(spec_toggle_selection(spec_toggle_selection(sel, physical), physical) =~= sel);
}

/// Toggling the sort twice restores the direction, and with it the whole
/// logical-to-physical mapping, for every index.
pub proof fn lemma_toggle_sort_pair(reversed: bool, row_count: int, logical: int)
    ensures
        !!reversed == reversed,
        spec_logical_to_physical(!!reversed, row_count, logical) == spec_logical_to_physical(
            reversed,
            row_count,
            logical,
        ),
{
}

/// The view state over a physical table: the sort direction, and the set of
/// selected physical row indices. Selection indices always refer to the
/// table as loaded, so a sort-direction flip never touches them; a table
/// replacement clears them.
pub struct ViewState {
    reversed: bool,
    selection: Vec<usize>,
}

impl ViewState {
    /// The sort direction: `false` is forward, `true` is reversed.
    pub closed spec fn spec_reversed(self) -> bool {
        self.reversed
    }

    /// The selected physical rows.
    pub closed spec fn sel(self) -> Set<int> {
        index_set(self.selection@)
    }

    /// Internal shape: no physical index is stored twice.
    pub closed spec fn wf(self) -> bool {
        self.selection@.no_duplicates()
    }

    /// Every selected index is a row of a table with `row_count` rows.
    pub open spec fn valid_for(self, row_count: int) -> bool {
        forall|p: int| #[trigger] self.sel().contains(p) ==> 0 <= p < row_count
    }

    /// The fresh state: forward order, nothing selected.
    pub fn new() -> (v: ViewState)
        ensures
            v.wf(),
            !v.spec_reversed(),
            v.sel() == Set::<int>::empty(),
    {
        let v = ViewState { reversed: false, selection: Vec::new() };
        proof {
            assert(v.sel() =~= Set::<int>::empty());
        }
        v
    }

    /// The sort direction, for the renderer's sort indicator.
    pub fn reversed(&self) -> (r: bool)
        ensures
            r == self.spec_reversed(),
    {
        self.reversed
    }

    /// Flips the sort direction. The selection holds physical indices, so
    /// it stays exactly as it was.
    pub fn toggle_sort(&mut self)
        ensures
            final(self).spec_reversed() == !old(self).spec_reversed(),
            final(self).sel() == old(self).sel(),
            final(self).wf() == old(self).wf(),
    {
        self.reversed = !self.reversed;
    }

    /// Maps a displayed row position to its physical index, per the current
    /// sort direction; rejects a position past the table.
    pub fn logical_to_physical(&self, logical: usize, row_count: usize) -> (r: Result<
        usize,
        TableError,
    >)
        ensures
            logical < row_count ==> r is Ok && r->Ok_0 == spec_logical_to_physical(
                self.spec_reversed(),
                row_count as int,
                logical as int,
            ),
            logical >= row_count ==> r == Err::<usize, TableError>(TableError::IndexOutOfRange),
    {
        if logical < row_count {
            if self.reversed {
                Ok(row_count - 1 - logical)
            } else {
                Ok(logical)
            }
        } else {
            Err(TableError::IndexOutOfRange)
        }
    }

    /// Whether the physical row is selected. Total: an index past the table
    /// is simply not selected, so a row that is stale for one frame renders
    /// unselected instead of failing.
    pub fn is_selected(&self, physical: usize) -> (r: bool)
        ensures
            r == self.sel().contains(physical as int),
    {
        let r = contains_index(&self.selection, physical);
        proof {
            lemma_index_set_contains(self.selection@, physical);
        }
        r
    }

    /// Selects the physical row if it is unselected, and unselects it
    /// otherwise; rejects an index that is not a row of the current table.
    pub fn toggle_row_selection(&mut self, physical: usize, row_count: usize) -> (r: Result<
        (),
        TableError,
    >)
        requires
            old(self).wf(),
        ensures
            final(self).wf(),
            final(self).spec_reversed() == old(self).spec_reversed(),
            physical >= row_count ==> r == Err::<(), TableError>(TableError::IndexOutOfRange)
                && final(self).sel() == old(self).sel(),
            physical < row_count ==> r is Ok && final(self).sel() == spec_toggle_selection(
                old(self).sel(),
                physical as int,
            ),
            old(self).valid_for(row_count as int) ==> final(self).valid_for(row_count as int),
    {
        if physical >= row_count {
            return Err(TableError::IndexOutOfRange);
        }
        match find_index(&self.selection, physical) {
            Some(k) => {
                let _removed = self.selection.remove(k);
                proof {
                    lemma_index_set_remove(old(self).selection@, k as int);
                    lemma_index_set_contains(old(self).selection@, physical);
                    assert(final(self).sel() == spec_toggle_selection(
                        old(self).sel(),
                        physical as int,
                    ));
                }
            },
            None => {
                self.selection.push(physical);
                proof {
                    lemma_index_set_push(old(self).selection@, physical);
                    lemma_index_set_contains(old(self).selection@, physical);
                    assert(final(self).sel() == spec_toggle_selection(
                        old(self).sel(),
                        physical as int,
                    ));
                }
            },
        }
        Ok(())
    }

    /// Must run whenever the table is replaced: the selection is cleared
    /// unconditionally, since indices into the old data mean nothing
    /// against the new; the sort direction is kept.
    pub fn on_table_replaced(&mut self, new_row_count: usize)
        ensures
            final(self).wf(),
            final(self).sel() == Set::<int>::empty(),
            final(self).spec_reversed() == old(self).spec_reversed(),
            final(self).valid_for(new_row_count as int),
    {
        self.selection = Vec::new();
        proof {
            assert(self.sel() =~= Set::<int>::empty());
        }
    }

    /// Whether nothing is selected.
    pub fn selection_is_empty(&self) -> (r: bool)
        ensures
            r == (self.sel() == Set::<int>::empty()),
    {
        let r = self.selection.len() == 0;
        proof {
            if self.selection@.len() == 0 {
                assert(self.sel() =~= Set::<int>::empty());
            } else {
                assert(self.selection@.contains(self.selection@[0]));
                lemma_index_set_contains(self.selection@, self.selection@[0]);
                assert(self.sel().contains(self.selection@[0] as int));
            }
        }
        r
    }

    /// The selected physical rows, one index each, for the persistence
    /// boundary. The order carries no meaning.
    pub fn selected_rows(&self) -> (r: Vec<usize>)
        requires
            self.wf(),
        ensures
            r@.no_duplicates(),
            index_set(r@) == self.sel(),
    {
        let mut out: Vec<usize> = Vec::new();
        let n = self.selection.len();
        let mut k: usize = 0;
        while k < n
            invariant
                k <= n,
                n == self.selection@.len(),
                out@ == self.selection@.subrange(0, k as int),
            decreases n - k,
        {
            out.push(self.selection[k]);
            proof {
                assert(out@ =~= self.selection@.subrange(0, k + 1 as int));
            }
            k += 1;
        }
        proof {
            assert(out@ =~= self.selection@);
        }
        out
    }

    /// Rebuilds persisted view state against the current row count: the
    /// sort direction is restored verbatim; a persisted index survives only
    /// if it is a row of the current table, and duplicates collapse.
    pub fn restore(reversed: bool, persisted: &Vec<usize>, row_count: usize) -> (v: ViewState)
        ensures
            v.wf(),
            v.spec_reversed() == reversed,
            v.valid_for(row_count as int),
            forall|x: usize| #[trigger]
                v.sel().contains(x as int) == (persisted@.contains(x) && x < row_count),
    {
        let mut keep: Vec<usize> = Vec::new();
        let n = persisted.len();
        let mut k: usize = 0;
        while k < n
            invariant
                k <= n,
                n == persisted@.len(),
                keep@.no_duplicates(),
                forall|x: usize| #[trigger]
                    keep@.contains(x) == (persisted@.subrange(0, k as int).contains(x) && x
                        < row_count),
            decreases n - k,
        {
            let x = persisted[k];
            let ghost pre = keep@;
            if x < row_count && !contains_index(&keep, x) {
                keep.push(x);
            }
            proof {
                let prefix_next = persisted@.subrange(0, k + 1 as int);
                assert(prefix_next.drop_last() =~= persisted@.subrange(0, k as int));
                assert forall|y: usize| #[trigger] keep@.contains(y) == (prefix_next.contains(y)
                    && y < row_count) by {
                    if keep@.contains(y) {
                        if pre.contains(y) {
                            assert(prefix_next.drop_last().contains(y));
                            let j = choose|j: int|
                                0 <= j < prefix_next.drop_last().len() && prefix_next.drop_last()[j]
                                    == y;
                            assert(prefix_next[j] == y);
                        } else {
                            assert(keep@ == pre.push(x));
                            let j = choose|j: int| 0 <= j < keep@.len() && keep@[j] == y;
                            assert(y == x);
                            assert(prefix_next[k as int] == x);
                        }
                    }
                    if prefix_next.contains(y) && y < row_count {
                        let j = choose|j: int| 0 <= j < prefix_next.len() && prefix_next[j] == y;
                        if j < k {
                            assert(persisted@.subrange(0, k as int)[j] == y);
                            assert(pre.contains(y));
                            if keep@ != pre {
                                assert(keep@ == pre.push(x));
                                assert(keep@[keep@.len() - 1] == x);
                                let i = choose|i: int| 0 <= i < pre.len() && pre[i] == y;
                                assert(keep@[i] == y);
                            }
                        } else {
                            assert(y == x);
                            if pre.contains(x) {
                                assert(keep@ == pre);
                            } else if x < row_count {
                                assert(keep@ == pre.push(x));
                                assert(keep@[keep@.len() - 1] == x);
                            }
                        }
                    }
                }
                if keep@ != pre {
                    assert(keep@ == pre.push(x));
                    assert(!pre.contains(x));
                    assert(keep@.no_duplicates());
                }
            }
            k += 1;
        }
        let v = ViewState { reversed, selection: keep };
        proof {
            assert(persisted@.subrange(0, n as int) =~= persisted@);
            assert forall|x: usize| #[trigger] v.sel().contains(x as int) == (persisted@.contains(x)
                && x < row_count) by {
                lemma_index_set_contains(keep@, x);
            }
            assert forall|p: int| #[trigger] v.sel().contains(p) implies 0 <= p < row_count by {
                let s = keep@.map_values(|i: usize| i as int);
                let j = choose|j: int| 0 <= j < s.len() && s[j] == p;
                assert(keep@.contains(keep@[j]));
            }
        }
        v
    }
}

/// Whether `x` occurs in `v`, by linear scan.
fn contains_index(v: &Vec<usize>, x: usize) -> (r: bool)
    ensures
        r == v@.contains(x),
{
    match find_index(v, x) {
        Some(_) => true,
        None => false,
    }
}

/// The position of `x` in `v`, if it occurs.
fn find_index(v: &Vec<usize>, x: usize) -> (r: Option<usize>)
    ensures
        match r {
            Some(k) => k < v@.len() && v@[k as int] == x,
            None => !v@.contains(x),
        },
{
    let n = v.len();
    let mut k: usize = 0;
    while k < n
        invariant
            k <= n,
            n == v@.len(),
            forall|j: int| 0 <= j < k ==> v@[j] != x,
        decreases n - k,
    {
        if v[k] == x {
            return Some(k);
        }
        k += 1;
    }
    None
}

/// Membership in the selection set is membership in the stored order.
proof fn lemma_index_set_contains(s: Seq<usize>, x: usize)
    ensures
        index_set(s).contains(x as int) == s.contains(x),
{
    let m = s.map_values(|i: usize| i as int);
    if s.contains(x) {
        let j = choose|j: int| 0 <= j < s.len() && s[j] == x;
        assert(m[j] == x as int);
        assert(m.contains(x as int));
    }
    if m.contains(x as int) {
        let j = choose|j: int| 0 <= j < m.len() && m[j] == x as int;
        assert(s[j] == x);
    }
}

/// Removing position `k` from a duplicate-free order removes exactly that
/// index from the selection set.
proof fn lemma_index_set_remove(s: Seq<usize>, k: int)
    requires
        0 <= k < s.len(),
        s.no_duplicates(),
    ensures
        s.remove(k).no_duplicates(),
        index_set(s.remove(k)) == index_set(s).remove(s[k] as int),
{
    let t = s.remove(k);
    assert(t.len() == s.len() - 1);
    assert forall|i: int, j: int|
        (0 <= i < t.len() && 0 <= j < t.len() && i != j) implies t[i] != t[j] by {
        let si = if i < k { i } else { i + 1 };
        let sj = if j < k { j } else { j + 1 };
        assert(t[i] == s[si] && t[j] == s[sj]);
    }
    let mt = t.map_values(|i: usize| i as int);
    let ms = s.map_values(|i: usize| i as int);
    assert forall|p: int| mt.to_set().contains(p) == ms.to_set().remove(s[k] as int).contains(
        p,
    ) by {
        if mt.contains(p) {
            let j = choose|j: int| 0 <= j < mt.len() && mt[j] == p;
            let sj = if j < k { j } else { j + 1 };
            assert(t[j] == s[sj]);
            assert(ms[sj] == p);
            assert(ms.contains(p));
            assert(s[sj] != s[k]);
            assert(p != s[k] as int);
        }
        if ms.contains(p) && p != s[k] as int {
            let j = choose|j: int| 0 <= j < ms.len() && ms[j] == p;
            assert(s[j] as int == p);
            assert(j != k);
            let tj = if j < k { j } else { j - 1 };
            assert(t[tj] == s[j]);
            assert(mt[tj] == p);
            assert(mt.contains(p));
        }
    }
    assert(mt.to_set() =~= ms.to_set().remove(s[k] as int));
}

/// Appending an index to the order inserts exactly it into the set; if it
/// was absent, the order stays duplicate-free.
proof fn lemma_index_set_push(s: Seq<usize>, x: usize)
    requires
        s.no_duplicates(),
        !s.contains(x),
    ensures
        s.push(x).no_duplicates(),
        index_set(s.push(x)) == index_set(s).insert(x as int),
{
    let t = s.push(x);
    assert forall|i: int, j: int|
        (0 <= i < t.len() && 0 <= j < t.len() && i != j) implies t[i] != t[j] by {
        if i < s.len() && j < s.len() {
        } else if i < s.len() {
            assert(t[j] == x);
            assert(s.contains(s[i]));
        } else {
            assert(t[i] == x);
            assert(s.contains(s[j]));
        }
    }
    let mt = t.map_values(|i: usize| i as int);
    let ms = s.map_values(|i: usize| i as int);
    assert forall|p: int| mt.to_set().contains(p) == ms.to_set().insert(x as int).contains(p) by {
        if mt.contains(p) {
            let j = choose|j: int| 0 <= j < mt.len() && mt[j] == p;
            if j < s.len() {
                assert(ms[j] == p);
                assert(ms.contains(p));
            } else {
                assert(p == x as int);
            }
        }
        if ms.contains(p) {
            let j = choose|j: int| 0 <= j < ms.len() && ms[j] == p;
            assert(mt[j] == p);
            assert(mt.contains(p));
        }
        if p == x as int {
            assert(mt[t.len() - 1] == p);
            assert(mt.contains(p));
        }
    }
    assert(mt.to_set() =~= ms.to_set().insert(x as int));
}

} // verus!
