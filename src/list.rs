use vstd::prelude::*;

verus! {

/// Indices into a list of `n` items, strictly increasing.
pub open spec fn indices_ok(v: Seq<usize>, n: nat) -> bool {
    &&& forall|i: int| 0 <= i < v.len() ==> v[i] < n
    &&& forall|i: int, j: int| 0 <= i < j < v.len() ==> v[i] < v[j]
}

/// The positions whose flag is set, in increasing order.
pub open spec fn kept(keep: Seq<bool>) -> Seq<usize>
    decreases keep.len(),
{
    if keep.len() == 0 {
        Seq::empty()
    } else {
        let rest = kept(keep.drop_last());
        if keep.last() {
            rest.push((keep.len() - 1) as usize)
        } else {
            rest
        }
    }
}

/// The positions whose flag is set, each moved up by `n`.
pub open spec fn shifted_kept(keep: Seq<bool>, n: nat) -> Seq<usize> {
    kept(keep).map_values(|x: usize| (x + n) as usize)
}

/// The indices `0..n`, in order.
pub open spec fn all_indices(n: nat) -> Seq<usize> {
    Seq::new(n, |i: int| i as usize)
}

/// Every flag is set.
pub open spec fn all_kept(keep: Seq<bool>) -> bool {
    forall|i: int| 0 <= i < keep.len() ==> keep[i]
}

/// Cursor after a move down in a view of `len` entries.
pub open spec fn next_pos(sel: Option<usize>, len: nat) -> Option<usize> {
    if len == 0 {
        sel
    } else {
        match sel {
            Some(i) => if i + 1 >= len {
                Some(i)
            } else {
                Some((i + 1) as usize)
            },
            None => Some(0),
        }
    }
}

/// Cursor after a move up in a view of `len` entries.
pub open spec fn previous_pos(sel: Option<usize>, len: nat) -> Option<usize> {
    if len == 0 {
        sel
    } else {
        match sel {
            Some(i) => if i == 0 {
                Some(0)
            } else {
                Some((i - 1) as usize)
            },
            None => Some(0),
        }
    }
}

/// A selectable list, loaded page by page, with an optional filtered view.
///
/// `selected` is a position in the effective view: the filtered indices when
/// `visible_indices` is present, all of `items` otherwise.
pub struct StatefulList<T> {
    pub items: Vec<T>,
    pub selected: Option<usize>,
    /// Token of the next page; `None` when there is none or nothing was loaded.
    pub next_token: Option<String>,
    /// A fetch for this list is in flight.
    pub loading: bool,
    /// Indices into `items` that form the filtered view, in scan order.
    pub visible_indices: Option<Vec<usize>>,
    /// The true index of the selection held before filtering began, which
    /// clearing the filter brings back; `None` when none is recorded.
    pub filter_origin: Option<Option<usize>>,
}

impl<T> StatefulList<T> {
    /// Number of entries in the effective view.
    pub open spec fn view_len(&self) -> nat {
        match self.visible_indices {
            Some(v) => v@.len(),
            None => self.items@.len(),
        }
    }

    /// Index into `items` of position `pos` of the effective view.
    pub open spec fn true_index(&self, pos: int) -> int {
        match self.visible_indices {
            Some(v) => v@[pos] as int,
            None => pos,
        }
    }

    /// Index into `items` of the selection.
    pub open spec fn selected_true(&self) -> Option<int> {
        match self.selected {
            Some(p) => Some(self.true_index(p as int)),
            None => None,
        }
    }

    /// The selected item.
    pub open spec fn selected_item(&self) -> Option<T> {
        match self.selected_true() {
            Some(i) => Some(self.items@[i]),
            None => None,
        }
    }

    pub open spec fn wf(&self) -> bool {
        &&& self.selected matches Some(p) ==> p < self.view_len()
        &&& self.visible_indices matches Some(v) ==> indices_ok(v@, self.items@.len())
        &&& self.filter_origin matches Some(Some(i)) ==> i < self.items@.len()
    }

    /// Index into `items` of the selection, as a machine integer.
    pub open spec fn selected_index_of(&self) -> Option<usize> {
        match self.selected {
            Some(p) => Some(
                match self.visible_indices {
                    Some(v) => v@[p as int],
                    None => p,
                },
            ),
            None => None,
        }
    }

    /// The selection that clearing the filter brings back.
    pub open spec fn restored_selection(&self) -> Option<usize> {
        match self.filter_origin {
            Some(t) => t,
            None => self.selected_index_of(),
        }
    }

    /// The same list with another cursor.
    pub open spec fn with_selected(self, sel: Option<usize>) -> Self {
        StatefulList { selected: sel, ..self }
    }

    /// The effective view.
    pub open spec fn effective(&self) -> Seq<T> {
        Seq::new(self.view_len(), |k: int| self.items@[self.true_index(k)])
    }

    /// The state `apply_filter(keep)` leaves behind, starting from `prev`.
    pub open spec fn filtered_from(&self, prev: Self, keep: Seq<bool>) -> bool {
        &&& self.items == prev.items
        &&& self.next_token == prev.next_token
        &&& self.loading == prev.loading
        &&& self.filter_origin == (if prev.filter_origin is None {
            Some(prev.selected_index_of())
        } else {
            prev.filter_origin
        })
        &&& all_kept(keep) ==> self.visible_indices is None
        &&& !all_kept(keep) ==> (self.visible_indices matches Some(v) && v@ == kept(keep))
        &&& self.selected == (if self.view_len() > 0 {
            Some(0usize)
        } else {
            None::<usize>
        })
    }

    /// The state `clear_filter` leaves behind, starting from `prev`.
    pub open spec fn cleared_from(&self, prev: Self) -> bool {
        &&& self.items == prev.items
        &&& self.next_token == prev.next_token
        &&& self.loading == prev.loading
        &&& self.visible_indices is None
        &&& self.filter_origin is None
        &&& self.selected == prev.restored_selection()
    }

    /// The state `append_page(page, token)` leaves behind, starting from `prev`.
    pub open spec fn appended_from(&self, prev: Self, page: Seq<T>, token: Option<String>) -> bool {
        &&& self.items@ == prev.items@ + page
        &&& self.next_token == token
        &&& !self.loading
        &&& self.selected == prev.selected
        &&& self.visible_indices == prev.visible_indices
        &&& self.filter_origin == prev.filter_origin
    }

    /// A selection exists, its true index is within `lookahead` of the end of
    /// the items, a further page exists and no fetch is in flight.
    pub open spec fn wants_next_page(&self, lookahead: int) -> bool {
        &&& self.selected_true() matches Some(i) && i + lookahead >= self.items@.len()
        &&& self.view_len() > 0
        &&& self.next_token is Some
        &&& !self.loading
    }

    /// An empty list: no items, no cursor, no token, not loading, no filter.
    pub fn new() -> (r: Self)
        ensures
            r.items@.len() == 0,
            r.selected is None,
            r.next_token is None,
            !r.loading,
            r.visible_indices is None,
            r.filter_origin is None,
            r.wf(),
    {
        StatefulList {
            items: Vec::new(),
            selected: None,
            next_token: None,
            loading: false,
            visible_indices: None,
            filter_origin: None,
        }
    }

    /// Length of the effective view.
    pub fn visible_len(&self) -> (r: usize)
        ensures
            r == self.view_len(),
    {
        match &self.visible_indices {
            Some(v) => v.len(),
            None => self.items.len(),
        }
    }

    /// Moves the cursor one entry down, stopping at the last entry.
    pub fn next(&mut self)
        requires
            old(self).wf(),
        ensures
            *final(self) == old(self).with_selected(next_pos(old(self).selected, old(self).view_len())),
            final(self).wf(),
            final(self).view_len() > 0 ==> (final(self).selected matches Some(p) && p
                < final(self).view_len()),
            old(self).selected == Some((old(self).view_len() - 1) as usize) ==> final(self).selected
                == old(self).selected,
    {
        let len = self.visible_len();
        if len == 0 {
            return ;
        }
        let i = match self.selected {
            Some(i) => if i >= len - 1 {
                i
            } else {
                i + 1
            },
            None => 0,
        };
        self.selected = Some(i);
    }

    /// Moves the cursor one entry up, stopping at the first entry.
    pub fn previous(&mut self)
        requires
            old(self).wf(),
        ensures
            *final(self) == old(self).with_selected(
                previous_pos(old(self).selected, old(self).view_len()),
            ),
            final(self).wf(),
            final(self).view_len() > 0 ==> (final(self).selected matches Some(p) && p
                < final(self).view_len()),
            old(self).selected == Some(0usize) ==> final(self).selected == old(self).selected,
    {
        let len = self.visible_len();
        if len == 0 {
            return ;
        }
        let i = match self.selected {
            Some(i) => if i == 0 {
                0
            } else {
                i - 1
            },
            None => 0,
        };
        self.selected = Some(i);
    }

    /// Index into `items` of the selection.
    pub fn selected_index(&self) -> (r: Option<usize>)
        requires
            self.wf(),
        ensures
            r matches Some(i) ==> self.selected_true() == Some(i as int) && i < self.items@.len(),
            r is None <==> self.selected is None,
    {
        match self.selected {
            Some(p) => match &self.visible_indices {
                Some(v) => Some(v[p]),
                None => Some(p),
            },
            None => None,
        }
    }

    /// The selected item, resolved through the filter.
    pub fn selected(&self) -> (r: Option<&T>)
        requires
            self.wf(),
        ensures
            r matches Some(x) ==> self.selected_item() == Some(*x),
            r is None <==> self.selected is None,
    {
        match self.selected_index() {
            Some(i) => Some(&self.items[i]),
            None => None,
        }
    }

    /// The entries of the effective view, in order.
    pub fn visible_items(&self) -> (r: Vec<&T>)
        requires
            self.wf(),
        ensures
            r@.len() == self.view_len(),
            forall|k: int| 0 <= k < r@.len() ==> *r@[k] == self.effective()[k],
    {
        let mut out: Vec<&T> = Vec::new();
        let n = self.visible_len();
        let mut k: usize = 0;
        while k < n
            invariant
                self.wf(),
                n == self.view_len(),
                k <= n,
                out@.len() == k,
                forall|j: int| 0 <= j < k ==> *out@[j] == self.effective()[j],
            decreases n - k,
        {
            let i = match &self.visible_indices {
                Some(v) => v[k],
                None => k,
            };
            out.push(&self.items[i]);
            k += 1;
        }
        out
    }

    /// Filters the view down to the items whose flag in `keep` is set.
    ///
    /// When every flag is set the filter is dropped instead. The cursor goes
    /// to the first entry of the new view, or to nothing when it is empty.
    pub fn apply_filter(&mut self, keep: &Vec<bool>)
        requires
            old(self).wf(),
            keep@.len() == old(self).items@.len(),
        ensures
            final(self).wf(),
            final(self).filtered_from(*old(self), keep@),
    {
        let mut out: Vec<usize> = Vec::new();
        let mut all = true;
        let mut i: usize = 0;
        while i < keep.len()
            invariant
                i <= keep@.len(),
                out@ == kept(keep@.subrange(0, i as int)),
                indices_ok(out@, i as nat),
                all <==> all_kept(keep@.subrange(0, i as int)),
            decreases keep@.len() - i,
        {
            assert(keep@.subrange(0, i + 1).drop_last() =~= keep@.subrange(0, i as int));
            assert(all_kept(keep@.subrange(0, i + 1)) <==> all_kept(keep@.subrange(0, i as int))
                && keep@[i as int]) by {
                let a = keep@.subrange(0, i as int);
                let b = keep@.subrange(0, i + 1);
                assert(b[i as int] == keep@[i as int]);
                assert forall|k: int| 0 <= k < i implies a[k] == b[k] by {}
            }
            if keep[i] {
                out.push(i);
            } else {
                all = false;
            }
            i += 1;
        }
        assert(keep@.subrange(0, keep@.len() as int) =~= keep@);
        if self.filter_origin.is_none() {
            self.filter_origin = Some(self.selected_index());
        }
        if all {
            self.visible_indices = None;
        } else {
            self.visible_indices = Some(out);
        }
        if self.visible_len() > 0 {
            self.selected = Some(0);
        } else {
            self.selected = None;
        }
    }

    /// Drops the filter and brings back the selection held before filtering
    /// began; with none recorded, the selected item stays selected.
    pub fn clear_filter(&mut self)
        requires
            old(self).wf(),
        ensures
            final(self).wf(),
            final(self).cleared_from(*old(self)),
            old(self).filter_origin is None ==> final(self).selected_item()
                == old(self).selected_item(),
    {
        let t = match self.filter_origin {
            Some(t) => t,
            None => self.selected_index(),
        };
        self.visible_indices = None;
        self.filter_origin = None;
        self.selected = t;
    }

    /// Records the current selection as the one that clearing the filter
    /// brings back.
    pub fn mark_selection(&mut self)
        requires
            old(self).wf(),
        ensures
            final(self).wf(),
            *final(self) == (StatefulList {
                filter_origin: Some(old(self).selected_index_of()),
                ..*old(self)
            }),
    {
        self.filter_origin = Some(self.selected_index());
    }

    /// Whether the cursor is close enough to the end to fetch the next page.
    pub fn needs_next_page(&self, lookahead: usize) -> (r: bool)
        requires
            self.wf(),
        ensures
            r == self.wants_next_page(lookahead as int),
    {
        match self.selected_index() {
            Some(idx) => {
                let len = self.items.len();
                self.visible_len() > 0 && (lookahead >= len || idx >= len - lookahead)
                    && self.next_token.is_some() && !self.loading
            },
            None => false,
        }
    }

    /// Empties the list: no items, cursor, token, loading flag or filter.
    pub fn reset(&mut self)
        ensures
            final(self).items@.len() == 0,
            final(self).selected is None,
            final(self).next_token is None,
            !final(self).loading,
            final(self).visible_indices is None,
            final(self).filter_origin is None,
            final(self).wf(),
    {
        *self = StatefulList::new();
    }

    /// Marks a fetch for this list as in flight.
    pub fn start_loading(&mut self)
        ensures
            *final(self) == (StatefulList { loading: true, ..*old(self) }),
    {
        self.loading = true;
    }

    /// Replaces the items by a first page; the cursor goes to its first item.
    pub fn finish_reload(&mut self, items: Vec<T>, next_token: Option<String>)
        ensures
            final(self).wf(),
            final(self).items@ == items@,
            final(self).next_token == next_token,
            !final(self).loading,
            final(self).visible_indices is None,
            final(self).filter_origin is None,
            final(self).selected == (if items@.len() > 0 {
                Some(0usize)
            } else {
                None::<usize>
            }),
    {
        let nonempty = items.len() > 0;
        self.items = items;
        self.next_token = next_token;
        self.loading = false;
        self.visible_indices = None;
        self.filter_origin = None;
        self.selected = if nonempty {
            Some(0)
        } else {
            None
        };
    }

    /// Appends a further page; the cursor and the filter stay as they are.
    pub fn append_page(&mut self, items: Vec<T>, next_token: Option<String>)
        requires
            old(self).wf(),
        ensures
            final(self).wf(),
            final(self).appended_from(*old(self), items@, next_token),
            final(self).selected_item() == old(self).selected_item(),
    {
        let mut items = items;
        self.items.append(&mut items);
        self.next_token = next_token;
        self.loading = false;
    }

    /// The state after the first page `page` replaced the items.
    pub open spec fn reloaded_with(&self, page: Seq<T>, token: Option<String>) -> bool {
        &&& self.items@ == page
        &&& self.next_token == token
        &&& !self.loading
        &&& self.visible_indices is None
        &&& self.filter_origin is None
        &&& self.selected == (if page.len() > 0 {
            Some(0usize)
        } else {
            None::<usize>
        })
    }

    /// The state after a page arrived for `prev`: dropped when no fetch was in
    /// flight, else appended or put in place of the items.
    pub open spec fn received(&self, prev: Self, append: bool, page: Seq<T>, token: Option<String>) -> bool {
        if !prev.loading {
            *self == prev
        } else if append {
            self.appended_from(prev, page, token)
        } else {
            self.reloaded_with(page, token)
        }
    }

    /// The state after a fetch for `prev` failed.
    pub open spec fn failed_from(&self, prev: Self) -> bool {
        if prev.loading {
            *self == (StatefulList { loading: false, next_token: None, ..prev })
        } else {
            *self == prev
        }
    }

    /// Merges a page that arrived for this list. One that arrives while no
    /// fetch is in flight is stale and dropped.
    pub fn receive_page(&mut self, append: bool, items: Vec<T>, next_token: Option<String>)
        requires
            old(self).wf(),
        ensures
            final(self).wf(),
            final(self).received(*old(self), append, items@, next_token),
    {
        if !self.loading {
            return ;
        }
        if append {
            self.append_page(items, next_token);
        } else {
            self.finish_reload(items, next_token);
        }
    }

    /// Records that the fetch in flight failed, if there is one.
    pub fn receive_failure(&mut self)
        requires
            old(self).wf(),
        ensures
            final(self).wf(),
            final(self).failed_from(*old(self)),
    {
        if self.loading {
            self.fail_loading();
        }
    }

    /// The entries of the effective view, as indices into `items`.
    pub open spec fn view_indices(&self) -> Seq<usize> {
        match self.visible_indices {
            Some(v) => v@,
            None => all_indices(self.items@.len()),
        }
    }

    /// The state `append_filtered(page, token, keep)` leaves behind: the page
    /// is appended, and the view gains the page's items whose flag is set.
    /// The view stays unfiltered only when it was and every flag is set.
    pub open spec fn appended_filtered_from(
        &self,
        prev: Self,
        page: Seq<T>,
        token: Option<String>,
        keep: Seq<bool>,
    ) -> bool {
        &&& self.items@ == prev.items@ + page
        &&& self.next_token == token
        &&& !self.loading
        &&& self.selected == prev.selected
        &&& self.filter_origin == prev.filter_origin
        &&& if prev.visible_indices is None && all_kept(keep) {
            self.visible_indices is None
        } else {
            self.visible_indices matches Some(v) && v@ == prev.view_indices() + shifted_kept(
                keep,
                prev.items@.len(),
            )
        }
    }

    /// Appends a further page to a filtered view: the page's items whose flag
    /// in `keep` is set join the view, in order; the cursor stays on its item.
    pub fn append_filtered(&mut self, items: Vec<T>, next_token: Option<String>, keep: &Vec<bool>)
        requires
            old(self).wf(),
            keep@.len() == items@.len(),
            old(self).items@.len() + items@.len() <= usize::MAX,
        ensures
            final(self).wf(),
            final(self).appended_filtered_from(*old(self), items@, next_token, keep@),
            final(self).selected_item() == old(self).selected_item(),
    {
        let n = self.items.len();
        let m = keep.len();
        let mut all = true;
        let mut k: usize = 0;
        while k < m
            invariant
                k <= m,
                m == keep@.len(),
                all <==> all_kept(keep@.subrange(0, k as int)),
            decreases m - k,
        {
            assert(all_kept(keep@.subrange(0, k + 1)) <==> all_kept(keep@.subrange(0, k as int))
                && keep@[k as int]) by {
                let a = keep@.subrange(0, k as int);
                let b = keep@.subrange(0, k + 1);
                assert(b[k as int] == keep@[k as int]);
                assert forall|j: int| 0 <= j < k implies a[j] == b[j] by {}
            }
            if !keep[k] {
                all = false;
            }
            k += 1;
        }
        assert(keep@.subrange(0, m as int) =~= keep@);
        if !(self.visible_indices.is_none() && all) {
            let ghost base = self.view_indices();
            let mut v: Vec<usize> = match self.visible_indices.take() {
                Some(v) => v,
                None => {
                    let mut w: Vec<usize> = Vec::new();
                    let mut i: usize = 0;
                    while i < n
                        invariant
                            i <= n,
                            w@ == all_indices(i as nat),
                        decreases n - i,
                    {
                        w.push(i);
                        assert(w@ =~= all_indices((i + 1) as nat));
                        i += 1;
                    }
                    w
                },
            };
            assert(v@ == base);
            assert(indices_ok(base, n as nat));
            let mut k: usize = 0;
            assert(keep@.subrange(0, 0) =~= Seq::<bool>::empty());
            assert(v@ =~= base + shifted_kept(keep@.subrange(0, 0), n as nat));
            while k < m
                invariant
                    k <= m,
                    m == keep@.len(),
                    n + m <= usize::MAX,
                    indices_ok(base, n as nat),
                    v@ == base + shifted_kept(keep@.subrange(0, k as int), n as nat),
                    indices_ok(v@, (n + k) as nat),
                decreases m - k,
            {
                assert(keep@.subrange(0, k + 1).drop_last() =~= keep@.subrange(0, k as int));
                if keep[k] {
                    v.push(n + k);
                    assert(shifted_kept(keep@.subrange(0, k + 1), n as nat) =~= shifted_kept(
                        keep@.subrange(0, k as int),
                        n as nat,
                    ).push((n + k) as usize));
                } else {
                    assert(shifted_kept(keep@.subrange(0, k + 1), n as nat) =~= shifted_kept(
                        keep@.subrange(0, k as int),
                        n as nat,
                    ));
                }
                assert(v@ =~= base + shifted_kept(keep@.subrange(0, k + 1), n as nat));
                k += 1;
            }
            self.visible_indices = Some(v);
        }
        let mut items = items;
        self.items.append(&mut items);
        self.next_token = next_token;
        self.loading = false;
    }

    /// Ends a fetch that failed: the items stay, and no further page is asked for.
    pub fn fail_loading(&mut self)
        requires
            old(self).wf(),
        ensures
            *final(self) == (StatefulList { loading: false, next_token: None, ..*old(self) }),
            final(self).wf(),
    {
        self.loading = false;
        self.next_token = None;
    }
}

} // verus!

verus! {

/// Applying a filter and then clearing it brings back the selection held
/// before filtering, by true index, for any items and any filter. When an
/// earlier selection was recorded (by `mark_selection`, or by a filter still
/// pending), that one comes back instead.
pub proof fn lemma_filter_then_clear<T>(
    before: StatefulList<T>,
    filtered: StatefulList<T>,
    after: StatefulList<T>,
    keep: Seq<bool>,
)
    requires
        before.wf(),
        keep.len() == before.items@.len(),
        filtered.filtered_from(before, keep),
        after.cleared_from(filtered),
    ensures
        before.filter_origin is None ==> after.selected_true() == before.selected_true(),
        before.filter_origin matches Some(t) ==> after.selected == t,
        after.visible_indices is None,
        after.items == before.items,
{
}

/// Whatever the cursor, no page is wanted while no token is held or a fetch
/// is in flight.
pub proof fn lemma_no_page_without_token<T>(l: StatefulList<T>, lookahead: int)
    requires
        l.next_token is None || l.loading,
    ensures
        !l.wants_next_page(lookahead),
{
}

/// Appending a page keeps the same item selected.
pub proof fn lemma_append_keeps_selection<T>(
    before: StatefulList<T>,
    after: StatefulList<T>,
    page: Seq<T>,
    token: Option<String>,
)
    requires
        before.wf(),
        after.appended_from(before, page, token),
    ensures
        after.selected_item() == before.selected_item(),
        after.wf(),
{
    if let Some(v) = before.visible_indices {
        assert(indices_ok(v@, after.items@.len()));
    }
}

} // verus!
