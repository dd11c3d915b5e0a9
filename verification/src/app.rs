//! The application state: the raw snapshot list with its sort order, the
//! cursor into the filtered view, the multi-select set, the active text
//! filter, the modal overlay flags, and the single-slot bridge slot for
//! the one background operation that may be outstanding.

use vstd::prelude::*;
use vstd::slice::slice_index_get;
use crate::snapshot::Snapshot;
use crate::sort::{SortKey, sorted_by_key};
use crate::text::{contains_seq, dec_rep, lower_of, chars_of, lower_chars, dec_chars,
    contains_chars};

verus! {

/// Which kind of text entry currently owns the keyboard.
#[derive(Clone, Copy, Debug, PartialEq, Eq)]
pub enum InputMode {
    Normal,
    Editing,
    Filtering,
}

/// Structured status-line message; the front end renders it to text.
#[derive(Clone, Debug, PartialEq, Eq)]
pub enum StatusMsg {
    /// Application start.
    Initializing,
    /// A snapshot fetch is under way.
    FetchingSnapshots,
    /// A fetch delivered this many snapshots.
    Loaded(usize),
    /// A background delete finished with these counts.
    Deleted { success: usize, fail: usize },
    /// A snapshot with this description was created.
    Created(String),
    /// This snapshot id was applied; a restart is needed for effect.
    Applied(u32),
    /// A status report arrived.
    StatusLoaded,
    /// A status fetch for this id is under way.
    FetchingStatus(u32),
    /// A backend call failed with this message.
    BackendError(String),
    /// Apply was pressed while the multi-select set was non-empty.
    ApplyBlockedByMultiSelect,
    /// Status was requested while the multi-select set was non-empty.
    StatusBlockedByMultiSelect,
}

/// What the loading overlay says while an operation is outstanding.
#[derive(Clone, Copy, Debug, PartialEq, Eq)]
pub enum LoadingMsg {
    Starting,
    Refreshing,
    Creating,
    Deleting(usize),
    Applying(u32),
    FetchingStatus(u32),
}

/// Number of frames in the loading-spinner animation cycle.
pub const SPINNER_FRAME_COUNT: usize = 10;

/// A record matches the filter text when the text is empty, or occurs
/// case-insensitively in the description, type or user field, or occurs
/// verbatim in the decimal rendering of the id.
pub open spec fn matches_filter(s: Snapshot, f: Seq<char>) -> bool {
    ||| f.len() == 0
    ||| contains_seq(lower_of(s.description@), lower_of(f))
    ||| contains_seq(lower_of(s.snapshot_type@), lower_of(f))
    ||| contains_seq(lower_of(s.user@), lower_of(f))
    ||| contains_seq(dec_rep(s.number as int), f)
}

/// The raw-list positions of the records that match the filter text, in
/// ascending order.
pub open spec fn filtered_indices(list: Seq<Snapshot>, f: Seq<char>) -> Seq<int>
    decreases list.len(),
{
    if list.len() == 0 {
        Seq::empty()
    } else {
        let pre = filtered_indices(list.drop_last(), f);
        if matches_filter(list.last(), f) {
            pre.push(list.len() - 1)
        } else {
            pre
        }
    }
}

/// The filtered view: the subsequence of the raw list matching the filter
/// text, in the raw list's (current sort) order. Cursor positions index
/// this sequence and nothing else.
pub open spec fn filtered_view(list: Seq<Snapshot>, f: Seq<char>) -> Seq<Snapshot> {
    filtered_indices(list, f).map_values(|i: int| list[i])
}

/// The filter positions are in bounds and strictly ascending.
pub proof fn lemma_filtered_indices_bounds(list: Seq<Snapshot>, f: Seq<char>)
    ensures
        forall|j: int|
            0 <= j < filtered_indices(list, f).len() ==> 0 <= #[trigger] filtered_indices(
                list,
                f,
            )[j] < list.len(),
        forall|j1: int, j2: int|
            0 <= j1 < j2 < filtered_indices(list, f).len() ==> filtered_indices(list, f)[j1]
                < filtered_indices(list, f)[j2],
    decreases list.len(),
{
    if list.len() > 0 {
        lemma_filtered_indices_bounds(list.drop_last(), f);
        let pre = filtered_indices(list.drop_last(), f);
        let out = filtered_indices(list, f);
        assert(forall|j: int| 0 <= j < pre.len() ==> #[trigger] out[j] == pre[j]);
        assert forall|j1: int, j2: int| 0 <= j1 < j2 < out.len() implies out[j1] < out[j2] by {
            if j2 < pre.len() {
                assert(pre[j1] < pre[j2]);
            } else {
                assert(out[j2] == list.len() - 1);
            }
        }
    }
}

/// Positions keep their records: each filter position holds a matching
/// record, and every matching record's position occurs.
pub proof fn lemma_filtered_indices_complete(list: Seq<Snapshot>, f: Seq<char>)
    ensures
        forall|j: int|
            0 <= j < filtered_indices(list, f).len() ==> matches_filter(
                list[#[trigger] filtered_indices(list, f)[j]],
                f,
            ),
        forall|i: int|
            0 <= i < list.len() && matches_filter(#[trigger] list[i], f) ==> filtered_indices(
                list,
                f,
            ).contains(i),
    decreases list.len(),
{
    lemma_filtered_indices_bounds(list, f);
    if list.len() > 0 {
        lemma_filtered_indices_complete(list.drop_last(), f);
        lemma_filtered_indices_bounds(list.drop_last(), f);
        let pre = filtered_indices(list.drop_last(), f);
        let out = filtered_indices(list, f);
        assert forall|j: int| 0 <= j < out.len() implies matches_filter(
            list[#[trigger] out[j]],
            f,
        ) by {
            if j < pre.len() {
                assert(out[j] == pre[j]);
                assert(list.drop_last()[pre[j]] == list[pre[j]]);
            }
        }
        assert forall|i: int|
            0 <= i < list.len() && matches_filter(#[trigger] list[i], f) implies out.contains(
            i,
        ) by {
            if i < list.len() - 1 {
                assert(list.drop_last()[i] == list[i]);
                assert(pre.contains(i));
                let j = choose|j: int| 0 <= j < pre.len() && pre[j] == i;
                assert(out[j] == i);
            } else {
                assert(out[out.len() - 1] == i);
            }
        }
    }
}

/// Appending one record to the list appends its position to the filter
/// positions exactly when it matches.
proof fn lemma_filtered_indices_step(list: Seq<Snapshot>, f: Seq<char>, i: int)
    requires
        0 <= i < list.len(),
    ensures
        filtered_indices(list.take(i + 1), f) == if matches_filter(list[i], f) {
            filtered_indices(list.take(i), f).push(i)
        } else {
            filtered_indices(list.take(i), f)
        },
{
    assert(list.take(i + 1).drop_last() =~= list.take(i));
    assert(list.take(i + 1).last() == list[i]);
    assert(list.take(i + 1).len() == i + 1);
}

/// A multi-select set with `id` toggled: removed when present, added when
/// absent.
pub open spec fn toggled(s: Set<u32>, id: u32) -> Set<u32> {
    if s.contains(id) {
        s.remove(id)
    } else {
        s.insert(id)
    }
}

/// Toggling is its own inverse: toggling the same id twice leaves the
/// multi-select set as it was.
pub proof fn lemma_toggle_involution(s: Set<u32>, id: u32)
    ensures
        toggled(toggled(s, id), id) == s,
{
    if s.contains(id) {
        assert(toggled(toggled(s, id), id) =~= s);
    } else {
        assert(toggled(toggled(s, id), id) =~= s);
    }
}

/// Filtering is a pure function of the raw list and the filter text:
/// equal inputs give the identical filtered view. Since the view-building
/// call promises exactly this view of its inputs, calling it twice with
/// the state unchanged yields identical output.
pub proof fn lemma_filter_pure(l1: Seq<Snapshot>, f1: Seq<char>, l2: Seq<Snapshot>, f2: Seq<char>)
    requires
        l1 == l2,
        f1 == f2,
    ensures
        filtered_view(l1, f1) == filtered_view(l2, f2),
{
}

/// An empty filter text keeps every record: the filtered view is the raw
/// list itself, in its current order.
pub proof fn lemma_empty_filter_keeps_all(list: Seq<Snapshot>, f: Seq<char>)
    requires
        f.len() == 0,
    ensures
        filtered_view(list, f) == list,
    decreases list.len(),
{
    if list.len() == 0 {
        assert(filtered_view(list, f) =~= list);
    } else {
        lemma_empty_filter_keeps_all(list.drop_last(), f);
        lemma_filtered_indices_bounds(list, f);
        lemma_filtered_indices_bounds(list.drop_last(), f);
        let pre = filtered_indices(list.drop_last(), f);
        let out = filtered_indices(list, f);
        assert(out == pre.push(list.len() - 1));
        assert(pre.len() == list.len() - 1);
        assert forall|j: int| 0 <= j < list.len() implies #[trigger] filtered_view(list, f)[j]
            == list[j] by {
            assert(filtered_view(list, f)[j] == list[out[j]]);
            if j < list.len() - 1 {
                assert(out[j] == pre[j]);
                assert(filtered_view(list.drop_last(), f)[j] == list.drop_last()[pre[j]]);
                assert(list.drop_last()[j] == list[j]);
                assert(list.drop_last()[pre[j]] == list[pre[j]]);
            } else {
                assert(out[j] == list.len() - 1);
            }
        }
        assert(filtered_view(list, f) =~= list);
    }
}

/// The whole application state, owned by the foreground loop and passed
/// explicitly to every dispatch and render routine.
pub struct App {
    /// The raw snapshot list, always ordered by the current sort key and
    /// direction.
    pub snapshots: Vec<Snapshot>,
    /// Cursor position, an index into the filtered view.
    pub cursor: Option<usize>,
    /// The status-line message.
    pub message: StatusMsg,
    /// Whether a background operation's result is being waited for.
    pub loading: bool,
    /// What the loading overlay reports.
    pub loading_message: LoadingMsg,
    /// Which kind of text entry owns the keyboard.
    pub input_mode: InputMode,
    /// The text of the status pane.
    pub status_text: String,
    /// Scroll offset of the details pane.
    pub details_scroll: u16,
    /// Scroll offset of the status pane.
    pub status_scroll: u16,
    /// Frame counter of the loading-spinner animation.
    pub spinner_state: usize,
    /// The delete-confirmation overlay is open.
    pub show_delete_popup: bool,
    /// The create-input overlay is open.
    pub show_create_popup: bool,
    /// Text typed into the create-input overlay.
    pub create_input: String,
    /// The filter-input overlay owns the keyboard.
    pub filtering: bool,
    /// The active filter text; empty means no filtering.
    pub filter_input: String,
    /// The apply-confirmation overlay is open.
    pub show_apply_popup: bool,
    /// The splash screen is still showing.
    pub show_splash: bool,
    /// The sort key the list is ordered by.
    pub current_sort_key: SortKey,
    /// The sort direction.
    pub sort_ascending: bool,
    /// Ticket of the one outstanding background operation, when there is
    /// one; a result is accepted only if it carries this ticket.
    pub pending: Option<u64>,
    /// The ticket the next submission will use.
    pub next_ticket: u64,
    /// Ids of the multi-selected snapshots, without duplicates.
    pub selected_ids: Vec<u32>,
}

impl App {
    /// The filtered view of this state's list.
    pub open spec fn fview(self) -> Seq<Snapshot> {
        filtered_view(self.snapshots@, self.filter_input@)
    }

    /// The multi-select set.
    pub open spec fn sel_set(self) -> Set<u32> {
        self.selected_ids@.to_set()
    }

    /// Well-formedness: the multi-select list holds no duplicates, the
    /// raw list is ordered by the current key and direction, and the
    /// outstanding ticket (if any) is never the one the next submission
    /// will take.
    pub open spec fn wf(self) -> bool {
        &&& self.selected_ids@.no_duplicates()
        &&& self.spinner_state < SPINNER_FRAME_COUNT
        &&& sorted_by_key(self.snapshots@, self.current_sort_key, self.sort_ascending)
        &&& match self.pending {
            Some(p) => p != self.next_ticket,
            None => true,
        }
    }

    /// The initial state: empty list, loading, splash showing, sorted by
    /// id ascending, nothing selected, no operation outstanding.
    pub fn new() -> (r: App)
        ensures
            r.wf(),
            r.snapshots@ == Seq::<Snapshot>::empty(),
            r.cursor == None::<usize>,
            r.message == StatusMsg::Initializing,
            r.loading == true,
            r.loading_message == LoadingMsg::Starting,
            r.input_mode == InputMode::Normal,
            r.status_text@ == Seq::<char>::empty(),
            r.details_scroll == 0u16,
            r.status_scroll == 0u16,
            r.spinner_state == 0usize,
            r.show_delete_popup == false,
            r.show_create_popup == false,
            r.create_input@ == Seq::<char>::empty(),
            r.filtering == false,
            r.filter_input@ == Seq::<char>::empty(),
            r.show_apply_popup == false,
            r.show_splash == true,
            r.current_sort_key == SortKey::Number,
            r.sort_ascending == true,
            r.pending == None::<u64>,
            r.next_ticket == 0u64,
            r.selected_ids@ == Seq::<u32>::empty(),
    {
        App {
            snapshots: Vec::new(),
            cursor: None,
            message: StatusMsg::Initializing,
            loading: true,
            loading_message: LoadingMsg::Starting,
            input_mode: InputMode::Normal,
            status_text: String::new(),
            details_scroll: 0,
            status_scroll: 0,
            spinner_state: 0,
            show_delete_popup: false,
            show_create_popup: false,
            create_input: String::new(),
            filtering: false,
            filter_input: String::new(),
            show_apply_popup: false,
            show_splash: true,
            current_sort_key: SortKey::Number,
            sort_ascending: true,
            pending: None,
            next_ticket: 0,
            selected_ids: Vec::new(),
        }
    }

    /// The raw-list positions of the records matching the filter text, in
    /// ascending order.
    pub fn filtered_raw_indices(&self) -> (r: Vec<usize>)
        ensures
            r@.map_values(|u: usize| u as int) == filtered_indices(
                self.snapshots@,
                self.filter_input@,
            ),
    {
        let f = chars_of(self.filter_input.as_str());
        let f_low = lower_chars(self.filter_input.as_str());
        let mut r: Vec<usize> = Vec::new();
        let n = self.snapshots.len();
        let mut i: usize = 0;
        while i < n
            invariant
                0 <= i <= n,
                n == self.snapshots@.len(),
                f@ == self.filter_input@,
                f_low@ == lower_of(self.filter_input@),
                r@.map_values(|u: usize| u as int) == filtered_indices(
                    self.snapshots@.take(i as int),
                    f@,
                ),
            decreases n - i,
        {
            let s = slice_index_get(self.snapshots.as_slice(), i);
            proof {
                lemma_filtered_indices_step(self.snapshots@, f@, i as int);
            }
            if snapshot_matches(s, &f, &f_low) {
                r.push(i);
                proof {
                    assert(r@.map_values(|u: usize| u as int) =~= filtered_indices(
                        self.snapshots@.take(i as int + 1),
                        f@,
                    ));
                }
            }
            i = i + 1;
        }
        proof {
            assert(self.snapshots@.take(n as int) =~= self.snapshots@);
        }
        r
    }

    /// The filtered, ordered view the cursor and navigation operate on,
    /// recomputed from the raw list and the filter text on every call.
    pub fn get_filtered_snapshots<'a>(&'a self) -> (r: Vec<&'a Snapshot>)
        ensures
            r@.len() == self.fview().len(),
            forall|j: int| 0 <= j < r@.len() ==> *(#[trigger] r@[j]) == self.fview()[j],
    {
        let idxs = self.filtered_raw_indices();
        proof {
            lemma_filtered_indices_bounds(self.snapshots@, self.filter_input@);
        }
        let ghost fi = filtered_indices(self.snapshots@, self.filter_input@);
        let mut r: Vec<&'a Snapshot> = Vec::new();
        let mut j: usize = 0;
        while j < idxs.len()
            invariant
                0 <= j <= idxs@.len(),
                idxs@.map_values(|u: usize| u as int) == fi,
                fi == filtered_indices(self.snapshots@, self.filter_input@),
                forall|m: int| 0 <= m < fi.len() ==> 0 <= #[trigger] fi[m] < self.snapshots@.len(),
                r@.len() == j,
                forall|m: int| 0 <= m < j ==> *(#[trigger] r@[m]) == self.fview()[m],
            decreases idxs@.len() - j,
        {
            let raw = idxs[j];
            proof {
                assert(fi[j as int] == idxs@[j as int] as int);
            }
            r.push(slice_index_get(self.snapshots.as_slice(), raw));
            proof {
                assert(self.fview()[j as int] == self.snapshots@[fi[j as int]]);
            }
            j = j + 1;
        }
        r
    }

    /// The record under the cursor, if the cursor is set and within the
    /// filtered view.
    pub fn get_selected_snapshot<'a>(&'a self) -> (r: Option<&'a Snapshot>)
        ensures
            match r {
                Some(p) => match self.cursor {
                    Some(c) => c < self.fview().len() && *p == self.fview()[c as int],
                    None => false,
                },
                None => match self.cursor {
                    Some(c) => c >= self.fview().len(),
                    None => true,
                },
            },
    {
        match self.cursor {
            None => None,
            Some(c) => {
                let idxs = self.filtered_raw_indices();
                if c < idxs.len() {
                    proof {
                        lemma_filtered_indices_bounds(self.snapshots@, self.filter_input@);
                        assert(self.fview()[c as int] == self.snapshots@[idxs@[c as int] as int]);
                    }
                    Some(slice_index_get(self.snapshots.as_slice(), idxs[c]))
                } else {
                    None
                }
            },
        }
    }

    /// Where the cursor moves on a downward step: one row down, wrapping
    /// from the last row of the filtered view to the first; unset stays
    /// unset only when the view is empty.
    pub open spec fn next_cursor(self) -> Option<usize> {
        let flen = self.fview().len();
        if flen == 0 {
            self.cursor
        } else {
            match self.cursor {
                Some(i) => if i + 1 >= flen {
                    Some(0usize)
                } else {
                    Some((i + 1) as usize)
                },
                None => Some(0usize),
            }
        }
    }

    /// Where the cursor moves on an upward step: one row up, wrapping from
    /// the first row of the filtered view to the last.
    pub open spec fn previous_cursor(self) -> Option<usize> {
        let flen = self.fview().len();
        if flen == 0 {
            self.cursor
        } else {
            match self.cursor {
                Some(i) => if i == 0 {
                    Some((flen - 1) as usize)
                } else {
                    Some((i - 1) as usize)
                },
                None => Some(0usize),
            }
        }
    }

    /// Moves the cursor one row down the filtered view, wrapping past the
    /// last row to the first; does nothing when the view is empty.
    pub fn next(&mut self)
        ensures
            *final(self) == (App { cursor: old(self).next_cursor(), ..*old(self) }),
    {
        let flen = self.filtered_raw_indices().len();
        if flen > 0 {
            let i = match self.cursor {
                Some(i) => if i >= flen - 1 {
                    0
                } else {
                    i + 1
                },
                None => 0,
            };
            self.cursor = Some(i);
        }
    }

    /// Moves the cursor one row up the filtered view, wrapping past the
    /// first row to the last; does nothing when the view is empty.
    pub fn previous(&mut self)
        ensures
            *final(self) == (App { cursor: old(self).previous_cursor(), ..*old(self) }),
    {
        let flen = self.filtered_raw_indices().len();
        if flen > 0 {
            let i = match self.cursor {
                Some(i) => if i == 0 {
                    flen - 1
                } else {
                    i - 1
                },
                None => 0,
            };
            self.cursor = Some(i);
        }
    }

    /// Toggles membership of the record under the cursor in the
    /// multi-select set; does nothing when no record is under the cursor.
    pub fn toggle_selection(&mut self)
        requires
            old(self).wf(),
        ensures
            final(self).wf(),
            match old(self).cursor {
                Some(c) => if c < old(self).fview().len() {
                    &&& final(self).sel_set() == toggled(
                        old(self).sel_set(),
                        old(self).fview()[c as int].number,
                    )
                    &&& *final(self) == (App {
                        selected_ids: final(self).selected_ids,
                        ..*old(self)
                    })
                } else {
                    *final(self) == *old(self)
                },
                None => *final(self) == *old(self),
            },
    {
        match self.cursor {
            None => (),
            Some(c) => {
                let idxs = self.filtered_raw_indices();
                if c < idxs.len() {
                    proof {
                        lemma_filtered_indices_bounds(self.snapshots@, self.filter_input@);
                        assert(self.fview()[c as int] == self.snapshots@[idxs@[c as int] as int]);
                    }
                    let snap = slice_index_get(self.snapshots.as_slice(), idxs[c]);
                    let id = snap.number;
                    toggle_id(&mut self.selected_ids, id);
                }
            },
        }
    }

    /// Empties the multi-select set.
    pub fn clear_selections(&mut self)
        ensures
            *final(self) == (App { selected_ids: final(self).selected_ids, ..*old(self) }),
            final(self).selected_ids@ == Seq::<u32>::empty(),
    {
        self.selected_ids.clear();
    }

    /// How many records are multi-selected.
    pub fn get_selected_count(&self) -> (r: usize)
        ensures
            r == self.selected_ids@.len(),
    {
        self.selected_ids.len()
    }

    /// The ids a destructive operation targets: the whole multi-select set
    /// when it is non-empty (the cursor is ignored then); otherwise the
    /// single id under the cursor; otherwise nothing.
    pub fn get_targets_for_delete(&self) -> (r: Vec<u32>)
        ensures
            self.selected_ids@.len() > 0 ==> r@ == self.selected_ids@,
            self.selected_ids@.len() == 0 ==> match self.cursor {
                Some(c) => if c < self.fview().len() {
                    r@ == seq![self.fview()[c as int].number]
                } else {
                    r@ == Seq::<u32>::empty()
                },
                None => r@ == Seq::<u32>::empty(),
            },
    {
        if self.selected_ids.len() > 0 {
            let mut r: Vec<u32> = Vec::new();
            let mut j: usize = 0;
            while j < self.selected_ids.len()
                invariant
                    0 <= j <= self.selected_ids@.len(),
                    r@ == self.selected_ids@.take(j as int),
                decreases self.selected_ids@.len() - j,
            {
                r.push(self.selected_ids[j]);
                proof {
                    assert(r@ =~= self.selected_ids@.take(j as int + 1));
                }
                j = j + 1;
            }
            proof {
                assert(self.selected_ids@.take(self.selected_ids@.len() as int)
                    =~= self.selected_ids@);
            }
            r
        } else {
            match self.get_selected_snapshot() {
                Some(snap) => {
                    let mut r: Vec<u32> = Vec::new();
                    r.push(snap.number);
                    proof {
                        assert(r@ =~= seq![snap.number]);
                    }
                    r
                },
                None => Vec::new(),
            }
        }
    }

    /// The single target an apply acts on: the id under the cursor.
    pub fn get_target_for_apply(&self) -> (r: Option<u32>)
        ensures
            match r {
                Some(id) => match self.cursor {
                    Some(c) => c < self.fview().len() && id == self.fview()[c as int].number,
                    None => false,
                },
                None => match self.cursor {
                    Some(c) => c >= self.fview().len(),
                    None => true,
                },
            },
    {
        match self.get_selected_snapshot() {
            Some(s) => Some(s.number),
            None => None,
        }
    }

    /// Re-sorts the raw list in place by the current key and direction,
    /// stably.
    pub fn sort_snapshots(&mut self)
        requires
            old(self).selected_ids@.no_duplicates(),
            old(self).spinner_state < SPINNER_FRAME_COUNT,
            match old(self).pending {
                Some(p) => p != old(self).next_ticket,
                None => true,
            },
        ensures
            final(self).wf(),
            *final(self) == (App { snapshots: final(self).snapshots, ..*old(self) }),
            final(self).snapshots@ == crate::sort::sort_ordered(
                old(self).snapshots@,
                old(self).current_sort_key,
                old(self).sort_ascending,
            ),
    {
        let k = self.current_sort_key;
        let asc = self.sort_ascending;
        crate::sort::sort_vec_by(&mut self.snapshots, k, asc);
        proof {
            crate::sort::lemma_sort_sorted(old(self).snapshots@, k, asc);
        }
    }

    /// Adopts a sort key: pressing the current key flips the direction,
    /// any other key is adopted ascending; the list is re-sorted stably
    /// either way.
    pub fn set_sort_key(&mut self, key: SortKey)
        requires
            old(self).wf(),
        ensures
            final(self).wf(),
            final(self).sort_ascending == (if old(self).current_sort_key == key {
                !old(self).sort_ascending
            } else {
                true
            }),
            final(self).snapshots@ == crate::sort::sort_ordered(
                old(self).snapshots@,
                key,
                final(self).sort_ascending,
            ),
            *final(self) == (App {
                current_sort_key: key,
                sort_ascending: final(self).sort_ascending,
                snapshots: final(self).snapshots,
                ..*old(self)
            }),
    {
        if self.current_sort_key == key {
            self.sort_ascending = !self.sort_ascending;
        } else {
            self.current_sort_key = key;
            self.sort_ascending = true;
        }
        self.sort_snapshots();
    }

    /// The header marker for a sort column: an arrow on the active key
    /// showing the direction, nothing elsewhere.
    pub fn get_sort_indicator(&self, key: SortKey) -> (r: &'static str)
        ensures
            r@ == spec_sort_indicator(self.current_sort_key, key, self.sort_ascending),
    {
        if self.current_sort_key == key {
            if self.sort_ascending {
                " ^"
            } else {
                " v"
            }
        } else {
            ""
        }
    }

    /// Advances the spinner animation by one frame while an operation is
    /// outstanding.
    pub fn on_tick(&mut self)
        requires
            old(self).wf(),
        ensures
            final(self).wf(),
            *final(self) == (App {
                spinner_state: if old(self).loading {
                    ((old(self).spinner_state + 1) % (SPINNER_FRAME_COUNT as int)) as usize
                } else {
                    old(self).spinner_state
                },
                ..*old(self)
            }),
    {
        if self.loading {
            self.spinner_state = (self.spinner_state + 1) % SPINNER_FRAME_COUNT;
        }
    }

    /// Scrolls the details pane one line, clamped at zero upward and
    /// saturating at the counter's top downward.
    pub fn scroll_details(&mut self, up: bool)
        ensures
            *final(self) == (App {
                details_scroll: scrolled(old(self).details_scroll, up),
                ..*old(self)
            }),
    {
        if up {
            if self.details_scroll > 0 {
                self.details_scroll = self.details_scroll - 1;
            }
        } else {
            if self.details_scroll < u16::MAX {
                self.details_scroll = self.details_scroll + 1;
            }
        }
    }

    /// Scrolls the status pane one line, clamped at zero upward and
    /// saturating at the counter's top downward.
    pub fn scroll_status(&mut self, up: bool)
        ensures
            *final(self) == (App {
                status_scroll: scrolled(old(self).status_scroll, up),
                ..*old(self)
            }),
    {
        if up {
            if self.status_scroll > 0 {
                self.status_scroll = self.status_scroll - 1;
            }
        } else {
            if self.status_scroll < u16::MAX {
                self.status_scroll = self.status_scroll + 1;
            }
        }
    }

    /// Dismisses the splash screen (on the first key, or when the front
    /// end decides its time is up).
    pub fn dismiss_splash(&mut self)
        ensures
            *final(self) == (App { show_splash: false, ..*old(self) }),
    {
        self.show_splash = false;
    }

    /// Records the outcome of a finished bulk delete: reports both counts
    /// in the message (leaving it alone when nothing was attempted) and
    /// empties the multi-select set.
    pub fn handle_delete_result(&mut self, success_count: usize, error_count: usize)
        ensures
            *final(self) == (App {
                message: final(self).message,
                selected_ids: final(self).selected_ids,
                ..*old(self)
            }),
            final(self).message == (if success_count > 0 || error_count > 0 {
                StatusMsg::Deleted { success: success_count, fail: error_count }
            } else {
                old(self).message
            }),
            final(self).selected_ids@ == Seq::<u32>::empty(),
    {
        if success_count > 0 || error_count > 0 {
            self.message = StatusMsg::Deleted { success: success_count, fail: error_count };
        }
        self.clear_selections();
    }
}

/// Tenths of a unit that a byte count amounts to, rounded half up.
pub open spec fn scaled_tenths(bytes: int, unit: int) -> int {
    (10 * bytes + unit / 2) / unit
}

/// The human-readable rendering of a byte count: plain bytes below one
/// kibibyte, otherwise one decimal place of the matching binary unit.
pub open spec fn spec_format_size(bytes: u64) -> Seq<char> {
    if bytes < 1024 {
        dec_rep(bytes as int) + "B"@
    } else if bytes < 1048576 {
        tenths_rep(scaled_tenths(bytes as int, 1024)) + "K"@
    } else if bytes < 1073741824 {
        tenths_rep(scaled_tenths(bytes as int, 1048576)) + "M"@
    } else {
        tenths_rep(scaled_tenths(bytes as int, 1073741824)) + "G"@
    }
}

/// A non-negative count of tenths rendered with one decimal place.
pub open spec fn tenths_rep(t: int) -> Seq<char> {
    dec_rep(t / 10) + "."@ + seq![crate::text::digit_char(t % 10)]
}

/// Renders a count of tenths with one decimal place.
fn tenths_string(t: u64) -> (r: String)
    ensures
        r@ == tenths_rep(t as int),
{
    let mut s = crate::text::dec_string(t / 10);
    s.append(".");
    s.append(crate::text::digit_str(t % 10));
    proof {
        assert(s@ =~= tenths_rep(t as int));
    }
    s
}

/// Renders a byte count for display: plain bytes below one kibibyte,
/// otherwise one decimal place of the matching binary unit, rounded half
/// up.
pub fn format_size(bytes: u64) -> (r: String)
    ensures
        r@ == spec_format_size(bytes),
{
    if bytes < 1024 {
        let mut s = crate::text::dec_string(bytes);
        s.append("B");
        proof {
            assert(s@ =~= spec_format_size(bytes));
        }
        s
    } else if bytes < 1048576 {
        let t = (10 * bytes + 512) / 1024;
        let mut s = tenths_string(t);
        s.append("K");
        proof {
            assert(s@ =~= spec_format_size(bytes));
        }
        s
    } else if bytes < 1073741824 {
        let t = (10 * bytes + 524288) / 1048576;
        let mut s = tenths_string(t);
        s.append("M");
        proof {
            assert(s@ =~= spec_format_size(bytes));
        }
        s
    } else {
        let wide = (10u128 * (bytes as u128) + 536870912u128) / 1073741824u128;
        proof {
            vstd::arithmetic::div_mod::lemma_div_is_ordered(
                10 * (bytes as int) + 536870912,
                10 * 0xffff_ffff_ffff_ffffu64 as int + 536870912,
                1073741824,
            );
        }
        let t = wide as u64;
        let mut s = tenths_string(t);
        s.append("G");
        proof {
            assert(s@ =~= spec_format_size(bytes));
        }
        s
    }
}

/// A scroll offset after one wheel notch: down adds a line (saturating at
/// the counter's top), up removes one (clamped at zero).
pub open spec fn scrolled(v: u16, up: bool) -> u16 {
    if up {
        if v > 0 {
            (v - 1) as u16
        } else {
            v
        }
    } else {
        if v < u16::MAX {
            (v + 1) as u16
        } else {
            v
        }
    }
}

/// The header marker text for a sort column.
pub open spec fn spec_sort_indicator(current: SortKey, key: SortKey, asc: bool) -> Seq<char> {
    if current == key {
        if asc {
            " ^"@
        } else {
            " v"@
        }
    } else {
        ""@
    }
}

/// Decides the filter predicate for one record; the case-folded filter
/// text is passed alongside to spare re-folding it per record.
fn snapshot_matches(s: &Snapshot, f: &Vec<char>, f_low: &Vec<char>) -> (r: bool)
    requires
        f_low@ == lower_of(f@),
    ensures
        r == matches_filter(*s, f@),
{
    if f.len() == 0 {
        return true;
    }
    let dl = lower_chars(s.description.as_str());
    if contains_chars(&dl, f_low) {
        return true;
    }
    let tl = lower_chars(s.snapshot_type.as_str());
    if contains_chars(&tl, f_low) {
        return true;
    }
    let ul = lower_chars(s.user.as_str());
    if contains_chars(&ul, f_low) {
        return true;
    }
    let nc = dec_chars(s.number as u64);
    contains_chars(&nc, f)
}

/// Toggles membership of `id` in a duplicate-free id list.
fn toggle_id(v: &mut Vec<u32>, id: u32)
    requires
        old(v)@.no_duplicates(),
    ensures
        final(v)@.no_duplicates(),
        final(v)@.to_set() == toggled(old(v)@.to_set(), id),
{
    let mut j: usize = 0;
    while j < v.len()
        invariant
            0 <= j <= v@.len(),
            v@ == old(v)@,
            old(v)@.no_duplicates(),
            forall|m: int| 0 <= m < j ==> v@[m] != id,
        decreases v@.len() - j,
    {
        if v[j] == id {
            v.remove(j);
            proof {
                let pre = old(v)@;
                let post = v@;
                assert(post == pre.remove(j as int));
                assert(post.no_duplicates()) by {
                    assert forall|a: int, b: int|
                        0 <= a < post.len() && 0 <= b < post.len() && a != b implies post[a]
                        != post[b] by {
                        let a0 = if a < j { a } else { a + 1 };
                        let b0 = if b < j { b } else { b + 1 };
                        assert(post[a] == pre[a0] && post[b] == pre[b0]);
                    }
                }
                assert(post.to_set() =~= toggled(pre.to_set(), id)) by {
                    assert(pre[j as int] == id);
                    assert(pre.to_set().contains(id));
                    assert forall|x: u32| post.to_set().contains(x) implies pre.to_set().remove(
                        id,
                    ).contains(x) by {
                        let m = choose|m: int| 0 <= m < post.len() && post[m] == x;
                        let m0 = if m < j { m } else { m + 1 };
                        assert(pre[m0] == x);
                        assert(x != id) by {
                            if m0 != j {
                                assert(pre[m0] != pre[j as int]);
                            }
                        }
                    }
                    assert forall|x: u32| pre.to_set().remove(id).contains(x)
                        implies post.to_set().contains(x) by {
                        let m0 = choose|m0: int| 0 <= m0 < pre.len() && pre[m0] == x;
                        let m = if m0 < j { m0 } else { m0 - 1 };
                        assert(m0 != j);
                        assert(post[m] == x);
                    }
                }
            }
            return;
        }
        j = j + 1;
    }
    v.push(id);
    proof {
        let pre = old(v)@;
        let post = v@;
        assert(!pre.to_set().contains(id)) by {
            if pre.contains(id) {
                let m = choose|m: int| 0 <= m < pre.len() && pre[m] == id;
                assert(pre[m] != id);
            }
        }
        assert(post.no_duplicates()) by {
            assert forall|a: int, b: int|
                0 <= a < post.len() && 0 <= b < post.len() && a != b implies post[a] != post[b] by {
                if a < pre.len() && b < pre.len() {
                    assert(post[a] == pre[a] && post[b] == pre[b]);
                } else if a < pre.len() {
                    assert(post[a] == pre[a] && post[b] == id);
                } else if b < pre.len() {
                    assert(post[a] == id && post[b] == pre[b]);
                }
            }
        }
        assert(post.to_set() =~= toggled(pre.to_set(), id)) by {
            assert forall|x: u32| post.to_set().contains(x) implies pre.to_set().insert(
                id,
            ).contains(x) by {
                let m = choose|m: int| 0 <= m < post.len() && post[m] == x;
                if m < pre.len() {
                    assert(pre[m] == x);
                }
            }
            assert forall|x: u32| pre.to_set().insert(id).contains(x) implies post.to_set()
                .contains(x) by {
                if x == id {
                    assert(post[post.len() - 1] == id);
                } else {
                    let m = choose|m: int| 0 <= m < pre.len() && pre[m] == x;
                    assert(post[m] == x);
                }
            }
        }
    }
}

} // verus!
