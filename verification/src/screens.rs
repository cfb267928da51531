//! The state of each screen: which row is selected, what is being searched,
//! how logs are scrolled. Drawing is left to the host; these are the rules
//! by which the state moves.
use vstd::prelude::*;
use crate::filters::{kept, lemma_kept_all};
use crate::text::{contains, copy_str, occurs_at, spec_contains, views};

verus! {

// ---------------------------------------------------------------------------
// Moving a selection through a list
// ---------------------------------------------------------------------------

/// Moving down a list that stops at its ends: the row below, or the last row
/// when already there; the first row when nothing was selected; nothing in an
/// empty list.
pub open spec fn clamp_next(sel: Option<usize>, count: nat) -> Option<usize> {
    if count == 0 {
        None
    } else {
        match sel {
            Some(i) => if i >= count - 1 {
                Some((count - 1) as usize)
            } else {
                Some((i + 1) as usize)
            },
            None => Some(0),
        }
    }
}

/// Moving up a list that stops at its ends: the row above, or the first row
/// when already there; the first row when nothing was selected; nothing in an
/// empty list.
pub open spec fn clamp_previous(sel: Option<usize>, count: nat) -> Option<usize> {
    if count == 0 {
        None
    } else {
        match sel {
            Some(i) => if i == 0 {
                Some(0)
            } else {
                Some((i - 1) as usize)
            },
            None => Some(0),
        }
    }
}

/// Moving down a list that wraps around: from the last row (or beyond) to the
/// first; the first row when nothing was selected.
pub open spec fn wrap_next(sel: Option<usize>, count: nat) -> Option<usize>
    recommends
        count > 0,
{
    match sel {
        Some(i) => if i >= count - 1 {
            Some(0)
        } else {
            Some((i + 1) as usize)
        },
        None => Some(0),
    }
}

/// Moving up a list that wraps around: from the first row to the last; the
/// first row when nothing was selected.
pub open spec fn wrap_previous(sel: Option<usize>, count: nat) -> Option<usize>
    recommends
        count > 0,
{
    match sel {
        Some(i) => if i == 0 {
            Some((count - 1) as usize)
        } else {
            Some((i - 1) as usize)
        },
        None => Some(0),
    }
}

/// The selection points at a row of a list of `count` rows, or at nothing.
pub open spec fn in_range(sel: Option<usize>, count: nat) -> bool {
    sel matches Some(i) ==> i < count
}

fn clamp_next_of(sel: Option<usize>, count: usize) -> (r: Option<usize>)
    ensures
        r == clamp_next(sel, count as nat),
{
    if count == 0 {
        return None;
    }
    match sel {
        Some(i) => if i >= count - 1 {
            Some(count - 1)
        } else {
            Some(i + 1)
        },
        None => Some(0),
    }
}

fn clamp_previous_of(sel: Option<usize>, count: usize) -> (r: Option<usize>)
    ensures
        r == clamp_previous(sel, count as nat),
{
    if count == 0 {
        return None;
    }
    match sel {
        Some(i) => if i == 0 {
            Some(0)
        } else {
            Some(i - 1)
        },
        None => Some(0),
    }
}

fn wrap_next_of(sel: Option<usize>, count: usize) -> (r: Option<usize>)
    requires
        count > 0,
    ensures
        r == wrap_next(sel, count as nat),
{
    match sel {
        Some(i) => if i >= count - 1 {
            Some(0)
        } else {
            Some(i + 1)
        },
        None => Some(0),
    }
}

fn wrap_previous_of(sel: Option<usize>, count: usize) -> (r: Option<usize>)
    requires
        count > 0,
    ensures
        r == wrap_previous(sel, count as nat),
{
    match sel {
        Some(i) => if i == 0 {
            Some(count - 1)
        } else {
            Some(i - 1)
        },
        None => Some(0),
    }
}

/// Moving down a list always leaves the selection on one of its rows (or on
/// nothing when the list is empty), wherever it was before; moving up does
/// so from any row of the list (a selection past the end of a list that has
/// shrunk only moves up by one).
pub proof fn lemma_navigation_stays_in_range(sel: Option<usize>, count: nat)
    requires
        count <= usize::MAX,
    ensures
        in_range(clamp_next(sel, count), count),
        in_range(sel, count) ==> in_range(clamp_previous(sel, count), count),
        count > 0 ==> in_range(wrap_next(sel, count), count),
        count > 0 && in_range(sel, count) ==> in_range(wrap_previous(sel, count), count),
        count > 0 ==> clamp_next(sel, count) is Some && clamp_previous(sel, count) is Some,
        count == 0 ==> clamp_next(sel, count) is None && clamp_previous(sel, count) is None,
{
}

/// In a stopping list, moving down then up returns to the row one started
/// from, unless it was the last row; moving up then down likewise, unless it
/// was the first.
pub proof fn lemma_clamp_round_trip(i: usize, count: nat)
    requires
        count <= usize::MAX,
    ensures
        i + 1 < count ==> clamp_previous(clamp_next(Some(i), count), count) == Some(i),
        0 < i < count ==> clamp_next(clamp_previous(Some(i), count), count) == Some(i),
{
}

/// In a wrapping list, moving down then up, or up then down, always returns
/// to the row one started from.
pub proof fn lemma_wrap_round_trip(i: usize, count: nat)
    requires
        i < count <= usize::MAX,
    ensures
        wrap_previous(wrap_next(Some(i), count), count) == Some(i),
        wrap_next(wrap_previous(Some(i), count), count) == Some(i),
{
}

// ---------------------------------------------------------------------------
// Searchable lists
// ---------------------------------------------------------------------------

/// The container list: its selected row and its search.
pub struct DockerListState {
    pub selected: Option<usize>,
    pub search_query: String,
    pub is_searching: bool,
}

impl DockerListState {
    pub fn new() -> (s: DockerListState)
        ensures
            s.selected is None,
            s.search_query@ == Seq::<char>::empty(),
            !s.is_searching,
    {
        DockerListState { selected: None, search_query: String::new(), is_searching: false }
    }

    pub fn next(&mut self, item_count: usize)
        ensures
            final(self).selected == clamp_next(old(self).selected, item_count as nat),
            final(self).search_query == old(self).search_query,
            final(self).is_searching == old(self).is_searching,
    {
        self.selected = clamp_next_of(self.selected, item_count);
    }

    pub fn previous(&mut self, item_count: usize)
        ensures
            final(self).selected == clamp_previous(old(self).selected, item_count as nat),
            final(self).search_query == old(self).search_query,
            final(self).is_searching == old(self).is_searching,
    {
        self.selected = clamp_previous_of(self.selected, item_count);
    }
}

/// The port list: its selected row and its search.
pub struct PortListState {
    pub selected: Option<usize>,
    pub search_query: String,
    pub is_searching: bool,
}

impl PortListState {
    pub fn new() -> (s: PortListState)
        ensures
            s.selected is None,
            s.search_query@ == Seq::<char>::empty(),
            !s.is_searching,
    {
        PortListState { selected: None, search_query: String::new(), is_searching: false }
    }

    pub fn next(&mut self, item_count: usize)
        ensures
            final(self).selected == clamp_next(old(self).selected, item_count as nat),
            final(self).search_query == old(self).search_query,
            final(self).is_searching == old(self).is_searching,
    {
        self.selected = clamp_next_of(self.selected, item_count);
    }

    pub fn previous(&mut self, item_count: usize)
        ensures
            final(self).selected == clamp_previous(old(self).selected, item_count as nat),
            final(self).search_query == old(self).search_query,
            final(self).is_searching == old(self).is_searching,
    {
        self.selected = clamp_previous_of(self.selected, item_count);
    }
}

/// The service list: its selected row and its search.
pub struct ServiceListState {
    pub selected: Option<usize>,
    pub search_query: String,
    pub is_searching: bool,
}

impl ServiceListState {
    pub fn new() -> (s: ServiceListState)
        ensures
            s.selected is None,
            s.search_query@ == Seq::<char>::empty(),
            !s.is_searching,
    {
        ServiceListState { selected: None, search_query: String::new(), is_searching: false }
    }

    pub fn next(&mut self, item_count: usize)
        ensures
            final(self).selected == clamp_next(old(self).selected, item_count as nat),
            final(self).search_query == old(self).search_query,
            final(self).is_searching == old(self).is_searching,
    {
        self.selected = clamp_next_of(self.selected, item_count);
    }

    pub fn previous(&mut self, item_count: usize)
        ensures
            final(self).selected == clamp_previous(old(self).selected, item_count as nat),
            final(self).search_query == old(self).search_query,
            final(self).is_searching == old(self).is_searching,
    {
        self.selected = clamp_previous_of(self.selected, item_count);
    }
}

/// The column the process list is ordered by.
#[derive(Debug, Clone, Copy, PartialEq, Eq, Structural)]
pub enum SortColumn {
    Pid,
    Name,
    Cpu,
    Memory,
}

/// The process list: selection, search, ordering and tree mode.
pub struct ProcessListState {
    pub selected: Option<usize>,
    pub search_query: String,
    pub is_searching: bool,
    pub sort_by: SortColumn,
    pub sort_descending: bool,
    pub is_tree_view: bool,
}

impl ProcessListState {
    /// Nothing selected, no search, busiest processes first, flat list.
    pub fn new() -> (s: ProcessListState)
        ensures
            s.selected is None,
            s.search_query@ == Seq::<char>::empty(),
            !s.is_searching,
            s.sort_by == SortColumn::Cpu,
            s.sort_descending,
            !s.is_tree_view,
    {
        ProcessListState {
            selected: None,
            search_query: String::new(),
            is_searching: false,
            sort_by: SortColumn::Cpu,
            sort_descending: true,
            is_tree_view: false,
        }
    }

    pub fn next(&mut self, item_count: usize)
        ensures
            final(self).selected == clamp_next(old(self).selected, item_count as nat),
            final(self).search_query == old(self).search_query,
            final(self).is_searching == old(self).is_searching,
            final(self).sort_by == old(self).sort_by,
            final(self).sort_descending == old(self).sort_descending,
            final(self).is_tree_view == old(self).is_tree_view,
    {
        self.selected = clamp_next_of(self.selected, item_count);
    }

    pub fn previous(&mut self, item_count: usize)
        ensures
            final(self).selected == clamp_previous(old(self).selected, item_count as nat),
            final(self).search_query == old(self).search_query,
            final(self).is_searching == old(self).is_searching,
            final(self).sort_by == old(self).sort_by,
            final(self).sort_descending == old(self).sort_descending,
            final(self).is_tree_view == old(self).is_tree_view,
    {
        self.selected = clamp_previous_of(self.selected, item_count);
    }
}

/// A remote server as the server list shows it.
pub struct ServerInfo {
    pub name: String,
    pub address: String,
    pub status: String,
}

/// The server list, which wraps around at its ends.
pub struct ServerListState {
    pub selected: Option<usize>,
}

impl ServerListState {
    pub fn new() -> (s: ServerListState)
        ensures
            s.selected is None,
    {
        ServerListState { selected: None }
    }

    /// Moves down, wrapping; an empty list leaves the selection as it is.
    pub fn next(&mut self, len: usize)
        ensures
            final(self).selected == if len == 0 {
                old(self).selected
            } else {
                wrap_next(old(self).selected, len as nat)
            },
    {
        if len == 0 {
            return;
        }
        self.selected = wrap_next_of(self.selected, len);
    }

    /// Moves up, wrapping; an empty list leaves the selection as it is.
    pub fn previous(&mut self, len: usize)
        ensures
            final(self).selected == if len == 0 {
                old(self).selected
            } else {
                wrap_previous(old(self).selected, len as nat)
            },
    {
        if len == 0 {
            return;
        }
        self.selected = wrap_previous_of(self.selected, len);
    }
}

/// The workspace list and the item list of the selected workspace.
pub struct WorkspaceListState {
    pub selected: Option<usize>,
    pub item_selected: Option<usize>,
    pub search_query: String,
    pub is_searching: bool,
    pub focus_items: bool,
}

impl WorkspaceListState {
    pub fn new() -> (s: WorkspaceListState)
        ensures
            s.selected is None,
            s.item_selected is None,
            s.search_query@ == Seq::<char>::empty(),
            !s.is_searching,
            !s.focus_items,
    {
        WorkspaceListState {
            selected: None,
            item_selected: None,
            search_query: String::new(),
            is_searching: false,
            focus_items: false,
        }
    }

    /// Moves to the next workspace, wrapping, and forgets the selected item;
    /// an empty list selects nothing.
    pub fn next(&mut self, item_count: usize)
        ensures
            final(self).selected == if item_count == 0 {
                None
            } else {
                wrap_next(old(self).selected, item_count as nat)
            },
            final(self).item_selected is None,
            final(self).search_query == old(self).search_query,
            final(self).is_searching == old(self).is_searching,
            final(self).focus_items == old(self).focus_items,
    {
        self.item_selected = None;
        if item_count == 0 {
            self.selected = None;
            return;
        }
        self.selected = wrap_next_of(self.selected, item_count);
    }

    /// Moves to the previous workspace, wrapping, and forgets the selected
    /// item; an empty list selects nothing.
    pub fn previous(&mut self, item_count: usize)
        ensures
            final(self).selected == if item_count == 0 {
                None
            } else {
                wrap_previous(old(self).selected, item_count as nat)
            },
            final(self).item_selected is None,
            final(self).search_query == old(self).search_query,
            final(self).is_searching == old(self).is_searching,
            final(self).focus_items == old(self).focus_items,
    {
        self.item_selected = None;
        if item_count == 0 {
            self.selected = None;
            return;
        }
        self.selected = wrap_previous_of(self.selected, item_count);
    }

    /// Moves down the selected workspace's items, stopping at the last.
    pub fn item_next(&mut self, item_count: usize)
        ensures
            final(self).item_selected == clamp_next(old(self).item_selected, item_count as nat),
            final(self).selected == old(self).selected,
            final(self).search_query == old(self).search_query,
            final(self).is_searching == old(self).is_searching,
            final(self).focus_items == old(self).focus_items,
    {
        self.item_selected = clamp_next_of(self.item_selected, item_count);
    }

    /// Moves up the selected workspace's items, stopping at the first.
    pub fn item_previous(&mut self, item_count: usize)
        ensures
            final(self).item_selected == clamp_previous(
                old(self).item_selected,
                item_count as nat,
            ),
            final(self).selected == old(self).selected,
            final(self).search_query == old(self).search_query,
            final(self).is_searching == old(self).is_searching,
            final(self).focus_items == old(self).focus_items,
    {
        self.item_selected = clamp_previous_of(self.item_selected, item_count);
    }
}

// ---------------------------------------------------------------------------
// Log view
// ---------------------------------------------------------------------------

/// The log screen: the lines shown, where they come from, and how far down
/// they are scrolled. With auto-scroll on, the view follows the last line.
pub struct LogViewState {
    pub logs: Vec<String>,
    pub title: String,
    pub scroll: u16,
    pub auto_scroll: bool,
    pub service_name: Option<String>,
    pub container_id: Option<String>,
    pub search_query: String,
    pub is_searching: bool,
}

/// The log screen's state by value.
pub struct LogStateView {
    pub logs: Seq<Seq<char>>,
    pub title: Seq<char>,
    pub scroll: u16,
    pub auto_scroll: bool,
    pub service_name: Option<Seq<char>>,
    pub container_id: Option<Seq<char>>,
    pub query: Seq<char>,
    pub searching: bool,
}

/// The view of an optional text.
pub open spec fn opt_view(o: Option<String>) -> Option<Seq<char>> {
    match o {
        Some(s) => Some(s@),
        None => None,
    }
}

impl View for LogViewState {
    type V = LogStateView;

    open spec fn view(&self) -> LogStateView {
        LogStateView {
            logs: views(self.logs@),
            title: self.title@,
            scroll: self.scroll,
            auto_scroll: self.auto_scroll,
            service_name: opt_view(self.service_name),
            container_id: opt_view(self.container_id),
            query: self.search_query@,
            searching: self.is_searching,
        }
    }
}

/// The number of log lines as the log screen counts them (in a `u16`, wrapping).
pub open spec fn line_count(len: nat) -> u16 {
    (len % 0x10000) as u16
}

/// One line up: the line above, no longer following the last line; at the
/// top, unchanged.
pub open spec fn scrolled_up(l: LogStateView) -> LogStateView {
    if l.scroll > 0 {
        LogStateView { scroll: (l.scroll - 1) as u16, auto_scroll: false, ..l }
    } else {
        l
    }
}

/// One line down, up to `max`: reaching `max` follows the last line again;
/// at `max` or below it, unchanged.
pub open spec fn scrolled_down(l: LogStateView, max: u16) -> LogStateView {
    if l.scroll < max {
        let s = (l.scroll + 1) as u16;
        LogStateView { scroll: s, auto_scroll: if s == max { true } else { l.auto_scroll }, ..l }
    } else {
        l
    }
}

impl LogViewState {
    /// An empty log that follows its last line.
    pub fn new() -> (s: LogViewState)
        ensures
            s.logs@.len() == 0,
            s.title@ == Seq::<char>::empty(),
            s.scroll == 0,
            s.auto_scroll,
            s.service_name is None,
            s.container_id is None,
            s.search_query@ == Seq::<char>::empty(),
            !s.is_searching,
    {
        LogViewState {
            logs: Vec::new(),
            title: String::new(),
            scroll: 0,
            auto_scroll: true,
            service_name: None,
            container_id: None,
            search_query: String::new(),
            is_searching: false,
        }
    }

    /// Scrolls one line up, which stops following the last line; at the top
    /// nothing changes.
    pub fn scroll_up(&mut self)
        ensures
            final(self)@ == scrolled_up(old(self)@),
    {
        if self.scroll > 0 {
            self.scroll = self.scroll - 1;
            self.auto_scroll = false;
        }
    }

    /// Scrolls one line down, up to `max`; reaching `max` follows the last
    /// line again.
    pub fn scroll_down(&mut self, max: u16)
        ensures
            final(self)@ == scrolled_down(old(self)@, max),
    {
        if self.scroll < max {
            self.scroll = self.scroll + 1;
            if self.scroll == max {
                self.auto_scroll = true;
            }
        }
    }

    /// Replaces the lines shown.
    pub fn set_logs(&mut self, logs: Vec<String>)
        ensures
            final(self)@ == (LogStateView { logs: views(logs@), ..old(self)@ }),
    {
        self.logs = logs;
    }

    /// The lines shown: those containing the filter, in order.
    pub fn shown_lines(&self) -> (v: Vec<String>)
        ensures
            views(v@) == shown_log_lines(self@),
            self.search_query@.len() == 0 ==> views(v@) == views(self.logs@),
    {
        let ghost all = views(self.logs@);
        let ghost f = |line: Seq<char>| spec_contains(line, self.search_query@);
        let mut out: Vec<String> = Vec::new();
        let mut i: usize = 0;
        assert(all.take(0) =~= Seq::<Seq<char>>::empty());
        assert(views(out@) =~= kept(all.take(0), f));
        while i < self.logs.len()
            invariant
                i <= self.logs@.len(),
                all == views(self.logs@),
                f == (|line: Seq<char>| spec_contains(line, self.search_query@)),
                views(out@) == kept(all.take(i as int), f),
            decreases self.logs@.len() - i,
        {
            let line = self.logs[i].as_str();
            assert(all.take(i + 1).drop_last() == all.take(i as int));
            assert(all.take(i + 1).last() == line@);
            let ghost prev = out@;
            if contains(line, self.search_query.as_str()) {
                out.push(copy_str(line));
                assert(views(out@) =~= views(prev) + seq![line@]);
            } else {
                assert(views(out@) =~= views(prev) + Seq::<Seq<char>>::empty());
            }
            i = i + 1;
        }
        assert(all.take(all.len() as int) == all);
        proof {
            if self.search_query@.len() == 0 {
                assert forall|k: int| 0 <= k < all.len() implies f(#[trigger] all[k]) by {
                    assert(all[k].subrange(0, 0) =~= self.search_query@);
                    assert(occurs_at(all[k], self.search_query@, 0));
                }
                lemma_kept_all(all, f);
            }
        }
        out
    }

    /// Fits the scroll position to a view `height` lines high, counting only
    /// the lines shown: following the last line puts it at the bottom,
    /// otherwise it is kept but no lower than the bottom.
    pub fn fit_scroll(&mut self, height: u16)
        ensures
            final(self)@ == (LogStateView { scroll: fitted_scroll(old(self)@, height), ..old(self)@ }),
    {
        let n = self.shown_lines().len();
        let lc: u16 = (n % 0x10000) as u16;
        let bottom: u16 = if lc >= height {
            lc - height
        } else {
            0
        };
        if self.auto_scroll {
            self.scroll = bottom;
        } else if self.scroll > bottom {
            self.scroll = bottom;
        }
    }
}

/// The log lines shown: those containing the filter typed after `/`, in
/// order (all of them while the filter is empty).
pub open spec fn shown_log_lines(l: LogStateView) -> Seq<Seq<char>> {
    kept(l.logs, |line: Seq<char>| spec_contains(line, l.query))
}

/// The first shown line on screen when the last `height` shown lines fill
/// the view.
pub open spec fn bottom_line(l: LogStateView, height: u16) -> u16 {
    let lc = line_count(shown_log_lines(l).len());
    if lc >= height {
        (lc - height) as u16
    } else {
        0u16
    }
}

/// The scroll position fitted to a view `height` lines high.
pub open spec fn fitted_scroll(l: LogStateView, height: u16) -> u16 {
    let bottom = bottom_line(l, height);
    if l.auto_scroll {
        bottom
    } else if l.scroll <= bottom {
        l.scroll
    } else {
        bottom
    }
}

/// Scrolling one line down and then one line up (from above `max`) comes
/// back to the same line with the same lines shown, no longer following the
/// last one; scrolling down never passes `max`.
pub proof fn lemma_scroll_round_trip(l: LogStateView, max: u16)
    ensures
        l.scroll < max ==> ({
            let back = scrolled_up(scrolled_down(l, max));
            &&& back.scroll == l.scroll
            &&& back.logs == l.logs
            &&& back.title == l.title
            &&& !back.auto_scroll
        }),
        l.scroll <= max ==> scrolled_down(l, max).scroll <= max,
        scrolled_up(l).scroll <= l.scroll,
{
}

} // verus!
