//! The interactive session: the loaded history, the query-filtered view of
//! it, the bookmark list, the selection cursor with its scrolling viewport,
//! and the mode flags, together with every operation the input layer calls.

use vstd::prelude::*;

use crate::shell::ShellType;
use crate::text::{
    chars_to_string, contains_chars, contains_seq, lower_of, lowercase, str_to_chars,
};

verus! {

broadcast use vstd::seq_lib::group_filter_ensures;

/// A cursor movement requested by the user.
#[derive(Debug, Clone, Copy, PartialEq, Eq)]
pub enum MoveDirection {
    Up,
    Down,
}

/// An entry matches a query when the lowercased query occurs in the
/// lowercased entry; an empty query matches everything.
pub open spec fn entry_matches(e: Seq<char>, q: Seq<char>) -> bool {
    q.len() == 0 || contains_seq(lower_of(e), lower_of(q))
}

/// The filtered view of a history under a query: the matching entries, in
/// their original order.
pub open spec fn filter_spec(h: Seq<Seq<char>>, q: Seq<char>) -> Seq<Seq<char>> {
    h.filter(|e: Seq<char>| entry_matches(e, q))
}

/// Filtering by an empty query keeps the whole history.
pub proof fn lemma_filter_empty_query(h: Seq<Seq<char>>, q: Seq<char>)
    requires
        q.len() == 0,
    ensures
        filter_spec(h, q) == h,
    decreases h.len(),
{
    reveal(Seq::filter);
    if h.len() == 0 {
        assert(filter_spec(h, q) =~= h);
    } else {
        lemma_filter_empty_query(h.drop_last(), q);
        assert(filter_spec(h, q) =~= h.drop_last().push(h.last()));
        assert(h.drop_last().push(h.last()) =~= h);
    }
}

/// Membership in a list with one element appended.
proof fn lemma_push_contains(s: Seq<Seq<char>>, y: Seq<char>, x: Seq<char>)
    ensures
        s.push(y).contains(x) <==> (s.contains(x) || x == y),
{
    if s.contains(x) {
        let i = choose|i: int| 0 <= i < s.len() && s[i] == x;
        assert(s.push(y)[i] == x);
    }
    assert(s.push(y)[s.len() as int] == y);
    if s.push(y).contains(x) {
        let i = choose|i: int| 0 <= i < s.push(y).len() && s.push(y)[i] == x;
        if i < s.len() {
            assert(s[i] == x);
        }
    }
}

/// Membership in a list with its last element dropped.
proof fn lemma_drop_last_contains(s: Seq<Seq<char>>, x: Seq<char>)
    requires
        s.len() > 0,
    ensures
        s.contains(x) <==> (s.drop_last().contains(x) || x == s.last()),
{
    if s.contains(x) {
        let i = choose|i: int| 0 <= i < s.len() && s[i] == x;
        if i < s.len() - 1 {
            assert(s.drop_last()[i] == x);
        }
    }
    if s.drop_last().contains(x) {
        let i = choose|i: int| 0 <= i < s.drop_last().len() && s.drop_last()[i] == x;
        assert(s[i] == x);
    }
    assert(s[s.len() - 1] == s.last());
}

/// No two entries of the list are equal.
pub open spec fn no_dups(s: Seq<Seq<char>>) -> bool {
    forall|i: int, j: int| 0 <= i < j < s.len() ==> s[i] != s[j]
}

/// The list with later repetitions of an entry dropped, keeping the first
/// occurrence of each value in order.
pub open spec fn dedup_spec(s: Seq<Seq<char>>) -> Seq<Seq<char>>
    decreases s.len(),
{
    if s.len() == 0 {
        Seq::empty()
    } else {
        let rest = dedup_spec(s.drop_last());
        if rest.contains(s.last()) {
            rest
        } else {
            rest.push(s.last())
        }
    }
}

/// Deduplication keeps exactly the members of the original list.
proof fn lemma_dedup_contains(s: Seq<Seq<char>>, x: Seq<char>)
    ensures
        dedup_spec(s).contains(x) <==> s.contains(x),
    decreases s.len(),
{
    if s.len() == 0 {
        if s.contains(x) {
            let i = choose|i: int| 0 <= i < s.len() && s[i] == x;
        }
        if dedup_spec(s).contains(x) {
            let i = choose|i: int| 0 <= i < dedup_spec(s).len() && dedup_spec(s)[i] == x;
        }
    } else {
        lemma_dedup_contains(s.drop_last(), x);
        lemma_dedup_contains(s.drop_last(), s.last());
        lemma_drop_last_contains(s, x);
        let rest = dedup_spec(s.drop_last());
        if rest.contains(s.last()) {
        } else {
            lemma_push_contains(rest, s.last(), x);
        }
    }
}

/// Deduplication yields a duplicate-free list with the same members.
pub proof fn lemma_dedup_spec(s: Seq<Seq<char>>)
    ensures
        no_dups(dedup_spec(s)),
        forall|x: Seq<char>| dedup_spec(s).contains(x) <==> s.contains(x),
    decreases s.len(),
{
    assert forall|x: Seq<char>| dedup_spec(s).contains(x) <==> s.contains(x) by {
        lemma_dedup_contains(s, x);
    }
    if s.len() > 0 {
        lemma_dedup_spec(s.drop_last());
        let rest = dedup_spec(s.drop_last());
        if !rest.contains(s.last()) {
            lemma_no_dups_push(rest, s.last());
        }
    }
}

/// Removing an element keeps a duplicate-free list duplicate-free.
proof fn lemma_no_dups_remove(s: Seq<Seq<char>>, pos: int)
    requires
        no_dups(s),
        0 <= pos < s.len(),
    ensures
        no_dups(s.remove(pos)),
{
    let r = s.remove(pos);
    assert forall|i: int, j: int| 0 <= i < j < r.len() implies r[i] != r[j] by {
        let si: int = if i < pos {
            i
        } else {
            i + 1
        };
        let sj: int = if j < pos {
            j
        } else {
            j + 1
        };
        assert(r[i] == s[si]);
        assert(r[j] == s[sj]);
    }
}

/// Appending a fresh element keeps a duplicate-free list duplicate-free.
proof fn lemma_no_dups_push(s: Seq<Seq<char>>, x: Seq<char>)
    requires
        no_dups(s),
        !s.contains(x),
    ensures
        no_dups(s.push(x)),
{
    let r = s.push(x);
    assert forall|i: int, j: int| 0 <= i < j < r.len() implies r[i] != r[j] by {
        if j < s.len() {
        } else {
            assert(r[j] == x);
            assert(r[i] == s[i]);
        }
    }
}

/// The position of the first occurrence of `x` in `s`, or `s.len()` if `x`
/// does not occur.
pub open spec fn first_ix_of(s: Seq<Seq<char>>, x: Seq<char>) -> int
    decreases s.len(),
{
    if s.len() == 0 {
        0
    } else if s.first() == x {
        0
    } else {
        1 + first_ix_of(s.drop_first(), x)
    }
}

/// `first_ix_of` is the unique position with no occurrence before it and an
/// occurrence (or the end of the list) at it.
pub proof fn lemma_first_ix_at(s: Seq<Seq<char>>, x: Seq<char>, i: int)
    requires
        0 <= i <= s.len(),
        forall|j: int| 0 <= j < i ==> s[j] != x,
        i < s.len() ==> s[i] == x,
    ensures
        first_ix_of(s, x) == i,
    decreases i,
{
    if s.len() == 0 {
    } else if s.first() == x {
        assert(i == 0);
    } else {
        lemma_first_ix_at(s.drop_first(), x, i - 1);
    }
}

/// The bookmark list after toggling one command: the command is removed if
/// present (by value equality), appended at the end otherwise.
pub open spec fn toggle_spec(bm: Seq<Seq<char>>, cmd: Seq<char>) -> Seq<Seq<char>> {
    if bm.contains(cmd) {
        bm.remove(first_ix_of(bm, cmd))
    } else {
        bm.push(cmd)
    }
}

/// Adding a command that is not bookmarked and toggling it again restores
/// the bookmark list exactly.
pub proof fn lemma_toggle_twice_identity(bm: Seq<Seq<char>>, cmd: Seq<char>)
    requires
        !bm.contains(cmd),
    ensures
        toggle_spec(toggle_spec(bm, cmd), cmd) == bm,
{
    let t1 = bm.push(cmd);
    assert(t1[bm.len() as int] == cmd);
    assert(t1.contains(cmd));
    assert forall|j: int| 0 <= j < bm.len() implies t1[j] != cmd by {
        assert(t1[j] == bm[j]);
        if bm[j] == cmd {
            assert(bm.contains(cmd));
        }
    }
    lemma_first_ix_at(t1, cmd, bm.len() as int);
    assert(t1.remove(bm.len() as int) =~= bm);
}

/// A selection index is valid for a list when it is inside the list, or
/// zero for an empty list.
pub open spec fn sel_in_range(sel: int, len: int) -> bool {
    if len == 0 {
        sel == 0
    } else {
        sel < len
    }
}

/// A selection clamped into a list: unchanged while it fits, else the last
/// index, or zero for an empty list.
pub open spec fn clamp_sel(sel: int, len: int) -> int {
    if len == 0 {
        0
    } else if sel < len {
        sel
    } else {
        len - 1
    }
}

/// The selection index after one cursor movement over a list of `len`
/// entries: up and down by one, stopping at the ends.
pub open spec fn moved_sel(sel: int, len: int, dir: MoveDirection) -> int {
    match dir {
        MoveDirection::Up => if sel > 0 {
            sel - 1
        } else {
            sel
        },
        MoveDirection::Down => if len > 0 && sel < len - 1 {
            sel + 1
        } else {
            sel
        },
    }
}

/// The viewport offset after repair: scrolled up to a selection above it,
/// scrolled down by exactly the deficit to a selection below it, untouched
/// while the selection is visible or the viewport height is unknown.
pub open spec fn repair_offset(sel: int, skipped: int, size: int) -> int {
    if size > 0 {
        if sel < skipped {
            sel
        } else if sel >= skipped + size {
            sel - size + 1
        } else {
            skipped
        }
    } else {
        skipped
    }
}

/// The session state: history, filtered view, bookmarks, cursor, viewport
/// and mode flags.  The input layer mutates it through the methods below;
/// the render layer reads the public fields once per frame.
pub struct App {
    /// The full decoded history, newest first; never mutated after load.
    pub history: Vec<String>,
    /// The entries of `history` matching `search_query`, in order.
    pub queried_history: Vec<String>,
    /// The selection index into the active list.
    pub selected: usize,
    /// Whether keystrokes currently edit the search query.
    pub search_mode: bool,
    /// The current search query.
    pub search_query: String,
    /// The index of the first visible row of the active list.
    pub skipped_items: usize,
    /// The viewport height in rows, as last reported by the render layer;
    /// zero until first measured.
    pub size: usize,
    /// Whether the help overlay is shown.
    pub show_help: bool,
    /// Whether the session should end.
    pub should_quit: bool,
    /// A transient message for the status line.
    pub message: String,
    /// The bookmarked commands, distinct, in insertion order.
    pub bookmarks: Vec<String>,
    /// Whether the bookmark list, rather than the filtered history, is the
    /// active list.
    pub bookmark_mode: bool,
    /// The shell dialect the history was loaded from.
    pub current_shell: ShellType,
}

impl App {
    /// The list the cursor currently moves over: the bookmarks in bookmark
    /// mode, the filtered history otherwise.
    pub open spec fn active_list(self) -> Seq<Seq<char>> {
        if self.bookmark_mode {
            self.bookmarks.deep_view()
        } else {
            self.queried_history.deep_view()
        }
    }

    /// The structural part of well-formedness: the selection is valid for
    /// the active list and the bookmarks are distinct.
    pub open spec fn wf_core(self) -> bool {
        &&& sel_in_range(self.selected as int, self.active_list().len() as int)
        &&& no_dups(self.bookmarks.deep_view())
    }

    /// Well-formedness: additionally, the filtered view is exactly the
    /// current query's filtering of the full history.
    pub open spec fn wf(self) -> bool {
        &&& self.wf_core()
        &&& self.queried_history.deep_view() == filter_spec(
            self.history.deep_view(),
            self.search_query@,
        )
    }

    /// The selection is visible in the viewport: at or below the first
    /// visible row, and within the viewport height when one is known.
    pub open spec fn viewport_ok(self) -> bool {
        &&& self.skipped_items <= self.selected
        &&& self.size > 0 ==> self.selected < self.skipped_items + self.size
    }

    /// Every field of `self` equals the corresponding field of `other`.
    pub open spec fn same_as(self, other: App) -> bool {
        &&& self.history == other.history
        &&& self.queried_history == other.queried_history
        &&& self.selected == other.selected
        &&& self.search_mode == other.search_mode
        &&& self.search_query == other.search_query
        &&& self.skipped_items == other.skipped_items
        &&& self.size == other.size
        &&& self.show_help == other.show_help
        &&& self.should_quit == other.should_quit
        &&& self.message == other.message
        &&& self.bookmarks == other.bookmarks
        &&& self.bookmark_mode == other.bookmark_mode
        &&& self.current_shell == other.current_shell
    }
}

/// Clones a list of strings.
fn clone_strings(v: &Vec<String>) -> (r: Vec<String>)
    ensures
        r.deep_view() == v.deep_view(),
{
    let mut out: Vec<String> = Vec::new();
    let mut i: usize = 0;
    while i < v.len()
        invariant
            i <= v.len(),
            out.len() == i,
            forall|k: int| 0 <= k < i ==> out.deep_view()[k] == v.deep_view()[k],
        decreases v.len() - i,
    {
        let ghost before = out.deep_view();
        out.push(v[i].clone());
        proof {
            assert(out.deep_view() =~~= before.push(v@[i as int]@));
        }
        i = i + 1;
    }
    proof {
        assert(out.deep_view() =~~= v.deep_view());
    }
    out
}

/// Finds the first bookmark equal to `s`, by value.
fn find_string(v: &Vec<String>, s: &String) -> (r: Option<usize>)
    ensures
        match r {
            Some(ix) => {
                &&& ix < v.len()
                &&& v.deep_view()[ix as int] == s@
                &&& first_ix_of(v.deep_view(), s@) == ix
                &&& v.deep_view().contains(s@)
            },
            None => !v.deep_view().contains(s@),
        },
{
    let mut i: usize = 0;
    while i < v.len()
        invariant
            i <= v.len(),
            forall|j: int| 0 <= j < i ==> v.deep_view()[j] != s@,
        decreases v.len() - i,
    {
        if v[i].eq(s) {
            proof {
                assert(v.deep_view()[i as int] == s@);
                assert(v.deep_view().contains(s@));
                lemma_first_ix_at(v.deep_view(), s@, i as int);
            }
            return Some(i);
        }
        i = i + 1;
    }
    proof {
        if v.deep_view().contains(s@) {
            let j = choose|j: int| 0 <= j < v.deep_view().len() && v.deep_view()[j] == s@;
        }
    }
    None
}

/// Whether the list holds a string equal to `s`.
fn contains_string(v: &Vec<String>, s: &String) -> (r: bool)
    ensures
        r == v.deep_view().contains(s@),
{
    match find_string(v, s) {
        Some(_) => true,
        None => false,
    }
}

/// Drops later repetitions from a list of strings, keeping first
/// occurrences in order.
fn dedup_strings(v: Vec<String>) -> (r: Vec<String>)
    ensures
        r.deep_view() == dedup_spec(v.deep_view()),
        no_dups(r.deep_view()),
{
    let mut out: Vec<String> = Vec::new();
    let mut i: usize = 0;
    proof {
        assert(v.deep_view().take(0) =~= Seq::<Seq<char>>::empty());
        assert(out.deep_view() =~~= dedup_spec(v.deep_view().take(0)));
    }
    while i < v.len()
        invariant
            i <= v.len(),
            out.deep_view() == dedup_spec(v.deep_view().take(i as int)),
        decreases v.len() - i,
    {
        let ghost hd = v.deep_view();
        let ghost before = out.deep_view();
        proof {
            assert(hd.take(i + 1).drop_last() =~= hd.take(i as int));
            assert(hd.take(i + 1).last() == hd[i as int]);
        }
        let present = contains_string(&out, &v[i]);
        if !present {
            out.push(v[i].clone());
            proof {
                assert(out.deep_view() =~~= before.push(hd[i as int]));
            }
        }
        i = i + 1;
    }
    proof {
        assert(v.deep_view().take(v@.len() as int) =~= v.deep_view());
        lemma_dedup_spec(v.deep_view());
    }
    out
}

/// Holds when `filter_spec` applied to the empty history is empty.
proof fn lemma_filter_nil(q: Seq<char>)
    ensures
        filter_spec(Seq::<Seq<char>>::empty(), q) == Seq::<Seq<char>>::empty(),
{
    reveal(Seq::filter);
}

/// One step of filtering: extending the history by one entry extends the
/// filtered view by that entry exactly when it matches.
proof fn lemma_filter_step(h: Seq<Seq<char>>, q: Seq<char>, i: int)
    requires
        0 <= i < h.len(),
    ensures
        filter_spec(h.take(i + 1), q) == (if entry_matches(h[i], q) {
            filter_spec(h.take(i), q).push(h[i])
        } else {
            filter_spec(h.take(i), q)
        }),
{
    reveal(Seq::filter);
    assert(h.take(i + 1).drop_last() =~= h.take(i));
    assert(h.take(i + 1).last() == h[i]);
}

/// Computes the filtered view: the entries of `history` whose lowercased
/// text contains the lowercased query, in order.
fn filter_history(history: &Vec<String>, query: &String) -> (r: Vec<String>)
    ensures
        r.deep_view() == filter_spec(history.deep_view(), query@),
{
    let q_empty = query.as_str().is_empty();
    let lowered_q = lowercase(query.as_str());
    let q_chars = str_to_chars(lowered_q.as_str());
    let mut out: Vec<String> = Vec::new();
    let mut i: usize = 0;
    proof {
        assert(history.deep_view().take(0) =~= Seq::<Seq<char>>::empty());
        lemma_filter_nil(query@);
        assert(out.deep_view() =~~= filter_spec(history.deep_view().take(0), query@));
    }
    while i < history.len()
        invariant
            i <= history.len(),
            out.deep_view() == filter_spec(history.deep_view().take(i as int), query@),
            q_chars@ == lower_of(query@),
            q_empty == (query@.len() == 0),
        decreases history.len() - i,
    {
        let ghost hd = history.deep_view();
        let ghost before = out.deep_view();
        let keep = if q_empty {
            true
        } else {
            let lowered_e = lowercase(history[i].as_str());
            let e_chars = str_to_chars(lowered_e.as_str());
            contains_chars(&e_chars, &q_chars)
        };
        proof {
            assert(keep == entry_matches(hd[i as int], query@));
            lemma_filter_step(hd, query@, i as int);
        }
        if keep {
            out.push(history[i].clone());
            proof {
                assert(out.deep_view() =~~= before.push(hd[i as int]));
            }
        }
        i = i + 1;
    }
    proof {
        assert(history.deep_view().take(history@.len() as int) =~= history.deep_view());
    }
    out
}

impl App {
    /// Builds a fresh session over an already-decoded history and an
    /// already-loaded bookmark list.  The filtered view starts as the whole
    /// history, the bookmark list is deduplicated, every flag starts off
    /// and the cursor starts at the top.
    pub fn new(history: Vec<String>, bookmarks: Vec<String>, current_shell: ShellType) -> (r: App)
        ensures
            r.wf(),
            r.history == history,
            r.queried_history.deep_view() == history.deep_view(),
            r.bookmarks.deep_view() == dedup_spec(bookmarks.deep_view()),
            r.selected == 0,
            r.skipped_items == 0,
            r.size == 0,
            !r.search_mode,
            !r.show_help,
            !r.should_quit,
            !r.bookmark_mode,
            r.search_query@ == Seq::<char>::empty(),
            r.message@ == Seq::<char>::empty(),
            r.current_shell == current_shell,
    {
        let queried = clone_strings(&history);
        let deduped = dedup_strings(bookmarks);
        let app = App {
            history,
            queried_history: queried,
            selected: 0,
            search_mode: false,
            search_query: String::new(),
            skipped_items: 0,
            size: 0,
            show_help: false,
            should_quit: false,
            message: String::new(),
            bookmarks: deduped,
            bookmark_mode: false,
            current_shell,
        };
        proof {
            lemma_filter_empty_query(app.history.deep_view(), app.search_query@);
        }
        app
    }

    /// The current search query.
    pub fn search_query(&self) -> (r: &str)
        ensures
            r@ == self.search_query@,
    {
        self.search_query.as_str()
    }

    /// Recomputes the filtered view from the full history and the current
    /// query, and clamps the selection into the new view.
    pub fn update_queried_history(&mut self)
        requires
            old(self).wf_core(),
        ensures
            final(self).wf(),
            final(self).queried_history.deep_view() == filter_spec(
                old(self).history.deep_view(),
                old(self).search_query@,
            ),
            final(self).selected == clamp_sel(
                old(self).selected as int,
                final(self).queried_history.len() as int,
            ),
            final(self).history == old(self).history,
            final(self).search_mode == old(self).search_mode,
            final(self).search_query == old(self).search_query,
            final(self).skipped_items == old(self).skipped_items,
            final(self).size == old(self).size,
            final(self).show_help == old(self).show_help,
            final(self).should_quit == old(self).should_quit,
            final(self).message == old(self).message,
            final(self).bookmarks == old(self).bookmarks,
            final(self).bookmark_mode == old(self).bookmark_mode,
            final(self).current_shell == old(self).current_shell,
    {
        let filtered = filter_history(&self.history, &self.search_query);
        self.queried_history = filtered;
        let qlen = self.queried_history.len();
        if qlen == 0 {
            self.selected = 0;
        } else if self.selected >= qlen {
            self.selected = qlen - 1;
        }
    }

    /// Appends one character to the search query and refilters.
    pub fn push_query(&mut self, c: char)
        requires
            old(self).wf(),
        ensures
            final(self).wf(),
            final(self).search_query@ == old(self).search_query@.push(c),
            final(self).queried_history.deep_view() == filter_spec(
                old(self).history.deep_view(),
                old(self).search_query@.push(c),
            ),
            final(self).selected == clamp_sel(
                old(self).selected as int,
                final(self).queried_history.len() as int,
            ),
            final(self).history == old(self).history,
            final(self).search_mode == old(self).search_mode,
            final(self).skipped_items == old(self).skipped_items,
            final(self).size == old(self).size,
            final(self).show_help == old(self).show_help,
            final(self).should_quit == old(self).should_quit,
            final(self).message == old(self).message,
            final(self).bookmarks == old(self).bookmarks,
            final(self).bookmark_mode == old(self).bookmark_mode,
            final(self).current_shell == old(self).current_shell,
    {
        let one = vec![c];
        let added = chars_to_string(&one);
        self.search_query.append(added.as_str());
        proof {
            assert(self.search_query@ =~= old(self).search_query@.push(c));
        }
        self.update_queried_history();
    }

    /// Removes the last character of the search query, if any, and
    /// refilters.
    pub fn pop_query(&mut self)
        requires
            old(self).wf(),
        ensures
            final(self).wf(),
            final(self).search_query@ == (if old(self).search_query@.len() > 0 {
                old(self).search_query@.drop_last()
            } else {
                old(self).search_query@
            }),
            final(self).queried_history.deep_view() == filter_spec(
                old(self).history.deep_view(),
                final(self).search_query@,
            ),
            final(self).selected == clamp_sel(
                old(self).selected as int,
                final(self).queried_history.len() as int,
            ),
            final(self).history == old(self).history,
            final(self).search_mode == old(self).search_mode,
            final(self).skipped_items == old(self).skipped_items,
            final(self).size == old(self).size,
            final(self).show_help == old(self).show_help,
            final(self).should_quit == old(self).should_quit,
            final(self).message == old(self).message,
            final(self).bookmarks == old(self).bookmarks,
            final(self).bookmark_mode == old(self).bookmark_mode,
            final(self).current_shell == old(self).current_shell,
    {
        let mut cs = str_to_chars(self.search_query.as_str());
        if cs.len() > 0 {
            cs.pop();
        }
        self.search_query = chars_to_string(&cs);
        self.update_queried_history();
    }

    /// Empties the search query and resets the filtered view to the whole
    /// history.
    pub fn clear_query(&mut self)
        requires
            old(self).wf(),
        ensures
            final(self).wf(),
            final(self).search_query@ == Seq::<char>::empty(),
            final(self).queried_history.deep_view() == old(self).history.deep_view(),
            final(self).selected == old(self).selected,
            final(self).history == old(self).history,
            final(self).search_mode == old(self).search_mode,
            final(self).skipped_items == old(self).skipped_items,
            final(self).size == old(self).size,
            final(self).show_help == old(self).show_help,
            final(self).should_quit == old(self).should_quit,
            final(self).message == old(self).message,
            final(self).bookmarks == old(self).bookmarks,
            final(self).bookmark_mode == old(self).bookmark_mode,
            final(self).current_shell == old(self).current_shell,
    {
        self.search_query = String::new();
        let full = clone_strings(&self.history);
        self.queried_history = full;
        proof {
            lemma_filter_empty_query(self.history.deep_view(), self.search_query@);
            assert(filter_spec(
                old(self).history.deep_view(),
                old(self).search_query@,
            ).len() <= old(self).history.deep_view().len());
        }
    }

    /// Moves the selection one step and repairs the viewport so the
    /// selection stays visible (when a viewport height is known).  A move
    /// at the boundary changes nothing when the selection was visible.
    pub fn move_selection(&mut self, direction: MoveDirection)
        requires
            old(self).wf(),
        ensures
            final(self).wf(),
            final(self).selected == moved_sel(
                old(self).selected as int,
                old(self).active_list().len() as int,
                direction,
            ),
            final(self).skipped_items == repair_offset(
                final(self).selected as int,
                old(self).skipped_items as int,
                old(self).size as int,
            ),
            old(self).size > 0 ==> final(self).viewport_ok(),
            (direction == MoveDirection::Up && old(self).selected == 0 && old(self).viewport_ok())
                ==> (final(self).selected == old(self).selected && final(self).skipped_items == old(
                self,
            ).skipped_items),
            (direction == MoveDirection::Down && old(self).selected + 1 >= old(
                self,
            ).active_list().len() && old(self).viewport_ok()) ==> (final(self).selected == old(
                self,
            ).selected && final(self).skipped_items == old(self).skipped_items),
            final(self).history == old(self).history,
            final(self).queried_history == old(self).queried_history,
            final(self).search_mode == old(self).search_mode,
            final(self).search_query == old(self).search_query,
            final(self).size == old(self).size,
            final(self).show_help == old(self).show_help,
            final(self).should_quit == old(self).should_quit,
            final(self).message == old(self).message,
            final(self).bookmarks == old(self).bookmarks,
            final(self).bookmark_mode == old(self).bookmark_mode,
            final(self).current_shell == old(self).current_shell,
    {
        let len = if self.bookmark_mode {
            self.bookmarks.len()
        } else {
            self.queried_history.len()
        };
        let max_index = if len == 0 {
            0
        } else {
            len - 1
        };
        match direction {
            MoveDirection::Up => {
                if self.selected > 0 {
                    self.selected = self.selected - 1;
                }
            },
            MoveDirection::Down => {
                if self.selected < max_index {
                    self.selected = self.selected + 1;
                }
            },
        }
        if self.size > 0 {
            if self.selected < self.skipped_items {
                self.skipped_items = self.selected;
            } else if self.selected - self.skipped_items >= self.size {
                self.skipped_items = self.selected - self.size + 1;
            }
        }
    }

    /// The list the cursor currently moves over.
    pub fn current_list(&self) -> (r: &Vec<String>)
        ensures
            r.deep_view() == self.active_list(),
    {
        if self.bookmark_mode {
            &self.bookmarks
        } else {
            &self.queried_history
        }
    }

    /// The command under the cursor, if the active list is not empty.
    pub fn selected_command(&self) -> (r: Option<&String>)
        ensures
            r is Some <==> self.selected < self.active_list().len(),
            r is Some ==> r->Some_0@ == self.active_list()[self.selected as int],
    {
        let list = self.current_list();
        if self.selected < list.len() {
            Some(&list[self.selected])
        } else {
            None
        }
    }

    /// Switches between the history view and the bookmark view; the active
    /// list changes identity, so the cursor and the viewport reset to the
    /// top.
    pub fn toggle_bookmark_mode(&mut self)
        requires
            old(self).wf(),
        ensures
            final(self).wf(),
            final(self).bookmark_mode == !old(self).bookmark_mode,
            final(self).selected == 0,
            final(self).skipped_items == 0,
            final(self).history == old(self).history,
            final(self).queried_history == old(self).queried_history,
            final(self).search_mode == old(self).search_mode,
            final(self).search_query == old(self).search_query,
            final(self).size == old(self).size,
            final(self).show_help == old(self).show_help,
            final(self).should_quit == old(self).should_quit,
            final(self).message == old(self).message,
            final(self).bookmarks == old(self).bookmarks,
            final(self).current_shell == old(self).current_shell,
    {
        self.bookmark_mode = !self.bookmark_mode;
        self.selected = 0;
        self.skipped_items = 0;
    }

    /// Toggles the bookmark for the command under the cursor: removes it if
    /// it is bookmarked, appends it otherwise.  With an empty active list
    /// nothing changes.  In bookmark mode the selection is re-clamped, since
    /// the active list itself changed.
    pub fn toggle_bookmark(&mut self)
        requires
            old(self).wf(),
        ensures
            final(self).wf(),
            old(self).active_list().len() == 0 ==> final(self).same_as(*old(self)),
            old(self).active_list().len() > 0 ==> ({
                let cmd = old(self).active_list()[old(self).selected as int];
                &&& final(self).bookmarks.deep_view() == toggle_spec(
                    old(self).bookmarks.deep_view(),
                    cmd,
                )
                &&& final(self).message@ == (if old(self).bookmarks.deep_view().contains(cmd) {
                    "Bookmark removed!"@
                } else {
                    "Bookmark added!"@
                })
                &&& final(self).selected == (if old(self).bookmark_mode {
                    clamp_sel(old(self).selected as int, final(self).bookmarks.len() as int)
                } else {
                    old(self).selected as int
                })
            }),
            final(self).history == old(self).history,
            final(self).queried_history == old(self).queried_history,
            final(self).search_mode == old(self).search_mode,
            final(self).search_query == old(self).search_query,
            final(self).skipped_items == old(self).skipped_items,
            final(self).size == old(self).size,
            final(self).show_help == old(self).show_help,
            final(self).should_quit == old(self).should_quit,
            final(self).bookmark_mode == old(self).bookmark_mode,
            final(self).current_shell == old(self).current_shell,
    {
        let list_len = if self.bookmark_mode {
            self.bookmarks.len()
        } else {
            self.queried_history.len()
        };
        if self.selected < list_len {
            let cmd = if self.bookmark_mode {
                self.bookmarks[self.selected].clone()
            } else {
                self.queried_history[self.selected].clone()
            };
            let ghost old_bm = self.bookmarks.deep_view();
            match find_string(&self.bookmarks, &cmd) {
                Some(pos) => {
                    self.bookmarks.remove(pos);
                    self.message = String::from_str("Bookmark removed!");
                    proof {
                        assert(self.bookmarks.deep_view() =~~= old_bm.remove(pos as int));
                        lemma_no_dups_remove(old_bm, pos as int);
                    }
                },
                None => {
                    self.bookmarks.push(cmd);
                    self.message = String::from_str("Bookmark added!");
                    proof {
                        assert(self.bookmarks.deep_view() =~~= old_bm.push(
                            old(self).active_list()[old(self).selected as int],
                        ));
                        lemma_no_dups_push(
                            old_bm,
                            old(self).active_list()[old(self).selected as int],
                        );
                    }
                },
            }
            if self.bookmark_mode {
                let blen = self.bookmarks.len();
                if blen == 0 {
                    self.selected = 0;
                } else if self.selected >= blen {
                    self.selected = blen - 1;
                }
            }
        }
    }

    /// Deletes the bookmark under the cursor and re-clamps the selection.
    /// Nothing changes when the cursor is outside the bookmark list.
    pub fn delete_bookmark(&mut self)
        requires
            old(self).wf(),
        ensures
            final(self).wf(),
            (old(self).bookmarks.len() > 0 && old(self).selected < old(self).bookmarks.len())
                ==> ({
                &&& final(self).bookmarks.deep_view() == old(self).bookmarks.deep_view().remove(
                    old(self).selected as int,
                )
                &&& final(self).selected == clamp_sel(
                    old(self).selected as int,
                    final(self).bookmarks.len() as int,
                )
                &&& final(self).message@ == "Bookmark deleted!"@
            }),
            !(old(self).bookmarks.len() > 0 && old(self).selected < old(self).bookmarks.len())
                ==> final(self).same_as(*old(self)),
            final(self).history == old(self).history,
            final(self).queried_history == old(self).queried_history,
            final(self).search_mode == old(self).search_mode,
            final(self).search_query == old(self).search_query,
            final(self).skipped_items == old(self).skipped_items,
            final(self).size == old(self).size,
            final(self).show_help == old(self).show_help,
            final(self).should_quit == old(self).should_quit,
            final(self).bookmark_mode == old(self).bookmark_mode,
            final(self).current_shell == old(self).current_shell,
    {
        if self.bookmarks.len() > 0 && self.selected < self.bookmarks.len() {
            let ghost old_bm = self.bookmarks.deep_view();
            self.bookmarks.remove(self.selected);
            proof {
                assert(self.bookmarks.deep_view() =~~= old_bm.remove(old(self).selected as int));
                lemma_no_dups_remove(old_bm, old(self).selected as int);
            }
            let blen = self.bookmarks.len();
            if blen == 0 {
                self.selected = 0;
            } else if self.selected >= blen {
                self.selected = blen - 1;
            }
            self.message = String::from_str("Bookmark deleted!");
        }
    }

    /// Enters search mode with a fresh, empty query.
    pub fn enter_search_mode(&mut self)
        requires
            old(self).wf(),
        ensures
            final(self).wf(),
            final(self).search_mode,
            final(self).search_query@ == Seq::<char>::empty(),
            final(self).queried_history.deep_view() == old(self).history.deep_view(),
            final(self).selected == old(self).selected,
            final(self).history == old(self).history,
            final(self).skipped_items == old(self).skipped_items,
            final(self).size == old(self).size,
            final(self).show_help == old(self).show_help,
            final(self).should_quit == old(self).should_quit,
            final(self).message == old(self).message,
            final(self).bookmarks == old(self).bookmarks,
            final(self).bookmark_mode == old(self).bookmark_mode,
            final(self).current_shell == old(self).current_shell,
    {
        self.search_mode = true;
        self.clear_query();
    }

    /// Leaves the innermost open overlay: search mode first (clearing the
    /// query), then the help window, then bookmark mode (resetting the
    /// cursor).
    pub fn exit_current_overlay(&mut self)
        requires
            old(self).wf(),
        ensures
            final(self).wf(),
            old(self).search_mode ==> ({
                &&& !final(self).search_mode
                &&& final(self).search_query@ == Seq::<char>::empty()
                &&& final(self).queried_history.deep_view() == old(self).history.deep_view()
                &&& final(self).show_help == old(self).show_help
                &&& final(self).bookmark_mode == old(self).bookmark_mode
                &&& final(self).selected == old(self).selected
                &&& final(self).skipped_items == old(self).skipped_items
            }),
            (!old(self).search_mode && old(self).show_help) ==> ({
                &&& !final(self).show_help
                &&& final(self).search_mode == old(self).search_mode
                &&& final(self).bookmark_mode == old(self).bookmark_mode
                &&& final(self).queried_history == old(self).queried_history
                &&& final(self).selected == old(self).selected
                &&& final(self).skipped_items == old(self).skipped_items
            }),
            (!old(self).search_mode && !old(self).show_help && old(self).bookmark_mode) ==> ({
                &&& !final(self).bookmark_mode
                &&& final(self).selected == 0
                &&& final(self).skipped_items == 0
                &&& final(self).queried_history == old(self).queried_history
                &&& final(self).show_help == old(self).show_help
                &&& final(self).search_mode == old(self).search_mode
            }),
            (!old(self).search_mode && !old(self).show_help && !old(self).bookmark_mode)
                ==> final(self).same_as(*old(self)),
            final(self).history == old(self).history,
            final(self).size == old(self).size,
            final(self).should_quit == old(self).should_quit,
            final(self).message == old(self).message,
            final(self).bookmarks == old(self).bookmarks,
            final(self).current_shell == old(self).current_shell,
    {
        if self.search_mode {
            self.search_mode = false;
            self.clear_query();
        } else if self.show_help {
            self.show_help = false;
        } else if self.bookmark_mode {
            self.toggle_bookmark_mode();
        }
    }

    /// Asks the surrounding loop to stop.
    pub fn request_quit(&mut self)
        requires
            old(self).wf(),
        ensures
            final(self).wf(),
            final(self).should_quit,
            final(self).history == old(self).history,
            final(self).queried_history == old(self).queried_history,
            final(self).selected == old(self).selected,
            final(self).search_mode == old(self).search_mode,
            final(self).search_query == old(self).search_query,
            final(self).skipped_items == old(self).skipped_items,
            final(self).size == old(self).size,
            final(self).show_help == old(self).show_help,
            final(self).message == old(self).message,
            final(self).bookmarks == old(self).bookmarks,
            final(self).bookmark_mode == old(self).bookmark_mode,
            final(self).current_shell == old(self).current_shell,
    {
        self.should_quit = true;
    }

    /// Records the viewport height reported by the render layer.
    pub fn set_size(&mut self, size: usize)
        ensures
            final(self).size == size,
            old(self).wf() ==> final(self).wf(),
            final(self).history == old(self).history,
            final(self).queried_history == old(self).queried_history,
            final(self).selected == old(self).selected,
            final(self).search_mode == old(self).search_mode,
            final(self).search_query == old(self).search_query,
            final(self).skipped_items == old(self).skipped_items,
            final(self).show_help == old(self).show_help,
            final(self).should_quit == old(self).should_quit,
            final(self).message == old(self).message,
            final(self).bookmarks == old(self).bookmarks,
            final(self).bookmark_mode == old(self).bookmark_mode,
            final(self).current_shell == old(self).current_shell,
    {
        self.size = size;
    }

    /// The help overlay's text.
    pub fn get_help_text(&self) -> (r: &'static str)
        ensures
            r@ == help_text(),
    {
        "
Navigation:
  Up/Down Arrow  - Move selection
  j/k            - Move selection up/down
  Enter          - Copy selected command
  /              - Start search (in input mode)
  h              - Toggle help
  q              - Quit

Search Mode:
  Type to filter history
  Press ESC to cancel search

Bookmark Mode:
  b - Add current command to bookmarks
  B - Toggle bookmark/history mode
  d - Delete selected bookmark
"
    }
}

/// The help overlay's text, as the specification sees it.
pub open spec fn help_text() -> Seq<char> {
    "
Navigation:
  Up/Down Arrow  - Move selection
  j/k            - Move selection up/down
  Enter          - Copy selected command
  /              - Start search (in input mode)
  h              - Toggle help
  q              - Quit

Search Mode:
  Type to filter history
  Press ESC to cancel search

Bookmark Mode:
  b - Add current command to bookmarks
  B - Toggle bookmark/history mode
  d - Delete selected bookmark
"@
}

/// Filtering is path-independent of the query's edit history: two
/// well-formed sessions over the same history and the same query show the
/// same filtered view, whatever sequence of pushes, pops and clears
/// produced each.
pub proof fn lemma_view_path_independent(a: App, b: App)
    requires
        a.wf(),
        b.wf(),
        a.history.deep_view() == b.history.deep_view(),
        a.search_query@ == b.search_query@,
    ensures
        a.queried_history.deep_view() == b.queried_history.deep_view(),
{
}

} // verus!
