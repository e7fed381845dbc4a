//! The immutable board configuration: folders of buttons, the hotbar, and the
//! related-word and variant substitution tables, together with the pagination
//! arithmetic of folders and of the hotbar.

use vstd::prelude::*;
use vstd::string::StrSliceExecFns;

use crate::button::Button;
use crate::text::str_eq;

verus! {

/// A named, paginated grid of optional button slots. Slot `(page, col, row)`
/// lives at index `page*rows*cols + row*cols + col`; an index beyond the
/// stored length means "no button here".
#[derive(Clone, Debug, PartialEq)]
pub struct Folder {
    pub name: String,
    pub id: String,
    pub toplevel: bool,
    pub immediate: bool,
    pub rows: usize,
    pub cols: usize,
    pub buttons: Vec<Option<Button>>,
}

/// A single paginated strip of frequently used buttons. Its page stride is
/// the *active folder's* column count, not its own grid size.
#[derive(Clone, Debug, PartialEq)]
pub struct Hotbar {
    pub rows: usize,
    pub cols: usize,
    pub buttons: Vec<Option<Button>>,
}

/// The aggregate configuration: folder list, hotbar, and the two substitution
/// tables, each an ordered list of (base label, alternate buttons) entries
/// looked up by first match.
#[derive(Clone, Debug)]
pub struct System {
    pub name: String,
    pub description: String,
    pub folders: Vec<Folder>,
    pub hotbar: Hotbar,
    pub variants: Vec<(String, Vec<Button>)>,
    pub related: Vec<(String, Vec<Button>)>,
}

/// First-match lookup in a substitution table: the button list of the first
/// entry whose base label equals `key`, or `None` when no entry matches.
pub open spec fn table_lookup(t: Seq<(String, Vec<Button>)>, key: Seq<char>) -> Option<Seq<Button>>
    decreases t.len(),
{
    if t.len() == 0 {
        None
    } else if t[0].0@ == key {
        Some(t[0].1@)
    } else {
        table_lookup(t.drop_first(), key)
    }
}

/// Walks a substitution table and returns the first entry for `key`.
pub fn table_get<'a>(t: &'a Vec<(String, Vec<Button>)>, key: &str) -> (r: Option<&'a Vec<Button>>)
    ensures
        match r {
            Some(v) => table_lookup(t@, key@) == Some(v@),
            None => table_lookup(t@, key@) is None,
        },
{
    let n = t.len();
    let mut i: usize = 0;
    proof {
        assert(t@.skip(0) =~= t@);
    }
    while i < n
        invariant
            n == t@.len(),
            i <= n,
            table_lookup(t@, key@) == table_lookup(t@.skip(i as int), key@),
        decreases n - i,
    {
        proof {
            assert(t@.skip(i as int).drop_first() =~= t@.skip(i + 1));
            assert(t@.skip(i as int)[0] == t@[i as int]);
        }
        if str_eq(t[i].0.as_str(), key) {
            return Some(&t[i].1);
        }
        i += 1;
    }
    None
}

/// Position of the first `::` separator in `s`, or `s.len()` when none occurs.
pub open spec fn sep_pos(s: Seq<char>) -> int
    decreases s.len(),
{
    if s.len() < 2 {
        s.len() as int
    } else if s[0] == ':' && s[1] == ':' {
        0
    } else {
        1 + sep_pos(s.drop_first())
    }
}

/// The top-level ancestor encoded by a folder id: the part before the first
/// `::` separator, or the whole id when there is none.
pub open spec fn toplevel_prefix(s: Seq<char>) -> Seq<char> {
    s.take(sep_pos(s))
}

/// `sep_pos` never leaves the sequence.
pub proof fn lemma_sep_pos_bounds(s: Seq<char>)
    ensures
        0 <= sep_pos(s) <= s.len(),
    decreases s.len(),
{
    if s.len() >= 2 && !(s[0] == ':' && s[1] == ':') {
        lemma_sep_pos_bounds(s.drop_first());
    }
}

/// When a separator starts at `i` and none starts earlier, `sep_pos` is `i`.
proof fn lemma_sep_pos_found(s: Seq<char>, i: int)
    requires
        0 <= i,
        i + 1 < s.len(),
        s[i] == ':' && s[i + 1] == ':',
        forall|j: int| 0 <= j < i ==> !((#[trigger] s[j]) == ':' && s[j + 1] == ':'),
    ensures
        sep_pos(s) == i,
    decreases i,
{
    if i == 0 {
    } else {
        let t = s.drop_first();
        assert forall|j: int| 0 <= j < i - 1 implies !((#[trigger] t[j]) == ':' && t[j + 1] == ':') by {
            assert(t[j] == s[j + 1]);
            assert(t[j + 1] == s[j + 2]);
        }
        assert(t[i - 1] == s[i]);
        assert(t[i] == s[i + 1]);
        lemma_sep_pos_found(t, i - 1);
    }
}

/// When no separator starts anywhere, `sep_pos` is the whole length.
proof fn lemma_sep_pos_none(s: Seq<char>)
    requires
        forall|j: int| 0 <= j && j + 1 < s.len() ==> !((#[trigger] s[j]) == ':' && s[j + 1] == ':'),
    ensures
        sep_pos(s) == s.len(),
    decreases s.len(),
{
    if s.len() < 2 {
    } else {
        let t = s.drop_first();
        assert forall|j: int| 0 <= j && j + 1 < t.len() implies !((#[trigger] t[j]) == ':' && t[j + 1] == ':') by {
            assert(t[j] == s[j + 1]);
            assert(t[j + 1] == s[j + 2]);
        }
        lemma_sep_pos_none(t);
    }
}

/// Finds the position of the first `::` separator, or the length when none
/// occurs.
fn find_sep(s: &str) -> (pos: usize)
    ensures
        pos as int == sep_pos(s@),
{
    let n = s.unicode_len();
    let mut i: usize = 0;
    while n - i > 1
        invariant
            n == s@.len(),
            i <= n,
            forall|j: int| 0 <= j < i ==> !((#[trigger] s@[j]) == ':' && s@[j + 1] == ':'),
        decreases n - i,
    {
        if s.get_char(i) == ':' && s.get_char(i + 1) == ':' {
            proof {
                lemma_sep_pos_found(s@, i as int);
            }
            return i;
        }
        i += 1;
    }
    proof {
        lemma_sep_pos_none(s@);
    }
    n
}

/// Whether a folder stands in the top-level selector.
pub open spec fn top_pred() -> spec_fn(Folder) -> bool {
    |f: Folder| f.toplevel
}

/// The subsequence of top-level folders, in configured order.
pub open spec fn spec_toplevels(folders: Seq<Folder>) -> Seq<Folder> {
    folders.filter(top_pred())
}

/// The folders a sequence of references points at.
pub open spec fn deref_folders(s: Seq<&Folder>) -> Seq<Folder> {
    s.map_values(|f: &Folder| *f)
}

impl Hotbar {
    /// The hotbar button shown at column `col` of hotbar page `page`, where a
    /// page advances by `folder_cols` positions: the stored slot at index
    /// `page*folder_cols + col`, or `None` past the stored length.
    pub open spec fn spec_get_button(&self, folder_cols: int, page: int, col: int) -> Option<
        Button,
    > {
        let idx = page * folder_cols + col;
        if 0 <= idx < self.buttons@.len() {
            self.buttons@[idx]
        } else {
            None
        }
    }

    /// Fetches the slot for `(page, col)` with the active folder's column
    /// count as the page stride; any out-of-range combination yields `None`.
    pub fn get_button(&self, folder_cols: usize, current_hotbar_page: usize, col: usize) -> (r:
        Option<&Button>)
        ensures
            match r {
                Some(b) => self.spec_get_button(
                    folder_cols as int,
                    current_hotbar_page as int,
                    col as int,
                ) == Some(*b),
                None => self.spec_get_button(
                    folder_cols as int,
                    current_hotbar_page as int,
                    col as int,
                ) is None,
            },
    {
        let len = self.buttons.len();
        match current_hotbar_page.checked_mul(folder_cols) {
            Some(offset) => match offset.checked_add(col) {
                Some(idx) => {
                    if idx < len {
                        self.buttons[idx].as_ref()
                    } else {
                        None
                    }
                },
                None => None,
            },
            None => {
                proof {
                    assert(current_hotbar_page * folder_cols + col >= len) by (nonlinear_arith)
                        requires
                            current_hotbar_page * folder_cols > usize::MAX,
                            col >= 0,
                            len <= usize::MAX,
                    ;
                }
                None
            },
        }
    }

    /// The page after `current`: one further when that page still has a
    /// stored position, otherwise back to page zero.
    pub open spec fn spec_next_page(&self, folder_cols: int, current: int) -> int {
        if (current + 1) * folder_cols < self.buttons@.len() {
            current + 1
        } else {
            0
        }
    }

    pub fn next_page(&self, folder_cols: usize, current_page: usize) -> (r: usize)
        requires
            folder_cols >= 1,
        ensures
            r == self.spec_next_page(folder_cols as int, current_page as int),
    {
        let len = self.buttons.len();
        match current_page.checked_add(1) {
            Some(cp1) => match cp1.checked_mul(folder_cols) {
                Some(skipped) => {
                    if skipped < len {
                        cp1
                    } else {
                        0
                    }
                },
                None => {
                    proof {
                        assert((current_page + 1) * folder_cols >= len) by (nonlinear_arith)
                            requires
                                (current_page + 1) * folder_cols > usize::MAX,
                                len <= usize::MAX,
                        ;
                    }
                    0
                },
            },
            None => {
                proof {
                    assert((current_page + 1) * folder_cols >= len) by (nonlinear_arith)
                        requires
                            folder_cols >= 1,
                            current_page + 1 > usize::MAX,
                            len <= usize::MAX,
                    ;
                }
                0
            },
        }
    }
}

impl Folder {
    /// The button of slot `(page, col, row)`: the stored slot at index
    /// `page*rows*cols + row*cols + col`, or `None` past the stored length.
    pub open spec fn spec_get_button(&self, page: int, col: int, row: int) -> Option<Button> {
        let idx = page * (self.rows * self.cols) + row * self.cols + col;
        if 0 <= idx < self.buttons@.len() {
            self.buttons@[idx]
        } else {
            None
        }
    }

    /// Fetches the slot for `(page, col, row)`; both genuinely empty slots
    /// and out-of-range combinations uniformly yield `None`.
    pub fn get_button(&self, current_page: usize, col: usize, row: usize) -> (r: Option<&Button>)
        requires
            self.rows * self.cols <= usize::MAX,
        ensures
            match r {
                Some(b) => self.spec_get_button(current_page as int, col as int, row as int)
                    == Some(*b),
                None => self.spec_get_button(current_page as int, col as int, row as int) is None,
            },
    {
        let len = self.buttons.len();
        let page_size = self.rows * self.cols;
        match current_page.checked_mul(page_size) {
            Some(offset) => match row.checked_mul(self.cols) {
                Some(row_offset) => match row_offset.checked_add(col) {
                    Some(position) => match offset.checked_add(position) {
                        Some(idx) => {
                            if idx < len {
                                self.buttons[idx].as_ref()
                            } else {
                                None
                            }
                        },
                        None => None,
                    },
                    None => None,
                },
                None => {
                    proof {
                        assert(current_page * page_size + row * self.cols + col >= len)
                            by (nonlinear_arith)
                            requires
                                row * self.cols > usize::MAX,
                                current_page >= 0,
                                page_size >= 0,
                                col >= 0,
                                len <= usize::MAX,
                        ;
                    }
                    None
                },
            },
            None => {
                proof {
                    assert(current_page * page_size + row * self.cols + col >= len)
                        by (nonlinear_arith)
                        requires
                            current_page * page_size > usize::MAX,
                            row >= 0,
                            self.cols >= 0,
                            col >= 0,
                            len <= usize::MAX,
                    ;
                }
                None
            },
        }
    }

    /// Whether the stored buttons overflow a single `rows x cols` page.
    pub fn needs_pagination(&self) -> (r: bool)
        requires
            self.rows * self.cols <= usize::MAX,
        ensures
            r == (self.buttons@.len() > self.rows * self.cols),
    {
        self.buttons.len() > (self.rows * self.cols)
    }

    /// The page after `current`: zero when a single page suffices; otherwise
    /// one further when that page still has a stored position, else back to
    /// page zero.
    pub open spec fn spec_next_page(&self, current: int) -> int {
        let page_size = self.rows * self.cols;
        if self.buttons@.len() <= page_size {
            0
        } else if (current + 1) * page_size < self.buttons@.len() {
            current + 1
        } else {
            0
        }
    }

    /// How many pages the stored buttons fill, for display: the length
    /// divided by the page size, rounded up, so that a last page holding even
    /// a single button still counts as a full page.
    pub open spec fn spec_page_count(&self) -> int {
        let page_size = (self.rows * self.cols) as int;
        let len = self.buttons@.len() as int;
        if len % page_size == 0 {
            len / page_size
        } else {
            len / page_size + 1
        }
    }

    pub fn page_count(&self) -> (r: usize)
        requires
            1 <= self.rows * self.cols <= usize::MAX,
        ensures
            r == self.spec_page_count(),
    {
        let page_size = self.rows * self.cols;
        let len = self.buttons.len();
        let full: usize = len / page_size;
        if len % page_size == 0 {
            full
        } else {
            proof {
                assert(len >= 1) by (nonlinear_arith)
                    requires
                        page_size >= 1,
                        len >= 0,
                        len % page_size != 0,
                ;
                assert(len / page_size < len) by (nonlinear_arith)
                    requires
                        page_size >= 1,
                        len >= 1,
                        len % page_size != 0,
                ;
            }
            full + 1
        }
    }

    /// Law: the pages of `spec_page_count` cover the stored buttons, and no
    /// smaller number of pages does.
    pub proof fn lemma_page_count_tight(&self)
        requires
            self.rows * self.cols >= 1,
        ensures
            self.spec_page_count() * (self.rows * self.cols) >= self.buttons@.len(),
            self.buttons@.len() > (self.spec_page_count() - 1) * (self.rows * self.cols)
                || self.buttons@.len() == 0,
    {
        let ps = self.rows * self.cols;
        let len = self.buttons@.len() as int;
        vstd::arithmetic::div_mod::lemma_fundamental_div_mod(len, ps);
        vstd::arithmetic::div_mod::lemma_mod_bound(len, ps);
        assert(self.spec_page_count() * ps >= len) by (nonlinear_arith)
            requires
                ps >= 1,
                len == (len / ps) * ps + len % ps,
                0 <= len % ps < ps,
                self.spec_page_count() == if len % ps == 0 { len / ps } else { len / ps + 1 },
        ;
        assert(len > (self.spec_page_count() - 1) * ps || len == 0) by (nonlinear_arith)
            requires
                ps >= 1,
                len == (len / ps) * ps + len % ps,
                0 <= len % ps < ps,
                len >= 0,
                self.spec_page_count() == if len % ps == 0 { len / ps } else { len / ps + 1 },
        ;
    }

    pub fn next_page(&self, current_page: usize) -> (r: usize)
        requires
            1 <= self.rows * self.cols <= usize::MAX,
        ensures
            r == self.spec_next_page(current_page as int),
    {
        if !self.needs_pagination() {
            return 0;
        }

        let page_size = self.rows * self.cols;
        let len = self.buttons.len();
        match current_page.checked_add(1) {
            Some(cp1) => match cp1.checked_mul(page_size) {
                Some(skipped) => {
                    if skipped < len {
                        cp1
                    } else {
                        0
                    }
                },
                None => {
                    proof {
                        assert((current_page + 1) * page_size >= len) by (nonlinear_arith)
                            requires
                                (current_page + 1) * page_size > usize::MAX,
                                len <= usize::MAX,
                        ;
                    }
                    0
                },
            },
            None => {
                proof {
                    assert((current_page + 1) * page_size >= len) by (nonlinear_arith)
                        requires
                            page_size >= 1,
                            current_page + 1 > usize::MAX,
                            len <= usize::MAX,
                    ;
                }
                0
            },
        }
    }
}

impl System {
    /// The folders reachable directly from the folder selector, in their
    /// configured order.
    pub fn toplevel_folders(&self) -> (r: Vec<&Folder>)
        ensures
            deref_folders(r@) == spec_toplevels(self.folders@),
    {
        broadcast use Seq::lemma_filter_push;

        let mut folders: Vec<&Folder> = Vec::new();
        let n = self.folders.len();
        let mut i: usize = 0;
        proof {
            assert(self.folders@.take(0).filter(top_pred()) =~= Seq::<Folder>::empty());
            assert(deref_folders(folders@) =~= Seq::<Folder>::empty());
        }
        while i < n
            invariant
                n == self.folders@.len(),
                i <= n,
                deref_folders(folders@) == self.folders@.take(i as int).filter(top_pred()),
            decreases n - i,
        {
            proof {
                assert(self.folders@.take(i as int).push(self.folders@[i as int]) =~= self.folders@.take(
                    i + 1,
                ));
                Seq::lemma_filter_push(
                    self.folders@.take(i as int),
                    self.folders@[i as int],
                    top_pred(),
                );
            }
            if self.folders[i].toplevel {
                let ghost prev = folders@;
                folders.push(&self.folders[i]);
                proof {
                    assert(deref_folders(folders@) =~= deref_folders(prev).push(
                        self.folders@[i as int],
                    ));
                }
            }
            i += 1;
        }
        proof {
            assert(self.folders@.take(n as int) =~= self.folders@);
        }
        folders
    }

    /// Index of the first folder whose id is `id`: the navigation target a
    /// button's folder reference names, or `None` when no folder has that id.
    pub fn folder_index(&self, id: &str) -> (r: Option<usize>)
        ensures
            match r {
                Some(k) => 0 <= k < self.folders@.len() && self.folders@[k as int].id@ == id@
                    && (forall|j: int| 0 <= j < k ==> self.folders@[j].id@ != id@),
                None => forall|j: int| 0 <= j < self.folders@.len() ==> self.folders@[j].id@ != id@,
            },
    {
        let n = self.folders.len();
        let mut i: usize = 0;
        while i < n
            invariant
                n == self.folders@.len(),
                i <= n,
                forall|j: int| 0 <= j < i ==> self.folders@[j].id@ != id@,
            decreases n - i,
        {
            if str_eq(self.folders[i].id.as_str(), id) {
                return Some(i);
            }
            i += 1;
        }
        None
    }

    /// Index, among the top-level folders, of the top-level ancestor that
    /// folder `folder`'s id encodes (its id up to the first `::`). The caller
    /// must name a folder whose ancestor exists: a configuration in which it
    /// does not is invalid.
    pub fn toplevel_folder_for(&self, folder: usize) -> (r: usize)
        requires
            folder < self.folders@.len(),
            exists|k: int|
                0 <= k < spec_toplevels(self.folders@).len() && spec_toplevels(self.folders@)[k].id@
                    == toplevel_prefix(self.folders@[folder as int].id@),
        ensures
            ({
                let tops = spec_toplevels(self.folders@);
                let prefix = toplevel_prefix(self.folders@[folder as int].id@);
                &&& 0 <= r < tops.len()
                &&& tops[r as int].id@ == prefix
                &&& forall|j: int| 0 <= j < r ==> tops[j].id@ != prefix
            }),
    {
        let ghost tops_spec = spec_toplevels(self.folders@);
        let ghost prefix_spec = toplevel_prefix(self.folders@[folder as int].id@);

        let id: &str = self.folders[folder].id.as_str();
        let pos = find_sep(id);
        proof {
            lemma_sep_pos_bounds(id@);
        }
        let prefix: &str = id.substring_char(0, pos);
        proof {
            assert(prefix@ == prefix_spec);
        }

        let tops = self.toplevel_folders();
        let m = tops.len();
        let mut k: usize = 0;
        while k < m
            invariant
                m == tops_spec.len(),
                folder < self.folders@.len(),
                tops_spec == spec_toplevels(self.folders@),
                prefix_spec == toplevel_prefix(self.folders@[folder as int].id@),
                deref_folders(tops@) == tops_spec,
                m == tops@.len(),
                k <= m,
                prefix@ == prefix_spec,
                forall|j: int| 0 <= j < k ==> tops_spec[j].id@ != prefix_spec,
                exists|j: int| 0 <= j < tops_spec.len() && tops_spec[j].id@ == prefix_spec,
            decreases m - k,
        {
            proof {
                assert(*tops@[k as int] == tops_spec[k as int]);
            }
            if str_eq(tops[k].id.as_str(), prefix) {
                return k;
            }
            k += 1;
        }
        proof {
            assert(false);
        }
        0
    }
}

} // verus!
