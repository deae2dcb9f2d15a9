//! The directory navigator: a cursor over one directory's subdirectories.

use vstd::prelude::*;
use vstd::string::*;

verus! {

/// The parent that `std::path::Path::parent` gives for a path text.
pub uninterp spec fn parent_of(p: Seq<char>) -> Option<Seq<char>>;

/// The text that `str::to_lowercase` gives.
pub uninterp spec fn lower_of(s: Seq<char>) -> Seq<char>;

/// Relies on `std::path::Path::parent`: the parent of a path, `None` at a
/// root or for an empty path; it depends on the path text alone.
#[verifier::external_body]
pub(crate) fn parent_path(p: &str) -> (r: Option<String>)
    ensures
        match r {
            Some(q) => parent_of(p@) == Some(q@),
            None => parent_of(p@) == None::<Seq<char>>,
        },
{
    std::path::Path::new(p).parent().map(|q| q.to_string_lossy().to_string())
}

/// Relies on `str::to_lowercase`: the lowercase form depends on the text alone.
#[verifier::external_body]
pub(crate) fn to_lower(s: &str) -> (r: String)
    ensures
        r@ == lower_of(s@),
{
    s.to_lowercase()
}

/// Lexicographic order of character sequences by code point, the order of
/// `String`'s comparison.
pub open spec fn seq_le(a: Seq<char>, b: Seq<char>) -> bool
    decreases a.len(),
{
    if a.len() == 0 {
        true
    } else if b.len() == 0 {
        false
    } else if a[0] != b[0] {
        a[0] < b[0]
    } else {
        seq_le(a.drop_first(), b.drop_first())
    }
}

/// Any two sequences are ordered one way or the other.
pub proof fn lemma_seq_le_total(a: Seq<char>, b: Seq<char>)
    ensures
        seq_le(a, b) || seq_le(b, a),
    decreases a.len(),
{
    if a.len() > 0 && b.len() > 0 && a[0] == b[0] {
        lemma_seq_le_total(a.drop_first(), b.drop_first());
    }
}

/// Compares two strings in `seq_le` order.
pub fn str_le(a: &str, b: &str) -> (r: bool)
    ensures
        r == seq_le(a@, b@),
{
    let na = a.unicode_len();
    let nb = b.unicode_len();
    let mut k: usize = 0;
    assert(a@.subrange(0, na as int) =~= a@);
    assert(b@.subrange(0, nb as int) =~= b@);
    while k < na && k < nb && a.get_char(k) == b.get_char(k)
        invariant
            na == a@.len(),
            nb == b@.len(),
            k <= na,
            k <= nb,
            seq_le(a@, b@) == seq_le(a@.subrange(k as int, na as int), b@.subrange(
                k as int,
                nb as int,
            )),
        decreases na - k,
    {
        proof {
            let sa = a@.subrange(k as int, na as int);
            let sb = b@.subrange(k as int, nb as int);
            assert(sa.drop_first() =~= a@.subrange(k + 1, na as int));
            assert(sb.drop_first() =~= b@.subrange(k + 1, nb as int));
        }
        k = k + 1;
    }
    if k == na {
        true
    } else if k == nb {
        false
    } else {
        a.get_char(k) < b.get_char(k)
    }
}

/// One entry of a directory listing.
#[derive(Debug, Clone)]
pub struct DirEntry {
    pub name: String,
    pub path: String,
    pub is_dir: bool,
}

impl DirEntry {
    /// A field-by-field copy.
    pub fn duplicate(&self) -> (r: DirEntry)
        ensures
            r == *self,
    {
        DirEntry { name: self.name.clone(), path: self.path.clone(), is_dir: self.is_dir }
    }
}

/// Whether the navigator shows a listed entry: directories whose name does
/// not start with a dot.
pub open spec fn shown(e: DirEntry) -> bool {
    e.is_dir && !(e.name@.len() > 0 && e.name@[0] == '.')
}

/// The shown entries of a listing, in listing order.
pub open spec fn shown_entries(s: Seq<DirEntry>) -> Seq<DirEntry>
    decreases s.len(),
{
    if s.len() == 0 {
        Seq::empty()
    } else if shown(s.last()) {
        shown_entries(s.drop_last()).push(s.last())
    } else {
        shown_entries(s.drop_last())
    }
}

/// Entries ordered by lowercase name.
pub open spec fn sorted_by_name(s: Seq<DirEntry>) -> bool {
    forall|i: int|
        0 <= i < s.len() - 1 ==> seq_le(lower_of(#[trigger] s[i].name@), lower_of(s[i + 1].name@))
}

/// `entries` is what the navigator shows for the directory `dir` whose
/// listing is `listing`: the parent entry first when there is a parent, then
/// the shown entries sorted by lowercase name.
pub open spec fn entries_for(dir: Seq<char>, listing: Seq<DirEntry>, entries: Seq<DirEntry>) -> bool {
    let body = match parent_of(dir) {
        Some(p) => entries.drop_first(),
        None => entries,
    };
    &&& match parent_of(dir) {
        Some(p) => entries.len() > 0 && entries[0].name@ == ".."@ && entries[0].path@ == p
            && entries[0].is_dir,
        None => true,
    }
    &&& sorted_by_name(body)
    &&& body.to_multiset() == shown_entries(listing).to_multiset()
}


/// Inserts `e` into `body` after every entry whose lowercase name is not
/// greater than that of `e`.
fn insert_by_name(body: &mut Vec<DirEntry>, e: DirEntry)
    requires
        sorted_by_name(old(body)@),
    ensures
        sorted_by_name(final(body)@),
        final(body)@.to_multiset() == old(body)@.to_multiset().insert(e),
{
    let ke = to_lower(e.name.as_str());
    let mut p: usize = 0;
    while p < body.len() && str_le(to_lower(body[p].name.as_str()).as_str(), ke.as_str())
        invariant
            p <= body@.len(),
            forall|j: int| 0 <= j < p ==> seq_le(lower_of(#[trigger] body@[j].name@), ke@),
        decreases body@.len() - p,
    {
        p = p + 1;
    }
    let ghost old_body = body@;
    proof {
        assert(sorted_by_name(old_body));
        assert(ke@ == lower_of(e.name@));
        if p < old_body.len() {
            assert(!seq_le(lower_of(old_body[p as int].name@), ke@));
            lemma_seq_le_total(lower_of(old_body[p as int].name@), ke@);
            assert(seq_le(ke@, lower_of(old_body[p as int].name@)));
        }
        old_body.insert_ensures(p as int, e);
        crate::text::lemma_insert_multiset(old_body, p as int, e);
    }
    body.insert(p, e);
    proof {
        let nb = body@;
        assert forall|i: int| 0 <= i < nb.len() - 1 implies seq_le(
            lower_of(#[trigger] nb[i].name@),
            lower_of(nb[i + 1].name@),
        ) by {
            if i < p - 1 {
                assert(nb[i] == old_body[i] && nb[i + 1] == old_body[i + 1]);
            } else if i == p - 1 {
                assert(nb[i] == old_body[i]);
                assert(nb[i + 1] == e);
                assert(seq_le(lower_of(old_body[i].name@), ke@));
            } else if i == p {
                assert(nb[i] == e);
                assert(nb[i + 1] == old_body[i]);
            } else {
                assert(nb[i] == old_body[i - 1] && nb[i + 1] == old_body[i]);
            }
        }
    }
}

/// Whether a listed entry is shown.
fn is_shown(e: &DirEntry) -> (r: bool)
    ensures
        r == shown(*e),
{
    e.is_dir && !(e.name.as_str().unicode_len() > 0 && e.name.as_str().get_char(0) == '.')
}

/// The entries that the navigator shows for `dir`, given its listing.
pub fn build_entries(dir: &str, listing: &Vec<DirEntry>) -> (r: Vec<DirEntry>)
    ensures
        entries_for(dir@, listing@, r@),
{
    let mut body: Vec<DirEntry> = Vec::new();
    let mut i: usize = 0;
    while i < listing.len()
        invariant
            i <= listing@.len(),
            sorted_by_name(body@),
            body@.to_multiset() == shown_entries(listing@.subrange(0, i as int)).to_multiset(),
        decreases listing@.len() - i,
    {
        proof {
            let pre = listing@.subrange(0, i + 1);
            assert(pre.drop_last() =~= listing@.subrange(0, i as int));
            assert(pre.last() == listing@[i as int]);
            shown_entries(listing@.subrange(0, i as int)).to_multiset_ensures();
        }
        if is_shown(&listing[i]) {
            insert_by_name(&mut body, listing[i].duplicate());
        }
        i = i + 1;
    }
    assert(listing@.subrange(0, listing@.len() as int) =~= listing@);
    match parent_path(dir) {
        Some(p) => {
            let ghost old_body = body@;
            body.insert(0, DirEntry { name: String::from_str(".."), path: p, is_dir: true });
            assert(body@.drop_first() =~= old_body);
            body
        },
        None => body,
    }
}

/// State of the directory navigator.
#[derive(Debug, Clone)]
pub struct NavigationState {
    /// The directory being browsed.
    pub current_path: String,
    /// What it shows, the parent entry first.
    pub entries: Vec<DirEntry>,
    /// Index of the highlighted entry.
    pub selected_index: usize,
    /// Index of the first entry in view.
    pub scroll_offset: usize,
}

/// The highlighted entry's path, if it may be entered: a directory other
/// than the parent entry.
pub open spec fn enter_target_of(s: NavigationState) -> Option<Seq<char>> {
    if s.selected_index < s.entries@.len() && s.entries@[s.selected_index as int].is_dir
        && s.entries@[s.selected_index as int].name@ != ".."@ {
        Some(s.entries@[s.selected_index as int].path@)
    } else {
        None
    }
}

/// The directory that confirming the navigator adopts: the directory being
/// browsed when the parent entry is highlighted, the highlighted entry's
/// path otherwise; `None` when nothing is listed.
pub open spec fn commit_target_of(s: NavigationState) -> Option<Seq<char>> {
    if s.selected_index < s.entries@.len() {
        if s.entries@[s.selected_index as int].name@ == ".."@ {
            Some(s.current_path@)
        } else {
            Some(s.entries@[s.selected_index as int].path@)
        }
    } else {
        None
    }
}

impl NavigationState {
    /// The selection is in bounds (0 when nothing is listed) and the
    /// scroll offset does not pass it.
    pub open spec fn wf(&self) -> bool {
        &&& (self.entries@.len() == 0 ==> self.selected_index == 0)
        &&& (self.entries@.len() > 0 ==> self.selected_index < self.entries@.len())
    }

    /// The scroll offset does not pass the selection.
    pub open spec fn scroll_in_place(&self) -> bool {
        self.scroll_offset <= self.selected_index
    }

    /// The state before any directory is opened.
    pub fn new() -> (r: NavigationState)
        ensures
            r.wf(),
            r.current_path@ == Seq::<char>::empty(),
            r.entries@.len() == 0,
            r.selected_index == 0,
            r.scroll_offset == 0,
    {
        NavigationState {
            current_path: String::new(),
            entries: Vec::new(),
            selected_index: 0,
            scroll_offset: 0,
        }
    }

    /// Lists the current directory again from `listing`, keeping the
    /// selection when it is still in bounds and clamping it otherwise; the
    /// scroll offset is kept.
    pub fn refresh_entries(&mut self, listing: &Vec<DirEntry>)
        ensures
            final(self).wf(),
            final(self).current_path == old(self).current_path,
            entries_for(old(self).current_path@, listing@, final(self).entries@),
            final(self).selected_index == (if old(self).selected_index < final(self).entries@.len() {
                old(self).selected_index as int
            } else if final(self).entries@.len() == 0 {
                0
            } else {
                final(self).entries@.len() - 1
            }),
            final(self).scroll_offset == old(self).scroll_offset,
    {
        self.entries = build_entries(self.current_path.as_str(), listing);
        if self.selected_index >= self.entries.len() {
            self.selected_index = if self.entries.len() == 0 {
                0
            } else {
                self.entries.len() - 1
            };
        }
    }

    /// Opens `path`, whose listing is `listing`, with the first entry
    /// highlighted.
    pub fn start_navigation(&mut self, path: String, listing: &Vec<DirEntry>)
        ensures
            final(self).wf(),
            final(self).current_path@ == path@,
            entries_for(path@, listing@, final(self).entries@),
            final(self).selected_index == 0,
            final(self).scroll_offset == 0,
            final(self).scroll_in_place(),
    {
        self.current_path = path;
        self.selected_index = 0;
        self.scroll_offset = 0;
        self.refresh_entries(listing);
    }

    /// Moves the highlight up one entry, scrolling to keep it in view.
    pub fn move_up(&mut self)
        requires
            old(self).wf(),
        ensures
            old(self).scroll_in_place() ==> final(self).scroll_in_place(),
            final(self).wf(),
            final(self).current_path == old(self).current_path,
            final(self).entries == old(self).entries,
            final(self).selected_index == (if old(self).selected_index > 0 {
                old(self).selected_index - 1
            } else {
                0
            }),
            final(self).scroll_offset == (if old(self).selected_index > 0
                && final(self).selected_index < old(self).scroll_offset {
                final(self).selected_index
            } else {
                old(self).scroll_offset
            }),
    {
        if self.selected_index > 0 {
            self.selected_index = self.selected_index - 1;
            if self.selected_index < self.scroll_offset {
                self.scroll_offset = self.selected_index;
            }
        }
    }

    /// Moves the highlight down one entry, stopping at the last.
    pub fn move_down(&mut self)
        requires
            old(self).wf(),
        ensures
            old(self).scroll_in_place() ==> final(self).scroll_in_place(),
            final(self).wf(),
            final(self).current_path == old(self).current_path,
            final(self).entries == old(self).entries,
            final(self).selected_index == (if old(self).selected_index + 1 < old(
                self,
            ).entries@.len() {
                old(self).selected_index + 1
            } else {
                old(self).selected_index as int
            }),
            final(self).scroll_offset == old(self).scroll_offset,
    {
        if self.entries.len() > 0 && self.selected_index < self.entries.len() - 1 {
            self.selected_index = self.selected_index + 1;
        }
    }

    /// Scrolls the least needed for the highlight to be among the
    /// `visible_height` entries in view.
    pub fn adjust_scroll(&mut self, visible_height: usize)
        requires
            old(self).wf(),
            visible_height > 0,
        ensures
            final(self).wf(),
            final(self).scroll_in_place(),
            final(self).current_path == old(self).current_path,
            final(self).entries == old(self).entries,
            final(self).selected_index == old(self).selected_index,
            final(self).selected_index < final(self).scroll_offset + visible_height,
            old(self).selected_index < old(self).scroll_offset ==> final(self).scroll_offset
                == old(self).selected_index,
            old(self).scroll_offset <= old(self).selected_index < old(self).scroll_offset
                + visible_height ==> final(self).scroll_offset == old(self).scroll_offset,
            old(self).selected_index >= old(self).scroll_offset + visible_height
                ==> final(self).scroll_offset == old(self).selected_index - (visible_height - 1),
    {
        if self.selected_index < self.scroll_offset {
            self.scroll_offset = self.selected_index;
        } else if self.selected_index - self.scroll_offset >= visible_height {
            self.scroll_offset = self.selected_index - (visible_height - 1);
        }
    }

    /// The directory that `enter_selected` opens, if any.
    pub fn enter_target(&self) -> (r: Option<String>)
        requires
            self.wf(),
        ensures
            match r {
                Some(p) => enter_target_of(*self) == Some(p@),
                None => enter_target_of(*self) == None::<Seq<char>>,
            },
    {
        if self.selected_index < self.entries.len() {
            let e = &self.entries[self.selected_index];
            if e.is_dir && !slice_eq(e.name.as_str(), "..") {
                return Some(e.path.clone());
            }
        }
        None
    }

    /// Opens the highlighted entry when it is a directory other than the
    /// parent entry; `listing` is the listing of that directory.
    pub fn enter_selected(&mut self, listing: &Vec<DirEntry>)
        requires
            old(self).wf(),
        ensures
            old(self).scroll_in_place() ==> final(self).scroll_in_place(),
            final(self).wf(),
            match enter_target_of(*old(self)) {
                Some(t) => {
                    &&& final(self).current_path@ == t
                    &&& entries_for(t, listing@, final(self).entries@)
                    &&& final(self).selected_index == 0
                    &&& final(self).scroll_offset == 0
                },
                None => *final(self) == *old(self),
            },
    {
        if let Some(target) = self.enter_target() {
            self.start_navigation(target, listing);
        }
    }

    /// The directory that `go_up` opens: the parent of the current one.
    pub fn go_up_target(&self) -> (r: Option<String>)
        ensures
            match r {
                Some(p) => parent_of(self.current_path@) == Some(p@),
                None => parent_of(self.current_path@) == None::<Seq<char>>,
            },
    {
        parent_path(self.current_path.as_str())
    }

    /// Opens the parent of the current directory, whose listing is
    /// `listing`; does nothing at a root.
    pub fn go_up(&mut self, listing: &Vec<DirEntry>)
        requires
            old(self).wf(),
        ensures
            old(self).scroll_in_place() ==> final(self).scroll_in_place(),
            final(self).wf(),
            match parent_of(old(self).current_path@) {
                Some(t) => {
                    &&& final(self).current_path@ == t
                    &&& entries_for(t, listing@, final(self).entries@)
                    &&& final(self).selected_index == 0
                    &&& final(self).scroll_offset == 0
                },
                None => *final(self) == *old(self),
            },
    {
        if let Some(parent) = self.go_up_target() {
            self.start_navigation(parent, listing);
        }
    }

    /// The directory that confirming the navigator adopts.
    pub fn commit_target(&self) -> (r: Option<String>)
        ensures
            match r {
                Some(p) => commit_target_of(*self) == Some(p@),
                None => commit_target_of(*self) == None::<Seq<char>>,
            },
    {
        if self.selected_index < self.entries.len() {
            let e = &self.entries[self.selected_index];
            if slice_eq(e.name.as_str(), "..") {
                Some(self.current_path.clone())
            } else {
                Some(e.path.clone())
            }
        } else {
            None
        }
    }

    /// Path of the highlighted entry.
    pub fn get_selected_path(&self) -> (r: Option<String>)
        ensures
            match r {
                Some(p) => self.selected_index < self.entries@.len() && p@
                    == self.entries@[self.selected_index as int].path@,
                None => self.selected_index >= self.entries@.len(),
            },
    {
        if self.selected_index < self.entries.len() {
            Some(self.entries[self.selected_index].path.clone())
        } else {
            None
        }
    }

    /// The entries in view, with their indices: `visible_height` of them
    /// from the scroll offset on, fewer near the end.
    pub fn get_visible_entries(&self, visible_height: usize) -> (r: Vec<(usize, DirEntry)>)
        ensures
            r@.len() == (if self.scroll_offset >= self.entries@.len() {
                0
            } else if self.entries@.len() - self.scroll_offset < visible_height {
                self.entries@.len() - self.scroll_offset
            } else {
                visible_height as int
            }),
            forall|k: int|
                0 <= k < r@.len() ==> (#[trigger] r@[k]).0 == self.scroll_offset + k && r@[k].1
                    == self.entries@[self.scroll_offset + k],
    {
        let mut r: Vec<(usize, DirEntry)> = Vec::new();
        let mut i = self.scroll_offset;
        while i < self.entries.len() && i - self.scroll_offset < visible_height
            invariant
                self.scroll_offset <= i,
                i <= self.entries@.len() || i == self.scroll_offset,
                r@.len() == i - self.scroll_offset,
                r@.len() <= visible_height,
                forall|k: int|
                    0 <= k < r@.len() ==> (#[trigger] r@[k]).0 == self.scroll_offset + k
                        && r@[k].1 == self.entries@[self.scroll_offset + k],
            decreases self.entries@.len() - i,
        {
            r.push((i, self.entries[i].duplicate()));
            i = i + 1;
        }
        r
    }

    /// Whether `index` is the highlighted entry.
    pub fn is_selected(&self, index: usize) -> (r: bool)
        ensures
            r == (index == self.selected_index),
    {
        index == self.selected_index
    }
}

/// Whether two strings are equal.
pub fn slice_eq(a: &str, b: &str) -> (r: bool)
    ensures
        r == (a@ == b@),
{
    let n = a.unicode_len();
    if n != b.unicode_len() {
        return false;
    }
    let mut k: usize = 0;
    while k < n
        invariant
            n == a@.len(),
            n == b@.len(),
            k <= n,
            forall|m: int| 0 <= m < k ==> a@[m] == b@[m],
        decreases n - k,
    {
        if a.get_char(k) != b.get_char(k) {
            return false;
        }
        k = k + 1;
    }
    assert(a@ =~= b@);
    true
}

} // verus!
