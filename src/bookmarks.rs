//! Bookmarked directories ranked by recency of access.

use vstd::prelude::*;
use vstd::string::*;
use crate::text::{append_str, decimal, decimal_string};

verus! {

/// Relies on `chrono::Utc::now` and `DateTime::timestamp_millis`: the
/// current time in milliseconds since the Unix epoch. Nothing is known of
/// its value.
#[verifier::external_body]
pub(crate) fn now_millis() -> (r: i64) {
    chrono::Utc::now().timestamp_millis()
}

/// Relies on `dirs::home_dir`: the user's home directory, if it is known.
#[verifier::external_body]
pub(crate) fn home_dir() -> (r: Option<String>) {
    dirs::home_dir().map(|h| h.display().to_string())
}

/// A bookmarked directory. Times are milliseconds since the Unix epoch.
#[derive(Debug, Clone, PartialEq, Eq)]
pub struct Shortcut {
    pub path: String,
    pub last_accessed: i64,
    pub created_at: i64,
}

pub const MINUTE_MS: i128 = 60000;
pub const HOUR_MS: i128 = 3600000;
pub const DAY_MS: i128 = 86400000;

/// The label for an age of `d` milliseconds: "now" under a minute, then
/// minutes, hours, days, weeks below thirty days, and months of thirty
/// days from then on.
pub open spec fn age_label(d: int) -> Seq<char> {
    if d < 60000 {
        "now"@
    } else if d / 60000 < 60 {
        decimal((d / 60000) as nat) + "m"@
    } else if d / 3600000 < 24 {
        decimal((d / 3600000) as nat) + "h"@
    } else if d / 86400000 < 7 {
        decimal((d / 86400000) as nat) + "d"@
    } else if d / 86400000 < 30 {
        decimal((d / 86400000 / 7) as nat) + "w"@
    } else {
        decimal((d / 86400000 / 30) as nat) + "mo"@
    }
}

/// The label of an access at `last` seen at time `now`.
pub open spec fn time_label(last: i64, now: i64) -> Seq<char> {
    age_label(now - last)
}

/// `s` begins with `p`.
pub open spec fn has_prefix(s: Seq<char>, p: Seq<char>) -> bool {
    p.len() <= s.len() && s.subrange(0, p.len() as int) == p
}

/// A path with the home directory, when it begins the path, shown as `~`.
pub open spec fn abbreviated(path: Seq<char>, home: Option<Seq<char>>) -> Seq<char> {
    match home {
        Some(h) => if has_prefix(path, h) {
            "~"@ + path.subrange(h.len() as int, path.len() as int)
        } else {
            path
        },
        None => path,
    }
}

/// Shows `path` with a leading `home` replaced by `~`.
pub fn abbreviate_home(path: &str, home: &Option<String>) -> (r: String)
    ensures
        r@ == abbreviated(path@, match home {
            Some(h) => Some(h@),
            None => None,
        }),
{
    match home {
        Some(h) => {
            let n = path.unicode_len();
            let m = h.as_str().unicode_len();
            if m <= n && crate::text::slice_is(path, 0, m, h.as_str()) {
                let mut r = String::from_str("~");
                append_str(&mut r, path.substring_char(m, n));
                r
            } else {
                String::from_str(path)
            }
        },
        None => String::from_str(path),
    }
}

/// Writes a count followed by a unit.
fn count_label(n: i128, unit: &str) -> (r: String)
    requires
        0 <= n <= u64::MAX,
    ensures
        r@ == decimal(n as nat) + unit@,
{
    let mut s = decimal_string(n as u64);
    append_str(&mut s, unit);
    s
}

impl Shortcut {
    /// A bookmark of `path` made at time `now`.
    pub fn new_at(path: String, now: i64) -> (r: Shortcut)
        ensures
            r.path == path,
            r.last_accessed == now,
            r.created_at == now,
    {
        Shortcut { path, last_accessed: now, created_at: now }
    }

    /// A bookmark of `path` made now.
    pub fn new(path: String) -> (r: Shortcut)
        ensures
            r.path == path,
            r.last_accessed == r.created_at,
    {
        Shortcut::new_at(path, now_millis())
    }

    /// Records an access at time `now`.
    pub fn touch_at(&mut self, now: i64)
        ensures
            final(self).path == old(self).path,
            final(self).created_at == old(self).created_at,
            final(self).last_accessed == now,
    {
        self.last_accessed = now;
    }

    /// Records an access now.
    pub fn touch(&mut self)
        ensures
            final(self).path == old(self).path,
            final(self).created_at == old(self).created_at,
    {
        self.touch_at(now_millis());
    }

    /// The path, with the home directory `home` shown as `~`.
    pub fn display_name_in(&self, home: &Option<String>) -> (r: String)
        ensures
            r@ == abbreviated(self.path@, match home {
                Some(h) => Some(h@),
                None => None,
            }),
    {
        abbreviate_home(self.path.as_str(), home)
    }

    /// The path, with the user's home directory shown as `~`.
    pub fn display_name(&self) -> (r: String)
        ensures
            exists|home: Option<Seq<char>>| r@ == abbreviated(self.path@, home),
    {
        let home = home_dir();
        let r = self.display_name_in(&home);
        let ghost h = match home {
            Some(x) => Some(x@),
            None => None,
        };
        assert(r@ == abbreviated(self.path@, h));
        r
    }

    /// Time since the last access at time `now`: "now", "5m", "2h", "3d",
    /// "2w", "1mo".
    pub fn time_ago_at(&self, now: i64) -> (r: String)
        ensures
            r@ == time_label(self.last_accessed, now),
    {
        let d: i128 = now as i128 - self.last_accessed as i128;
        if d < MINUTE_MS {
            return String::from_str("now");
        }
        let minutes = d / MINUTE_MS;
        if minutes < 60 {
            return count_label(minutes, "m");
        }
        let hours = d / HOUR_MS;
        if hours < 24 {
            return count_label(hours, "h");
        }
        let days = d / DAY_MS;
        if days < 7 {
            return count_label(days, "d");
        }
        if days < 30 {
            return count_label(days / 7, "w");
        }
        count_label(days / 30, "mo")
    }

    /// Time since the last access, as `time_ago_at` gives it for the
    /// current time.
    pub fn time_ago(&self) -> (r: String)
        ensures
            exists|now: i64| r@ == #[trigger] time_label(self.last_accessed, now),
    {
        let now = now_millis();
        self.time_ago_at(now)
    }
}

/// The stored bookmarks.
#[derive(Debug, Clone)]
pub struct ShortcutsData {
    pub shortcuts: Vec<Shortcut>,
}

/// No two bookmarks share a path.
pub open spec fn unique_paths(s: Seq<Shortcut>) -> bool {
    forall|i: int, j: int|
        0 <= i < s.len() && 0 <= j < s.len() && i != j ==> (#[trigger] s[i]).path@
            != (#[trigger] s[j]).path@
}

/// Most recently accessed first.
pub open spec fn ranked(s: Seq<Shortcut>) -> bool {
    forall|i: int, j: int|
        0 <= i < j < s.len() ==> (#[trigger] s[i]).last_accessed >= (#[trigger] s[j]).last_accessed
}

/// Index of the bookmark of `path`, if there is one.
pub open spec fn index_of(s: Seq<Shortcut>, path: Seq<char>) -> Option<int> {
    if exists|i: int| 0 <= i < s.len() && (#[trigger] s[i]).path@ == path {
        Some(choose|i: int| 0 <= i < s.len() && (#[trigger] s[i]).path@ == path)
    } else {
        None
    }
}

/// The bookmark index.
#[derive(Debug, Clone)]
pub struct ShortcutManager {
    data: ShortcutsData,
}

/// The slot of `x` in `l`: after every bookmark accessed no earlier.
pub open spec fn ins_pos(l: Seq<Shortcut>, x: Shortcut, p: int) -> int
    decreases l.len() - p,
{
    if 0 <= p < l.len() && l[p].last_accessed >= x.last_accessed {
        ins_pos(l, x, p + 1)
    } else {
        p
    }
}

/// The bookmarks in recency order, most recent first; of two accessed at
/// the same time the one stored first comes first.
pub open spec fn recency_order(s: Seq<Shortcut>) -> Seq<Shortcut>
    decreases s.len(),
{
    if s.len() == 0 {
        Seq::empty()
    } else {
        let l = recency_order(s.drop_last());
        l.insert(ins_pos(l, s.last(), 0), s.last())
    }
}

/// The bookmarks with the one of `path` accessed at `now`.
pub open spec fn touched(s: Seq<Shortcut>, path: Seq<char>, now: i64) -> Seq<Shortcut> {
    s.map_values(
        |b: Shortcut|
            if b.path@ == path {
                Shortcut { path: b.path, last_accessed: now, created_at: b.created_at }
            } else {
                b
            },
    )
}

/// The bookmarks after saving `path` at `now`: its bookmark touched, or a
/// new one made at `now` added last.
pub open spec fn added(s: Seq<Shortcut>, path: String, now: i64) -> Seq<Shortcut> {
    if exists|j: int| 0 <= j < s.len() && (#[trigger] s[j]).path@ == path@ {
        touched(s, path@, now)
    } else {
        s.push(Shortcut { path: path, last_accessed: now, created_at: now })
    }
}

/// The bookmarks with each path kept at its first occurrence only.
pub open spec fn first_of_each(s: Seq<Shortcut>) -> Seq<Shortcut>
    decreases s.len(),
{
    if s.len() == 0 {
        Seq::empty()
    } else {
        let d = first_of_each(s.drop_last());
        if exists|j: int| 0 <= j < d.len() && (#[trigger] d[j]).path@ == s.last().path@ {
            d
        } else {
            d.push(s.last())
        }
    }
}

/// The bookmarks without the one of `path`.
pub open spec fn without(s: Seq<Shortcut>, path: Seq<char>) -> Seq<Shortcut>
    decreases s.len(),
{
    if s.len() == 0 {
        Seq::empty()
    } else if s.last().path@ == path {
        without(s.drop_last(), path)
    } else {
        without(s.drop_last(), path).push(s.last())
    }
}

proof fn lemma_ins_pos(l: Seq<Shortcut>, x: Shortcut, p: int)
    requires
        0 <= p <= l.len(),
    ensures
        p <= ins_pos(l, x, p) <= l.len(),
        forall|k: int| p <= k < ins_pos(l, x, p) ==> (#[trigger] l[k]).last_accessed >= x.last_accessed,
        ins_pos(l, x, p) < l.len() ==> l[ins_pos(l, x, p)].last_accessed < x.last_accessed,
    decreases l.len() - p,
{
    if p < l.len() && l[p].last_accessed >= x.last_accessed {
        lemma_ins_pos(l, x, p + 1);
    }
}

/// Recency order ranks the bookmarks, most recently accessed first, and
/// holds each of them once.
pub proof fn lemma_recency_ranked(s: Seq<Shortcut>)
    ensures
        ranked(recency_order(s)),
        recency_order(s).to_multiset() == s.to_multiset(),
        recency_order(s).len() == s.len(),
    decreases s.len(),
{
    if s.len() > 0 {
        let l = recency_order(s.drop_last());
        let x = s.last();
        lemma_recency_ranked(s.drop_last());
        lemma_ins_pos(l, x, 0);
        let p = ins_pos(l, x, 0);
        l.insert_ensures(p, x);
        crate::text::lemma_insert_multiset(l, p, x);
        let r = l.insert(p, x);
        assert forall|i: int, j: int| 0 <= i < j < r.len() implies (#[trigger] r[i]).last_accessed
            >= (#[trigger] r[j]).last_accessed by {
            if j < p {
                assert(r[i] == l[i] && r[j] == l[j]);
            } else if j == p {
                assert(r[i] == l[i]);
            } else if i == p {
                assert(r[j] == l[j - 1]);
                if p < j - 1 {
                    assert(l[p].last_accessed >= l[j - 1].last_accessed);
                }
            } else if i < p {
                assert(r[i] == l[i] && r[j] == l[j - 1]);
            } else {
                assert(r[i] == l[i - 1] && r[j] == l[j - 1]);
            }
        }
        s.drop_last().to_multiset_ensures();
        assert(s.drop_last().push(x) =~= s);
        assert(s.drop_last().push(x).to_multiset() == s.drop_last().to_multiset().insert(x));
        assert(recency_order(s) == r);
    } else {
        assert(recency_order(s) =~= s);
    }
}

/// A bookmark touched at a time later than every stored access ranks
/// first.
pub proof fn lemma_touched_ranks_first(s: Seq<Shortcut>, path: Seq<char>, now: i64)
    requires
        unique_paths(s),
        exists|j: int| 0 <= j < s.len() && (#[trigger] s[j]).path@ == path,
        forall|k: int| 0 <= k < s.len() ==> (#[trigger] s[k]).last_accessed < now,
    ensures
        recency_order(touched(s, path, now))[0].path@ == path,
        recency_order(touched(s, path, now))[0].last_accessed == now,
{
    let t = touched(s, path, now);
    let j = choose|j: int| 0 <= j < s.len() && (#[trigger] s[j]).path@ == path;
    let r = recency_order(t);
    lemma_recency_ranked(t);
    t.to_multiset_ensures();
    r.to_multiset_ensures();
    assert(t[j].last_accessed == now);
    assert(t.contains(t[j]));
    assert(t.to_multiset().count(t[j]) > 0);
    assert(r.to_multiset().count(t[j]) > 0);
    assert(r.contains(t[j]));
    let k = choose|k: int| 0 <= k < r.len() && r[k] == t[j];
    assert(r.len() > 0);
    assert(r.contains(r[0]));
    assert(r.to_multiset().count(r[0]) > 0);
    assert(t.to_multiset().count(r[0]) > 0);
    assert(t.contains(r[0]));
    let m = choose|m: int| 0 <= m < t.len() && t[m] == r[0];
    if k > 0 {
        assert(r[0].last_accessed >= r[k].last_accessed);
    }
    if s[m].path@ != path {
        assert(t[m] == s[m]);
    }
}

impl Shortcut {
    /// A field-by-field copy.
    pub fn clone_shortcut(&self) -> (r: Shortcut)
        ensures
            r == *self,
    {
        Shortcut {
            path: self.path.clone(),
            last_accessed: self.last_accessed,
            created_at: self.created_at,
        }
    }
}

impl ShortcutManager {
    /// The bookmarks, as stored.
    pub closed spec fn items(&self) -> Seq<Shortcut> {
        self.data.shortcuts@
    }

    /// No two bookmarks share a path.
    pub open spec fn wf(&self) -> bool {
        unique_paths(self.items())
    }

    /// An empty index.
    pub fn new() -> (r: ShortcutManager)
        ensures
            r.wf(),
            r.items().len() == 0,
    {
        ShortcutManager { data: ShortcutsData { shortcuts: Vec::new() } }
    }

    /// Index of the bookmark of `path` in `v`.
    fn position(v: &Vec<Shortcut>, path: &str) -> (r: Option<usize>)
        ensures
            match r {
                Some(j) => j < v@.len() && v@[j as int].path@ == path@,
                None => forall|j: int| 0 <= j < v@.len() ==> (#[trigger] v@[j]).path@ != path@,
            },
    {
        let mut j: usize = 0;
        while j < v.len()
            invariant
                j <= v@.len(),
                forall|k: int| 0 <= k < j ==> (#[trigger] v@[k]).path@ != path@,
            decreases v@.len() - j,
        {
            if crate::browser::slice_eq(v[j].path.as_str(), path) {
                return Some(j);
            }
            j = j + 1;
        }
        None
    }

    /// An index over stored bookmarks; of two with one path the first is
    /// kept.
    pub fn from_data(data: ShortcutsData) -> (r: ShortcutManager)
        ensures
            r.wf(),
            r.items() == first_of_each(data.shortcuts@),
    {
        let mut kept: Vec<Shortcut> = Vec::new();
        let mut i: usize = 0;
        while i < data.shortcuts.len()
            invariant
                i <= data.shortcuts@.len(),
                unique_paths(kept@),
                kept@ == first_of_each(data.shortcuts@.subrange(0, i as int)),
            decreases data.shortcuts@.len() - i,
        {
            let s = data.shortcuts[i].clone_shortcut();
            proof {
                let pre = data.shortcuts@.subrange(0, i + 1);
                assert(pre.drop_last() =~= data.shortcuts@.subrange(0, i as int));
                assert(pre.last() == s);
            }
            match Self::position(&kept, s.path.as_str()) {
                None => {
                    kept.push(s);
                },
                Some(j) => {},
            }
            i = i + 1;
        }
        assert(data.shortcuts@.subrange(0, data.shortcuts@.len() as int) =~= data.shortcuts@);
        ShortcutManager { data: ShortcutsData { shortcuts: kept } }
    }

    /// The stored bookmarks, for saving.
    pub fn data(&self) -> (r: &ShortcutsData)
        ensures
            r.shortcuts@ == self.items(),
    {
        &self.data
    }

    /// All bookmarks, most recently accessed first.
    pub fn get_shortcuts(&self) -> (r: Vec<Shortcut>)
        ensures
            r@ == recency_order(self.items()),
    {
        let v = &self.data.shortcuts;
        let mut out: Vec<Shortcut> = Vec::new();
        let mut i: usize = 0;
        while i < v.len()
            invariant
                i <= v@.len(),
                v@ == self.items(),
                out@ == recency_order(v@.subrange(0, i as int)),
            decreases v@.len() - i,
        {
            let x = v[i].clone_shortcut();
            let mut p: usize = 0;
            proof {
                let pre = v@.subrange(0, i + 1);
                assert(pre.drop_last() =~= v@.subrange(0, i as int));
                assert(pre.last() == x);
                lemma_ins_pos(out@, x, 0);
            }
            while p < out.len() && out[p].last_accessed >= x.last_accessed
                invariant
                    p <= out@.len(),
                    ins_pos(out@, x, p as int) == ins_pos(out@, x, 0),
                decreases out@.len() - p,
            {
                p = p + 1;
            }
            out.insert(p, x);
            i = i + 1;
        }
        assert(v@.subrange(0, v@.len() as int) =~= v@);
        out
    }

    /// The bookmarks of the nine slots: the first nine of the recency order.
    pub fn slots(&self) -> (r: Vec<Shortcut>)
        ensures
            r@ == recency_order(self.items()).subrange(
                0,
                if self.items().len() < 9 {
                    self.items().len() as int
                } else {
                    9
                },
            ),
    {
        let all = self.get_shortcuts();
        proof {
            lemma_recency_ranked(self.items());
        }
        let n = if all.len() < 9 {
            all.len()
        } else {
            9
        };
        let mut r: Vec<Shortcut> = Vec::new();
        let mut i: usize = 0;
        while i < n
            invariant
                n <= all@.len(),
                i <= n,
                r@ == all@.subrange(0, i as int),
            decreases n - i,
        {
            r.push(all[i].clone_shortcut());
            assert(r@ =~= all@.subrange(0, i + 1));
            i = i + 1;
        }
        r
    }

    /// The bookmark in slot `index` (1 to 9) of the recency order.
    pub fn get_shortcut(&self, index: usize) -> (r: Option<Shortcut>)
        ensures
            r == (if 1 <= index <= 9 && index <= self.items().len() {
                Some(recency_order(self.items())[index - 1])
            } else {
                None::<Shortcut>
            }),
    {
        if index == 0 || index > 9 {
            return None;
        }
        let all = self.get_shortcuts();
        proof {
            lemma_recency_ranked(self.items());
        }
        if index <= all.len() {
            Some(all[index - 1].clone_shortcut())
        } else {
            None
        }
    }

    /// Records an access of the bookmark of `path` at `now`, or adds a
    /// bookmark of `path` made at `now`.
    pub fn add_shortcut_at(&mut self, path: String, now: i64)
        requires
            old(self).wf(),
        ensures
            final(self).wf(),
            final(self).items() == added(old(self).items(), path, now),
    {
        match Self::position(&self.data.shortcuts, path.as_str()) {
            Some(j) => {
                self.touch_shortcut_at(path.as_str(), now);
            },
            None => {
                self.data.shortcuts.push(Shortcut::new_at(path, now));
            },
        }
    }

    /// Adds a bookmark of `path`, or records an access of it, now.
    pub fn add_shortcut(&mut self, path: String)
        requires
            old(self).wf(),
        ensures
            final(self).wf(),
            exists|j: int| 0 <= j < final(self).items().len() && (#[trigger] final(self).items()[j]).path@ == path@,
            exists|now: i64| final(self).items() == added(old(self).items(), path, now),
    {
        let now = now_millis();
        let ghost p = path@;
        let ghost old_items = self.items();
        self.add_shortcut_at(path, now);
        proof {
            let it = self.items();
            if exists|j: int| 0 <= j < old_items.len() && (#[trigger] old_items[j]).path@ == p {
                let j = choose|j: int| 0 <= j < old_items.len() && (#[trigger] old_items[j]).path@ == p;
                assert(it[j].path@ == p);
            } else {
                assert(it[it.len() - 1].path@ == p);
            }
        }
    }

    /// Records an access of the bookmark of `path` at `now`; nothing
    /// changes when there is none.
    pub fn touch_shortcut_at(&mut self, path: &str, now: i64)
        requires
            old(self).wf(),
        ensures
            final(self).wf(),
            final(self).items() == touched(old(self).items(), path@, now),
            !(exists|j: int| 0 <= j < old(self).items().len() && (#[trigger] old(self).items()[j]).path@
                == path@) ==> final(self).items() == old(self).items(),
    {
        let ghost old_items = self.data.shortcuts@;
        match Self::position(&self.data.shortcuts, path) {
            Some(j) => {
                let mut b = self.data.shortcuts[j].clone_shortcut();
                b.touch_at(now);
                self.data.shortcuts.set(j, b);
                proof {
                    assert forall|k: int| 0 <= k < old_items.len() implies (#[trigger] old_items[k]).path@ != path@ || k == j by {
                        if k != j && old_items[k].path@ == path@ {
                            assert(old_items[k].path@ != old_items[j as int].path@);
                        }
                    }
                    assert(self.data.shortcuts@ =~= touched(old_items, path@, now));
                }
            },
            None => {
                assert(self.data.shortcuts@ =~= touched(old_items, path@, now));
                assert(self.data.shortcuts@ == old_items);
            },
        }
    }

    /// Records an access of the bookmark of `path` now.
    pub fn touch_shortcut(&mut self, path: &str)
        requires
            old(self).wf(),
        ensures
            final(self).wf(),
            exists|now: i64| final(self).items() == touched(old(self).items(), path@, now),
    {
        let now = now_millis();
        self.touch_shortcut_at(path, now);
    }

    /// Removes the bookmark of `path`.
    pub fn remove_shortcut(&mut self, path: &str)
        requires
            old(self).wf(),
        ensures
            final(self).wf(),
            final(self).items() == without(old(self).items(), path@),
    {
        let v = &self.data.shortcuts;
        let mut out: Vec<Shortcut> = Vec::new();
        let mut i: usize = 0;
        while i < v.len()
            invariant
                i <= v@.len(),
                out@ == without(v@.subrange(0, i as int), path@),
                unique_paths(v@),
                unique_paths(out@),
                forall|k: int| 0 <= k < out@.len() ==> exists|m: int| 0 <= m < i && #[trigger] out@[k] == v@[m],
            decreases v@.len() - i,
        {
            proof {
                let pre = v@.subrange(0, i + 1);
                assert(pre.drop_last() =~= v@.subrange(0, i as int));
            }
            if !crate::browser::slice_eq(v[i].path.as_str(), path) {
                let ghost old_out = out@;
                out.push(v[i].clone_shortcut());
                proof {
                    assert forall|a: int, b: int|
                        0 <= a < out@.len() && 0 <= b < out@.len() && a != b implies (#[trigger] out@[a]).path@
                            != (#[trigger] out@[b]).path@ by {
                        if a < old_out.len() && b < old_out.len() {
                            assert(old_out[a] == out@[a] && old_out[b] == out@[b]);
                        } else if a < old_out.len() {
                            let m = choose|m: int| 0 <= m < i && #[trigger] old_out[a] == v@[m];
                            assert(v@[m].path@ != v@[i as int].path@);
                        } else {
                            let m = choose|m: int| 0 <= m < i && #[trigger] old_out[b] == v@[m];
                            assert(v@[m].path@ != v@[i as int].path@);
                        }
                    }
                    assert forall|k: int| 0 <= k < out@.len() implies exists|m: int| 0 <= m < i + 1 && #[trigger] out@[k] == v@[m] by {
                        if k < old_out.len() {
                            assert(old_out[k] == out@[k]);
                            let m = choose|m: int| 0 <= m < i && #[trigger] old_out[k] == v@[m];
                            assert(out@[k] == v@[m]);
                        } else {
                            assert(out@[k] == v@[i as int]);
                        }
                    }
                }
            }
            i = i + 1;
        }
        assert(v@.subrange(0, v@.len() as int) =~= v@);
        self.data.shortcuts = out;
    }

    /// Number of bookmarks.
    pub fn len(&self) -> (r: usize)
        ensures
            r == self.items().len(),
    {
        self.data.shortcuts.len()
    }

    /// Whether there are no bookmarks.
    pub fn is_empty(&self) -> (r: bool)
        ensures
            r == (self.items().len() == 0),
    {
        self.data.shortcuts.len() == 0
    }
}

} // verus!
