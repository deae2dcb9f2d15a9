//! Layout of the terminal view: wrapping lines to the viewport width by
//! display width, scrolling to the newest rows, and placing the cursor.

use vstd::prelude::*;
use vstd::string::*;
use crate::text::push_char;

verus! {

/// The display width that `unicode_width::UnicodeWidthChar::width` gives a
/// character, counting a control character as 0.
pub uninterp spec fn width_of(c: char) -> nat;

/// Relies on `unicode_width::UnicodeWidthChar::width` (0.1): the width of a
/// character, `None` for control characters (read here as 0); it depends on
/// the character alone, is at most 3, and is 1 for printable ASCII.
#[verifier::external_body]
pub(crate) fn char_width(c: char) -> (r: usize)
    ensures
        r == width_of(c),
        r <= 3,
        ' ' <= c && c <= '~' ==> r == 1,
        c < ' ' || ('\u{7f}' <= c && c < '\u{a0}') ==> r == 0,
{
    unicode_width::UnicodeWidthChar::width(c).unwrap_or(0)
}

/// Display width of a text: the sum of its characters' widths.
pub open spec fn text_width(s: Seq<char>) -> nat
    decreases s.len(),
{
    if s.len() == 0 {
        0
    } else {
        text_width(s.drop_last()) + width_of(s.last())
    }
}

/// Greedy wrapping of `s`: the finished rows, the row being filled, and
/// its width.
pub open spec fn wrap_state(s: Seq<char>, width: int) -> (Seq<Seq<char>>, Seq<char>, int)
    decreases s.len(),
{
    if s.len() == 0 {
        (Seq::empty(), Seq::empty(), 0)
    } else {
        let (rows, cur, w) = wrap_state(s.drop_last(), width);
        let c = s.last();
        if w + width_of(c) > width {
            (rows.push(cur), seq![c], width_of(c) as int)
        } else {
            (rows, cur.push(c), w + width_of(c))
        }
    }
}

/// The visual rows of a logical line: a new row starts wherever the next
/// character would take the row's display width past `width`.
pub open spec fn wrap(s: Seq<char>, width: int) -> Seq<Seq<char>> {
    if width <= 0 {
        seq![Seq::empty()]
    } else {
        let (rows, cur, w) = wrap_state(s, width);
        rows.push(cur)
    }
}

/// The visual rows of several logical lines, in order.
pub open spec fn wrap_lines(ls: Seq<Seq<char>>, width: int) -> Seq<Seq<char>>
    decreases ls.len(),
{
    if ls.len() == 0 {
        Seq::empty()
    } else {
        wrap_lines(ls.drop_last(), width) + wrap(ls.last(), width)
    }
}

pub open spec fn views(v: Seq<String>) -> Seq<Seq<char>> {
    v.map_values(|s: String| s@)
}

/// Rows joined back into one text.
pub open spec fn joined_rows(rows: Seq<Seq<char>>) -> Seq<char>
    decreases rows.len(),
{
    if rows.len() == 0 {
        Seq::empty()
    } else {
        joined_rows(rows.drop_last()) + rows.last()
    }
}

/// Row `b` follows row `a` only because its first character would take `a`
/// past `width` columns.
pub open spec fn breaks_at(a: Seq<char>, b: Seq<char>, width: int) -> bool {
    b.len() > 0 && text_width(a) + width_of(b[0]) > width
}

/// Every character of `s` fits in `width` columns on its own.
pub open spec fn chars_fit(s: Seq<char>, width: int) -> bool {
    forall|k: int| 0 <= k < s.len() ==> width_of(#[trigger] s[k]) <= width
}

proof fn lemma_text_width_push(s: Seq<char>, c: char)
    ensures
        text_width(s.push(c)) == text_width(s) + width_of(c),
{
    assert(s.push(c).drop_last() =~= s);
}

proof fn lemma_wrap_state(s: Seq<char>, width: int)
    requires
        width > 0,
    ensures
        ({
            let (rows, cur, w) = wrap_state(s, width);
            &&& w == text_width(cur)
            &&& joined_rows(rows) + cur == s
            &&& rows.len() > 0 ==> breaks_at(rows.last(), cur, width)
            &&& forall|i: int| 0 <= i < rows.len() - 1 ==> breaks_at(#[trigger] rows[i], rows[i + 1], width)
            &&& chars_fit(s, width) ==> text_width(cur) <= width && forall|i: int|
                0 <= i < rows.len() ==> text_width(#[trigger] rows[i]) <= width
        }),
    decreases s.len(),
{
    if s.len() == 0 {
        assert(joined_rows(Seq::<Seq<char>>::empty()) + Seq::<char>::empty() =~= s);
    } else {
        let p = s.drop_last();
        let c = s.last();
        lemma_wrap_state(p, width);
        let (rows, cur, w) = wrap_state(p, width);
        assert(p.push(c) =~= s);
        if chars_fit(s, width) {
            assert forall|k: int| 0 <= k < p.len() implies width_of(#[trigger] p[k]) <= width by {
                assert(p[k] == s[k]);
            }
            assert(width_of(s[s.len() - 1]) <= width);
        }
        if w + width_of(c) > width {
            let nrows = rows.push(cur);
            lemma_text_width_push(Seq::<char>::empty(), c);
            assert(Seq::<char>::empty().push(c) =~= seq![c]);
            assert(nrows.drop_last() =~= rows);
            assert(joined_rows(nrows) == joined_rows(rows) + cur);
            assert(joined_rows(nrows) + seq![c] =~= (joined_rows(rows) + cur).push(c));
            assert forall|i: int| 0 <= i < nrows.len() - 1 implies breaks_at(#[trigger] nrows[i], nrows[i + 1], width) by {
                if i < rows.len() - 1 {
                    assert(nrows[i] == rows[i] && nrows[i + 1] == rows[i + 1]);
                } else {
                    assert(nrows[i] == rows.last() && nrows[i + 1] == cur);
                }
            }
            if chars_fit(s, width) {
                assert forall|i: int| 0 <= i < nrows.len() implies text_width(#[trigger] nrows[i]) <= width by {
                    if i < rows.len() {
                        assert(nrows[i] == rows[i]);
                    }
                }
            }
        } else {
            lemma_text_width_push(cur, c);
            assert(joined_rows(rows) + cur.push(c) =~= (joined_rows(rows) + cur).push(c));
            if rows.len() > 0 {
                assert(cur.push(c)[0] == cur[0]);
            }
        }
    }
}

/// Wrapping loses no character: the rows join back into the line. A new
/// row starts only where the next character would not fit in the row
/// before, and when every character fits in `width` columns, so does every
/// row.
pub proof fn lemma_wrap(s: Seq<char>, width: int)
    requires
        width > 0,
    ensures
        joined_rows(wrap(s, width)) == s,
        forall|i: int|
            0 <= i < wrap(s, width).len() - 1 ==> breaks_at(
                #[trigger] wrap(s, width)[i],
                wrap(s, width)[i + 1],
                width,
            ),
        chars_fit(s, width) ==> forall|i: int|
            0 <= i < wrap(s, width).len() ==> text_width(#[trigger] wrap(s, width)[i]) <= width,
{
    lemma_wrap_state(s, width);
    let (rows, cur, w) = wrap_state(s, width);
    let all = rows.push(cur);
    assert(all == wrap(s, width));
    assert(all.drop_last() =~= rows);
    assert(joined_rows(all) == joined_rows(rows) + cur);
    assert forall|i: int| 0 <= i < all.len() - 1 implies breaks_at(#[trigger] all[i], all[i + 1], width) by {
        if i < rows.len() - 1 {
            assert(all[i] == rows[i] && all[i + 1] == rows[i + 1]);
        } else {
            assert(all[i] == rows.last() && all[i + 1] == cur);
        }
    }
    if chars_fit(s, width) {
        assert forall|i: int| 0 <= i < all.len() implies text_width(#[trigger] all[i]) <= width by {
            if i < rows.len() {
                assert(all[i] == rows[i]);
            }
        }
    }
}

/// Display width of a text.
pub fn str_width(s: &str) -> (r: usize)
    requires
        3 * s@.len() <= usize::MAX,
    ensures
        r == text_width(s@),
        r <= 3 * s@.len(),
{
    let n = s.unicode_len();
    let mut total: usize = 0;
    let mut i: usize = 0;
    while i < n
        invariant
            n == s@.len(),
            3 * n <= usize::MAX,
            i <= n,
            total == text_width(s@.subrange(0, i as int)),
            total <= 3 * i,
        decreases n - i,
    {
        let c = s.get_char(i);
        proof {
            let pre = s@.subrange(0, i + 1);
            assert(pre.drop_last() =~= s@.subrange(0, i as int));
            assert(pre.last() == c);
        }
        total = total + char_width(c);
        i = i + 1;
    }
    assert(s@.subrange(0, n as int) =~= s@);
    total
}

/// Wraps `line` to `width` columns; a zero width gives one empty row.
pub fn wrap_line(line: &str, width: usize) -> (r: Vec<String>)
    ensures
        views(r@) == wrap(line@, width as int),
{
    if width == 0 {
        let r = vec![String::new()];
        assert(views(r@) =~= seq![Seq::<char>::empty()]);
        return r;
    }
    let n = line.unicode_len();
    let mut rows: Vec<String> = Vec::new();
    let mut cur = String::new();
    let mut cur_w: usize = 0;
    let mut i: usize = 0;
    while i < n
        invariant
            n == line@.len(),
            width > 0,
            i <= n,
            cur_w <= width || cur_w <= 3,
            (views(rows@), cur@, cur_w as int) == wrap_state(line@.subrange(0, i as int), width as int),
        decreases n - i,
    {
        let c = line.get_char(i);
        let cw = char_width(c);
        proof {
            let pre = line@.subrange(0, i + 1);
            assert(pre.drop_last() =~= line@.subrange(0, i as int));
            assert(pre.last() == c);
        }
        if (cur_w as u128) + (cw as u128) > width as u128 {
            let ghost before = rows@;
            rows.push(cur);
            assert(views(rows@) =~= views(before).push(views(rows@).last()));
            cur = String::new();
            push_char(&mut cur, c);
            assert(cur@ =~= seq![c]);
            cur_w = cw;
        } else {
            push_char(&mut cur, c);
            cur_w = cur_w + cw;
        }
        i = i + 1;
    }
    assert(line@.subrange(0, n as int) =~= line@);
    let ghost before = rows@;
    rows.push(cur);
    assert(views(rows@) =~= views(before).push(cur@));
    rows
}

/// What the terminal view shows.
#[derive(Debug)]
pub struct ViewLayout {
    /// The visible rows, top to bottom.
    pub rows: Vec<String>,
    /// Index, among all rows, of the first row of the input line.
    pub input_row: usize,
    /// Number of rows scrolled off the top.
    pub scroll: usize,
    /// Column and visible row of the edit cursor, when it is in view.
    pub cursor: Option<(usize, usize)>,
}

/// The width used for wrapping: at least one column.
pub open spec fn eff_width(width: usize) -> int {
    if width == 0 {
        1
    } else {
        width as int
    }
}

/// The rows of the scrollback followed by those of the prompt and input.
pub open spec fn all_rows(output: Seq<Seq<char>>, line: Seq<char>, width: int) -> Seq<Seq<char>> {
    wrap_lines(output, width) + wrap(line, width)
}

/// Rows scrolled off so that the newest rows fill the viewport.
pub open spec fn scroll_of(total: int, height: int) -> int {
    if total > height {
        total - height
    } else {
        0
    }
}

/// Where the cursor is drawn: its display offset divided by the width gives
/// the row within the input block and the remainder the column; `None` when
/// that row is out of view.
pub open spec fn cursor_of(
    input_row: int,
    offset: int,
    width: int,
    scroll: int,
    height: int,
) -> Option<(usize, usize)> {
    let row = input_row + offset / width;
    if scroll <= row && row < scroll + height {
        Some(((offset % width) as usize, (row - scroll) as usize))
    } else {
        None
    }
}

/// Lays out the scrollback `output` and the live line (`prompt` then
/// `input`, edited at character `cursor_pos`) in a `width` by `height`
/// viewport.
pub fn layout_view(
    output: &Vec<String>,
    prompt: &str,
    input: &str,
    cursor_pos: usize,
    width: usize,
    height: usize,
) -> (r: ViewLayout)
    requires
        cursor_pos <= input@.len(),
        3 * (prompt@.len() + input@.len()) <= usize::MAX,
    ensures
        ({
            let w = eff_width(width);
            let rows = all_rows(views(output@), prompt@ + input@, w);
            let scroll = scroll_of(rows.len() as int, height as int);
            &&& r.input_row == wrap_lines(views(output@), w).len()
            &&& r.scroll == scroll
            &&& views(r.rows@) == rows.subrange(scroll, rows.len() as int)
            &&& r.cursor == cursor_of(
                r.input_row as int,
                (text_width(prompt@) + text_width(input@.subrange(0, cursor_pos as int))) as int,
                w,
                scroll,
                height as int,
            )
        }),
{
    let w: usize = if width == 0 {
        1
    } else {
        width
    };
    let mut all: Vec<String> = Vec::new();
    let mut k: usize = 0;
    while k < output.len()
        invariant
            k <= output@.len(),
            w == eff_width(width),
            views(all@) == wrap_lines(views(output@).subrange(0, k as int), w as int),
        decreases output@.len() - k,
    {
        let mut rows = wrap_line(output[k].as_str(), w);
        proof {
            let pre = views(output@).subrange(0, k + 1);
            assert(pre.drop_last() =~= views(output@).subrange(0, k as int));
            assert(pre.last() == output@[k as int]@);
        }
        let ghost before = all@;
        let ghost added = rows@;
        all.append(&mut rows);
        assert(views(all@) =~= views(before) + views(added));
        k = k + 1;
    }
    assert(views(output@).subrange(0, output@.len() as int) =~= views(output@));
    let input_row = all.len();
    let mut line = String::from_str(prompt);
    line.append(input);
    let mut tail = wrap_line(line.as_str(), w);
    let ghost before = all@;
    let ghost added = tail@;
    all.append(&mut tail);
    assert(views(all@) =~= views(before) + views(added));
    let total = all.len();
    let scroll: usize = if total > height {
        total - height
    } else {
        0
    };
    let mut visible: Vec<String> = Vec::new();
    let mut j: usize = scroll;
    while j < total
        invariant
            scroll <= j <= total,
            total == all@.len(),
            views(visible@) == views(all@).subrange(scroll as int, j as int),
        decreases total - j,
    {
        let ghost before_v = visible@;
        visible.push(all[j].clone());
        assert(visible@ == before_v.push(all@[j as int]));
        assert(views(visible@) =~= views(before_v).push(all@[j as int]@));
        assert(views(visible@) =~= views(all@).subrange(scroll as int, j + 1));
        j = j + 1;
    }
    let offset = str_width(prompt) + str_width(input.substring_char(0, cursor_pos));
    let row = input_row as u128 + (offset / w) as u128;
    let cursor = if (scroll as u128) <= row && row < (scroll as u128) + (height as u128) {
        Some((offset % w, (row - scroll as u128) as usize))
    } else {
        None
    };
    ViewLayout { rows: visible, input_row, scroll, cursor }
}

/// `a - b`, or 0 when `b` is larger.
pub open spec fn sat_sub(a: int, b: int) -> int {
    if a > b {
        a - b
    } else {
        0
    }
}

/// Columns left for a bookmark's path in a sidebar row of `inner_width`
/// columns: after the slot number, the icon when glyphs are used, and the
/// time label when the row is at least 20 columns wide.
pub open spec fn path_room(inner_width: int, nerd: bool, time_len: int) -> int {
    let base = sat_sub(sat_sub(inner_width, 2), if nerd {
        2
    } else {
        0
    });
    if inner_width >= 20 {
        sat_sub(base, time_len + 1)
    } else {
        base
    }
}

/// A text cut to `room` characters: its tail after `..` when there is room
/// for more than three, its head otherwise.
pub open spec fn shortened(s: Seq<char>, room: int) -> Seq<char> {
    if s.len() > room {
        if room > 3 {
            ".."@ + s.subrange(s.len() - (room - 2), s.len() as int)
        } else {
            s.subrange(0, room)
        }
    } else {
        s
    }
}

/// Fits a bookmark's path into a sidebar row: the text shown and the
/// padding that right-aligns the time label.
pub fn sidebar_label(name: &str, time_len: usize, inner_width: usize, nerd: bool) -> (r: (
    String,
    usize,
))
    requires
        time_len < usize::MAX,
    ensures
        r.0@ == shortened(name@, path_room(inner_width as int, nerd, time_len as int)),
        r.1 == (if inner_width >= 20 {
            sat_sub(path_room(inner_width as int, nerd, time_len as int), r.0@.len() as int)
        } else {
            0
        }),
{
    let icon: usize = if nerd {
        2
    } else {
        0
    };
    let a = if inner_width > 2 {
        inner_width - 2
    } else {
        0
    };
    let base = if a > icon {
        a - icon
    } else {
        0
    };
    let room = if inner_width >= 20 {
        if base > time_len + 1 {
            base - (time_len + 1)
        } else {
            0
        }
    } else {
        base
    };
    let n = name.unicode_len();
    let shown = if n > room {
        if room > 3 {
            let mut t = String::from_str("..");
            t.append(name.substring_char(n - (room - 2), n));
            t
        } else {
            String::from_str(name.substring_char(0, room))
        }
    } else {
        String::from_str(name)
    };
    let len = shown.as_str().unicode_len();
    let padding = if inner_width >= 20 && room > len {
        room - len
    } else {
        0
    };
    (shown, padding)
}

/// The navigator's header: the path, or `..` and its last `width - 4`
/// characters when it does not fit in `width - 2` columns (both counts
/// stopping at 0).
pub fn header_text(path: &str, width: usize) -> (r: String)
    ensures
        r@ == (if path@.len() > sat_sub(width as int, 2) {
            ".."@ + path@.subrange(
                path@.len() - sat_sub(width as int, 4),
                path@.len() as int,
            )
        } else {
            path@
        }),
{
    let n = path.unicode_len();
    let room = if width > 2 {
        width - 2
    } else {
        0
    };
    if n > room {
        let keep = if width > 4 {
            width - 4
        } else {
            0
        };
        let mut t = String::from_str("..");
        t.append(path.substring_char(n - keep, n));
        t
    } else {
        String::from_str(path)
    }
}

} // verus!
