//! The ImageMagick protocol: the arguments of each `magick` invocation and
//! the reading of what it prints.

use vstd::prelude::*;
use crate::builder::{Query, QueryView};
use crate::color::{hex_digit, hex_digit_value, is_hex_digit, HEX_DIGITS};
use crate::curve::{digits_value, is_whitespace, is_ws, lemma_split_lines_nonempty, split_lines};
use crate::error::{Fault, WallbashError};
use crate::order::{lemma_sort_positions, sort_stable, stable_sort};
use crate::text::{chars_of, push_char, push_decimal, push_str, decimal_text, string_of};

verus! {

/// The number of white-space characters at the start of `s`.
pub open spec fn lead_ws(s: Seq<char>) -> nat
    decreases s.len(),
{
    if s.len() > 0 && is_ws(s[0]) {
        1 + lead_ws(s.drop_first())
    } else {
        0
    }
}

/// The number of ASCII digits at the start of `s`.
pub open spec fn lead_digits(s: Seq<char>) -> nat
    decreases s.len(),
{
    if s.len() > 0 && '0' <= s[0] && s[0] <= '9' {
        1 + lead_digits(s.drop_first())
    } else {
        0
    }
}

/// At position `p` of `rest` stands `#` and six hex digits, right after a
/// white-space character.
pub open spec fn color_mark_at(rest: Seq<char>, p: int) -> bool {
    &&& 1 <= p
    &&& p + 7 <= rest.len()
    &&& is_ws(rest[p - 1])
    &&& rest[p] == '#'
    &&& forall|k: int| 1 <= k <= 6 ==> is_hex_digit(#[trigger] rest[p + k])
}

/// The last color mark of `rest` that starts before `end`.
pub open spec fn last_mark(rest: Seq<char>, end: int) -> Option<int>
    decreases end,
{
    if end <= 0 {
        None
    } else if color_mark_at(rest, end - 1) {
        Some(end - 1)
    } else {
        last_mark(rest, end - 1)
    }
}

/// Hex digits in upper case.
pub open spec fn hex_upper(d: Seq<char>) -> Seq<char> {
    Seq::new(d.len(), |k: int| HEX_DIGITS@[hex_digit_value(d[k])])
}

/// A pixel count: the value of its digits, or 0 when that overflows 64 bits.
pub open spec fn count_value(d: Seq<char>) -> u64 {
    if digits_value(d) <= u64::MAX {
        digits_value(d) as u64
    } else {
        0
    }
}

/// A histogram line of the form `<count>: ... #RRGGBB ...`: optional white
/// space, the pixel count, a colon, then text in which the last `#` that
/// follows white space and precedes six hex digits marks the color. The
/// color is given in upper case.
pub open spec fn histogram_entry(line: Seq<char>) -> Option<(u64, Seq<char>)> {
    let t = line.skip(lead_ws(line) as int);
    let k = lead_digits(t) as int;
    if k == 0 || k >= t.len() || t[k] != ':' {
        None
    } else {
        let rest = t.skip(k + 1);
        match last_mark(rest, rest.len() as int) {
            None => None,
            Some(p) => Some((count_value(t.take(k)), hex_upper(rest.subrange(p + 1, p + 7)))),
        }
    }
}

/// The histogram entries of the lines, in order; other lines are skipped.
pub open spec fn entries_of(lines: Seq<Seq<char>>) -> Seq<(u64, Seq<char>)>
    decreases lines.len(),
{
    if lines.len() == 0 {
        seq![]
    } else {
        match histogram_entry(lines.last()) {
            Some(e) => entries_of(lines.drop_last()).push(e),
            None => entries_of(lines.drop_last()),
        }
    }
}

/// Entries keyed for a descending order of pixel count.
pub open spec fn count_keys(es: Seq<(u64, Seq<char>)>) -> Seq<(u64, usize)> {
    Seq::new(es.len(), |i: int| ((u64::MAX - es[i].0) as u64, i as usize))
}

/// The histogram of a k-means run: its entries by descending pixel count,
/// entries of equal count in the order printed.
pub open spec fn histogram_of(s: Seq<char>) -> Seq<(u64, Seq<char>)> {
    let es = entries_of(split_lines(s));
    let order = stable_sort(count_keys(es));
    Seq::new(order.len(), |k: int| es[order[k].1 as int])
}

/// The color of a single-color histogram: that of its first line once
/// leading white space is skipped.
pub open spec fn histogram_color(s: Seq<char>) -> Option<Seq<char>> {
    match histogram_entry(split_lines(s.skip(lead_ws(s) as int))[0]) {
        Some(e) => Some(e.1),
        None => None,
    }
}

/// At the start of `s`: `hsb(`, a number (digits, optionally a dot and more
/// digits) and a comma; the number is the hue.
pub open spec fn hue_at(s: Seq<char>) -> Option<Seq<char>> {
    if s.len() >= 4 && s[0] == 'h' && s[1] == 's' && s[2] == 'b' && s[3] == '(' {
        let t = s.skip(4);
        let a = lead_digits(t) as int;
        if a == 0 || a >= t.len() {
            None
        } else if t[a] == ',' {
            Some(t.take(a))
        } else if t[a] == '.' {
            let b = lead_digits(t.skip(a + 1)) as int;
            if a + 1 + b < t.len() && t[a + 1 + b] == ',' {
                Some(t.take(a + 1 + b))
            } else {
                None
            }
        } else {
            None
        }
    } else {
        None
    }
}

/// The hue at the first place in `s` where one stands.
pub open spec fn find_hue(s: Seq<char>) -> Option<Seq<char>>
    decreases s.len(),
{
    if s.len() == 0 {
        None
    } else if hue_at(s) is Some {
        hue_at(s)
    } else {
        find_hue(s.drop_first())
    }
}

fn count_lead_ws(cs: &Vec<char>, from: usize) -> (r: usize)
    requires
        from <= cs@.len(),
    ensures
        r == lead_ws(cs@.skip(from as int)),
        from + r <= cs@.len(),
{
    let mut i = from;
    while i < cs.len() && is_whitespace(cs[i])
        invariant
            from <= i <= cs@.len(),
            lead_ws(cs@.skip(from as int)) == (i - from) + lead_ws(cs@.skip(i as int)),
        decreases cs@.len() - i,
    {
        assert(cs@.skip(i as int).drop_first() == cs@.skip(i + 1));
        i = i + 1;
    }
    i - from
}

fn count_lead_digits(cs: &Vec<char>, from: usize) -> (r: usize)
    requires
        from <= cs@.len(),
    ensures
        r == lead_digits(cs@.skip(from as int)),
        from + r <= cs@.len(),
        forall|k: int| from <= k < from + r ==> '0' <= #[trigger] cs@[k] && cs@[k] <= '9',
{
    let mut i = from;
    while i < cs.len() && '0' <= cs[i] && cs[i] <= '9'
        invariant
            from <= i <= cs@.len(),
            lead_digits(cs@.skip(from as int)) == (i - from) + lead_digits(cs@.skip(i as int)),
            forall|k: int| from <= k < i ==> '0' <= #[trigger] cs@[k] && cs@[k] <= '9',
        decreases cs@.len() - i,
    {
        assert(cs@.skip(i as int).drop_first() == cs@.skip(i + 1));
        i = i + 1;
    }
    i - from
}

/// The value of the digits `cs[from..to]`, or 0 when it overflows 64 bits.
fn count_of(cs: &Vec<char>, from: usize, to: usize) -> (r: u64)
    requires
        from <= to <= cs@.len(),
        forall|k: int| from <= k < to ==> '0' <= #[trigger] cs@[k] && cs@[k] <= '9',
    ensures
        r == count_value(cs@.subrange(from as int, to as int)),
{
    let ghost d = cs@.subrange(from as int, to as int);
    let mut acc: u64 = 0;
    let mut overflow = false;
    let mut i = from;
    while i < to
        invariant
            from <= i <= to <= cs@.len(),
            d == cs@.subrange(from as int, to as int),
            forall|k: int| from <= k < to ==> '0' <= #[trigger] cs@[k] && cs@[k] <= '9',
            overflow <==> digits_value(d.take(i - from)) > u64::MAX,
            !overflow ==> acc == digits_value(d.take(i - from)),
        decreases to - i,
    {
        assert(d.take(i + 1 - from).drop_last() == d.take(i - from));
        assert(d[i - from] == cs@[i as int]);
        let c = cs[i];
        assert('0' <= cs@[i as int] && cs@[i as int] <= '9');
        let digit = (c as u32 - 48) as u64;
        if !overflow {
            if acc > (u64::MAX - digit) / 10 {
                assert(acc * 10 + digit > u64::MAX) by (nonlinear_arith)
                    requires
                        acc > (u64::MAX - digit) / 10,
                        digit <= 9,
                ;
                overflow = true;
            } else {
                assert(acc * 10 + digit <= u64::MAX) by (nonlinear_arith)
                    requires
                        acc <= (u64::MAX - digit) / 10,
                        digit <= 9,
                ;
                acc = acc * 10 + digit;
            }
        }
        i = i + 1;
    }
    assert(d.take(to - from) == d);
    if overflow {
        0
    } else {
        acc
    }
}

fn mark_at(cs: &Vec<char>, start: usize, p: usize) -> (r: bool)
    requires
        start <= cs@.len(),
    ensures
        r == color_mark_at(cs@.skip(start as int), p as int),
{
    let ghost rest = cs@.skip(start as int);
    if p < 1 || p > cs.len() - start || cs.len() - start - p < 7 {
        return false;
    }
    let q = start + p;
    assert(rest[p - 1] == cs@[q - 1] && rest[p as int] == cs@[q as int]);
    assert(rest[p + 1] == cs@[q + 1] && rest[p + 2] == cs@[q + 2] && rest[p + 3] == cs@[q + 3]);
    assert(rest[p + 4] == cs@[q + 4] && rest[p + 5] == cs@[q + 5] && rest[p + 6] == cs@[q + 6]);
    let r = is_whitespace(cs[q - 1]) && cs[q] == '#' && hex_digit(cs[q + 1]).is_some()
        && hex_digit(cs[q + 2]).is_some() && hex_digit(cs[q + 3]).is_some() && hex_digit(
        cs[q + 4],
    ).is_some() && hex_digit(cs[q + 5]).is_some() && hex_digit(cs[q + 6]).is_some();
    r
}

/// The position of the last color mark of `line.skip(start)`.
fn find_last_mark(line: &Vec<char>, start: usize) -> (r: Option<usize>)
    requires
        start <= line@.len(),
    ensures
        match last_mark(line@.skip(start as int), line@.len() - start) {
            None => r is None,
            Some(p) => r == Some(p as usize),
        },
{
    let ghost rest = line@.skip(start as int);
    let n = line.len() - start;
    let mut end = n;
    while end > 0 && !mark_at(line, start, end - 1)
        invariant
            end <= n,
            n == rest.len(),
            rest == line@.skip(start as int),
            start <= line@.len(),
            last_mark(rest, n as int) == last_mark(rest, end as int),
        decreases end,
    {
        end = end - 1;
    }
    if end == 0 {
        None
    } else {
        Some(end - 1)
    }
}

proof fn lemma_last_mark(rest: Seq<char>, end: int)
    ensures
        last_mark(rest, end) matches Some(p) ==> color_mark_at(rest, p) && p < end,
    decreases end,
{
    if end > 0 && !color_mark_at(rest, end - 1) {
        lemma_last_mark(rest, end - 1);
    }
}

/// The six hex digits after the mark at `p` of `line.skip(start)`, upper-cased.
fn marked_color(line: &Vec<char>, start: usize, p: usize) -> (r: String)
    requires
        start <= line@.len(),
        color_mark_at(line@.skip(start as int), p as int),
    ensures
        r@ == hex_upper(line@.skip(start as int).subrange(p + 1, p + 7)),
{
    let ghost rest = line@.skip(start as int);
    let ghost d = rest.subrange(p + 1, p + 7);
    assert(start + p + 7 <= line@.len());
    let total = line.len();
    let mut hex = String::new();
    let mut j: usize = 1;
    while j <= 6
        invariant
            1 <= j <= 7,
            total == line@.len(),
            color_mark_at(rest, p as int),
            rest == line@.skip(start as int),
            d == rest.subrange(p + 1, p + 7),
            start + p + 7 <= line@.len(),
            hex@ == hex_upper(d).take(j - 1),
        decreases 7 - j,
    {
        let c = line[start + p + j];
        assert(rest[p + j] == c);
        assert(is_hex_digit(rest[p + j]));
        let v = hex_digit(c).unwrap();
        push_char(&mut hex, HEX_DIGITS[v as usize]);
        j = j + 1;
        assert(hex@ =~= hex_upper(d).take(j - 1));
    }
    assert(hex@ =~= hex_upper(d));
    hex
}

/// Reads one histogram line.
fn entry_of_line(line: &Vec<char>) -> (r: Option<(u64, String)>)
    ensures
        match histogram_entry(line@) {
            None => r is None,
            Some(e) => r is Some && (r->0).0 == e.0 && (r->0).1@ == e.1,
        },
{
    let ghost t = line@.skip(lead_ws(line@) as int);
    assert(line@.skip(0) == line@);
    let w = count_lead_ws(line, 0);
    assert(t == line@.skip(w as int));
    let k = count_lead_digits(line, w);
    if k == 0 || k >= line.len() - w {
        return None;
    }
    assert(t[k as int] == line@[w + k]);
    if line[w + k] != ':' {
        return None;
    }
    let start = w + k + 1;
    assert(t.skip(k + 1) == line@.skip(start as int));
    match find_last_mark(line, start) {
        None => None,
        Some(p) => {
            proof {
                lemma_last_mark(line@.skip(start as int), line@.len() - start);
            }
            let count = count_of(line, w, w + k);
            assert(t.take(k as int) == line@.subrange(w as int, (w + k) as int));
            let hex = marked_color(line, start, p);
            Some((count, hex))
        },
    }
}

/// The lines of a text, cut at line breaks.
pub(crate) fn lines_of(s: &str) -> (r: Vec<Vec<char>>)
    ensures
        r@.len() == split_lines(s@).len(),
        forall|k: int| 0 <= k < r@.len() ==> (#[trigger] r@[k])@ == split_lines(s@)[k],
{
    let cs = chars_of(s);
    let mut lines: Vec<Vec<char>> = Vec::new();
    let mut cur: Vec<char> = Vec::new();
    let mut i: usize = 0;
    while i < cs.len()
        invariant
            i <= cs@.len(),
            cs@ == s@,
            lines@.len() + 1 == split_lines(cs@.take(i as int)).len(),
            forall|k: int| 0 <= k < lines@.len() ==> (#[trigger] lines@[k])@ == split_lines(cs@.take(i as int))[k],
            cur@ == split_lines(cs@.take(i as int)).last(),
        decreases cs@.len() - i,
    {
        let c = cs[i];
        assert(cs@.take(i + 1).drop_last() == cs@.take(i as int));
        if c == '\n' {
            lines.push(cur);
            cur = Vec::new();
        } else {
            cur.push(c);
        }
        i = i + 1;
    }
    assert(cs@.take(cs@.len() as int) == cs@);
    lines.push(cur);
    lines
}

/// Reads the histogram that a k-means run prints: one entry per line that
/// holds one, ordered by descending pixel count, entries of equal count in
/// the order printed.
pub fn parse_histogram(output: &str) -> (r: Vec<(u64, String)>)
    ensures
        r@.len() == histogram_of(output@).len(),
        forall|k: int|
            0 <= k < r@.len() ==> (#[trigger] r@[k]).0 == histogram_of(output@)[k].0 && r@[k].1@
                == histogram_of(output@)[k].1,
{
    let lines = lines_of(output);
    let ghost ls = split_lines(output@);
    let mut entries: Vec<(u64, String)> = Vec::new();
    let mut i: usize = 0;
    while i < lines.len()
        invariant
            i <= lines@.len(),
            lines@.len() == ls.len(),
            forall|k: int| 0 <= k < lines@.len() ==> (#[trigger] lines@[k])@ == ls[k],
            entries@.len() == entries_of(ls.take(i as int)).len(),
            forall|k: int|
                0 <= k < entries@.len() ==> (#[trigger] entries@[k]).0 == entries_of(ls.take(i as int))[k].0
                    && entries@[k].1@ == entries_of(ls.take(i as int))[k].1,
        decreases lines@.len() - i,
    {
        assert(ls.take(i + 1).drop_last() == ls.take(i as int));
        assert(ls.take(i + 1).last() == lines@[i as int]@);
        match entry_of_line(&lines[i]) {
            Some(e) => {
                entries.push(e);
            },
            None => {},
        }
        i = i + 1;
    }
    assert(ls.take(lines@.len() as int) == ls);
    let ghost es = entries_of(ls);
    let n = entries.len();
    let mut keys: Vec<(u64, usize)> = Vec::new();
    let mut j: usize = 0;
    while j < n
        invariant
            n == entries@.len(),
            n == es.len(),
            forall|k: int| 0 <= k < n ==> (#[trigger] entries@[k]).0 == es[k].0 && entries@[k].1@ == es[k].1,
            j <= n,
            keys@ == count_keys(es).take(j as int),
        decreases n - j,
    {
        keys.push((u64::MAX - entries[j].0, j));
        j = j + 1;
    }
    assert(keys@ == count_keys(es));
    let order = sort_stable(&keys);
    proof {
        lemma_sort_positions(keys@, n as int);
    }
    let mut r: Vec<(u64, String)> = Vec::new();
    let mut k: usize = 0;
    while k < order.len()
        invariant
            n == entries@.len(),
            n == es.len(),
            forall|m: int| 0 <= m < n ==> (#[trigger] entries@[m]).0 == es[m].0 && entries@[m].1@ == es[m].1,
            order@ == stable_sort(count_keys(es)),
            order@.len() == n,
            forall|m: int| 0 <= m < order@.len() ==> (#[trigger] order@[m]).1 < n,
            k <= order@.len(),
            r@.len() == k,
            forall|m: int|
                0 <= m < k ==> (#[trigger] r@[m]).0 == es[order@[m].1 as int].0 && r@[m].1@
                    == es[order@[m].1 as int].1,
        decreases order@.len() - k,
    {
        let idx = order[k].1;
        r.push((entries[idx].0, entries[idx].1.clone()));
        k = k + 1;
    }
    r
}

/// Reads the color of a single-color histogram.
pub fn parse_histogram_color(output: &str) -> (r: Result<String, WallbashError>)
    ensures
        match histogram_color(output@) {
            Some(c) => r is Ok && r->Ok_0@ == c,
            None => r is Err && r->Err_0@ == Fault::MagickParse(output@),
        },
{
    let cs = chars_of(output);
    let w = count_lead_ws(&cs, 0);
    assert(cs@.skip(0) == cs@);
    let mut first: Vec<char> = Vec::new();
    let mut i = w;
    let ghost s = cs@.skip(w as int);
    proof {
        lemma_first_line_prefix(s, 0);
    }
    while i < cs.len() && cs[i] != '\n'
        invariant
            w <= i <= cs@.len(),
            s == cs@.skip(w as int),
            first@ == s.take(i - w),
            forall|k: int| 0 <= k < i - w ==> s[k] != '\n',
        decreases cs@.len() - i,
    {
        first.push(cs[i]);
        i = i + 1;
        assert(first@ =~= s.take(i - w));
    }
    proof {
        lemma_first_line(s, (i - w) as int);
    }
    match entry_of_line(&first) {
        Some(e) => Ok(e.1),
        None => Err(WallbashError::MagickParse(output.to_owned())),
    }
}

proof fn lemma_first_line_prefix(s: Seq<char>, j: int)
    requires
        0 <= j <= s.len(),
        forall|k: int| 0 <= k < j ==> s[k] != '\n',
    ensures
        split_lines(s.take(j)).len() == 1,
        split_lines(s.take(j))[0] == s.take(j),
    decreases j,
{
    if j > 0 {
        lemma_first_line_prefix(s, j - 1);
        assert(s.take(j).drop_last() == s.take(j - 1));
    } else {
        assert(s.take(0) =~= Seq::<char>::empty());
    }
}

/// Once a line break stands at `j` (or the text ends there), the first line
/// of the whole text is `s.take(j)`.
proof fn lemma_first_line(s: Seq<char>, j: int)
    requires
        0 <= j <= s.len(),
        forall|k: int| 0 <= k < j ==> s[k] != '\n',
        j < s.len() ==> s[j] == '\n',
    ensures
        split_lines(s)[0] == s.take(j),
{
    lemma_first_line_prefix(s, j);
    lemma_first_line_from(s, j, s.len() as int);
    assert(s.take(s.len() as int) == s);
}

proof fn lemma_first_line_from(s: Seq<char>, j: int, m: int)
    requires
        0 <= j <= m <= s.len(),
        forall|k: int| 0 <= k < j ==> s[k] != '\n',
        j < s.len() ==> s[j] == '\n',
        split_lines(s.take(j))[0] == s.take(j),
        split_lines(s.take(j)).len() == 1,
    ensures
        split_lines(s.take(m)).len() >= 1,
        split_lines(s.take(m))[0] == s.take(j),
        m > j ==> split_lines(s.take(m)).len() >= 2,
    decreases s.len() - j - (s.len() - m),
{
    if m > j {
        lemma_first_line_from(s, j, m - 1);
        assert(s.take(m).drop_last() == s.take(m - 1));
        lemma_split_lines_nonempty(s.take(m - 1));
    }
    if m == s.len() {
        assert(s.take(m) == s);
    }
}

fn hue_at_pos(cs: &Vec<char>, p: usize) -> (r: Option<usize>)
    requires
        p <= cs@.len(),
    ensures
        match hue_at(cs@.skip(p as int)) {
            None => r is None,
            Some(h) => r is Some && p + 4 + r->0 <= cs@.len() && h == cs@.subrange(
                p + 4,
                p + 4 + r->0,
            ),
        },
{
    let ghost s = cs@.skip(p as int);
    if cs.len() - p < 4 || cs[p] != 'h' || cs[p + 1] != 's' || cs[p + 2] != 'b' || cs[p + 3]
        != '(' {
        return None;
    }
    let ghost t = s.skip(4);
    assert(t == cs@.skip(p + 4));
    let a = count_lead_digits(cs, p + 4);
    if a == 0 || p + 4 + a >= cs.len() {
        return None;
    }
    assert(t[a as int] == cs@[p + 4 + a]);
    if cs[p + 4 + a] == ',' {
        assert(t.take(a as int) == cs@.subrange(p + 4, p + 4 + a));
        return Some(a);
    }
    if cs[p + 4 + a] != '.' {
        return None;
    }
    assert(t.skip(a + 1) == cs@.skip(p + 4 + a + 1));
    let b = count_lead_digits(cs, p + 4 + a + 1);
    if p + 4 + a + 1 + b < cs.len() && cs[p + 4 + a + 1 + b] == ',' {
        assert(t[a + 1 + b] == cs@[p + 4 + a + 1 + b]);
        assert(t.take(a + 1 + b) == cs@.subrange(p + 4, p + 4 + a + 1 + b));
        Some(a + 1 + b)
    } else {
        None
    }
}

/// Reads the hue from the HSB histogram of a color: the number in the first
/// `hsb(<number>,` of the output.
pub fn parse_hsb_hue(output: &str) -> (r: Result<String, WallbashError>)
    ensures
        match find_hue(output@) {
            Some(h) => r is Ok && r->Ok_0@ == h,
            None => r is Err && r->Err_0@ == Fault::MagickParse(output@),
        },
{
    let cs = chars_of(output);
    let mut p: usize = 0;
    assert(cs@.skip(0) == cs@);
    while p < cs.len()
        invariant
            p <= cs@.len(),
            cs@ == output@,
            find_hue(cs@) == find_hue(cs@.skip(p as int)),
        decreases cs@.len() - p,
    {
        match hue_at_pos(&cs, p) {
            Some(len) => {
                let h = string_of(&cs.as_slice()[p + 4..p + 4 + len]);
                return Ok(h);
            },
            None => {},
        }
        assert(cs@.skip(p as int).drop_first() == cs@.skip(p + 1));
        p = p + 1;
    }
    assert(cs@.skip(p as int).len() == 0);
    Err(WallbashError::MagickParse(output.to_owned()))
}

fn concat(a: &str, b: &str) -> (r: String)
    ensures
        r@ == a@ + b@,
{
    let mut s = a.to_owned();
    push_str(&mut s, b);
    s
}

fn decimal_string(n: u64) -> (r: String)
    ensures
        r@ == decimal_text(n as nat),
{
    let mut s = String::new();
    push_decimal(&mut s, n);
    assert(s@ =~= decimal_text(n as nat));
    s
}

/// The closing arguments of every histogram request.
pub open spec fn histogram_tail() -> Seq<Seq<char>> {
    seq!["-depth"@, "8"@, "-format"@, "%c"@, "histogram:info:"@]
}

fn push_histogram_tail(v: &mut Vec<String>)
    ensures
        final(v).deep_view() == old(v).deep_view() + histogram_tail(),
{
    let ghost v0 = v.deep_view();
    v.push("-depth".to_owned());
    v.push("8".to_owned());
    v.push("-format".to_owned());
    v.push("%c".to_owned());
    v.push("histogram:info:".to_owned());
    assert(v.deep_view() =~= v0 + histogram_tail());
}

pub open spec fn ping_args(image: Seq<char>) -> Seq<Seq<char>> {
    seq!["-ping"@, image, "-format"@, "%t"@, "info:"@]
}

/// Arguments that check that ImageMagick can read an image.
pub fn ping_image(image_path: &str) -> (r: Vec<String>)
    ensures
        r.deep_view() == ping_args(image_path@),
{
    let mut v: Vec<String> = Vec::new();
    v.push("-ping".to_owned());
    v.push(image_path.to_owned());
    v.push("-format".to_owned());
    v.push("%t".to_owned());
    v.push("info:".to_owned());
    assert(v.deep_view() =~= ping_args(image_path@));
    v
}

pub open spec fn mpc_args(image: Seq<char>, mpc: Seq<char>) -> Seq<Seq<char>> {
    seq![
        "-quiet"@,
        "-regard-warnings"@,
        image + "[0]"@,
        "-alpha"@,
        "off"@,
        "+repage"@,
        mpc,
    ]
}

/// Arguments that write the first frame of an image, without alpha, to an
/// MPC cache file.
pub fn create_mpc_cache(image_path: &str, mpc_path: &str) -> (r: Vec<String>)
    ensures
        r.deep_view() == mpc_args(image_path@, mpc_path@),
{
    let mut v: Vec<String> = Vec::new();
    v.push("-quiet".to_owned());
    v.push("-regard-warnings".to_owned());
    v.push(concat(image_path, "[0]"));
    v.push("-alpha".to_owned());
    v.push("off".to_owned());
    v.push("+repage".to_owned());
    v.push(mpc_path.to_owned());
    assert(v.deep_view() =~= mpc_args(image_path@, mpc_path@));
    v
}

pub open spec fn kmeans_args(mpc: Seq<char>, colors: nat, fuzz: nat) -> Seq<Seq<char>> {
    seq![
        "mpc:"@ + mpc,
        "-depth"@,
        "8"@,
        "-fuzz"@,
        decimal_text(fuzz) + "%"@,
        "+dither"@,
        "-kmeans"@,
        decimal_text(colors),
    ] + histogram_tail()
}

/// Arguments of a k-means reduction of the MPC image to `colors` colors,
/// printed as a histogram (read with [`parse_histogram`]).
pub fn extract_kmeans_colors(mpc_path: &str, colors: usize, fuzz: u8) -> (r: Vec<String>)
    ensures
        r.deep_view() == kmeans_args(mpc_path@, colors as nat, fuzz as nat),
{
    let mut v: Vec<String> = Vec::new();
    v.push(concat("mpc:", mpc_path));
    v.push("-depth".to_owned());
    v.push("8".to_owned());
    v.push("-fuzz".to_owned());
    let mut f = decimal_string(fuzz as u64);
    push_str(&mut f, "%");
    v.push(f);
    v.push("+dither".to_owned());
    v.push("-kmeans".to_owned());
    v.push(decimal_string(colors as u64));
    let ghost head = v.deep_view();
    push_histogram_tail(&mut v);
    assert(head =~= seq![
        "mpc:"@ + mpc_path@,
        "-depth"@,
        "8"@,
        "-fuzz"@,
        decimal_text(fuzz as nat) + "%"@,
        "+dither"@,
        "-kmeans"@,
        decimal_text(colors as nat),
    ]);
    v
}

pub open spec fn brightness_args(target: Seq<char>) -> Seq<Seq<char>> {
    seq![target, "-colorspace"@, "gray"@, "-format"@, "%[fx:mean]"@, "info:"@]
}

/// Arguments that print the mean gray level of a target, from 0 to 1.
pub fn check_brightness_dark(target: &str) -> (r: Vec<String>)
    ensures
        r.deep_view() == brightness_args(target@),
{
    let mut v: Vec<String> = Vec::new();
    v.push(target.to_owned());
    v.push("-colorspace".to_owned());
    v.push("gray".to_owned());
    v.push("-format".to_owned());
    v.push("%[fx:mean]".to_owned());
    v.push("info:".to_owned());
    assert(v.deep_view() =~= brightness_args(target@));
    v
}

pub open spec fn saturation_args(mpc: Seq<char>) -> Seq<Seq<char>> {
    seq![
        "mpc:"@ + mpc,
        "-colorspace"@,
        "HSL"@,
        "-channel"@,
        "g"@,
        "-separate"@,
        "+channel"@,
        "-format"@,
        "%[fx:mean]"@,
        "info:"@,
    ]
}

/// Arguments that print the mean HSL saturation of the MPC image, from 0 to 1.
pub fn get_average_saturation(mpc_path: &str) -> (r: Vec<String>)
    ensures
        r.deep_view() == saturation_args(mpc_path@),
{
    let mut v: Vec<String> = Vec::new();
    v.push(concat("mpc:", mpc_path));
    v.push("-colorspace".to_owned());
    v.push("HSL".to_owned());
    v.push("-channel".to_owned());
    v.push("g".to_owned());
    v.push("-separate".to_owned());
    v.push("+channel".to_owned());
    v.push("-format".to_owned());
    v.push("%[fx:mean]".to_owned());
    v.push("info:".to_owned());
    assert(v.deep_view() =~= saturation_args(mpc_path@));
    v
}

pub open spec fn modulate_args(source: Seq<char>, bri: u8, sat: u8, hue: u8) -> Seq<Seq<char>> {
    seq![
        source,
        "-depth"@,
        "8"@,
        "-normalize"@,
        "-modulate"@,
        decimal_text(bri as nat) + ","@ + decimal_text(sat as nat) + ","@ + decimal_text(hue as nat),
    ] + histogram_tail()
}

/// Arguments that modulate a normalised source by brightness, saturation and
/// hue percentages, printed as a histogram (read with
/// [`parse_histogram_color`]).
pub fn modulate_color(source_target: &str, bri: u8, sat: u8, hue: u8) -> (r: Vec<String>)
    ensures
        r.deep_view() == modulate_args(source_target@, bri, sat, hue),
{
    let mut v: Vec<String> = Vec::new();
    v.push(source_target.to_owned());
    v.push("-depth".to_owned());
    v.push("8".to_owned());
    v.push("-normalize".to_owned());
    v.push("-modulate".to_owned());
    let mut m = decimal_string(bri as u64);
    push_str(&mut m, ",");
    push_decimal(&mut m, sat as u64);
    push_str(&mut m, ",");
    push_decimal(&mut m, hue as u64);
    v.push(m);
    let ghost head = v.deep_view();
    push_histogram_tail(&mut v);
    assert(head =~= seq![
        source_target@,
        "-depth"@,
        "8"@,
        "-normalize"@,
        "-modulate"@,
        decimal_text(bri as nat) + ","@ + decimal_text(sat as nat) + ","@ + decimal_text(hue as nat),
    ]);
    v
}

pub open spec fn hue_args(target: Seq<char>) -> Seq<Seq<char>> {
    seq![target, "-colorspace"@, "HSB"@, "-format"@, "%c"@, "histogram:info:"@]
}

/// Arguments that print the HSB histogram of a color (read with
/// [`parse_hsb_hue`]).
pub fn get_hsb_hue(color_target: &str) -> (r: Vec<String>)
    ensures
        r.deep_view() == hue_args(color_target@),
{
    let mut v: Vec<String> = Vec::new();
    v.push(color_target.to_owned());
    v.push("-colorspace".to_owned());
    v.push("HSB".to_owned());
    v.push("-format".to_owned());
    v.push("%c".to_owned());
    v.push("histogram:info:".to_owned());
    assert(v.deep_view() =~= hue_args(color_target@));
    v
}

pub open spec fn from_hsb_args(hsb: Seq<char>) -> Seq<Seq<char>> {
    seq!["xc:"@ + hsb] + histogram_tail()
}

/// Arguments that print the histogram of a solid color given as
/// `hsb(h,s%,b%)` (read with [`parse_histogram_color`]).
pub fn color_from_hsb(hsb_string: &str) -> (r: Vec<String>)
    ensures
        r.deep_view() == from_hsb_args(hsb_string@),
{
    let mut v: Vec<String> = Vec::new();
    v.push(concat("xc:", hsb_string));
    let ghost head = v.deep_view();
    push_histogram_tail(&mut v);
    assert(head =~= seq!["xc:"@ + hsb_string@]);
    v
}

pub open spec fn thumbnail_args(input: Seq<char>, thumbnail: Seq<char>) -> Seq<Seq<char>> {
    seq![
        input + "[0]"@,
        "-strip"@,
        "-resize"@,
        "1000"@,
        "-gravity"@,
        "center"@,
        "-extent"@,
        "1000"@,
        "-quality"@,
        "90"@,
        thumbnail,
    ]
}

/// Arguments that write a 1000-pixel, center-cropped thumbnail of an image.
pub fn generate_thumbnail(input_path: &str, thumbnail_path: &str) -> (r: Vec<String>)
    ensures
        r.deep_view() == thumbnail_args(input_path@, thumbnail_path@),
{
    let mut v: Vec<String> = Vec::new();
    v.push(concat(input_path, "[0]"));
    v.push("-strip".to_owned());
    v.push("-resize".to_owned());
    v.push("1000".to_owned());
    v.push("-gravity".to_owned());
    v.push("center".to_owned());
    v.push("-extent".to_owned());
    v.push("1000".to_owned());
    v.push("-quality".to_owned());
    v.push("90".to_owned());
    v.push(thumbnail_path.to_owned());
    assert(v.deep_view() =~= thumbnail_args(input_path@, thumbnail_path@));
    v
}

/// The HSB color text `hsb(<hue>,<sat>%,<bri>%)`.
pub open spec fn hsb_text(hue: Seq<char>, sat: u8, bri: u8) -> Seq<char> {
    "hsb("@ + hue + ","@ + decimal_text(sat as nat) + "%,"@ + decimal_text(bri as nat) + "%)"@
}

/// The invocation that answers a question of the palette builder; the
/// analysed image is the MPC file at `mpc`, a solid color `c` is `xc:#c`.
pub open spec fn query_args(q: QueryView, mpc: Seq<char>) -> Seq<Seq<char>> {
    match q {
        QueryView::ImageIsDark => brightness_args("mpc:"@ + mpc),
        QueryView::ImageIsGray => saturation_args(mpc),
        QueryView::ColorIsDark(c) => brightness_args("xc:#"@ + c),
        QueryView::Modulate { color, bri, sat, hue } => modulate_args("xc:#"@ + color, bri, sat, hue),
        QueryView::Hue(c) => hue_args("xc:#"@ + c),
        QueryView::FromHsb { hue, sat, bri } => from_hsb_args(hsb_text(hue, sat, bri)),
    }
}

impl Query {
    /// The `magick` arguments that answer this question.
    pub fn magick_args(&self, mpc_path: &str) -> (r: Vec<String>)
        ensures
            r.deep_view() == query_args(self@, mpc_path@),
    {
        match self {
            Query::ImageIsDark => check_brightness_dark(concat("mpc:", mpc_path).as_str()),
            Query::ImageIsGray => get_average_saturation(mpc_path),
            Query::ColorIsDark(c) => check_brightness_dark(concat("xc:#", c.as_str()).as_str()),
            Query::Modulate { color, bri, sat, hue } => modulate_color(
                concat("xc:#", color.as_str()).as_str(),
                *bri,
                *sat,
                *hue,
            ),
            Query::Hue(c) => get_hsb_hue(concat("xc:#", c.as_str()).as_str()),
            Query::FromHsb { hue, sat, bri } => {
                let mut h = concat("hsb(", hue.as_str());
                push_str(&mut h, ",");
                push_decimal(&mut h, *sat as u64);
                push_str(&mut h, "%,");
                push_decimal(&mut h, *bri as u64);
                push_str(&mut h, "%)");
                color_from_hsb(h.as_str())
            },
        }
    }
}

} // verus!
