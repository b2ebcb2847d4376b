//! Brightness/saturation curves: parsing the text form and orienting the
//! points for a display mode.

use vstd::prelude::*;
use crate::config::SortMode;
use crate::error::{Fault, WallbashError};
use crate::order::{lemma_sort_positions, reverse_entries, sort_stable, stable_sort};
use crate::text::{chars_of, string_of};

verus! {

/// Unicode white space, as `char::is_whitespace` decides it.
pub open spec fn is_ws(c: char) -> bool {
    let u = c as int;
    (9 <= u && u <= 13) || u == 32 || u == 0x85 || u == 0xA0 || u == 0x1680 || (0x2000 <= u
        && u <= 0x200A) || u == 0x2028 || u == 0x2029 || u == 0x202F || u == 0x205F || u == 0x3000
}

/// The text cut at each line break; the breaks themselves are dropped.
pub open spec fn split_lines(s: Seq<char>) -> Seq<Seq<char>>
    decreases s.len(),
{
    if s.len() == 0 {
        seq![Seq::empty()]
    } else {
        let rest = split_lines(s.drop_last());
        if s.last() == '\n' {
            rest.push(Seq::empty())
        } else {
            rest.update(rest.len() - 1, rest.last().push(s.last()))
        }
    }
}

/// The maximal runs of non-white-space characters of `s`, in order.
pub open spec fn words(s: Seq<char>) -> Seq<Seq<char>>
    decreases s.len(),
{
    if s.len() == 0 {
        seq![]
    } else {
        let w = words(s.drop_last());
        let c = s.last();
        if is_ws(c) {
            w
        } else if s.len() >= 2 && !is_ws(s[s.len() - 2]) {
            w.update(w.len() - 1, w.last().push(c))
        } else {
            w.push(seq![c])
        }
    }
}

/// The digits of a number token: the token without one optional leading `+`.
pub open spec fn number_digits(t: Seq<char>) -> Seq<char> {
    if t.len() > 0 && t[0] == '+' {
        t.drop_first()
    } else {
        t
    }
}

/// A decimal number: an optional `+` and at least one ASCII digit.
pub open spec fn is_number(t: Seq<char>) -> bool {
    let d = number_digits(t);
    d.len() > 0 && forall|i: int| 0 <= i < d.len() ==> '0' <= #[trigger] d[i] && d[i] <= '9'
}

pub open spec fn digits_value(d: Seq<char>) -> nat
    decreases d.len(),
{
    if d.len() == 0 {
        0
    } else {
        digits_value(d.drop_last()) * 10 + (d.last() as int - 48) as nat
    }
}

/// What one line of curve text holds.
pub ghost enum LineOutcome {
    Blank,
    Point(u8, u8),
    Malformed,
    Invalid,
    OutOfRange,
}

/// A line is blank (no words), a point (two numbers up to 100), or wrong in
/// one of three ways: not two words, a word that is no number, or a number
/// above 100.
pub open spec fn line_outcome(line: Seq<char>) -> LineOutcome {
    let w = words(line);
    if w.len() == 0 {
        LineOutcome::Blank
    } else if w.len() != 2 {
        LineOutcome::Malformed
    } else if !is_number(w[0]) || !is_number(w[1]) {
        LineOutcome::Invalid
    } else {
        let b = digits_value(number_digits(w[0]));
        let s = digits_value(number_digits(w[1]));
        if b > 100 || s > 100 {
            LineOutcome::OutOfRange
        } else {
            LineOutcome::Point(b as u8, s as u8)
        }
    }
}

/// The points of the lines in order, or the fault of the first wrong line.
pub open spec fn parse_lines(ls: Seq<Seq<char>>) -> Result<Seq<(u8, u8)>, Fault>
    decreases ls.len(),
{
    if ls.len() == 0 {
        Ok(seq![])
    } else {
        match parse_lines(ls.drop_last()) {
            Err(e) => Err(e),
            Ok(ps) => match line_outcome(ls.last()) {
                LineOutcome::Blank => Ok(ps),
                LineOutcome::Point(b, s) => Ok(ps.push((b, s))),
                LineOutcome::Malformed => Err(Fault::CurveLineMalformed(ls.last())),
                LineOutcome::Invalid => Err(Fault::CurveValueInvalid(ls.last())),
                LineOutcome::OutOfRange => Err(Fault::CurveValueOutOfRange(ls.last())),
            },
        }
    }
}

/// The curve that a text denotes.
pub open spec fn parse_curve_text(s: Seq<char>) -> Result<Seq<(u8, u8)>, Fault> {
    parse_lines(split_lines(s))
}

pub(crate) proof fn lemma_split_lines_nonempty(s: Seq<char>)
    ensures
        split_lines(s).len() >= 1,
    decreases s.len(),
{
    if s.len() > 0 {
        lemma_split_lines_nonempty(s.drop_last());
    }
}

proof fn lemma_words_nonempty(s: Seq<char>)
    requires
        s.len() > 0,
        !is_ws(s.last()),
    ensures
        words(s).len() >= 1,
    decreases s.len(),
{
    if s.len() >= 2 && !is_ws(s[s.len() - 2]) {
        lemma_words_nonempty(s.drop_last());
    }
}

pub(crate) fn is_whitespace(c: char) -> (r: bool)
    ensures
        r == is_ws(c),
{
    let u = c as u32;
    (9 <= u && u <= 13) || u == 32 || u == 0x85 || u == 0xA0 || u == 0x1680 || (0x2000 <= u && u
        <= 0x200A) || u == 0x2028 || u == 0x2029 || u == 0x202F || u == 0x205F || u == 0x3000
}

fn split_words(line: &Vec<char>) -> (r: Vec<Vec<char>>)
    ensures
        r@.len() == words(line@).len(),
        forall|k: int| 0 <= k < r@.len() ==> (#[trigger] r@[k])@ == words(line@)[k],
{
    let mut ws: Vec<Vec<char>> = Vec::new();
    let n = line.len();
    let mut i: usize = 0;
    while i < n
        invariant
            n == line@.len(),
            i <= n,
            ws@.len() == words(line@.take(i as int)).len(),
            forall|k: int| 0 <= k < ws@.len() ==> (#[trigger] ws@[k])@ == words(line@.take(i as int))[k],
        decreases n - i,
    {
        let c = line[i];
        let ghost pre = line@.take(i as int);
        let ghost cur = line@.take(i + 1);
        assert(cur.drop_last() == pre);
        if is_whitespace(c) {
        } else if i >= 1 && !is_whitespace(line[i - 1]) {
            proof {
                lemma_words_nonempty(pre);
            }
            let mut last = ws.pop().unwrap();
            last.push(c);
            ws.push(last);
        } else {
            let mut w: Vec<char> = Vec::new();
            w.push(c);
            ws.push(w);
            assert(ws@.last()@ == seq![c]);
        }
        i = i + 1;
    }
    assert(line@.take(n as int) == line@);
    ws
}

/// `Some(v)` for a number token, with `v` its value or 101 for any value
/// above 100; `None` for a token that is no number.
fn parse_level(t: &Vec<char>) -> (r: Option<u8>)
    ensures
        r is Some <==> is_number(t@),
        r is Some ==> r->0 == (if digits_value(number_digits(t@)) > 100 {
            101
        } else {
            digits_value(number_digits(t@))
        }),
{
    let n = t.len();
    let start: usize = if n > 0 && t[0] == '+' {
        1
    } else {
        0
    };
    let ghost d = number_digits(t@);
    assert(d == t@.subrange(start as int, n as int));
    if start >= n {
        return None;
    }
    let mut acc: u16 = 0;
    let mut i: usize = start;
    while i < n
        invariant
            n == t@.len(),
            start <= i <= n,
            d == number_digits(t@),
            d == t@.subrange(start as int, n as int),
            forall|k: int| 0 <= k < i - start ==> '0' <= #[trigger] d[k] && d[k] <= '9',
            acc == (if digits_value(d.take(i - start)) > 100 {
                101
            } else {
                digits_value(d.take(i - start))
            }),
        decreases n - i,
    {
        let c = t[i];
        if !('0' <= c && c <= '9') {
            assert(d[i - start] == c);
            return None;
        }
        let ghost pre = d.take(i - start);
        assert(d.take(i + 1 - start).drop_last() == pre);
        assert(d[i - start] == c);
        let digit = (c as u32 - 48) as u16;
        if acc > 100 || acc * 10 + digit > 100 {
            acc = 101;
        } else {
            acc = acc * 10 + digit;
        }
        i = i + 1;
    }
    assert(d.take(n - start) == d);
    Some(acc as u8)
}

/// Classifies one line; `Ok(None)` for a blank line.
fn parse_line(line: &Vec<char>) -> (r: Result<Option<(u8, u8)>, WallbashError>)
    ensures
        match line_outcome(line@) {
            LineOutcome::Blank => r == Ok::<Option<(u8, u8)>, WallbashError>(None),
            LineOutcome::Point(b, s) => r == Ok::<Option<(u8, u8)>, WallbashError>(Some((b, s))),
            LineOutcome::Malformed => r is Err && r->Err_0@ == Fault::CurveLineMalformed(line@),
            LineOutcome::Invalid => r is Err && r->Err_0@ == Fault::CurveValueInvalid(line@),
            LineOutcome::OutOfRange => r is Err && r->Err_0@ == Fault::CurveValueOutOfRange(line@),
        },
{
    let ws = split_words(line);
    if ws.len() == 0 {
        return Ok(None);
    }
    if ws.len() != 2 {
        return Err(WallbashError::CurveLineMalformed(string_of(line.as_slice())));
    }
    let b = parse_level(&ws[0]);
    let s = parse_level(&ws[1]);
    match (b, s) {
        (Some(b), Some(s)) => {
            if b > 100 || s > 100 {
                Err(WallbashError::CurveValueOutOfRange(string_of(line.as_slice())))
            } else {
                Ok(Some((b, s)))
            }
        },
        _ => Err(WallbashError::CurveValueInvalid(string_of(line.as_slice()))),
    }
}

/// Parses curve text: one `<brightness> <saturation>` pair per line, each
/// value a decimal number from 0 to 100; blank lines are skipped. The first
/// wrong line decides the error, which carries that line. Any number of
/// points is accepted.
pub fn parse_curve(curve_str: &str) -> (r: Result<Vec<(u8, u8)>, WallbashError>)
    ensures
        r is Ok <==> parse_curve_text(curve_str@) is Ok,
        r is Ok ==> parse_curve_text(curve_str@) == Ok::<Seq<(u8, u8)>, Fault>(r->Ok_0@),
        r is Err ==> parse_curve_text(curve_str@) == Err::<Seq<(u8, u8)>, Fault>(r->Err_0@),
{
    let cs = chars_of(curve_str);
    let n = cs.len();
    let mut points: Vec<(u8, u8)> = Vec::new();
    let mut failure: Option<WallbashError> = None;
    let mut cur: Vec<char> = Vec::new();
    let mut i: usize = 0;
    proof {
        lemma_split_lines_nonempty(cs@.take(0));
    }
    while i < n
        invariant
            n == cs@.len(),
            i <= n,
            split_lines(cs@.take(i as int)).len() >= 1,
            cur@ == split_lines(cs@.take(i as int)).last(),
            parse_lines(split_lines(cs@.take(i as int)).drop_last()) == (match failure {
                None => Ok::<Seq<(u8, u8)>, Fault>(points@),
                Some(e) => Err(e@),
            }),
        decreases n - i,
    {
        let c = cs[i];
        let ghost pre = split_lines(cs@.take(i as int));
        assert(cs@.take(i + 1).drop_last() == cs@.take(i as int));
        if c == '\n' {
            assert(split_lines(cs@.take(i + 1)).drop_last() == pre);
            assert(pre.drop_last().push(pre.last()) == pre);
            if failure.is_none() {
                match parse_line(&cur) {
                    Ok(Some(p)) => {
                        points.push(p);
                    },
                    Ok(None) => {},
                    Err(e) => {
                        failure = Some(e);
                    },
                }
            }
            cur = Vec::new();
        } else {
            assert(split_lines(cs@.take(i + 1)).drop_last() == pre.drop_last());
            cur.push(c);
        }
        i = i + 1;
    }
    assert(cs@.take(n as int) == cs@);
    let ghost all = split_lines(cs@);
    assert(all.drop_last().push(all.last()) == all);
    match failure {
        Some(e) => Err(e),
        None => match parse_line(&cur) {
            Ok(Some(p)) => {
                points.push(p);
                Ok(points)
            },
            Ok(None) => Ok(points),
            Err(e) => Err(e),
        },
    }
}

/// Each point keyed by its brightness, with its position.
pub open spec fn brightness_keys(c: Seq<(u8, u8)>) -> Seq<(u64, usize)> {
    Seq::new(c.len(), |i: int| (c[i].0 as u64, i as usize))
}

/// The curve ordered by ascending brightness (points of equal brightness in
/// their given order), reversed for the light mode.
pub open spec fn oriented(c: Seq<(u8, u8)>, light: bool) -> Seq<(u8, u8)> {
    let order = if light {
        stable_sort(brightness_keys(c)).reverse()
    } else {
        stable_sort(brightness_keys(c))
    };
    Seq::new(order.len(), |k: int| c[order[k].1 as int])
}

/// Orders the curve for the resolved mode: ascending brightness, reversed
/// for the light mode.
pub fn orient_curve(curve: &Vec<(u8, u8)>, mode: SortMode) -> (r: Vec<(u8, u8)>)
    ensures
        r@ == oriented(curve@, mode == SortMode::Light),
{
    let n = curve.len();
    let mut keys: Vec<(u64, usize)> = Vec::new();
    let mut i: usize = 0;
    while i < n
        invariant
            n == curve@.len(),
            i <= n,
            keys@ == brightness_keys(curve@).take(i as int),
        decreases n - i,
    {
        keys.push((curve[i].0 as u64, i));
        i = i + 1;
    }
    assert(keys@ == brightness_keys(curve@));
    let sorted = sort_stable(&keys);
    proof {
        lemma_sort_positions(keys@, n as int);
    }
    let order = if mode == SortMode::Light {
        reverse_entries(&sorted)
    } else {
        sorted
    };
    assert(forall|k: int| 0 <= k < order@.len() ==> (#[trigger] order@[k]).1 < n) by {
        if mode == SortMode::Light {
            assert forall|k: int| 0 <= k < order@.len() implies (#[trigger] order@[k]).1 < n by {
                assert(order@[k] == sorted@[sorted@.len() - 1 - k]);
            }
        }
    }
    let mut r: Vec<(u8, u8)> = Vec::new();
    let mut k: usize = 0;
    while k < order.len()
        invariant
            n == curve@.len(),
            k <= order@.len(),
            forall|j: int| 0 <= j < order@.len() ==> (#[trigger] order@[j]).1 < n,
            r@.len() == k,
            forall|j: int| 0 <= j < k ==> #[trigger] r@[j] == curve@[order@[j].1 as int],
        decreases order@.len() - k,
    {
        r.push(curve[order[k].1]);
        k = k + 1;
    }
    assert(r@ =~= oriented(curve@, mode == SortMode::Light));
    r
}

} // verus!
