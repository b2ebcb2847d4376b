//! Reading the current wallpaper from what `hyprctl` prints.

use vstd::prelude::*;
use crate::curve::split_lines;
use crate::template::{slice_of, trim, trimmed};
use crate::magick::lines_of;
use crate::text::{chars_of, string_of};

verus! {

/// `pat` stands in `s` at position `i`.
pub open spec fn occurs_at(s: Seq<char>, pat: Seq<char>, i: int) -> bool {
    0 <= i && i + pat.len() <= s.len() && s.subrange(i, i + pat.len()) == pat
}

/// The first position from `i` on where `pat` stands in `s`.
pub open spec fn find_from(s: Seq<char>, pat: Seq<char>, i: int) -> Option<int>
    decreases s.len() + 1 - i,
{
    if i < 0 || i + pat.len() > s.len() {
        None
    } else if occurs_at(s, pat, i) {
        Some(i)
    } else {
        find_from(s, pat, i + 1)
    }
}

/// The text before the first `pat`, or all of it.
pub open spec fn before(s: Seq<char>, pat: Seq<char>) -> Seq<char> {
    match find_from(s, pat, 0) {
        Some(i) => s.take(i),
        None => s,
    }
}

/// The first line, from position `k` on, that holds `pat`.
pub open spec fn first_line_with(lines: Seq<Seq<char>>, pat: Seq<char>, k: int) -> Option<Seq<char>>
    decreases lines.len() - k,
{
    if k < 0 || k >= lines.len() {
        None
    } else if find_from(lines[k], pat, 0) is Some {
        Some(lines[k])
    } else {
        first_line_with(lines, pat, k + 1)
    }
}

/// The path in `hyprctl hyprpaper listactive` output: on the first line that
/// mentions `Wallpaper `, the text after that mention, up to a further one
/// and up to ` on monitor`, trimmed.
pub open spec fn hyprpaper_path(out: Seq<char>) -> Option<Seq<char>> {
    match first_line_with(split_lines(out), "Wallpaper "@, 0) {
        None => None,
        Some(line) => {
            let after = line.skip(find_from(line, "Wallpaper "@, 0)->0 + "Wallpaper "@.len());
            Some(trim(before(before(after, "Wallpaper "@), " on monitor"@)))
        },
    }
}

/// The path in `hyprctl getvar wallpaper` output: the text after the first
/// `: `, trimmed.
pub open spec fn getvar_path(out: Seq<char>) -> Option<Seq<char>> {
    match find_from(out, ": "@, 0) {
        None => None,
        Some(i) => Some(trim(out.skip(i + ": "@.len()))),
    }
}

fn occurs(s: &Vec<char>, pat: &Vec<char>, i: usize) -> (r: bool)
    ensures
        r == occurs_at(s@, pat@, i as int),
{
    let n = s.len();
    if i > n || pat.len() > n - i {
        return false;
    }
    let mut k: usize = 0;
    while k < pat.len()
        invariant
            n == s@.len(),
            i + pat@.len() <= s@.len(),
            k <= pat@.len(),
            forall|j: int| 0 <= j < k ==> s@[i + j] == pat@[j],
        decreases pat@.len() - k,
    {
        if s[i + k] != pat[k] {
            assert(s@.subrange(i as int, i + pat@.len())[k as int] != pat@[k as int]);
            return false;
        }
        k = k + 1;
    }
    assert(s@.subrange(i as int, i + pat@.len()) =~= pat@);
    true
}

fn find(s: &Vec<char>, pat: &Vec<char>) -> (r: Option<usize>)
    ensures
        r is Some <==> find_from(s@, pat@, 0) is Some,
        r is Some ==> find_from(s@, pat@, 0) == Some(r->0 as int) && r->0 + pat@.len() <= s@.len(),
{
    let n = s.len();
    let m = pat.len();
    if m == 0 {
        assert(s@.subrange(0, 0) =~= pat@);
        return Some(0);
    }
    if m > n {
        return None;
    }
    let mut i: usize = 0;
    while i <= n - m
        invariant
            n == s@.len(),
            m == pat@.len(),
            0 < m <= n,
            find_from(s@, pat@, 0) == find_from(s@, pat@, i as int),
        decreases n + 1 - i,
    {
        if occurs(s, pat, i) {
            return Some(i);
        }
        i = i + 1;
    }
    None
}

fn text_before(s: &Vec<char>, pat: &Vec<char>) -> (r: Vec<char>)
    ensures
        r@ == before(s@, pat@),
{
    match find(s, pat) {
        Some(i) => slice_of(s, 0, i),
        None => slice_of(s, 0, s.len()),
    }
}

/// Reads the wallpaper path from `hyprctl hyprpaper listactive` output.
pub fn hyprpaper_wallpaper(stdout: &str) -> (r: Option<String>)
    ensures
        match hyprpaper_path(stdout@) {
            None => r is None,
            Some(p) => r is Some && r->0@ == p,
        },
{
    let lines = lines_of(stdout);
    let ghost ls = split_lines(stdout@);
    let marker = chars_of("Wallpaper ");
    let monitor = chars_of(" on monitor");
    let mut k: usize = 0;
    while k < lines.len()
        invariant
            ls == split_lines(stdout@),
            lines@.len() == ls.len(),
            forall|j: int| 0 <= j < lines@.len() ==> (#[trigger] lines@[j])@ == ls[j],
            marker@ == "Wallpaper "@,
            monitor@ == " on monitor"@,
            k <= lines@.len(),
            first_line_with(ls, marker@, 0) == first_line_with(ls, marker@, k as int),
        decreases lines@.len() - k,
    {
        let line = &lines[k];
        assert(line@ == ls[k as int]);
        match find(line, &marker) {
            Some(at) => {
                assert(first_line_with(ls, marker@, k as int) == Some(ls[k as int]));
                assert(hyprpaper_path(stdout@) == Some(
                    trim(before(before(line@.skip(at + marker@.len()), marker@), monitor@)),
                ));
                let n = line.len();
                let after = slice_of(line, at + marker.len(), n);
                assert(after@ == line@.skip(at + marker@.len()));
                let part = text_before(&text_before(&after, &marker), &monitor);
                return Some(string_of(trimmed(&part).as_slice()));
            },
            None => {},
        }
        k = k + 1;
    }
    None
}

/// Reads the wallpaper path from `hyprctl getvar wallpaper` output.
pub fn getvar_wallpaper(stdout: &str) -> (r: Option<String>)
    ensures
        match getvar_path(stdout@) {
            None => r is None,
            Some(p) => r is Some && r->0@ == p,
        },
{
    let cs = chars_of(stdout);
    let sep = chars_of(": ");
    match find(&cs, &sep) {
        None => None,
        Some(i) => {
            let n = cs.len();
            let rest = slice_of(&cs, i + sep.len(), n);
            assert(rest@ == cs@.skip(i + sep@.len()));
            Some(string_of(trimmed(&rest).as_slice()))
        },
    }
}

} // verus!
