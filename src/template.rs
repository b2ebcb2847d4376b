//! Directives that a custom template may declare in its first lines: where
//! its output goes, and whether an existing output is backed up first.

use vstd::prelude::*;
use crate::curve::{is_whitespace, is_ws};
use crate::magick::lead_ws;
use crate::text::{chars_of, string_of};

verus! {

/// How many leading lines of a template may hold directives.
pub const DIRECTIVE_LINES: usize = 5;

/// What a template's directives ask for.
#[derive(Debug, Clone, PartialEq, Eq)]
pub struct TemplateDirectives {
    /// Where the rendered template goes instead of the output directory.
    pub output_path: Option<String>,
    /// Whether an existing output file is copied aside before it is replaced.
    pub backup: bool,
}

/// The number of white-space characters at the end of `s`.
pub open spec fn trail_ws(s: Seq<char>) -> nat
    decreases s.len(),
{
    if s.len() > 0 && is_ws(s.last()) {
        1 + trail_ws(s.drop_last())
    } else {
        0
    }
}

/// `s` without white space at either end.
pub open spec fn trim(s: Seq<char>) -> Seq<char> {
    let a = lead_ws(s) as int;
    if a >= s.len() {
        seq![]
    } else {
        s.subrange(a, s.len() - trail_ws(s))
    }
}

pub open spec fn starts_with(s: Seq<char>, p: Seq<char>) -> bool {
    p.len() <= s.len() && s.take(p.len() as int) == p
}

pub open spec fn ends_with(s: Seq<char>, p: Seq<char>) -> bool {
    p.len() <= s.len() && s.skip(s.len() - p.len()) == p
}

/// The code of a character with ASCII capitals lowered.
pub open spec fn ascii_lower(c: char) -> int {
    if 'A' <= c && c <= 'Z' {
        c as int + 32
    } else {
        c as int
    }
}

/// Equal up to ASCII case.
pub open spec fn eq_ignore_ascii_case(s: Seq<char>, t: Seq<char>) -> bool {
    s.len() == t.len() && forall|i: int| 0 <= i < s.len() ==> ascii_lower(#[trigger] s[i]) == ascii_lower(t[i])
}

/// The text between a directive's opening and its closing `#}`, trimmed.
pub open spec fn enclosed(rest: Seq<char>) -> Seq<char> {
    trim(rest.take(rest.len() - "#}"@.len()))
}

/// The directives after one more line: `{# output: <path> #}` or
/// `#!output: <path>` set the output path; `{# backup: <flag> #}` or
/// `#!backup: <flag>` set the backup flag, true when the flag reads `true` in
/// any case. Surrounding white space is ignored; other lines change nothing.
pub open spec fn apply_directive(d: (Option<Seq<char>>, bool), line: Seq<char>) -> (Option<Seq<char>>, bool) {
    let t = trim(line);
    if starts_with(t, "{# output:"@) {
        let rest = t.skip("{# output:"@.len() as int);
        if ends_with(rest, "#}"@) {
            (Some(enclosed(rest)), d.1)
        } else {
            d
        }
    } else if starts_with(t, "#!output:"@) {
        (Some(trim(t.skip("#!output:"@.len() as int))), d.1)
    } else if starts_with(t, "{# backup:"@) {
        let rest = t.skip("{# backup:"@.len() as int);
        if ends_with(rest, "#}"@) {
            (d.0, eq_ignore_ascii_case(enclosed(rest), "true"@))
        } else {
            d
        }
    } else if starts_with(t, "#!backup:"@) {
        (d.0, eq_ignore_ascii_case(trim(t.skip("#!backup:"@.len() as int)), "true"@))
    } else {
        d
    }
}

/// The directives of a sequence of lines, read in order.
pub open spec fn directives_of(lines: Seq<Seq<char>>) -> (Option<Seq<char>>, bool)
    decreases lines.len(),
{
    if lines.len() == 0 {
        (None, false)
    } else {
        apply_directive(directives_of(lines.drop_last()), lines.last())
    }
}

fn count_trail_ws(cs: &Vec<char>) -> (r: usize)
    ensures
        r == trail_ws(cs@),
        r <= cs@.len(),
{
    let mut e = cs.len();
    assert(cs@.take(e as int) == cs@);
    while e > 0 && is_whitespace(cs[e - 1])
        invariant
            e <= cs@.len(),
            trail_ws(cs@) == (cs@.len() - e) + trail_ws(cs@.take(e as int)),
        decreases e,
    {
        assert(cs@.take(e as int).drop_last() == cs@.take(e - 1));
        e = e - 1;
    }
    cs.len() - e
}

fn count_lead(cs: &Vec<char>) -> (r: usize)
    ensures
        r == lead_ws(cs@),
        r <= cs@.len(),
{
    let mut i: usize = 0;
    assert(cs@.skip(0) == cs@);
    while i < cs.len() && is_whitespace(cs[i])
        invariant
            i <= cs@.len(),
            lead_ws(cs@) == i + lead_ws(cs@.skip(i as int)),
        decreases cs@.len() - i,
    {
        assert(cs@.skip(i as int).drop_first() == cs@.skip(i + 1));
        i = i + 1;
    }
    i
}

pub(crate) fn slice_of(cs: &Vec<char>, from: usize, to: usize) -> (r: Vec<char>)
    requires
        from <= to <= cs@.len(),
    ensures
        r@ == cs@.subrange(from as int, to as int),
{
    let mut r: Vec<char> = Vec::new();
    let mut i = from;
    while i < to
        invariant
            from <= i <= to <= cs@.len(),
            r@ == cs@.subrange(from as int, i as int),
        decreases to - i,
    {
        r.push(cs[i]);
        i = i + 1;
        assert(r@ =~= cs@.subrange(from as int, i as int));
    }
    r
}

pub(crate) fn trimmed(cs: &Vec<char>) -> (r: Vec<char>)
    ensures
        r@ == trim(cs@),
{
    let a = count_lead(cs);
    if a >= cs.len() {
        return Vec::new();
    }
    let b = count_trail_ws(cs);
    proof {
        lemma_trail_below_lead(cs@);
    }
    slice_of(cs, a, cs.len() - b)
}

/// When some character is not white space, the white space at the two ends
/// does not overlap.
proof fn lemma_trail_below_lead(s: Seq<char>)
    requires
        lead_ws(s) < s.len(),
    ensures
        lead_ws(s) + trail_ws(s) < s.len(),
{
    lemma_lead_stop(s);
    lemma_trail_stop(s, lead_ws(s) as int);
}

proof fn lemma_lead_stop(s: Seq<char>)
    requires
        lead_ws(s) < s.len(),
    ensures
        !is_ws(s[lead_ws(s) as int]),
    decreases s.len(),
{
    if s.len() > 0 && is_ws(s[0]) {
        lemma_lead_stop(s.drop_first());
    }
}

proof fn lemma_trail_stop(s: Seq<char>, k: int)
    requires
        0 <= k < s.len(),
        !is_ws(s[k]),
    ensures
        trail_ws(s) < s.len() - k,
    decreases s.len(),
{
    if s.len() > 0 && is_ws(s.last()) {
        lemma_trail_stop(s.drop_last(), k);
    }
}

fn has_prefix(s: &Vec<char>, p: &Vec<char>) -> (r: bool)
    ensures
        r == starts_with(s@, p@),
{
    if p.len() > s.len() {
        return false;
    }
    let mut i: usize = 0;
    while i < p.len()
        invariant
            p@.len() <= s@.len(),
            i <= p@.len(),
            forall|k: int| 0 <= k < i ==> s@[k] == p@[k],
        decreases p@.len() - i,
    {
        if s[i] != p[i] {
            assert(s@.take(p@.len() as int)[i as int] != p@[i as int]);
            return false;
        }
        i = i + 1;
    }
    assert(s@.take(p@.len() as int) =~= p@);
    true
}

fn has_suffix(s: &Vec<char>, p: &Vec<char>) -> (r: bool)
    ensures
        r == ends_with(s@, p@),
{
    if p.len() > s.len() {
        return false;
    }
    let off = s.len() - p.len();
    let total = s.len();
    let mut i: usize = 0;
    while i < p.len()
        invariant
            total == s@.len(),
            p@.len() <= s@.len(),
            off == s@.len() - p@.len(),
            i <= p@.len(),
            forall|k: int| 0 <= k < i ==> s@[off + k] == p@[k],
        decreases p@.len() - i,
    {
        if s[off + i] != p[i] {
            assert(s@.skip(off as int)[i as int] != p@[i as int]);
            return false;
        }
        i = i + 1;
    }
    assert(s@.skip(off as int) =~= p@);
    true
}

fn lower_code(c: char) -> (r: u32)
    ensures
        r == ascii_lower(c),
{
    let u = c as u32;
    if 65 <= u && u <= 90 {
        u + 32
    } else {
        u
    }
}

fn reads_true(s: &Vec<char>) -> (r: bool)
    ensures
        r == eq_ignore_ascii_case(s@, "true"@),
{
    let t = chars_of("true");
    if s.len() != t.len() {
        return false;
    }
    let mut i: usize = 0;
    while i < s.len()
        invariant
            s@.len() == t@.len(),
            t@ == "true"@,
            i <= s@.len(),
            forall|k: int| 0 <= k < i ==> ascii_lower(#[trigger] s@[k]) == ascii_lower(t@[k]),
        decreases s@.len() - i,
    {
        if lower_code(s[i]) != lower_code(t[i]) {
            return false;
        }
        i = i + 1;
    }
    true
}

fn apply_line(output: Option<String>, backup: bool, line: &str) -> (r: (Option<String>, bool))
    ensures
        ({
            let d = apply_directive(
                (
                    match output {
                        Some(o) => Some(o@),
                        None => None,
                    },
                    backup,
                ),
                line@,
            );
            &&& r.1 == d.1
            &&& match r.0 {
                Some(o) => d.0 == Some(o@),
                None => d.0 is None,
            }
        }),
{
    let t = trimmed(&chars_of(line));
    let output_open = chars_of("{# output:");
    let output_line = chars_of("#!output:");
    let backup_open = chars_of("{# backup:");
    let backup_line = chars_of("#!backup:");
    let close = chars_of("#}");
    if has_prefix(&t, &output_open) {
        let rest = slice_of(&t, output_open.len(), t.len());
        assert(rest@ == t@.skip(output_open@.len() as int));
        if has_suffix(&rest, &close) {
            let inner = slice_of(&rest, 0, rest.len() - close.len());
            assert(inner@ == rest@.take(rest@.len() - close@.len()));
            (Some(string_of(trimmed(&inner).as_slice())), backup)
        } else {
            (output, backup)
        }
    } else if has_prefix(&t, &output_line) {
        let rest = slice_of(&t, output_line.len(), t.len());
        assert(rest@ == t@.skip(output_line@.len() as int));
        (Some(string_of(trimmed(&rest).as_slice())), backup)
    } else if has_prefix(&t, &backup_open) {
        let rest = slice_of(&t, backup_open.len(), t.len());
        assert(rest@ == t@.skip(backup_open@.len() as int));
        if has_suffix(&rest, &close) {
            let inner = slice_of(&rest, 0, rest.len() - close.len());
            assert(inner@ == rest@.take(rest@.len() - close@.len()));
            (output, reads_true(&trimmed(&inner)))
        } else {
            (output, backup)
        }
    } else if has_prefix(&t, &backup_line) {
        let rest = slice_of(&t, backup_line.len(), t.len());
        assert(rest@ == t@.skip(backup_line@.len() as int));
        (output, reads_true(&trimmed(&rest)))
    } else {
        (output, backup)
    }
}

/// The directives among the first five lines of a template.
pub fn parse_template_directives(lines: &Vec<String>) -> (r: TemplateDirectives)
    ensures
        ({
            let n = if lines@.len() < DIRECTIVE_LINES {
                lines@.len() as int
            } else {
                DIRECTIVE_LINES as int
            };
            let d = directives_of(lines.deep_view().take(n));
            &&& r.backup == d.1
            &&& match r.output_path {
                Some(o) => d.0 == Some(o@),
                None => d.0 is None,
            }
        }),
{
    let ghost ls = lines.deep_view();
    let mut output: Option<String> = None;
    let mut backup = false;
    let mut i: usize = 0;
    while i < lines.len() && i < DIRECTIVE_LINES
        invariant
            ls == lines.deep_view(),
            i <= lines@.len(),
            i <= DIRECTIVE_LINES,
            ({
                let d = directives_of(ls.take(i as int));
                &&& backup == d.1
                &&& match output {
                    Some(o) => d.0 == Some(o@),
                    None => d.0 is None,
                }
            }),
        decreases DIRECTIVE_LINES - i,
    {
        assert(ls.take(i + 1).drop_last() == ls.take(i as int));
        assert(ls.take(i + 1).last() == lines@[i as int]@);
        let ghost prev = directives_of(ls.take(i as int));
        assert(prev == (
            match output {
                Some(o) => Some(o@),
                None => None,
            },
            backup,
        ));
        let (o, b) = apply_line(output, backup, lines[i].as_str());
        output = o;
        backup = b;
        i = i + 1;
    }
    TemplateDirectives { output_path: output, backup }
}

} // verus!
