//! The shell-variable form of a palette: one `name="value"` line per field.

use vstd::prelude::*;
use crate::config::ACCENT_COUNT;
use crate::palette::{Palette, PaletteView};
use crate::text::{decimal_text, push_decimal, push_str};

verus! {

/// One line `name="value"`.
pub open spec fn assignment(name: Seq<char>, value: Seq<char>) -> Seq<char> {
    name + "=\""@ + value + "\"\n"@
}

/// The accent lines of the slot numbered `n`, for accents `1..=j`: each
/// present accent, followed by its RGBA form when that is present.
pub open spec fn dcol_accents(n: Seq<char>, acc: Seq<Seq<char>>, rgba: Seq<Seq<char>>, j: nat) -> Seq<char>
    decreases j,
{
    if j == 0 {
        seq![]
    } else {
        let k = j - 1;
        let name = "dcol_"@ + n + "xa"@ + decimal_text(j);
        dcol_accents(n, acc, rgba, (j - 1) as nat) + if k < acc.len() {
            assignment(name, acc[k]) + if k < rgba.len() {
                assignment(name + "_rgba"@, rgba[k])
            } else {
                seq![]
            }
        } else {
            seq![]
        }
    }
}

pub open spec fn row_or_empty(rows: Seq<Seq<Seq<char>>>, i: int) -> Seq<Seq<char>> {
    if 0 <= i < rows.len() {
        rows[i]
    } else {
        seq![]
    }
}

/// The lines of slot `i` (numbered from 1), then an empty line.
pub open spec fn dcol_slot(p: PaletteView, i: int) -> Seq<char> {
    let n = decimal_text((i + 1) as nat);
    assignment("dcol_pry"@ + n, p.primary[i]) + assignment("dcol_pry"@ + n + "_rgba"@, p.primary_rgba[i])
        + assignment("dcol_txt"@ + n, p.text[i]) + assignment(
        "dcol_txt"@ + n + "_rgba"@,
        p.text_rgba[i],
    ) + dcol_accents(
        n,
        row_or_empty(p.accents, i),
        row_or_empty(p.accents_rgba, i),
        ACCENT_COUNT as nat,
    ) + "\n"@
}

pub open spec fn dcol_slots(p: PaletteView, k: nat) -> Seq<char>
    decreases k,
{
    if k == 0 {
        seq![]
    } else {
        dcol_slots(p, (k - 1) as nat) + dcol_slot(p, k - 1)
    }
}

/// The whole shell-variable text: the mode, the wallpaper, then each slot.
pub open spec fn dcol_text(p: PaletteView) -> Seq<char> {
    assignment("dcol_mode"@, p.mode) + assignment("dcol_wallpaper"@, p.wallpaper) + dcol_slots(
        p,
        p.primary.len(),
    )
}

fn push_assignment(s: &mut String, name: &str, value: &str)
    ensures
        final(s)@ == old(s)@ + assignment(name@, value@),
{
    let ghost s0 = s@;
    push_str(s, name);
    push_str(s, "=\"");
    push_str(s, value);
    push_str(s, "\"\n");
    assert(s@ =~= s0 + assignment(name@, value@));
}

fn slot_name(prefix: &str, n: u64) -> (r: String)
    ensures
        r@ == prefix@ + decimal_text(n as nat),
{
    let mut r = prefix.to_owned();
    push_decimal(&mut r, n);
    r
}

fn push_accents(s: &mut String, n: u64, acc: &Vec<String>, rgba: &Vec<String>)
    ensures
        final(s)@ == old(s)@ + dcol_accents(
            decimal_text(n as nat),
            acc.deep_view(),
            rgba.deep_view(),
            ACCENT_COUNT as nat,
        ),
{
    let ghost s0 = s@;
    let ghost nt = decimal_text(n as nat);
    let mut j: usize = 0;
    while j < ACCENT_COUNT
        invariant
            j <= ACCENT_COUNT,
            nt == decimal_text(n as nat),
            s@ == s0 + dcol_accents(nt, acc.deep_view(), rgba.deep_view(), j as nat),
        decreases ACCENT_COUNT - j,
    {
        let ghost before = s@;
        if j < acc.len() {
            let mut name = "dcol_".to_owned();
            push_decimal(&mut name, n);
            push_str(&mut name, "xa");
            push_decimal(&mut name, (j + 1) as u64);
            push_assignment(s, name.as_str(), acc[j].as_str());
            if j < rgba.len() {
                push_str(&mut name, "_rgba");
                push_assignment(s, name.as_str(), rgba[j].as_str());
            }
        }
        j = j + 1;
        assert(s@ =~= s0 + dcol_accents(nt, acc.deep_view(), rgba.deep_view(), j as nat));
    }
}

fn push_slot(s: &mut String, palette: &Palette, i: usize)
    requires
        i < palette.primary@.len(),
        i < palette.primary_rgba@.len(),
        i < palette.text@.len(),
        i < palette.text_rgba@.len(),
    ensures
        final(s)@ == old(s)@ + dcol_slot(palette@, i as int),
{
    let ghost p = palette@;
    let ghost s0 = s@;
    let total = palette.primary.len();
    assert(i < total);
    let num = (i + 1) as u64;
    let ghost nt = decimal_text(num as nat);
    let mut pry = slot_name("dcol_pry", num);
    push_assignment(s, pry.as_str(), palette.primary[i].as_str());
    push_str(&mut pry, "_rgba");
    push_assignment(s, pry.as_str(), palette.primary_rgba[i].as_str());
    let mut txt = slot_name("dcol_txt", num);
    push_assignment(s, txt.as_str(), palette.text[i].as_str());
    push_str(&mut txt, "_rgba");
    push_assignment(s, txt.as_str(), palette.text_rgba[i].as_str());
    let ghost mid = s@;
    assert(mid =~= s0 + assignment("dcol_pry"@ + nt, p.primary[i as int]) + assignment(
        "dcol_pry"@ + nt + "_rgba"@,
        p.primary_rgba[i as int],
    ) + assignment("dcol_txt"@ + nt, p.text[i as int]) + assignment(
        "dcol_txt"@ + nt + "_rgba"@,
        p.text_rgba[i as int],
    ));
    let empty: Vec<String> = Vec::new();
    let acc = if i < palette.accents.len() {
        &palette.accents[i]
    } else {
        &empty
    };
    let rgba = if i < palette.accents_rgba.len() {
        &palette.accents_rgba[i]
    } else {
        &empty
    };
    assert(acc.deep_view() =~= row_or_empty(p.accents, i as int));
    assert(rgba.deep_view() =~= row_or_empty(p.accents_rgba, i as int));
    push_accents(s, num, acc, rgba);
    push_str(s, "\n");
    assert(s@ =~= s0 + dcol_slot(p, i as int));
}

/// The shell-variable text of a palette.
pub fn dcol_string(palette: &Palette) -> (r: String)
    requires
        palette.primary_rgba@.len() >= palette.primary@.len(),
        palette.text@.len() >= palette.primary@.len(),
        palette.text_rgba@.len() >= palette.primary@.len(),
    ensures
        r@ == dcol_text(palette@),
{
    let ghost p = palette@;
    let mut s = String::new();
    push_assignment(&mut s, "dcol_mode", palette.mode.as_str());
    push_assignment(&mut s, "dcol_wallpaper", palette.wallpaper.as_str());
    let ghost head = s@;
    assert(head =~= assignment("dcol_mode"@, p.mode) + assignment("dcol_wallpaper"@, p.wallpaper));
    let n = palette.primary.len();
    let mut i: usize = 0;
    while i < n
        invariant
            p == palette@,
            n == palette.primary@.len(),
            palette.primary_rgba@.len() >= n,
            palette.text@.len() >= n,
            palette.text_rgba@.len() >= n,
            i <= n,
            s@ == head + dcol_slots(p, i as nat),
        decreases n - i,
    {
        push_slot(&mut s, palette, i);
        i = i + 1;
        assert(s@ =~= head + dcol_slots(p, i as nat));
    }
    s
}

} // verus!
