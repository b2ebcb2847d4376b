//! The stylesheet form of a palette: custom properties in a `:root` block.

use vstd::prelude::*;
use crate::config::ACCENT_COUNT;
use crate::palette::{Palette, PaletteView};
use crate::text::{decimal_text, push_decimal, push_str};

verus! {

/// One declaration `  --name: #value;`.
pub open spec fn css_var(name: Seq<char>, value: Seq<char>) -> Seq<char> {
    "  --"@ + name + ": #"@ + value + ";\n"@
}

/// `--pry` and `--txt` for the first primary and text colors, when present.
pub open spec fn css_first(p: PaletteView) -> Seq<char> {
    (if p.primary.len() > 0 {
        css_var("pry"@, p.primary[0])
    } else {
        seq![]
    }) + if p.text.len() > 0 {
        css_var("txt"@, p.text[0])
    } else {
        seq![]
    }
}

/// The numbered primary colors `1..=k`, each with its text color when present.
pub open spec fn css_slots(p: PaletteView, k: nat) -> Seq<char>
    decreases k,
{
    if k == 0 {
        seq![]
    } else {
        let i = k - 1;
        css_slots(p, (k - 1) as nat) + css_var("pry"@ + decimal_text(k), p.primary[i]) + if i
            < p.text.len() {
            css_var("txt"@ + decimal_text(k), p.text[i])
        } else {
            seq![]
        }
    }
}

/// The accents `1..=j` of a row, those present.
pub open spec fn css_accents(row: Seq<Seq<char>>, j: nat) -> Seq<char>
    decreases j,
{
    if j == 0 {
        seq![]
    } else {
        css_accents(row, (j - 1) as nat) + if j - 1 < row.len() {
            css_var("xa"@ + decimal_text(j), row[j - 1])
        } else {
            seq![]
        }
    }
}

/// The whole stylesheet: a header naming the wallpaper and the mode, then the
/// first colors, every numbered primary and text color, and the accents of
/// the first primary color.
pub open spec fn css_text(p: PaletteView) -> Seq<char> {
    "/* Wallbash Palette */\n/* Wallpaper: "@ + p.wallpaper + " */\n/* Mode: "@ + p.mode
        + " */\n:root {\n"@ + css_first(p) + css_slots(p, p.primary.len()) + (if p.accents.len()
        > 0 {
        css_accents(p.accents[0], ACCENT_COUNT as nat)
    } else {
        seq![]
    }) + "}\n"@
}

fn push_var(s: &mut String, name: &str, n: Option<u64>, value: &str)
    ensures
        final(s)@ == old(s)@ + css_var(
            match n {
                Some(k) => name@ + decimal_text(k as nat),
                None => name@,
            },
            value@,
        ),
{
    let ghost s0 = s@;
    push_str(s, "  --");
    push_str(s, name);
    match n {
        Some(k) => push_decimal(s, k),
        None => {},
    }
    push_str(s, ": #");
    push_str(s, value);
    push_str(s, ";\n");
    assert(s@ =~= s0 + css_var(
        match n {
            Some(k) => name@ + decimal_text(k as nat),
            None => name@,
        },
        value@,
    ));
}

/// The stylesheet text of a palette.
pub fn css_string(palette: &Palette) -> (r: String)
    ensures
        r@ == css_text(palette@),
{
    let ghost p = palette@;
    let mut s = String::new();
    push_str(&mut s, "/* Wallbash Palette */\n/* Wallpaper: ");
    push_str(&mut s, palette.wallpaper.as_str());
    push_str(&mut s, " */\n/* Mode: ");
    push_str(&mut s, palette.mode.as_str());
    push_str(&mut s, " */\n:root {\n");
    if palette.primary.len() > 0 {
        push_var(&mut s, "pry", None, palette.primary[0].as_str());
    }
    if palette.text.len() > 0 {
        push_var(&mut s, "txt", None, palette.text[0].as_str());
    }
    let ghost head = s@;
    assert(head =~= "/* Wallbash Palette */\n/* Wallpaper: "@ + p.wallpaper + " */\n/* Mode: "@
        + p.mode + " */\n:root {\n"@ + css_first(p));
    let n = palette.primary.len();
    let mut i: usize = 0;
    while i < n
        invariant
            p == palette@,
            n == palette.primary@.len(),
            i <= n,
            s@ == head + css_slots(p, i as nat),
        decreases n - i,
    {
        let ghost before = s@;
        let k = (i + 1) as u64;
        push_var(&mut s, "pry", Some(k), palette.primary[i].as_str());
        if i < palette.text.len() {
            push_var(&mut s, "txt", Some(k), palette.text[i].as_str());
        }
        i = i + 1;
        assert(s@ =~= head + css_slots(p, i as nat));
    }
    let ghost mid = s@;
    if palette.accents.len() > 0 {
        let row = &palette.accents[0];
        let mut j: usize = 0;
        while j < ACCENT_COUNT
            invariant
                j <= ACCENT_COUNT,
                row.deep_view() == p.accents[0],
                s@ == mid + css_accents(row.deep_view(), j as nat),
            decreases ACCENT_COUNT - j,
        {
            if j < row.len() {
                push_var(&mut s, "xa", Some((j + 1) as u64), row[j].as_str());
            }
            j = j + 1;
            assert(s@ =~= mid + css_accents(row.deep_view(), j as nat));
        }
    } else {
        assert(s@ =~= mid + Seq::<char>::empty());
    }
    push_str(&mut s, "}\n");
    assert(s@ =~= css_text(p));
    s
}

} // verus!
