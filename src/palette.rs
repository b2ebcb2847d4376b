//! The palette entity and the luma ordering of primary colors.

use vstd::prelude::*;
use crate::color::{calculate_luma, luma_key};
use crate::config::SortMode;
use crate::order::{lemma_sort_positions, reverse_entries, sort_stable, stable_sort};

verus! {

/// A derived palette: for each of N primary colors its text color and nine
/// accents, each also in RGBA template form.
#[derive(Debug, Clone)]
pub struct Palette {
    /// The resolved mode: `dark` or `light`.
    pub mode: String,
    /// The source image.
    pub wallpaper: String,
    pub primary: Vec<String>,
    pub text: Vec<String>,
    pub accents: Vec<Vec<String>>,
    pub primary_rgba: Vec<String>,
    pub text_rgba: Vec<String>,
    pub accents_rgba: Vec<Vec<String>>,
    pub is_dark: bool,
}

/// The mathematical value of a [`Palette`]: texts as character sequences.
pub ghost struct PaletteView {
    pub mode: Seq<char>,
    pub wallpaper: Seq<char>,
    pub primary: Seq<Seq<char>>,
    pub text: Seq<Seq<char>>,
    pub accents: Seq<Seq<Seq<char>>>,
    pub primary_rgba: Seq<Seq<char>>,
    pub text_rgba: Seq<Seq<char>>,
    pub accents_rgba: Seq<Seq<Seq<char>>>,
    pub is_dark: bool,
}

impl View for Palette {
    type V = PaletteView;

    open spec fn view(&self) -> PaletteView {
        PaletteView {
            mode: self.mode@,
            wallpaper: self.wallpaper@,
            primary: self.primary.deep_view(),
            text: self.text.deep_view(),
            accents: self.accents.deep_view(),
            primary_rgba: self.primary_rgba.deep_view(),
            text_rgba: self.text_rgba.deep_view(),
            accents_rgba: self.accents_rgba.deep_view(),
            is_dark: self.is_dark,
        }
    }
}

/// Each color keyed by its luma, with its position.
pub open spec fn luma_keys(cs: Seq<Seq<char>>) -> Seq<(u64, usize)> {
    Seq::new(cs.len(), |i: int| (luma_key(cs[i]) as u64, i as usize))
}

/// The colors in ascending luma (colors of equal luma in their given order),
/// reversed for the light mode.
pub open spec fn sorted_by_luma(cs: Seq<Seq<char>>, light: bool) -> Seq<Seq<char>> {
    let order = if light {
        stable_sort(luma_keys(cs)).reverse()
    } else {
        stable_sort(luma_keys(cs))
    };
    Seq::new(order.len(), |k: int| cs[order[k].1 as int])
}

/// Orders candidate colors for a resolved mode: darkest first for the dark
/// mode, lightest first for the light mode.
pub fn sort_by_luma(colors: &Vec<String>, mode: SortMode) -> (r: Vec<String>)
    ensures
        r.deep_view() == sorted_by_luma(colors.deep_view(), mode == SortMode::Light),
{
    let ghost cs = colors.deep_view();
    let n = colors.len();
    let mut keys: Vec<(u64, usize)> = Vec::new();
    let mut i: usize = 0;
    while i < n
        invariant
            n == colors@.len(),
            cs == colors.deep_view(),
            i <= n,
            keys@ == luma_keys(cs).take(i as int),
        decreases n - i,
    {
        let key = calculate_luma(colors[i].as_str());
        keys.push((key, i));
        i = i + 1;
    }
    assert(keys@ == luma_keys(cs));
    let sorted = sort_stable(&keys);
    proof {
        lemma_sort_positions(keys@, n as int);
    }
    let order = if mode == SortMode::Light {
        reverse_entries(&sorted)
    } else {
        sorted
    };
    assert(forall|k: int| 0 <= k < order@.len() ==> (#[trigger] order@[k]).1 < n) by {
        if mode == SortMode::Light {
            assert forall|k: int| 0 <= k < order@.len() implies (#[trigger] order@[k]).1 < n by {
                assert(order@[k] == sorted@[sorted@.len() - 1 - k]);
            }
        }
    }
    let mut r: Vec<String> = Vec::new();
    let mut k: usize = 0;
    while k < order.len()
        invariant
            n == colors@.len(),
            cs == colors.deep_view(),
            k <= order@.len(),
            forall|j: int| 0 <= j < order@.len() ==> (#[trigger] order@[j]).1 < n,
            r@.len() == k,
            forall|j: int| 0 <= j < k ==> (#[trigger] r@[j])@ == cs[order@[j].1 as int],
        decreases order@.len() - k,
    {
        r.push(colors[order[k].1].clone());
        k = k + 1;
    }
    assert(r.deep_view() =~= sorted_by_luma(cs, mode == SortMode::Light));
    r
}

} // verus!
