//! The palette builder: a state machine that decides, step by step, which
//! question to put to the image tool and folds each answer into the palette.
//! Whoever drives it asks [`PaletteBuilder::query`], has the tool answer, and
//! hands the answer to [`PaletteBuilder::resume`] until no question is left.

use vstd::prelude::*;
use crate::color::{
    format_rgba, hex_of, is_hex_color, negative, rgb_negative, rgb_spec, rgba_convert, rgba_text,
    to_rgb,
};
use crate::config::{
    curve_text, mode_name, ColorProfile, ProfileView, SortMode, ACCENT_COUNT, CURVE_GRAYSCALE,
    PRY_DARK_BRI, PRY_DARK_HUE, PRY_DARK_SAT, PRY_LIGHT_BRI, PRY_LIGHT_HUE, PRY_LIGHT_SAT,
    TXT_DARK_BRI, TXT_HUE, TXT_LIGHT_BRI, TXT_SAT,
};
use crate::curve::{orient_curve, oriented, parse_curve, parse_curve_text};
use crate::error::{Fault, WallbashError};
use crate::palette::{sort_by_luma, sorted_by_luma, Palette, PaletteView};
use crate::text::push_char;

verus! {

/// A question for the image tool.
#[allow(inconsistent_fields)]
#[derive(Debug)]
pub enum Query {
    /// Whether the analysed image is dark: its mean brightness below one half.
    ImageIsDark,
    /// Whether the analysed image is gray: its average saturation below 0.12.
    ImageIsGray,
    /// Whether a solid color is dark.
    ColorIsDark(String),
    /// A color modulated by brightness, saturation and hue percentages.
    Modulate { color: String, bri: u8, sat: u8, hue: u8 },
    /// The hue of a color.
    Hue(String),
    /// The color of a hue at a saturation and a brightness percentage.
    FromHsb { hue: String, sat: u8, bri: u8 },
}

#[allow(inconsistent_fields)]
pub ghost enum QueryView {
    ImageIsDark,
    ImageIsGray,
    ColorIsDark(Seq<char>),
    Modulate { color: Seq<char>, bri: u8, sat: u8, hue: u8 },
    Hue(Seq<char>),
    FromHsb { hue: Seq<char>, sat: u8, bri: u8 },
}

impl View for Query {
    type V = QueryView;

    open spec fn view(&self) -> QueryView {
        match self {
            Query::ImageIsDark => QueryView::ImageIsDark,
            Query::ImageIsGray => QueryView::ImageIsGray,
            Query::ColorIsDark(c) => QueryView::ColorIsDark(c@),
            Query::Modulate { color, bri, sat, hue } => QueryView::Modulate {
                color: color@,
                bri: *bri,
                sat: *sat,
                hue: *hue,
            },
            Query::Hue(c) => QueryView::Hue(c@),
            Query::FromHsb { hue, sat, bri } => QueryView::FromHsb { hue: hue@, sat: *sat, bri: *bri },
        }
    }
}

/// The tool's answer: a yes/no verdict, or a text (a color or a hue).
#[derive(Debug)]
pub enum Reply {
    Flag(bool),
    Text(String),
}

pub ghost enum ReplyView {
    Flag(bool),
    Text(Seq<char>),
}

impl View for Reply {
    type V = ReplyView;

    open spec fn view(&self) -> ReplyView {
        match self {
            Reply::Flag(b) => ReplyView::Flag(*b),
            Reply::Text(s) => ReplyView::Text(s@),
        }
    }
}

/// Where the builder stands.
pub ghost enum StageView {
    /// Waiting for the darkness of the image.
    Mode,
    /// Waiting for the grayscale verdict of the image.
    Gray,
    /// Waiting for the darkness of the previous primary color.
    PrevDark,
    /// Waiting for a primary color derived from the previous one, which is
    /// dark or not.
    Derive(bool),
    /// Waiting for the darkness of this primary color.
    PrimaryDark(Seq<char>),
    /// Waiting for the text color of this primary color, which is dark or not.
    Text(Seq<char>, bool),
    /// Waiting for the hue of this primary color, whose text color is known.
    Hue(Seq<char>, Seq<char>),
    /// Waiting for the next accent of a primary color: primary, text, hue and
    /// the accents so far.
    Accent(Seq<char>, Seq<char>, Seq<char>, Seq<Seq<char>>),
    Done,
    Failed(Fault),
}

/// The mathematical value of a [`PaletteBuilder`].
pub ghost struct BuilderView {
    pub wallpaper: Seq<char>,
    /// The candidate colors; in luma order once the mode is resolved.
    pub candidates: Seq<Seq<char>>,
    pub num_colors: nat,
    pub profile: ProfileView,
    /// The requested mode until it is resolved, then the resolved one.
    pub mode: SortMode,
    /// The oriented curve, once chosen.
    pub curve: Seq<(u8, u8)>,
    /// The completed slots.
    pub primary: Seq<Seq<char>>,
    pub text: Seq<Seq<char>>,
    pub accents: Seq<Seq<Seq<char>>>,
    pub stage: StageView,
}

/// The fallback accent color.
pub open spec fn black() -> Seq<char> {
    seq!['0', '0', '0', '0', '0', '0']
}

/// How many accents are asked for: one per curve point, at most nine.
pub open spec fn accent_target(curve: Seq<(u8, u8)>) -> nat {
    if curve.len() < ACCENT_COUNT {
        curve.len()
    } else {
        ACCENT_COUNT as nat
    }
}

/// The accents of a slot, filled up to nine with the fallback color.
pub open spec fn padded(acc: Seq<Seq<char>>) -> Seq<Seq<char>> {
    Seq::new(ACCENT_COUNT as nat, |k: int| if k < acc.len() { acc[k] } else { black() })
}

/// The RGBA template form of a color text.
pub open spec fn rgba_of(h: Seq<char>) -> Seq<char> {
    rgba_text(rgb_spec(h))
}

pub open spec fn with_stage(v: BuilderView, s: StageView) -> BuilderView {
    BuilderView { stage: s, ..v }
}

/// Takes up a primary color for the current slot; it must be a color.
pub open spec fn begin_primary(v: BuilderView, p: Seq<char>) -> BuilderView {
    if is_hex_color(p) {
        with_stage(v, StageView::PrimaryDark(p))
    } else {
        with_stage(v, StageView::Failed(Fault::InvalidHexColor(p)))
    }
}

/// Starts the next slot: done after N slots; otherwise the next candidate
/// color, or one derived from the previous primary color when the candidates
/// are used up, or a failure when there is no previous one either.
pub open spec fn enter_slot(v: BuilderView) -> BuilderView {
    let i = v.primary.len();
    if i >= v.num_colors {
        with_stage(v, StageView::Done)
    } else if i < v.candidates.len() {
        begin_primary(v, v.candidates[i as int])
    } else if i > 0 {
        with_stage(v, StageView::PrevDark)
    } else {
        with_stage(v, StageView::Failed(Fault::NotEnoughColors { required: v.num_colors, found: i }))
    }
}

/// Completes the current slot and starts the next.
pub open spec fn finish_slot(v: BuilderView, p: Seq<char>, t: Seq<char>, acc: Seq<Seq<char>>) -> BuilderView {
    enter_slot(
        BuilderView {
            primary: v.primary.push(p),
            text: v.text.push(t),
            accents: v.accents.push(padded(acc)),
            ..v
        },
    )
}

/// Fixes the mode and orders the candidates for it.
pub open spec fn resolve_mode(v: BuilderView, mode: SortMode) -> BuilderView {
    BuilderView {
        mode: mode,
        candidates: sorted_by_luma(v.candidates, mode == SortMode::Light),
        stage: StageView::Gray,
        ..v
    }
}

/// Chooses the curve: the grayscale one for a gray image, else the profile's.
pub open spec fn choose_curve(v: BuilderView, gray: bool) -> BuilderView {
    let text = if gray {
        CURVE_GRAYSCALE@
    } else {
        curve_text(v.profile)
    };
    match parse_curve_text(text) {
        Err(e) => with_stage(v, StageView::Failed(e)),
        Ok(points) => enter_slot(
            BuilderView { curve: oriented(points, v.mode == SortMode::Light), ..v },
        ),
    }
}

/// The builder before any answer.
pub open spec fn initial(
    wallpaper: Seq<char>,
    candidates: Seq<Seq<char>>,
    num_colors: nat,
    profile: ProfileView,
    requested: SortMode,
) -> BuilderView {
    let v = BuilderView {
        wallpaper,
        candidates,
        num_colors,
        profile,
        mode: requested,
        curve: seq![],
        primary: seq![],
        text: seq![],
        accents: seq![],
        stage: StageView::Mode,
    };
    if requested == SortMode::Auto {
        v
    } else {
        resolve_mode(v, requested)
    }
}

/// The builder after an answer. An answer of the wrong kind fails the build;
/// a finished build ignores answers.
pub open spec fn advance(v: BuilderView, r: ReplyView) -> BuilderView {
    match (v.stage, r) {
        (StageView::Mode, ReplyView::Flag(dark)) => resolve_mode(
            v,
            if dark {
                SortMode::Dark
            } else {
                SortMode::Light
            },
        ),
        (StageView::Gray, ReplyView::Flag(gray)) => choose_curve(v, gray),
        (StageView::PrevDark, ReplyView::Flag(dark)) => with_stage(v, StageView::Derive(dark)),
        (StageView::Derive(_), ReplyView::Text(c)) => begin_primary(v, c),
        (StageView::PrimaryDark(p), ReplyView::Flag(dark)) => with_stage(v, StageView::Text(p, dark)),
        (StageView::Text(p, _), ReplyView::Text(t)) => if is_hex_color(t) {
            with_stage(v, StageView::Hue(p, t))
        } else {
            with_stage(v, StageView::Failed(Fault::InvalidHexColor(t)))
        },
        (StageView::Hue(p, t), ReplyView::Text(h)) => if accent_target(v.curve) == 0 {
            finish_slot(v, p, t, seq![])
        } else {
            with_stage(v, StageView::Accent(p, t, h, seq![]))
        },
        (StageView::Accent(p, t, h, acc), ReplyView::Text(a)) => if !is_hex_color(a) {
            with_stage(v, StageView::Failed(Fault::InvalidHexColor(a)))
        } else if acc.len() + 1 >= accent_target(v.curve) {
            finish_slot(v, p, t, acc.push(a))
        } else {
            with_stage(v, StageView::Accent(p, t, h, acc.push(a)))
        },
        (StageView::Done, _) => v,
        (StageView::Failed(_), _) => v,
        _ => with_stage(v, StageView::Failed(Fault::OutOfTurn)),
    }
}

/// The question that the builder waits on; none once it is done or failed.
pub open spec fn query_of(v: BuilderView) -> Option<QueryView> {
    match v.stage {
        StageView::Mode => Some(QueryView::ImageIsDark),
        StageView::Gray => Some(QueryView::ImageIsGray),
        StageView::PrevDark => Some(QueryView::ColorIsDark(v.primary.last())),
        StageView::Derive(dark) => Some(
            if dark {
                QueryView::Modulate {
                    color: v.primary.last(),
                    bri: PRY_DARK_BRI,
                    sat: PRY_DARK_SAT,
                    hue: PRY_DARK_HUE,
                }
            } else {
                QueryView::Modulate {
                    color: v.primary.last(),
                    bri: PRY_LIGHT_BRI,
                    sat: PRY_LIGHT_SAT,
                    hue: PRY_LIGHT_HUE,
                }
            },
        ),
        StageView::PrimaryDark(p) => Some(QueryView::ColorIsDark(p)),
        StageView::Text(p, dark) => Some(
            QueryView::Modulate {
                color: hex_of(negative(rgb_spec(p))),
                bri: if dark {
                    TXT_DARK_BRI
                } else {
                    TXT_LIGHT_BRI
                },
                sat: TXT_SAT,
                hue: TXT_HUE,
            },
        ),
        StageView::Hue(p, _) => Some(QueryView::Hue(p)),
        StageView::Accent(_, _, h, acc) => Some(
            QueryView::FromHsb { hue: h, sat: v.curve[acc.len() as int].1, bri: v.curve[acc.len() as int].0 },
        ),
        StageView::Done => None,
        StageView::Failed(_) => None,
    }
}

/// The palette of a finished build.
pub open spec fn palette_of(v: BuilderView) -> PaletteView {
    PaletteView {
        mode: mode_name(v.mode),
        wallpaper: v.wallpaper,
        primary: v.primary,
        text: v.text,
        accents: v.accents,
        primary_rgba: Seq::new(v.primary.len(), |i: int| rgba_of(v.primary[i])),
        text_rgba: Seq::new(v.text.len(), |i: int| rgba_of(v.text[i])),
        accents_rgba: Seq::new(
            v.accents.len(),
            |i: int| Seq::new(v.accents[i].len(), |k: int| rgba_of(v.accents[i][k])),
        ),
        is_dark: v.mode == SortMode::Dark,
    }
}

/// What finishing a build gives: the palette, the failure, or an error for a
/// build that is not finished.
pub open spec fn outcome_of(v: BuilderView) -> Result<PaletteView, Fault> {
    match v.stage {
        StageView::Done => Ok(palette_of(v)),
        StageView::Failed(e) => Err(e),
        _ => Err(Fault::OutOfTurn),
    }
}

enum Stage {
    Mode,
    Gray,
    PrevDark,
    Derive(bool),
    PrimaryDark(String),
    Text(String, bool),
    Hue(String, String),
    Accent { primary: String, text: String, hue: String, accents: Vec<String>, accents_rgba: Vec<String> },
    Done,
    Failed(WallbashError),
}

spec fn stage_view(s: Stage) -> StageView {
    match s {
        Stage::Mode => StageView::Mode,
        Stage::Gray => StageView::Gray,
        Stage::PrevDark => StageView::PrevDark,
        Stage::Derive(d) => StageView::Derive(d),
        Stage::PrimaryDark(p) => StageView::PrimaryDark(p@),
        Stage::Text(p, d) => StageView::Text(p@, d),
        Stage::Hue(p, t) => StageView::Hue(p@, t@),
        Stage::Accent { primary, text, hue, accents, .. } => StageView::Accent(
            primary@,
            text@,
            hue@,
            accents.deep_view(),
        ),
        Stage::Done => StageView::Done,
        Stage::Failed(e) => StageView::Failed(e@),
    }
}

/// Builds a palette from ranked candidate colors, with the image tool's
/// answers supplied from outside.
pub struct PaletteBuilder {
    wallpaper: String,
    candidates: Vec<String>,
    num_colors: usize,
    profile: ColorProfile,
    mode: SortMode,
    curve: Vec<(u8, u8)>,
    primary: Vec<String>,
    primary_rgba: Vec<String>,
    text: Vec<String>,
    text_rgba: Vec<String>,
    accents: Vec<Vec<String>>,
    accents_rgba: Vec<Vec<String>>,
    stage: Stage,
}

impl View for PaletteBuilder {
    type V = BuilderView;

    closed spec fn view(&self) -> BuilderView {
        BuilderView {
            wallpaper: self.wallpaper@,
            candidates: self.candidates.deep_view(),
            num_colors: self.num_colors as nat,
            profile: self.profile@,
            mode: self.mode,
            curve: self.curve@,
            primary: self.primary.deep_view(),
            text: self.text.deep_view(),
            accents: self.accents.deep_view(),
            stage: stage_view(self.stage),
        }
    }
}

/// A valid color together with its RGBA form.
spec fn color_pair(h: String, rgba: String) -> bool {
    is_hex_color(h@) && rgba@ == rgba_of(h@)
}

/// A row of accents with its RGBA forms.
spec fn accent_row(acc: Seq<String>, rgba: Seq<String>) -> bool {
    &&& rgba.len() == acc.len()
    &&& forall|k: int| 0 <= k < acc.len() ==> #[trigger] color_pair(acc[k], rgba[k])
}

/// Slot `i` of the completed rows: valid colors with their RGBA forms, and
/// nine accents.
spec fn slot_valid(
    primary: String,
    primary_rgba: String,
    text: String,
    text_rgba: String,
    accents: Vec<String>,
    accents_rgba: Vec<String>,
) -> bool {
    &&& color_pair(primary, primary_rgba)
    &&& color_pair(text, text_rgba)
    &&& accents@.len() == ACCENT_COUNT
    &&& accent_row(accents@, accents_rgba@)
}

spec fn rows_valid(
    primary: Seq<String>,
    primary_rgba: Seq<String>,
    text: Seq<String>,
    text_rgba: Seq<String>,
    accents: Seq<Vec<String>>,
    accents_rgba: Seq<Vec<String>>,
) -> bool {
    let n = primary.len();
    &&& primary_rgba.len() == n
    &&& text.len() == n
    &&& text_rgba.len() == n
    &&& accents.len() == n
    &&& accents_rgba.len() == n
    &&& forall|i: int|
        0 <= i < n ==> #[trigger] slot_valid(
            primary[i],
            primary_rgba[i],
            text[i],
            text_rgba[i],
            accents[i],
            accents_rgba[i],
        )
}

proof fn lemma_accent_row_push(acc: Seq<String>, rgba: Seq<String>, a: String, ar: String)
    requires
        accent_row(acc, rgba),
        color_pair(a, ar),
    ensures
        accent_row(acc.push(a), rgba.push(ar)),
{
    assert forall|k: int| 0 <= k < acc.len() + 1 implies #[trigger] color_pair(
        acc.push(a)[k],
        rgba.push(ar)[k],
    ) by {
        if k < acc.len() {
            assert(color_pair(acc[k], rgba[k]));
        }
    }
}

impl PaletteBuilder {
    spec fn slot_ok(&self, i: int) -> bool {
        slot_valid(
            self.primary@[i],
            self.primary_rgba@[i],
            self.text@[i],
            self.text_rgba@[i],
            self.accents@[i],
            self.accents_rgba@[i],
        )
    }

    spec fn rows_ok(&self) -> bool {
        &&& rows_valid(
            self.primary@,
            self.primary_rgba@,
            self.text@,
            self.text_rgba@,
            self.accents@,
            self.accents_rgba@,
        )
        &&& self.primary@.len() <= self.num_colors
    }

    spec fn stage_ok(&self) -> bool {
        let n = self.primary@.len();
        &&& (self.mode == SortMode::Auto ==> self.stage is Mode || self.stage is Failed)
        &&& match self.stage {
            Stage::Mode => n == 0,
            Stage::Gray => n == 0,
            Stage::PrevDark => 0 < n < self.num_colors,
            Stage::Derive(_) => 0 < n < self.num_colors,
            Stage::PrimaryDark(p) => is_hex_color(p@) && n < self.num_colors,
            Stage::Text(p, _) => is_hex_color(p@) && n < self.num_colors,
            Stage::Hue(p, t) => is_hex_color(p@) && is_hex_color(t@) && n < self.num_colors,
            Stage::Accent { primary, text, accents, accents_rgba, .. } => {
                &&& is_hex_color(primary@)
                &&& is_hex_color(text@)
                &&& n < self.num_colors
                &&& accents@.len() < accent_target(self.curve@)
                &&& accent_row(accents@, accents_rgba@)
            },
            Stage::Done => n == self.num_colors,
            Stage::Failed(_) => true,
        }
    }

    /// The builder's internal consistency, kept by every step.
    pub closed spec fn wf(&self) -> bool {
        self.rows_ok() && self.stage_ok()
    }

    /// A builder for `num_colors` primary colors taken from `candidates`
    /// (ranked by the extraction), for the image `wallpaper`.
    pub fn new(
        wallpaper: String,
        candidates: Vec<String>,
        num_colors: usize,
        profile: ColorProfile,
        sort_mode: SortMode,
    ) -> (r: PaletteBuilder)
        ensures
            r.wf(),
            r@ == initial(
                wallpaper@,
                candidates.deep_view(),
                num_colors as nat,
                profile@,
                sort_mode,
            ),
    {
        let mut b = PaletteBuilder {
            wallpaper,
            candidates,
            num_colors,
            profile,
            mode: sort_mode,
            curve: Vec::new(),
            primary: Vec::new(),
            primary_rgba: Vec::new(),
            text: Vec::new(),
            text_rgba: Vec::new(),
            accents: Vec::new(),
            accents_rgba: Vec::new(),
            stage: Stage::Mode,
        };
        assert(b.primary.deep_view() =~= seq![]);
        assert(b.text.deep_view() =~= seq![]);
        assert(b.accents.deep_view() =~= seq![]);
        if sort_mode != SortMode::Auto {
            b.resolve_mode(sort_mode);
        }
        b
    }

    fn resolve_mode(&mut self, mode: SortMode)
        requires
            old(self).rows_ok(),
            old(self).primary@.len() == 0,
            mode != SortMode::Auto,
        ensures
            final(self).wf(),
            final(self)@ == resolve_mode(old(self)@, mode),
    {
        self.candidates = sort_by_luma(&self.candidates, mode);
        self.mode = mode;
        self.stage = Stage::Gray;
    }

    fn begin_primary(&mut self, p: String)
        requires
            old(self).rows_ok(),
            old(self).primary@.len() < old(self).num_colors,
            old(self).mode != SortMode::Auto,
        ensures
            final(self).wf(),
            final(self)@ == begin_primary(old(self)@, p@),
    {
        match to_rgb(p.as_str()) {
            Ok(_) => {
                self.stage = Stage::PrimaryDark(p);
            },
            Err(e) => {
                self.stage = Stage::Failed(e);
            },
        }
    }

    fn enter_slot(&mut self)
        requires
            old(self).rows_ok(),
            old(self).mode != SortMode::Auto,
        ensures
            final(self).wf(),
            final(self)@ == enter_slot(old(self)@),
    {
        let i = self.primary.len();
        if i >= self.num_colors {
            self.stage = Stage::Done;
        } else if i < self.candidates.len() {
            let p = self.candidates[i].clone();
            self.begin_primary(p);
        } else if i > 0 {
            self.stage = Stage::PrevDark;
        } else {
            self.stage = Stage::Failed(
                WallbashError::NotEnoughColors { required: self.num_colors, found: i },
            );
        }
    }

    fn choose_curve(&mut self, gray: bool)
        requires
            old(self).rows_ok(),
            old(self).primary@.len() == 0,
            old(self).mode != SortMode::Auto,
        ensures
            final(self).wf(),
            final(self)@ == choose_curve(old(self)@, gray),
    {
        let text = if gray {
            CURVE_GRAYSCALE.to_owned()
        } else {
            self.profile.to_curve_string()
        };
        match parse_curve(text.as_str()) {
            Err(e) => {
                self.stage = Stage::Failed(e);
            },
            Ok(points) => {
                self.curve = orient_curve(&points, self.mode);
                self.enter_slot();
            },
        }
    }

    fn finish_slot(
        &mut self,
        p: String,
        t: String,
        accents: Vec<String>,
        accents_rgba: Vec<String>,
    )
        requires
            old(self).rows_ok(),
            old(self).primary@.len() < old(self).num_colors,
            old(self).mode != SortMode::Auto,
            is_hex_color(p@),
            is_hex_color(t@),
            accents@.len() <= ACCENT_COUNT,
            accent_row(accents@, accents_rgba@),
        ensures
            final(self).wf(),
            final(self)@ == finish_slot(old(self)@, p@, t@, accents.deep_view()),
    {
        let ghost acc0 = accents.deep_view();
        let mut accents = accents;
        let mut accents_rgba = accents_rgba;
        let fill = black_hex();
        let black_rgba = format_rgba(crate::color::Rgb { r: 0, g: 0, b: 0 });
        proof {
            lemma_black();
        }
        while accents.len() < ACCENT_COUNT
            invariant
                accents@.len() <= ACCENT_COUNT,
                acc0.len() <= accents@.len(),
                accent_row(accents@, accents_rgba@),
                fill@ == black(),
                black_rgba@ == rgba_of(black()),
                forall|k: int| 0 <= k < accents@.len() ==> (#[trigger] accents@[k])@ == (if k < acc0.len() {
                    acc0[k]
                } else {
                    black()
                }),
            decreases ACCENT_COUNT - accents@.len(),
        {
            accents.push(fill.clone());
            accents_rgba.push(black_rgba.clone());
        }
        assert(accents.deep_view() =~= padded(acc0));
        let p_rgba = format_rgba(to_rgb_ok(&p));
        let t_rgba = format_rgba(to_rgb_ok(&t));
        let ghost old_primary = self.primary.deep_view();
        let ghost old_text = self.text.deep_view();
        let ghost old_accents = self.accents.deep_view();
        let ghost n = self.primary@.len();
        self.primary.push(p);
        self.primary_rgba.push(p_rgba);
        self.text.push(t);
        self.text_rgba.push(t_rgba);
        self.accents.push(accents);
        self.accents_rgba.push(accents_rgba);
        assert(self.primary.deep_view() =~= old_primary.push(self.primary@[n as int]@));
        assert(self.text.deep_view() =~= old_text.push(self.text@[n as int]@));
        assert(self.accents.deep_view() =~= old_accents.push(padded(acc0)));
        assert(self.slot_ok(n as int));
        assert forall|i: int| 0 <= i < n + 1 implies #[trigger] slot_valid(
            self.primary@[i],
            self.primary_rgba@[i],
            self.text@[i],
            self.text_rgba@[i],
            self.accents@[i],
            self.accents_rgba@[i],
        ) by {
            if i < n {
                assert(old(self).slot_ok(i));
            } else {
                assert(self.slot_ok(i));
            }
        }
        self.enter_slot();
    }

    /// Takes the tool's answer to the current question.
    pub fn resume(&mut self, reply: Reply)
        requires
            old(self).wf(),
        ensures
            final(self).wf(),
            final(self)@ == advance(old(self)@, reply@),
    {
        let mut stage = Stage::Done;
        std::mem::swap(&mut self.stage, &mut stage);
        let target: usize = if self.curve.len() < ACCENT_COUNT {
            self.curve.len()
        } else {
            ACCENT_COUNT
        };
        match (stage, reply) {
            (Stage::Mode, Reply::Flag(dark)) => {
                self.resolve_mode(
                    if dark {
                        SortMode::Dark
                    } else {
                        SortMode::Light
                    },
                );
            },
            (Stage::Gray, Reply::Flag(gray)) => {
                self.choose_curve(gray);
            },
            (Stage::PrevDark, Reply::Flag(dark)) => {
                self.stage = Stage::Derive(dark);
            },
            (Stage::Derive(_), Reply::Text(c)) => {
                self.begin_primary(c);
            },
            (Stage::PrimaryDark(p), Reply::Flag(dark)) => {
                self.stage = Stage::Text(p, dark);
            },
            (Stage::Text(p, _), Reply::Text(t)) => {
                match to_rgb(t.as_str()) {
                    Ok(_) => {
                        self.stage = Stage::Hue(p, t);
                    },
                    Err(e) => {
                        self.stage = Stage::Failed(e);
                    },
                }
            },
            (Stage::Hue(p, t), Reply::Text(h)) => {
                if target == 0 {
                    let accents: Vec<String> = Vec::new();
                    assert(accents.deep_view() =~= seq![]);
                    self.finish_slot(p, t, accents, Vec::new());
                } else {
                    let accents: Vec<String> = Vec::new();
                    assert(accents.deep_view() =~= seq![]);
                    self.stage = Stage::Accent {
                        primary: p,
                        text: t,
                        hue: h,
                        accents,
                        accents_rgba: Vec::new(),
                    };
                }
            },
            (Stage::Accent { primary, text, hue, accents, accents_rgba }, Reply::Text(a)) => {
                match rgba_convert(a.as_str()) {
                    Err(e) => {
                        self.stage = Stage::Failed(e);
                    },
                    Ok(a_rgba) => {
                        let ghost acc0 = accents.deep_view();
                        proof {
                            lemma_accent_row_push(accents@, accents_rgba@, a, a_rgba);
                        }
                        let mut accents = accents;
                        let mut accents_rgba = accents_rgba;
                        accents.push(a);
                        accents_rgba.push(a_rgba);
                        assert(accents.deep_view() =~= acc0.push(accents@.last()@));
                        if accents.len() >= target {
                            self.finish_slot(primary, text, accents, accents_rgba);
                        } else {
                            self.stage = Stage::Accent { primary, text, hue, accents, accents_rgba };
                        }
                    },
                }
            },
            (Stage::Done, _) => {
                self.stage = Stage::Done;
            },
            (Stage::Failed(e), _) => {
                self.stage = Stage::Failed(e);
            },
            (_, _) => {
                self.stage = Stage::Failed(WallbashError::OutOfTurn);
            },
        }
    }

    /// The question that the build waits on; `None` once it is done or failed.
    pub fn query(&self) -> (r: Option<Query>)
        requires
            self.wf(),
        ensures
            match r {
                Some(q) => query_of(self@) == Some(q@),
                None => query_of(self@) is None,
            },
    {
        match &self.stage {
            Stage::Mode => Some(Query::ImageIsDark),
            Stage::Gray => Some(Query::ImageIsGray),
            Stage::PrevDark => Some(Query::ColorIsDark(self.primary[self.primary.len() - 1].clone())),
            Stage::Derive(dark) => {
                let color = self.primary[self.primary.len() - 1].clone();
                if *dark {
                    Some(Query::Modulate { color, bri: PRY_DARK_BRI, sat: PRY_DARK_SAT, hue: PRY_DARK_HUE })
                } else {
                    Some(Query::Modulate { color, bri: PRY_LIGHT_BRI, sat: PRY_LIGHT_SAT, hue: PRY_LIGHT_HUE })
                }
            },
            Stage::PrimaryDark(p) => Some(Query::ColorIsDark(p.clone())),
            Stage::Text(p, dark) => match rgb_negative(p.as_str()) {
                Ok(color) => Some(
                    Query::Modulate {
                        color,
                        bri: if *dark {
                            TXT_DARK_BRI
                        } else {
                            TXT_LIGHT_BRI
                        },
                        sat: TXT_SAT,
                        hue: TXT_HUE,
                    },
                ),
                Err(_) => None,
            },
            Stage::Hue(p, _) => Some(Query::Hue(p.clone())),
            Stage::Accent { hue, accents, .. } => {
                let point = self.curve[accents.len()];
                Some(Query::FromHsb { hue: hue.clone(), sat: point.1, bri: point.0 })
            },
            Stage::Done => None,
            Stage::Failed(_) => None,
        }
    }

    /// Ends the build: the palette of a finished build, with N primary colors,
    /// N text colors and N rows of nine accents; the failure of a failed one;
    /// an out-of-turn error while a question is still open.
    pub fn finish(self) -> (r: Result<Palette, WallbashError>)
        requires
            self.wf(),
        ensures
            match outcome_of(self@) {
                Ok(p) => r is Ok && r->Ok_0@ == p,
                Err(e) => r is Err && r->Err_0@ == e,
            },
            r is Ok ==> {
                let p = r->Ok_0@;
                &&& p.primary.len() == self@.num_colors
                &&& p.text.len() == self@.num_colors
                &&& p.accents.len() == self@.num_colors
                &&& p.primary_rgba.len() == self@.num_colors
                &&& p.text_rgba.len() == self@.num_colors
                &&& p.accents_rgba.len() == self@.num_colors
                &&& forall|i: int| 0 <= i < self@.num_colors ==> (#[trigger] p.accents[i]).len()
                    == ACCENT_COUNT && p.accents_rgba[i].len() == ACCENT_COUNT
            },
    {
        let ghost v = self@;
        match self.stage {
            Stage::Done => {
                let p = Palette {
                    mode: self.mode.name(),
                    wallpaper: self.wallpaper,
                    primary: self.primary,
                    text: self.text,
                    accents: self.accents,
                    primary_rgba: self.primary_rgba,
                    text_rgba: self.text_rgba,
                    accents_rgba: self.accents_rgba,
                    is_dark: self.mode == SortMode::Dark,
                };
                assert forall|i: int| 0 <= i < v.primary.len() implies (#[trigger] p.accents_rgba.deep_view()[i])
                    == Seq::new(v.accents[i].len(), |k: int| rgba_of(v.accents[i][k])) by {
                    assert(self.slot_ok(i));
                    let acc = self.accents@[i]@;
                    let rgba = self.accents_rgba@[i]@;
                    assert forall|k: int| 0 <= k < acc.len() implies rgba[k]@ == rgba_of(acc[k]@) by {
                        assert(color_pair(acc[k], rgba[k]));
                    }
                    assert(p.accents_rgba.deep_view()[i] =~= Seq::new(
                        v.accents[i].len(),
                        |k: int| rgba_of(v.accents[i][k]),
                    ));
                }
                assert forall|i: int| 0 <= i < v.primary.len() implies #[trigger] p.primary_rgba.deep_view()[i]
                    == rgba_of(v.primary[i]) by {
                    assert(self.slot_ok(i));
                }
                assert forall|i: int| 0 <= i < v.primary.len() implies #[trigger] p.text_rgba.deep_view()[i]
                    == rgba_of(v.text[i]) by {
                    assert(self.slot_ok(i));
                }
                assert forall|i: int| 0 <= i < v.primary.len() implies (#[trigger] p.accents.deep_view()[i]).len()
                    == ACCENT_COUNT && p.accents_rgba.deep_view()[i].len() == ACCENT_COUNT by {
                    assert(self.slot_ok(i));
                }
                assert(p.primary_rgba.deep_view() =~= palette_of(v).primary_rgba);
                assert(p.text_rgba.deep_view() =~= palette_of(v).text_rgba);
                assert(p.accents_rgba.deep_view() =~= palette_of(v).accents_rgba);
                assert(p@ =~= palette_of(v));
                Ok(p)
            },
            Stage::Failed(e) => Err(e),
            _ => Err(WallbashError::OutOfTurn),
        }
    }
}

fn black_hex() -> (r: String)
    ensures
        r@ == black(),
{
    let mut s = String::new();
    push_char(&mut s, '0');
    push_char(&mut s, '0');
    push_char(&mut s, '0');
    push_char(&mut s, '0');
    push_char(&mut s, '0');
    push_char(&mut s, '0');
    s
}

proof fn lemma_black()
    ensures
        is_hex_color(black()),
        rgb_spec(black()) == (crate::color::Rgb { r: 0, g: 0, b: 0 }),
{
    assert(crate::color::color_digits(black()) == black());
}

fn to_rgb_ok(h: &String) -> (r: crate::color::Rgb)
    requires
        is_hex_color(h@),
    ensures
        r == rgb_spec(h@),
{
    match to_rgb(h.as_str()) {
        Ok(c) => c,
        Err(_) => crate::color::Rgb { r: 0, g: 0, b: 0 },
    }
}

} // verus!
