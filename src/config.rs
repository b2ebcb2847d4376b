//! Color profiles, sort modes and the constants of palette generation.

use vstd::prelude::*;
use crate::error::{Fault, WallbashError};
use crate::text::{chars_of, push_char};

verus! {

/// Number of primary colors asked for when none is given.
pub const DEFAULT_COLORS: usize = 4;
/// Color fuzziness percentage for the k-means extraction when none is given.
pub const DEFAULT_FUZZ: u8 = 70;
/// Number of accents derived from each primary color.
pub const ACCENT_COUNT: usize = 9;

pub const CURVE_DEFAULT: &'static str = "32 50\n42 46\n49 40\n56 39\n64 38\n76 37\n90 33\n94 29\n100 20";
pub const CURVE_VIBRANT: &'static str = "18 99\n32 97\n48 95\n55 90\n70 80\n80 70\n88 60\n94 40\n99 24";
pub const CURVE_PASTEL: &'static str = "10 99\n17 66\n24 49\n39 41\n51 37\n58 34\n72 30\n84 26\n99 22";
pub const CURVE_MONO: &'static str = "10 0\n17 0\n24 0\n39 0\n51 0\n58 0\n72 0\n84 0\n99 0";
/// The curve forced on images of low saturation.
pub const CURVE_GRAYSCALE: &'static str = CURVE_MONO;

/// Modulation (brightness, saturation, hue) that derives a missing primary
/// color from a dark predecessor.
pub const PRY_DARK_BRI: u8 = 116;
pub const PRY_DARK_SAT: u8 = 110;
pub const PRY_DARK_HUE: u8 = 88;
/// Modulation that derives a missing primary color from a light predecessor.
pub const PRY_LIGHT_BRI: u8 = 100;
pub const PRY_LIGHT_SAT: u8 = 100;
pub const PRY_LIGHT_HUE: u8 = 114;
/// Brightness of the text color on a dark primary color.
pub const TXT_DARK_BRI: u8 = 188;
/// Brightness of the text color on a light primary color.
pub const TXT_LIGHT_BRI: u8 = 16;
/// Saturation and hue of the text color modulation.
pub const TXT_SAT: u8 = 10;
pub const TXT_HUE: u8 = 100;

/// Which brightness/saturation curve drives accent generation.
#[derive(Debug, Clone)]
pub enum ColorProfile {
    Default,
    Vibrant,
    Pastel,
    Mono,
    /// A curve given as text.
    Custom(String),
}

/// The mathematical value of a [`ColorProfile`].
pub ghost enum ProfileView {
    Default,
    Vibrant,
    Pastel,
    Mono,
    Custom(Seq<char>),
}

impl View for ColorProfile {
    type V = ProfileView;

    open spec fn view(&self) -> ProfileView {
        match self {
            ColorProfile::Default => ProfileView::Default,
            ColorProfile::Vibrant => ProfileView::Vibrant,
            ColorProfile::Pastel => ProfileView::Pastel,
            ColorProfile::Mono => ProfileView::Mono,
            ColorProfile::Custom(s) => ProfileView::Custom(s@),
        }
    }
}

impl PartialEq for ColorProfile {
    fn eq(&self, other: &ColorProfile) -> (r: bool) {
        match (self, other) {
            (ColorProfile::Default, ColorProfile::Default) => true,
            (ColorProfile::Vibrant, ColorProfile::Vibrant) => true,
            (ColorProfile::Pastel, ColorProfile::Pastel) => true,
            (ColorProfile::Mono, ColorProfile::Mono) => true,
            (ColorProfile::Custom(a), ColorProfile::Custom(b)) => a.eq(b),
            _ => false,
        }
    }
}

impl vstd::std_specs::cmp::PartialEqSpecImpl for ColorProfile {
    open spec fn obeys_eq_spec() -> bool {
        true
    }

    open spec fn eq_spec(&self, other: &ColorProfile) -> bool {
        self@ == other@
    }
}

/// The curve text of a profile.
pub open spec fn curve_text(p: ProfileView) -> Seq<char> {
    match p {
        ProfileView::Default => CURVE_DEFAULT@,
        ProfileView::Vibrant => CURVE_VIBRANT@,
        ProfileView::Pastel => CURVE_PASTEL@,
        ProfileView::Mono => CURVE_MONO@,
        ProfileView::Custom(s) => s,
    }
}

pub open spec fn profile_name(p: ProfileView) -> Seq<char> {
    match p {
        ProfileView::Default => "default"@,
        ProfileView::Vibrant => "vibrant"@,
        ProfileView::Pastel => "pastel"@,
        ProfileView::Mono => "mono"@,
        ProfileView::Custom(_) => "custom"@,
    }
}

/// The text with each two-character sequence `\n` (a backslash and an `n`)
/// replaced by a line break, scanning from the left.
pub open spec fn unescape_newlines(s: Seq<char>) -> Seq<char>
    decreases s.len(),
{
    if s.len() == 0 {
        s
    } else if s.len() >= 2 && s[0] == '\\' && s[1] == 'n' {
        seq!['\n'] + unescape_newlines(s.skip(2))
    } else {
        seq![s[0]] + unescape_newlines(s.skip(1))
    }
}

/// The profile that a selection of flags asks for, if at most one is set.
pub open spec fn selected_profile(
    vibrant: bool,
    pastel: bool,
    mono: bool,
    custom: Option<Seq<char>>,
) -> ProfileView {
    if vibrant {
        ProfileView::Vibrant
    } else if pastel {
        ProfileView::Pastel
    } else if mono {
        ProfileView::Mono
    } else if custom is Some {
        ProfileView::Custom(unescape_newlines(custom->0))
    } else {
        ProfileView::Default
    }
}

/// The number of profile selections that are set.
pub open spec fn selection_count(vibrant: bool, pastel: bool, mono: bool, custom: bool) -> int {
    (if vibrant { 1int } else { 0 }) + (if pastel { 1int } else { 0 }) + (if mono { 1int } else { 0 })
        + (if custom { 1int } else { 0 })
}

fn unescape(s: &str) -> (r: String)
    ensures
        r@ == unescape_newlines(s@),
{
    let cs = chars_of(s);
    let n = cs.len();
    let mut out = String::new();
    let mut i: usize = 0;
    assert(cs@.skip(0) == cs@);
    while i < n
        invariant
            n == cs@.len(),
            i <= n,
            out@ + unescape_newlines(cs@.skip(i as int)) == unescape_newlines(cs@),
        decreases n - i,
    {
        let ghost rest = cs@.skip(i as int);
        if i + 1 < n && cs[i] == '\\' && cs[i + 1] == 'n' {
            assert(rest.skip(2) == cs@.skip(i + 2));
            push_char(&mut out, '\n');
            i = i + 2;
        } else {
            assert(rest.skip(1) == cs@.skip(i + 1));
            push_char(&mut out, cs[i]);
            i = i + 1;
        }
    }
    assert(cs@.skip(n as int).len() == 0);
    out
}

impl ColorProfile {
    /// A copy of the profile.
    pub fn duplicate(&self) -> (r: ColorProfile)
        ensures
            r@ == self@,
    {
        match self {
            ColorProfile::Default => ColorProfile::Default,
            ColorProfile::Vibrant => ColorProfile::Vibrant,
            ColorProfile::Pastel => ColorProfile::Pastel,
            ColorProfile::Mono => ColorProfile::Mono,
            ColorProfile::Custom(s) => ColorProfile::Custom(s.clone()),
        }
    }

    /// The profile as a lower-case word: `default`, `vibrant`, `pastel`,
    /// `mono` or `custom`.
    pub fn name(&self) -> (r: String)
        ensures
            r@ == profile_name(self@),
    {
        match self {
            ColorProfile::Default => "default".to_owned(),
            ColorProfile::Vibrant => "vibrant".to_owned(),
            ColorProfile::Pastel => "pastel".to_owned(),
            ColorProfile::Mono => "mono".to_owned(),
            ColorProfile::Custom(_) => "custom".to_owned(),
        }
    }

    /// The curve text of the profile.
    pub fn to_curve_string(&self) -> (r: String)
        ensures
            r@ == curve_text(self@),
    {
        match self {
            ColorProfile::Default => CURVE_DEFAULT.to_owned(),
            ColorProfile::Vibrant => CURVE_VIBRANT.to_owned(),
            ColorProfile::Pastel => CURVE_PASTEL.to_owned(),
            ColorProfile::Mono => CURVE_MONO.to_owned(),
            ColorProfile::Custom(s) => s.clone(),
        }
    }

    /// The profile that the command-line flags select. A custom curve has its
    /// escaped line breaks (`\n` as two characters) turned into real ones.
    /// Selecting more than one profile is an error.
    pub fn from_cli(vibrant: bool, pastel: bool, mono: bool, custom: Option<String>) -> (r: Result<
        ColorProfile,
        WallbashError,
    >)
        ensures
            r is Err <==> selection_count(vibrant, pastel, mono, custom is Some) > 1,
            r is Err ==> r->Err_0@ == Fault::ConflictingProfiles,
            r is Ok ==> r->Ok_0@ == selected_profile(
                vibrant,
                pastel,
                mono,
                match custom {
                    Some(c) => Some(c@),
                    None => None,
                },
            ),
    {
        let mut profile = ColorProfile::Default;
        let mut count: u8 = 0;
        let has_custom = custom.is_some();
        if let Some(curve) = custom {
            profile = ColorProfile::Custom(unescape(curve.as_str()));
            count = count + 1;
        }
        if mono {
            profile = ColorProfile::Mono;
            count = count + 1;
        }
        if pastel {
            profile = ColorProfile::Pastel;
            count = count + 1;
        }
        if vibrant {
            profile = ColorProfile::Vibrant;
            count = count + 1;
        }
        assert(count == selection_count(vibrant, pastel, mono, has_custom));
        if count > 1 {
            Err(WallbashError::ConflictingProfiles)
        } else {
            Ok(profile)
        }
    }
}

/// How primary colors are ordered: darkest first, lightest first, or decided
/// from the image.
#[derive(Debug, Clone, Copy, PartialEq, Eq, Structural)]
pub enum SortMode {
    Auto,
    Dark,
    Light,
}

impl SortMode {
    /// The mode that the command-line flags select; both at once is an error.
    pub fn from_cli(dark: bool, light: bool) -> (r: Result<SortMode, WallbashError>)
        ensures
            r is Err <==> (dark && light),
            r is Err ==> r->Err_0@ == Fault::ConflictingModes,
            r is Ok ==> r->Ok_0 == (if dark {
                SortMode::Dark
            } else if light {
                SortMode::Light
            } else {
                SortMode::Auto
            }),
    {
        if dark && light {
            Err(WallbashError::ConflictingModes)
        } else if dark {
            Ok(SortMode::Dark)
        } else if light {
            Ok(SortMode::Light)
        } else {
            Ok(SortMode::Auto)
        }
    }

    /// The mode as a lower-case word: `auto`, `dark` or `light`.
    pub fn name(&self) -> (r: String)
        ensures
            r@ == mode_name(*self),
    {
        match self {
            SortMode::Auto => "auto".to_owned(),
            SortMode::Dark => "dark".to_owned(),
            SortMode::Light => "light".to_owned(),
        }
    }
}

pub open spec fn mode_name(m: SortMode) -> Seq<char> {
    match m {
        SortMode::Auto => "auto"@,
        SortMode::Dark => "dark"@,
        SortMode::Light => "light"@,
    }
}

} // verus!
