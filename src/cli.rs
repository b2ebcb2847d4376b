//! Command-line settings and the decisions taken from them before a palette
//! is built: the profile, the mode, the extraction retry and the candidates.

use vstd::prelude::*;
use crate::cache::{hex_lower, sha256_of};
use crate::config::{ColorProfile, SortMode};
use crate::error::{Fault, WallbashError};
use crate::text::push_str;
use vstd::string::StringSliceAdditionalSpecFns;

verus! {

/// The command-line settings.
#[derive(Debug)]
pub struct Cli {
    pub input_image: Option<String>,
    pub force: bool,
    pub output_dir: Option<String>,
    pub vibrant: bool,
    pub pastel: bool,
    pub mono: bool,
    pub custom: Option<String>,
    pub dark: bool,
    pub light: bool,
    pub colors: usize,
    pub fuzz: u8,
    pub detect_hyprland: bool,
    pub html: bool,
    pub wallset: bool,
    pub no_templates: bool,
}

/// What follows a k-means extraction.
#[derive(Debug)]
pub enum Extraction {
    /// Enough colors were found.
    Accept,
    /// Extract again, asking for this many colors.
    Retry(usize),
    /// Too few colors even after the retry.
    Fail(WallbashError),
}

pub ghost enum ExtractionView {
    Accept,
    Retry(nat),
    Fail(Fault),
}

impl View for Extraction {
    type V = ExtractionView;

    open spec fn view(&self) -> ExtractionView {
        match self {
            Extraction::Accept => ExtractionView::Accept,
            Extraction::Retry(n) => ExtractionView::Retry(*n as nat),
            Extraction::Fail(e) => ExtractionView::Fail(e@),
        }
    }
}

/// The retry rule: a first extraction that finds fewer than `num_colors`
/// colors is repeated once asking for two more; a retry that still finds too
/// few fails.
pub open spec fn extraction_step(num_colors: nat, found: nat, retried: bool) -> ExtractionView {
    if found >= num_colors {
        ExtractionView::Accept
    } else if !retried {
        ExtractionView::Retry(num_colors + 2)
    } else {
        ExtractionView::Fail(Fault::NotEnoughColors { required: num_colors, found })
    }
}

/// Decides what follows an extraction that found `found` colors.
pub fn after_extraction(num_colors: usize, found: usize, retried: bool) -> (r: Extraction)
    requires
        num_colors + 2 <= usize::MAX,
    ensures
        r@ == extraction_step(num_colors as nat, found as nat, retried),
{
    if found >= num_colors {
        Extraction::Accept
    } else if !retried {
        Extraction::Retry(num_colors + 2)
    } else {
        Extraction::Fail(WallbashError::NotEnoughColors { required: num_colors, found })
    }
}

/// The candidate colors of a histogram: the colors of its first `num_colors`
/// entries, in order.
pub fn candidate_colors(histogram: &Vec<(u64, String)>, num_colors: usize) -> (r: Vec<String>)
    ensures
        r@.len() == if histogram@.len() < num_colors {
            histogram@.len()
        } else {
            num_colors as nat
        },
        forall|k: int| 0 <= k < r@.len() ==> (#[trigger] r@[k])@ == histogram@[k].1@,
{
    let mut r: Vec<String> = Vec::new();
    let mut i: usize = 0;
    while i < histogram.len() && i < num_colors
        invariant
            i <= histogram@.len(),
            i <= num_colors,
            r@.len() == i,
            forall|k: int| 0 <= k < i ==> (#[trigger] r@[k])@ == histogram@[k].1@,
        decreases histogram@.len() - i,
    {
        r.push(histogram[i].1.clone());
        i = i + 1;
    }
    r
}

impl Cli {
    /// The profile that the flags select.
    pub fn color_profile(&self) -> (r: Result<ColorProfile, WallbashError>)
        ensures
            r is Err <==> crate::config::selection_count(
                self.vibrant,
                self.pastel,
                self.mono,
                self.custom is Some,
            ) > 1,
            r is Ok ==> r->Ok_0@ == crate::config::selected_profile(
                self.vibrant,
                self.pastel,
                self.mono,
                match self.custom {
                    Some(c) => Some(c@),
                    None => None,
                },
            ),
    {
        let custom = match &self.custom {
            Some(c) => Some(c.clone()),
            None => None,
        };
        ColorProfile::from_cli(self.vibrant, self.pastel, self.mono, custom)
    }

    /// The mode that the flags select.
    pub fn sort_mode(&self) -> (r: Result<SortMode, WallbashError>)
        ensures
            r is Err <==> (self.dark && self.light),
            r is Ok ==> r->Ok_0 == (if self.dark {
                SortMode::Dark
            } else if self.light {
                SortMode::Light
            } else {
                SortMode::Auto
            }),
    {
        SortMode::from_cli(self.dark, self.light)
    }
}

/// The name under which the thumbnail and the color file of an image are
/// kept: the SHA-256 digest of its path's UTF-8 bytes, in lower-case hex.
pub fn calculate_hash(path: &str) -> (r: String)
    ensures
        r@ == hex_lower(sha256_of(path.spec_bytes())),
{
    crate::cache::calculate_checksum(path.as_bytes())
}

/// A directory path extended by a relative name, with one separator between.
pub open spec fn join_path(base: Seq<char>, name: Seq<char>) -> Seq<char> {
    if base.len() == 0 {
        name
    } else if base.last() == '/' {
        base + name
    } else {
        base + seq!['/'] + name
    }
}

fn join(base: &str, name: &str) -> (r: String)
    ensures
        r@ == join_path(base@, name@),
{
    let cs = crate::text::chars_of(base);
    let mut s = base.to_owned();
    if cs.len() > 0 && cs[cs.len() - 1] != '/' {
        crate::text::push_char(&mut s, '/');
    }
    push_str(&mut s, name);
    s
}

/// Where the program reads and writes.
#[derive(Debug)]
pub struct AppPaths {
    pub template_dir: String,
    pub output_dir: String,
    pub thumbs_dir: String,
    pub dcols_dir: String,
    pub mpc_cache_file: String,
    pub wallbash_cache_file: String,
}

impl AppPaths {
    /// The paths below the configuration directory `config_dir` and the cache
    /// directory `cache_dir`, with output going to `output_dir`.
    pub fn new(config_dir: &str, cache_dir: &str, output_dir: String) -> (r: AppPaths)
        ensures
            r.template_dir@ == join_path(config_dir@, "templates"@),
            r.output_dir@ == output_dir@,
            r.thumbs_dir@ == join_path(cache_dir@, "thumbs"@),
            r.dcols_dir@ == join_path(cache_dir@, "dcols"@),
            r.mpc_cache_file@ == join_path(cache_dir@, "wallbash.mpc"@),
            r.wallbash_cache_file@ == join_path(cache_dir@, "wallbash_cache.json"@),
    {
        AppPaths {
            template_dir: join(config_dir, "templates"),
            output_dir,
            thumbs_dir: join(cache_dir, "thumbs"),
            dcols_dir: join(cache_dir, "dcols"),
            mpc_cache_file: join(cache_dir, "wallbash.mpc"),
            wallbash_cache_file: join(cache_dir, "wallbash_cache.json"),
        }
    }

    /// The program's own directory below a base directory, or below the home
    /// directory at `fallback` when there is no base.
    pub fn app_dir(base: Option<String>, home: &str, fallback: &str) -> (r: String)
        ensures
            r@ == match base {
                Some(b) => join_path(b@, "wallrust"@),
                None => join_path(home@, fallback@),
            },
    {
        match base {
            Some(b) => join(b.as_str(), "wallrust"),
            None => join(home, fallback),
        }
    }
}

} // verus!
