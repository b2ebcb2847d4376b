//! The palette cache: the record kept for the last generated palette and the
//! rules that decide whether it still holds.

use vstd::prelude::*;
use sha2::Digest;
use crate::config::{ColorProfile, ProfileView, SortMode};
use crate::palette::{Palette, PaletteView};

verus! {

/// Lower-case hexadecimal digits, indexed by their value.
pub const HEX_LOWER: [char; 16] = [
    '0', '1', '2', '3', '4', '5', '6', '7', '8', '9', 'a', 'b', 'c', 'd', 'e', 'f',
];

/// The SHA-256 digest of a byte sequence.
pub uninterp spec fn sha256_of(data: Seq<u8>) -> Seq<u8>;

/// Two lower-case hex digits per byte, high nibble first.
pub open spec fn hex_lower(b: Seq<u8>) -> Seq<char>
    decreases b.len(),
{
    if b.len() == 0 {
        seq![]
    } else {
        hex_lower(b.drop_last()) + seq![HEX_LOWER@[b.last() as int / 16], HEX_LOWER@[b.last() as int % 16]]
    }
}

/// Relies on sha2's `Sha256::digest`: the SHA-256 digest of the data, 32 bytes.
#[verifier::external_body]
fn sha256_digest(data: &[u8]) -> (r: Vec<u8>)
    ensures
        r@ == sha256_of(data@),
        r@.len() == 32,
{
    sha2::Sha256::digest(data).to_vec()
}

/// Relies on `hex::encode`: two lower-case hex digits per byte, in order.
#[verifier::external_body]
fn hex_encode(data: &[u8]) -> (r: String)
    ensures
        r@ == hex_lower(data@),
{
    hex::encode(data)
}

/// The content checksum of an image: its SHA-256 digest in lower-case hex.
pub fn calculate_checksum(contents: &[u8]) -> (r: String)
    ensures
        r@ == hex_lower(sha256_of(contents@)),
        r@.len() == 64,
{
    let digest = sha256_digest(contents);
    let r = hex_encode(digest.as_slice());
    proof {
        lemma_hex_lower_len(digest@);
    }
    r
}

proof fn lemma_hex_lower_len(b: Seq<u8>)
    ensures
        hex_lower(b).len() == 2 * b.len(),
    decreases b.len(),
{
    if b.len() > 0 {
        lemma_hex_lower_len(b.drop_last());
    }
}

/// The cached record: the image, its content checksum, the generation
/// parameters and the palette they gave.
#[derive(Debug, Clone)]
pub struct CacheData {
    pub image_path: String,
    pub image_checksum: String,
    pub color_profile: ColorProfile,
    pub sort_mode: SortMode,
    pub palette: Palette,
    /// Whether the palette was extracted from a thumbnail of the image.
    pub wallset: bool,
}

pub ghost struct CacheView {
    pub image_path: Seq<char>,
    pub image_checksum: Seq<char>,
    pub color_profile: ProfileView,
    pub sort_mode: SortMode,
    pub palette: PaletteView,
    pub wallset: bool,
}

impl View for CacheData {
    type V = CacheView;

    open spec fn view(&self) -> CacheView {
        CacheView {
            image_path: self.image_path@,
            image_checksum: self.image_checksum@,
            color_profile: self.color_profile@,
            sort_mode: self.sort_mode,
            palette: self.palette@,
            wallset: self.wallset,
        }
    }
}

/// The record for a palette generated from an image with the given contents.
pub open spec fn cache_entry(
    image_path: Seq<char>,
    contents: Seq<u8>,
    profile: ProfileView,
    sort_mode: SortMode,
    palette: PaletteView,
    wallset: bool,
) -> CacheView {
    CacheView {
        image_path,
        image_checksum: hex_lower(sha256_of(contents)),
        color_profile: profile,
        sort_mode,
        palette,
        wallset,
    }
}

/// Builds the record for a palette. The checksum is of the image itself,
/// never of a thumbnail; the mode is the resolved one.
pub fn create_cache_data(
    image_path: &str,
    image_contents: &[u8],
    profile: &ColorProfile,
    sort_mode: SortMode,
    palette: Palette,
    is_wallset: bool,
) -> (r: CacheData)
    requires
        sort_mode != SortMode::Auto,
    ensures
        r@ == cache_entry(image_path@, image_contents@, profile@, sort_mode, palette@, is_wallset),
{
    CacheData {
        image_path: image_path.to_owned(),
        image_checksum: calculate_checksum(image_contents),
        color_profile: profile.duplicate(),
        sort_mode,
        palette,
        wallset: is_wallset,
    }
}

/// Whether a cached palette still holds.
#[derive(Debug)]
pub enum CacheVerdict {
    /// No record, or one made for other inputs: the palette must be
    /// generated anew.
    Stale,
    /// The record matches the inputs; the image's checksum decides.
    NeedsChecksum,
    /// The record holds: its palette can be used.
    Fresh(Palette),
}

pub ghost enum VerdictView {
    Stale,
    NeedsChecksum,
    Fresh(PaletteView),
}

impl View for CacheVerdict {
    type V = VerdictView;

    open spec fn view(&self) -> VerdictView {
        match self {
            CacheVerdict::Stale => VerdictView::Stale,
            CacheVerdict::NeedsChecksum => VerdictView::NeedsChecksum,
            CacheVerdict::Fresh(p) => VerdictView::Fresh(p@),
        }
    }
}

/// The verdict on a record: stale when the image path differs, or the
/// profile, the requested mode or the extraction method; otherwise decided by
/// the image's current checksum, which is asked for only then.
pub open spec fn verdict(
    cached: Option<CacheView>,
    image_path: Seq<char>,
    profile: ProfileView,
    sort_mode: SortMode,
    wallset: bool,
    checksum: Option<Seq<char>>,
) -> VerdictView {
    match cached {
        None => VerdictView::Stale,
        Some(c) => if c.image_path != image_path {
            VerdictView::Stale
        } else if c.color_profile != profile || c.sort_mode != sort_mode || c.wallset != wallset {
            VerdictView::Stale
        } else {
            match checksum {
                None => VerdictView::NeedsChecksum,
                Some(sum) => if sum == c.image_checksum {
                    VerdictView::Fresh(c.palette)
                } else {
                    VerdictView::Stale
                },
            }
        },
    }
}

/// Decides whether the cached record can stand for the current inputs. The
/// cheap comparisons come first; `current_checksum` is consulted only when
/// they all match, and `NeedsChecksum` asks for it when it is not given.
pub fn needs_regeneration(
    cached: Option<CacheData>,
    current_image_path: &str,
    current_profile: &ColorProfile,
    current_sort_mode: SortMode,
    is_wallset: bool,
    current_checksum: Option<&str>,
) -> (r: CacheVerdict)
    ensures
        r@ == verdict(
            match cached {
                Some(c) => Some(c@),
                None => None,
            },
            current_image_path@,
            current_profile@,
            current_sort_mode,
            is_wallset,
            match current_checksum {
                Some(s) => Some(s@),
                None => None,
            },
        ),
{
    match cached {
        None => CacheVerdict::Stale,
        Some(c) => {
            let path = current_image_path.to_owned();
            if !c.image_path.eq(&path) {
                return CacheVerdict::Stale;
            }
            if !c.color_profile.eq(current_profile) || c.sort_mode != current_sort_mode || c.wallset
                != is_wallset {
                return CacheVerdict::Stale;
            }
            match current_checksum {
                None => CacheVerdict::NeedsChecksum,
                Some(sum) => {
                    let sum = sum.to_owned();
                    if sum.eq(&c.image_checksum) {
                        CacheVerdict::Fresh(c.palette)
                    } else {
                        CacheVerdict::Stale
                    }
                },
            }
        },
    }
}

/// A record made for an image is valid for the same image, parameters and
/// contents, and stale once the path, the profile, the mode, the extraction
/// method or the contents' checksum changes.
pub proof fn lemma_cache_validity(
    image_path: Seq<char>,
    contents: Seq<u8>,
    profile: ProfileView,
    sort_mode: SortMode,
    palette: PaletteView,
    wallset: bool,
    other_path: Seq<char>,
    other_profile: ProfileView,
    other_contents: Seq<u8>,
)
    ensures
        ({
            let entry = Some(cache_entry(image_path, contents, profile, sort_mode, palette, wallset));
            let sum = Some(hex_lower(sha256_of(contents)));
            &&& verdict(entry, image_path, profile, sort_mode, wallset, None)
                == VerdictView::NeedsChecksum
            &&& verdict(entry, image_path, profile, sort_mode, wallset, sum) == VerdictView::Fresh(
                palette,
            )
            &&& other_path != image_path ==> verdict(
                entry,
                other_path,
                profile,
                sort_mode,
                wallset,
                sum,
            ) == VerdictView::Stale
            &&& other_profile != profile ==> verdict(
                entry,
                image_path,
                other_profile,
                sort_mode,
                wallset,
                sum,
            ) == VerdictView::Stale
            &&& verdict(entry, image_path, profile, sort_mode, !wallset, sum) == VerdictView::Stale
            &&& sha256_of(other_contents) != sha256_of(contents) ==> verdict(
                entry,
                image_path,
                profile,
                sort_mode,
                wallset,
                Some(hex_lower(sha256_of(other_contents))),
            ) == VerdictView::Stale
        }),
{
    assert forall|a: Seq<u8>, b: Seq<u8>| a != b implies hex_lower(a) != hex_lower(b) by {
        lemma_hex_lower_injective(a, b);
    }
}

proof fn lemma_hex_lower_injective(a: Seq<u8>, b: Seq<u8>)
    requires
        a != b,
    ensures
        hex_lower(a) != hex_lower(b),
    decreases a.len(),
{
    lemma_hex_lower_len(a);
    lemma_hex_lower_len(b);
    if a.len() == 0 && b.len() == 0 {
        assert(a =~= b);
    }
    if a.len() == b.len() && a.len() > 0 {
        lemma_hex_lower_len(a.drop_last());
        lemma_hex_lower_len(b.drop_last());
        let ha = hex_lower(a);
        let hb = hex_lower(b);
        let n = ha.len();
        if a.last() != b.last() {
            lemma_hex_lower_table();
            assert(ha[n - 2] == HEX_LOWER@[a.last() as int / 16] && ha[n - 1] == HEX_LOWER@[a.last() as int % 16]);
            assert(hb[n - 2] == HEX_LOWER@[b.last() as int / 16] && hb[n - 1] == HEX_LOWER@[b.last() as int % 16]);
            assert(a.last() as int / 16 != b.last() as int / 16 || a.last() as int % 16
                != b.last() as int % 16);
            assert(ha[n - 2] != hb[n - 2] || ha[n - 1] != hb[n - 1]);
        } else {
            assert(a.drop_last() != b.drop_last()) by {
                if a.drop_last() == b.drop_last() {
                    assert(a =~= b.drop_last().push(b.last()));
                    assert(b =~= b.drop_last().push(b.last()));
                }
            }
            lemma_hex_lower_injective(a.drop_last(), b.drop_last());
            lemma_hex_lower_len(a.drop_last());
            if ha == hb {
                assert(hex_lower(a.drop_last()) =~= ha.subrange(0, n - 2));
                assert(hex_lower(b.drop_last()) =~= hb.subrange(0, n - 2));
            }
        }
    }
}

proof fn lemma_hex_lower_table()
    ensures
        forall|i: int, j: int|
            0 <= i < 16 && 0 <= j < 16 && i != j ==> #[trigger] HEX_LOWER@[i] != #[trigger] HEX_LOWER@[j],
{
    assert(HEX_LOWER@[0] == '0' && HEX_LOWER@[1] == '1' && HEX_LOWER@[2] == '2');
    assert(HEX_LOWER@[3] == '3' && HEX_LOWER@[4] == '4' && HEX_LOWER@[5] == '5');
    assert(HEX_LOWER@[6] == '6' && HEX_LOWER@[7] == '7' && HEX_LOWER@[8] == '8');
    assert(HEX_LOWER@[9] == '9' && HEX_LOWER@[10] == 'a' && HEX_LOWER@[11] == 'b');
    assert(HEX_LOWER@[12] == 'c' && HEX_LOWER@[13] == 'd' && HEX_LOWER@[14] == 'e');
    assert(HEX_LOWER@[15] == 'f');
}

} // verus!
