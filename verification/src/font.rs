//! Glyph rendering capability: given a character, report its advance width
//! and draw it into a pixel buffer. Two kinds of font are supported: a
//! fixed-cell bitmap font unpacked from a PNG sprite sheet, and a BDF font
//! with per-glyph metrics.
use crate::buffer::Buffer;
use crate::palette::BLUE_LIGHT;
use bdf2::Font as RawBdfFont;
use vstd::prelude::*;

verus! {

#[verifier::external_type_specification]
#[verifier::external_body]
pub struct ExBdfFontData(RawBdfFont);

/// Whether the parsed BDF font has a glyph for the character.
pub uninterp spec fn bdf_has_glyph(font: RawBdfFont, character: char) -> bool;

/// The pixel width of the glyph's bitmap (its bounding box) for the
/// character; this toolkit advances the pen by it, as the original sheet
/// metrics do.
pub uninterp spec fn bdf_advance_of(font: RawBdfFont, character: char) -> nat;

/// Relies on bdf2::Font's derived clone, which copies the glyph map
/// entry for entry, so the clone has the same glyphs at the same advance
/// widths.
pub assume_specification[ <RawBdfFont as core::clone::Clone>::clone ](font: &RawBdfFont) -> (r:
    RawBdfFont)
    ensures
        forall|c: char| (#[trigger] bdf_has_glyph(r, c)) == bdf_has_glyph(*font, c),
        forall|c: char| (#[trigger] bdf_advance_of(r, c)) == bdf_advance_of(*font, c),
;

/// ASCII whitespace, as bdf2's line trimming sees it.
pub open spec fn is_ws(b: u8) -> bool {
    b == 9 || b == 10 || b == 11 || b == 12 || b == 13 || b == 32
}

pub open spec fn is_digit(b: u8) -> bool {
    48 <= b <= 57
}

/// The first index in `[lo, hi)` holding `b`, or `hi` when there is none.
pub open spec fn find_byte(s: Seq<u8>, b: u8, lo: int, hi: int) -> int
    decreases hi - lo,
{
    if lo < 0 || lo >= hi {
        hi
    } else if s[lo] == b {
        lo
    } else {
        find_byte(s, b, lo + 1, hi)
    }
}

proof fn lemma_find_byte_is(s: Seq<u8>, b: u8, lo: int, hi: int, j: int)
    requires
        0 <= lo <= j <= hi,
        forall|k: int| lo <= k < j ==> s[k] != b,
        j < hi ==> 0 <= j < s.len() && s[j] == b,
    ensures
        find_byte(s, b, lo, hi) == j,
    decreases j - lo,
{
    if lo < j {
        lemma_find_byte_is(s, b, lo + 1, hi, j);
    }
}

pub open spec fn has_prefix(s: Seq<u8>, at: int, p: Seq<u8>) -> bool {
    &&& 0 <= at
    &&& at + p.len() <= s.len()
    &&& s.subrange(at, at + p.len()) == p
}

/// The bytes of "COMMENT ".
pub open spec fn comment_prefix() -> Seq<u8> {
    seq![67u8, 79u8, 77u8, 77u8, 69u8, 78u8, 84u8, 32u8]
}

/// The bytes of "BBX ".
pub open spec fn bbx_prefix() -> Seq<u8> {
    seq![66u8, 66u8, 88u8, 32u8]
}

/// The bytes of "FONTBOUNDINGBOX ".
pub open spec fn fbb_prefix() -> Seq<u8> {
    seq![
        70u8,
        79u8,
        78u8,
        84u8,
        66u8,
        79u8,
        85u8,
        78u8,
        68u8,
        73u8,
        78u8,
        71u8,
        66u8,
        79u8,
        88u8,
        32u8,
    ]
}

/// At least two non-whitespace bytes in `[lo, hi)`: a trimmed tail of
/// length at least two.
pub open spec fn two_nonws(s: Seq<u8>, lo: int, hi: int) -> bool {
    exists|p: int, q: int|
        lo <= p < q < hi && !is_ws(#[trigger] s[p]) && !is_ws(#[trigger] s[q])
}

/// The only non-whitespace byte in `[lo, hi)` is a single double quote: a
/// trimmed tail that is exactly one quote character.
pub open spec fn lone_quote(s: Seq<u8>, lo: int, hi: int) -> bool {
    exists|j: int|
        lo <= j < hi && #[trigger] s[j] == 34 && (forall|k: int|
            lo <= k < hi && k != j ==> is_ws(#[trigger] s[k]))
}

/// Every decimal run in `[lo, hi)` is at most two digits and names a value
/// of at most 64.
pub open spec fn small_numbers(s: Seq<u8>, lo: int, hi: int) -> bool {
    &&& (forall|i: int|
        lo <= i && i + 2 < hi ==> !(is_digit(#[trigger] s[i]) && is_digit(s[i + 1]) && is_digit(
            s[i + 2],
        )))
    &&& (forall|i: int|
        lo <= i && i + 1 < hi && is_digit(#[trigger] s[i]) && is_digit(s[i + 1]) && (i == lo
            || !is_digit(s[i - 1])) ==> 10 * (s[i] - 48) + (s[i + 1] - 48) <= 64)
}

/// What keeps bdf2's reader away from its panicking paths on the line that
/// starts at `at`: a comment's tail trims to at least two characters, no
/// tail trims to a single quote character (the quote extractor slices one
/// byte off each end unconditionally), and bounding-box lines name no
/// dimension above 64 (the bitmap decoder shifts a row word by up to the
/// width and indexes its bitmap with unchecked 32-bit arithmetic).
pub open spec fn bdf_line_safe(s: Seq<u8>, at: int) -> bool {
    let e = find_byte(s, 10, at, s.len() as int);
    let e2 = if e > at && s[e - 1] == 13 {
        e - 1
    } else {
        e
    };
    let fs = find_byte(s, 32, at, e2);
    &&& (has_prefix(s, at, comment_prefix()) ==> two_nonws(s, fs + 1, e2))
    &&& !lone_quote(s, fs + 1, e2)
    &&& ((has_prefix(s, at, bbx_prefix()) || has_prefix(s, at, fbb_prefix())) ==> small_numbers(
        s,
        at,
        e2,
    ))
}

/// Input that bdf2's reader is known to parse without reaching a panicking
/// path: ASCII under a size cap, every line safe as above.
pub open spec fn bdf_input_safe(s: Seq<u8>) -> bool {
    &&& s.len() <= 0x100000
    &&& (forall|i: int| 0 <= i < s.len() ==> #[trigger] s[i] < 128)
    &&& (forall|at: int|
        0 <= at < s.len() && (at == 0 || s[at - 1] == 10) ==> #[trigger] bdf_line_safe(s, at))
}

fn ws_byte(b: u8) -> (r: bool)
    ensures
        r == is_ws(b),
{
    b == 9 || b == 10 || b == 11 || b == 12 || b == 13 || b == 32
}

fn comment_at(bytes: &[u8], at: usize) -> (r: bool)
    requires
        at <= bytes@.len(),
    ensures
        r == has_prefix(bytes@, at as int, comment_prefix()),
{
    let r = bytes.len() - at >= 8 && bytes[at] == 67 && bytes[at + 1] == 79 && bytes[at + 2] == 77
        && bytes[at + 3] == 77 && bytes[at + 4] == 69 && bytes[at + 5] == 78 && bytes[at + 6] == 84
        && bytes[at + 7] == 32;
    proof {
        if r {
            assert(bytes@.subrange(at as int, at + comment_prefix().len()) =~= comment_prefix());
        } else if at + comment_prefix().len() <= bytes@.len() {
            if bytes@.subrange(at as int, at + comment_prefix().len()) == comment_prefix() {
                assert(forall|k: int|
                    0 <= k < comment_prefix().len() ==> bytes@[at + k] == #[trigger] comment_prefix()[k]);
                assert(false);
            }
        }
    }
    r
}

fn bbx_at(bytes: &[u8], at: usize) -> (r: bool)
    requires
        at <= bytes@.len(),
    ensures
        r == has_prefix(bytes@, at as int, bbx_prefix()),
{
    let r = bytes.len() - at >= 4 && bytes[at] == 66 && bytes[at + 1] == 66 && bytes[at + 2] == 88
        && bytes[at + 3] == 32;
    proof {
        if r {
            assert(bytes@.subrange(at as int, at + bbx_prefix().len()) =~= bbx_prefix());
        } else if at + bbx_prefix().len() <= bytes@.len() {
            if bytes@.subrange(at as int, at + bbx_prefix().len()) == bbx_prefix() {
                assert(forall|k: int|
                    0 <= k < bbx_prefix().len() ==> bytes@[at + k] == #[trigger] bbx_prefix()[k]);
                assert(false);
            }
        }
    }
    r
}

fn fbb_at(bytes: &[u8], at: usize) -> (r: bool)
    requires
        at <= bytes@.len(),
    ensures
        r == has_prefix(bytes@, at as int, fbb_prefix()),
{
    let r = bytes.len() - at >= 16 && bytes[at] == 70 && bytes[at + 1] == 79 && bytes[at + 2] == 78
        && bytes[at + 3] == 84 && bytes[at + 4] == 66 && bytes[at + 5] == 79 && bytes[at + 6] == 85
        && bytes[at + 7] == 78 && bytes[at + 8] == 68 && bytes[at + 9] == 73 && bytes[at + 10]
        == 78 && bytes[at + 11] == 71 && bytes[at + 12] == 66 && bytes[at + 13] == 79 && bytes[at
        + 14] == 88 && bytes[at + 15] == 32;
    proof {
        if r {
            assert(bytes@.subrange(at as int, at + fbb_prefix().len()) =~= fbb_prefix());
        } else if at + fbb_prefix().len() <= bytes@.len() {
            if bytes@.subrange(at as int, at + fbb_prefix().len()) == fbb_prefix() {
                assert(forall|k: int|
                    0 <= k < fbb_prefix().len() ==> bytes@[at + k] == #[trigger] fbb_prefix()[k]);
                assert(false);
            }
        }
    }
    r
}

/// Checks one reader line for safety, returning the verdict and the index
/// of the line's terminating newline (or the input's end).
#[verifier::loop_isolation(false)]
#[verifier::rlimit(80)]
fn bdf_check_line(bytes: &[u8], s: usize) -> (res: (bool, usize))
    requires
        s < bytes@.len(),
        bytes@.len() <= 0x100000,
    ensures
        res.0 ==> bdf_line_safe(bytes@, s as int),
        s <= res.1 <= bytes@.len(),
        forall|k: int| s <= k < res.1 ==> bytes@[k] != 10,
        res.1 < bytes@.len() ==> bytes@[res.1 as int] == 10,
{
    let n = bytes.len();
    let mut e: usize = s;
    while e < n && bytes[e] != 10
        invariant
            s <= e <= n,
            forall|k: int| s <= k < e ==> bytes@[k] != 10,
        decreases n - e,
    {
        e = e + 1;
    }
    proof {
        lemma_find_byte_is(bytes@, 10, s as int, n as int, e as int);
    }
    let e2: usize = if e > s && bytes[e - 1] == 13 {
        e - 1
    } else {
        e
    };
    let mut fs: usize = s;
    while fs < e2 && bytes[fs] != 32
        invariant
            s <= fs <= e2,
            forall|k: int| s <= k < fs ==> bytes@[k] != 32,
        decreases e2 - fs,
    {
        fs = fs + 1;
    }
    proof {
        lemma_find_byte_is(bytes@, 32, s as int, e2 as int, fs as int);
    }
    // scan the tail after the first space for non-whitespace bytes
    let mut p: usize = fs + 1;
    let mut count: usize = 0;
    let mut first_b: u8 = 0;
    let ghost mut first_g: int = 0;
    let ghost mut second_g: int = 0;
    while p < e2
        invariant
            fs + 1 <= p <= e2 || (fs == e2 && p == e2 + 1),
            count == 0 ==> forall|k: int| fs + 1 <= k < p ==> is_ws(#[trigger] bytes@[k]),
            count == 1 ==> fs + 1 <= first_g < p && !is_ws(bytes@[first_g]) && bytes@[first_g]
                == first_b && (forall|k: int|
                fs + 1 <= k < p && k != first_g ==> is_ws(#[trigger] bytes@[k])),
            count >= 2 ==> fs + 1 <= first_g < second_g < p && !is_ws(bytes@[first_g]) && !is_ws(
                bytes@[second_g],
            ),
        decreases e2 - p,
    {
        if !ws_byte(bytes[p]) {
            if count == 0 {
                first_b = bytes[p];
                proof {
                    first_g = p as int;
                }
                count = 1;
            } else if count == 1 {
                proof {
                    second_g = p as int;
                }
                count = 2;
            }
        }
        p = p + 1;
    }
    let is_comment = comment_at(bytes, s);
    if is_comment && count < 2 {
        return (false, e);
    }
    if count == 1 && first_b == 34 {
        return (false, e);
    }
    proof {
        if is_comment {
            assert(two_nonws(bytes@, fs + 1, e2 as int));
        }
        assert(!lone_quote(bytes@, fs + 1, e2 as int)) by {
            if count == 0 {
                assert forall|j: int| !(fs + 1 <= j < e2 && bytes@[j] == 34) by {
                    if fs + 1 <= j < e2 {
                        assert(is_ws(bytes@[j]));
                    }
                }
            } else if count == 1 {
                assert forall|j: int|
                    fs + 1 <= j < e2 && #[trigger] bytes@[j] == 34 implies !(forall|k: int|
                    fs + 1 <= k < e2 && k != j ==> is_ws(#[trigger] bytes@[k])) by {
                    assert(j == first_g);
                    assert(false);
                }
            } else {
                assert forall|j: int|
                    fs + 1 <= j < e2 && #[trigger] bytes@[j] == 34 implies !(forall|k: int|
                    fs + 1 <= k < e2 && k != j ==> is_ws(#[trigger] bytes@[k])) by {
                    if j != first_g {
                        assert(!is_ws(bytes@[first_g]));
                    } else {
                        assert(!is_ws(bytes@[second_g]));
                    }
                }
            }
        }
    }
    let is_bbx = bbx_at(bytes, s);
    let is_fbb = fbb_at(bytes, s);
    if is_bbx || is_fbb {
        let mut q: usize = s;
        while q < e2
            invariant
                s <= q <= e2,
                forall|k: int|
                    s <= k < q && k + 2 < e2 ==> !(is_digit(#[trigger] bytes@[k]) && is_digit(
                        bytes@[k + 1],
                    ) && is_digit(bytes@[k + 2])),
                forall|k: int|
                    s <= k < q && k + 1 < e2 && is_digit(#[trigger] bytes@[k]) && is_digit(
                        bytes@[k + 1],
                    ) && (k == s || !is_digit(bytes@[k - 1])) ==> 10 * (bytes@[k] - 48) + (
                    bytes@[k + 1] - 48) <= 64,
            decreases e2 - q,
        {
            if q + 2 < e2 && bytes[q] >= 48 && bytes[q] <= 57 && bytes[q + 1] >= 48 && bytes[q + 1]
                <= 57 && bytes[q + 2] >= 48 && bytes[q + 2] <= 57 {
                return (false, e);
            }
            if q + 1 < e2 && bytes[q] >= 48 && bytes[q] <= 57 && bytes[q + 1] >= 48 && bytes[q + 1]
                <= 57 && (q == s || !(bytes[q - 1] >= 48 && bytes[q - 1] <= 57)) {
                let value = 10 * ((bytes[q] - 48) as u32) + ((bytes[q + 1] - 48) as u32);
                if value > 64 {
                    return (false, e);
                }
            }
            q = q + 1;
        }
        proof {
            assert(small_numbers(bytes@, s as int, e2 as int));
        }
    }
    proof {
        assert(bdf_line_safe(bytes@, s as int));
    }
    (true, e)
}

/// Accepts only byte inputs that provably keep bdf2's reader on its
/// non-panicking paths; rejections are conservative.
#[verifier::loop_isolation(false)]
#[verifier::rlimit(80)]
fn bdf_check(bytes: &[u8]) -> (r: bool)
    ensures
        r ==> bdf_input_safe(bytes@),
{
    let n = bytes.len();
    if n > 0x100000 {
        return false;
    }
    let mut i: usize = 0;
    while i < n
        invariant
            forall|k: int| 0 <= k < i ==> #[trigger] bytes@[k] < 128,
        decreases n - i,
    {
        if bytes[i] >= 128 {
            return false;
        }
        i = i + 1;
    }
    let mut s: usize = 0;
    while s < n
        invariant
            0 <= s <= n + 1,
            forall|t: int|
                0 <= t < s && (t == 0 || bytes@[t - 1] == 10) ==> #[trigger] bdf_line_safe(
                    bytes@,
                    t,
                ),
        decreases n + 1 - s,
    {
        let (ok, e) = bdf_check_line(bytes, s);
        if !ok {
            return false;
        }
        proof {
            assert forall|t: int|
                0 <= t < e + 1 && (t == 0 || bytes@[t - 1] == 10) implies #[trigger] bdf_line_safe(
                bytes@,
                t,
            ) by {
                if t > s {
                    assert(bytes@[t - 1] != 10);
                }
            }
        }
        s = e + 1;
    }
    true
}

/// Relies on bdf2::read, which parses BDF font data from a byte stream. It
/// is asked only about guarded inputs (`bdf_input_safe`): on those, every
/// slicing, shift and 32-bit index in bdf2's reader stays in range, so the
/// call returns a `Result` rather than panicking.
#[verifier::external_body]
fn bdf_read(bytes: &[u8]) -> (r: Option<RawBdfFont>)
    requires
        bdf_input_safe(bytes@),
{
    bdf2::read(bytes).ok()
}

/// Relies on bdf2::Font::glyphs (a map from codepoint to glyph) and on the
/// glyph's bitmap width, which bdf2's reader sets from the glyph's bounding
/// box.
#[verifier::external_body]
fn bdf_glyph_width(font: &RawBdfFont, character: char) -> (r: Option<usize>)
    ensures
        r is Some <==> bdf_has_glyph(*font, character),
        r matches Some(w) ==> w as nat == bdf_advance_of(*font, character),
{
    font.glyphs().get(&character).map(|g| g.width() as usize)
}

/// One glyph's bitmap as plain values: `pixels` is row-major, `width` columns
/// by `height` rows, and `y_offset` is the glyph's descent below the
/// baseline.
pub struct GlyphBitmap {
    pub width: u32,
    pub height: u32,
    pub y_offset: i32,
    pub pixels: Vec<bool>,
}

/// Relies on bdf2::Glyph::pixels, which yields the glyph bitmap row-major,
/// one value per cell, exactly width times height of them, and on
/// bdf2::Glyph::bounds for the vertical offset. Glyphs that fail bdf2's own
/// validation (no bounds) are reported as absent. The values are gathered
/// with a plain loop: bdf2's pixel iterator reports a size hint computed
/// with width and height swapped, which underflows for a glyph taller than
/// wide if a collect pre-allocates from it.
#[verifier::external_body]
fn bdf_glyph_bitmap(font: &RawBdfFont, character: char) -> (r: Option<GlyphBitmap>)
    ensures
        r matches Some(b) ==> {
            &&& b.pixels@.len() == b.width * b.height
            &&& bdf_has_glyph(*font, character)
            &&& b.width as nat == bdf_advance_of(*font, character)
        },
{
    let g = match font.glyphs().get(&character) {
        Some(g) => g,
        None => return None,
    };
    if !g.validate() {
        return None;
    }
    let mut pixels = Vec::new();
    for (_, value) in g.pixels() {
        pixels.push(value);
    }
    Some(GlyphBitmap { width: g.width(), height: g.height(), y_offset: g.bounds().y, pixels })
}

/// A decoded image: one 8-bit luminance value per pixel, row-major.
pub struct LumaImage {
    pub data: Vec<u8>,
    pub width: usize,
    pub height: usize,
}

/// Relies on image::load_from_memory and image::DynamicImage::into_luma8:
/// decodes encoded image bytes into one 8-bit luminance value per pixel,
/// row-major, exactly width times height of them.
#[verifier::external_body]
fn decode_luma(bytes: &[u8]) -> (r: Option<LumaImage>) {
    match image::load_from_memory(bytes) {
        Ok(img) => {
            let l = img.into_luma8();
            let (width, height) = (l.width() as usize, l.height() as usize);
            Some(LumaImage { data: l.into_raw(), width, height })
        },
        Err(_) => None,
    }
}

/// The capability every font provides: report the advance width of a
/// character and the font's cell metrics, and draw one character into a
/// buffer. Drawing must clip rather than panic and returns the advance.
pub trait Font {
    spec fn spec_glyph_width(&self, character: char) -> nat;

    spec fn spec_width(&self) -> nat;

    spec fn spec_height(&self) -> nat;

    fn draw_character(
        &self,
        buffer: &mut Buffer,
        screen_x: usize,
        screen_y: usize,
        character: char,
    ) -> (advance: usize)
        ensures
            advance == self.spec_glyph_width(character),
            final(buffer).width == old(buffer).width,
            final(buffer).data@.len() == old(buffer).data@.len(),
    ;

    fn glyph_width(&self, character: char) -> (r: usize)
        ensures
            r == self.spec_glyph_width(character),
    ;

    fn width(&self) -> (r: usize)
        ensures
            r == self.spec_width(),
    ;

    fn height(&self) -> (r: usize)
        ensures
            r == self.spec_height(),
    ;

    /// The designated substitute drawn for characters the font lacks.
    spec fn spec_fallback(&self) -> char;

    fn fallback_character(&self) -> (r: char)
        ensures
            r == self.spec_fallback(),
    ;
}

/// A BDF font with per-glyph advance widths. Characters the font lacks fall
/// back to the substitute glyph; the space character always uses the fixed
/// space width.
#[derive(Clone)]
pub struct BdfFont {
    font: RawBdfFont,
    space_width: usize,
    line_height: usize,
}

impl BdfFont {
    /// Parses BDF font bytes; `None` when the bytes are not a valid BDF
    /// font, or when they fall outside the guarded subset that bdf2's
    /// reader is known to parse without panicking.
    pub fn parse(bytes: &[u8], space_width: usize, line_height: usize) -> (r: Option<BdfFont>)
        ensures
            r matches Some(f) ==> f.spec_height() == line_height && f.spec_glyph_width(' ')
                == space_width,
    {
        if !bdf_check(bytes) {
            return None;
        }
        match bdf_read(bytes) {
            Some(font) => Some(BdfFont { font, space_width, line_height }),
            None => None,
        }
    }
}

impl Font for BdfFont {
    closed spec fn spec_glyph_width(&self, character: char) -> nat {
        if character == ' ' {
            self.space_width as nat
        } else if bdf_has_glyph(self.font, character) {
            bdf_advance_of(self.font, character)
        } else if bdf_has_glyph(self.font, '?') {
            bdf_advance_of(self.font, '?')
        } else {
            0
        }
    }

    closed spec fn spec_width(&self) -> nat {
        14
    }

    closed spec fn spec_height(&self) -> nat {
        self.line_height as nat
    }

    open spec fn spec_fallback(&self) -> char {
        '?'
    }

    fn glyph_width(&self, character: char) -> (r: usize) {
        if character == ' ' {
            return self.space_width;
        }
        match bdf_glyph_width(&self.font, character) {
            Some(w) => w,
            None => match bdf_glyph_width(&self.font, '?') {
                Some(w) => w,
                None => 0,
            },
        }
    }

    fn width(&self) -> (r: usize) {
        14
    }

    fn height(&self) -> (r: usize) {
        self.line_height
    }

    fn fallback_character(&self) -> (r: char) {
        '?'
    }

    /// Paints the glyph's set bits in the highlight color, one pixel per
    /// bit, aligned so the glyph sits on the font's baseline. Pixels that
    /// would fall outside the buffer, or above the top of the surface, are
    /// dropped.
    #[verifier::loop_isolation(false)]
    fn draw_character(
        &self,
        buffer: &mut Buffer,
        screen_x: usize,
        screen_y: usize,
        character: char,
    ) -> (advance: usize) {
        let looked_up = if character == ' ' {
            None
        } else {
            match bdf_glyph_bitmap(&self.font, character) {
                Some(b) => Some(b),
                None => bdf_glyph_bitmap(&self.font, '?'),
            }
        };
        if let Some(glyph) = &looked_up {
            let gw = glyph.width as usize;
            let gh = glyph.height as usize;
            // top row of the glyph cell, aligning the glyph on the font's
            // baseline; kept in signed arithmetic so a glyph that reaches
            // above the surface is clipped instead of wrapping around
            let top: i128 = screen_y as i128 + self.line_height as i128 - gh as i128
                - glyph.y_offset as i128;
            let mut gy: usize = 0;
            while gy < gh
                invariant
                    buffer.width == old(buffer).width,
                    buffer.data@.len() == old(buffer).data@.len(),
                decreases gh - gy,
            {
                let mut gx: usize = 0;
                while gx < gw
                    invariant
                        buffer.width == old(buffer).width,
                        buffer.data@.len() == old(buffer).data@.len(),
                    decreases gw - gx,
                {
                    let idx = match gy.checked_mul(gw) {
                        Some(v) => v.checked_add(gx),
                        None => None,
                    };
                    if let Some(idx) = idx {
                        if idx < glyph.pixels.len() && glyph.pixels[idx] {
                            let py: i128 = top + gy as i128;
                            let px: i128 = screen_x as i128 + gx as i128;
                            if py >= 0 && px >= 0 && py <= usize::MAX as i128 && px
                                <= usize::MAX as i128 {
                                buffer.set_pixel(px as usize, py as usize, BLUE_LIGHT);
                            }
                        }
                    }
                    gx = gx + 1;
                }
                gy = gy + 1;
            }
        }
        self.glyph_width(character)
    }
}

/// A fixed-cell bitmap font: a sprite sheet of luminance pixels in which
/// every character occupies a cell of the same size, laid out left to right
/// in codepoint order starting at `first_char`.
#[derive(Clone)]
pub struct ImageFont {
    /// Row-major luminance pixels of the sprite sheet; a value above zero is
    /// a set glyph pixel.
    pub font_image: Vec<u8>,
    pub image_width: usize,
    pub image_height: usize,
    pub character_width: usize,
    pub character_height: usize,
    pub first_char: u8,
    pub last_char: u8,
    pub characters_per_row: usize,
    pub x_image_spacing: usize,
    pub y_image_spacing: usize,
    pub y_image_margin: usize,
    pub x_image_margin: usize,
}

impl ImageFont {
    /// The 5x7 old-school font: its sprite sheet layout and metrics, with
    /// the glyph pixels decoded from the given PNG bytes. Bytes that do not
    /// decode leave the sheet empty, so drawing paints nothing but all
    /// metrics still hold.
    pub fn oldschool(png_bytes: &[u8]) -> (r: ImageFont)
        ensures
            r.character_width == 5,
            r.character_height == 7,
            r.first_char == 32,
            r.last_char == 126,
            r.characters_per_row == 18,
    {
        let decoded = decode_luma(png_bytes);
        let img = match decoded {
            Some(t) => t,
            None => LumaImage { data: Vec::new(), width: 0, height: 0 },
        };
        let image_width = img.width;
        let image_height = img.height;
        let f = ImageFont {
            font_image: img.data,
            image_width,
            image_height,
            first_char: 32,  // ' '
            last_char: 126,  // '~'
            character_width: 5,
            character_height: 7,
            characters_per_row: 18,
            x_image_spacing: 2,
            y_image_spacing: 2,
            y_image_margin: 1,
            x_image_margin: 1,
        };
        f
    }

    /// The 5x8 monospaced font, decoded from the given PNG bytes in the same
    /// way as `oldschool`.
    pub fn mono_5_8(png_bytes: &[u8]) -> (r: ImageFont)
        ensures
            r.character_width == 4,
            r.character_height == 8,
            r.first_char == 33,
            r.last_char == 126,
            r.characters_per_row == 94,
    {
        let decoded = decode_luma(png_bytes);
        let img = match decoded {
            Some(t) => t,
            None => LumaImage { data: Vec::new(), width: 0, height: 0 },
        };
        let image_width = img.width;
        let image_height = img.height;
        let f = ImageFont {
            font_image: img.data,
            image_width,
            image_height,
            first_char: 33,  // '!'
            last_char: 126,  // '~'
            character_width: 4,
            character_height: 8,
            characters_per_row: 94,
            x_image_spacing: 2,
            y_image_spacing: 1,
            y_image_margin: 1,
            x_image_margin: 1,
        };
        f
    }

    /// The old-school metrics with an empty sprite sheet: layout computed
    /// with this font is identical to `oldschool`, only drawing paints
    /// nothing until real glyph pixels are supplied.
    pub fn oldschool_metrics() -> (r: ImageFont)
        ensures
            r.character_width == 5,
            r.character_height == 7,
            r.first_char == 32,
            r.last_char == 126,
            r.characters_per_row == 18,
    {
        let f = ImageFont {
            font_image: Vec::new(),
            image_width: 0,
            image_height: 0,
            first_char: 32,  // ' '
            last_char: 126,  // '~'
            character_width: 5,
            character_height: 7,
            characters_per_row: 18,
            x_image_spacing: 2,
            y_image_spacing: 2,
            y_image_margin: 1,
            x_image_margin: 1,
        };
        f
    }
}

impl Font for ImageFont {
    /// Every cell of a fixed-cell font has the same advance.
    open spec fn spec_glyph_width(&self, character: char) -> nat {
        self.character_width as nat
    }

    open spec fn spec_width(&self) -> nat {
        self.character_width as nat
    }

    open spec fn spec_height(&self) -> nat {
        self.character_height as nat
    }

    open spec fn spec_fallback(&self) -> char {
        '?'
    }

    fn glyph_width(&self, character: char) -> (r: usize) {
        self.character_width
    }

    fn width(&self) -> (r: usize) {
        self.character_width
    }

    fn height(&self) -> (r: usize) {
        self.character_height
    }

    fn fallback_character(&self) -> (r: char) {
        '?'
    }

    /// Copies the character's cell out of the sprite sheet, painting set
    /// pixels in the highlight color. A character outside the sheet's range
    /// is drawn as the substitute glyph; reads outside the sheet and writes
    /// outside the buffer are dropped.
    #[verifier::loop_isolation(false)]
    fn draw_character(
        &self,
        buffer: &mut Buffer,
        screen_x: usize,
        screen_y: usize,
        character: char,
    ) -> (advance: usize) {
        if character == ' ' {
            return self.character_width;
        }
        let code: u32 = character as u32;
        let code: u32 = if self.first_char as u32 <= code && code <= self.last_char as u32 {
            code
        } else {
            '?' as u32
        };
        if !(self.first_char as u32 <= code && code <= self.last_char as u32) {
            // the substitute glyph itself is not on the sheet
            return self.character_width;
        }
        if self.characters_per_row == 0 {
            return self.character_width;
        }
        let index = (code - self.first_char as u32) as usize;
        let sheet_col = index % self.characters_per_row;
        let sheet_row = index / self.characters_per_row;
        let cell_w = match self.character_width.checked_add(self.x_image_spacing) {
            Some(v) => v,
            None => return self.character_width,
        };
        let cell_h = match self.character_height.checked_add(self.y_image_spacing) {
            Some(v) => v,
            None => return self.character_width,
        };
        let img_x = match sheet_col.checked_mul(cell_w) {
            Some(v) => v,
            None => return self.character_width,
        };
        let img_y = match sheet_row.checked_mul(cell_h) {
            Some(v) => v,
            None => return self.character_width,
        };
        let mut j: usize = 0;
        while j < self.character_height
            invariant
                buffer.width == old(buffer).width,
                buffer.data@.len() == old(buffer).data@.len(),
            decreases self.character_height - j,
        {
            let mut i: usize = 0;
            while i < self.character_width
                invariant
                    buffer.width == old(buffer).width,
                    buffer.data@.len() == old(buffer).data@.len(),
                decreases self.character_width - i,
            {
                let col = match img_x.checked_add(i) {
                    Some(v) => v.checked_add(self.x_image_margin),
                    None => None,
                };
                let row = match img_y.checked_add(j) {
                    Some(v) => v.checked_add(self.y_image_margin),
                    None => None,
                };
                let luma: u8 = match (col, row) {
                    (Some(c), Some(r)) => {
                        if c < self.image_width && r < self.image_height {
                            let idx = match r.checked_mul(self.image_width) {
                                Some(v) => v.checked_add(c),
                                None => None,
                            };
                            match idx {
                                Some(idx) => {
                                    if idx < self.font_image.len() {
                                        self.font_image[idx]
                                    } else {
                                        0
                                    }
                                },
                                None => 0,
                            }
                        } else {
                            0
                        }
                    },
                    _ => 0,
                };
                if luma > 0 {
                    let px = match screen_x.checked_add(i) {
                        Some(v) => Some(v),
                        None => None,
                    };
                    let py = match screen_y.checked_add(j) {
                        Some(v) => Some(v),
                        None => None,
                    };
                    if let (Some(px), Some(py)) = (px, py) {
                        buffer.set_pixel(px, py, BLUE_LIGHT);
                    }
                }
                i = i + 1;
            }
            j = j + 1;
        }
        self.character_width
    }
}

/// A font of either kind, dispatching the capability to the variant.
#[derive(Clone)]
pub enum FontType {
    Image(ImageFont),
    Bdf(BdfFont),
}

impl Font for FontType {
    open spec fn spec_glyph_width(&self, character: char) -> nat {
        match self {
            FontType::Image(f) => f.spec_glyph_width(character),
            FontType::Bdf(f) => f.spec_glyph_width(character),
        }
    }

    open spec fn spec_width(&self) -> nat {
        match self {
            FontType::Image(f) => f.spec_width(),
            FontType::Bdf(f) => f.spec_width(),
        }
    }

    open spec fn spec_height(&self) -> nat {
        match self {
            FontType::Image(f) => f.spec_height(),
            FontType::Bdf(f) => f.spec_height(),
        }
    }

    open spec fn spec_fallback(&self) -> char {
        match self {
            FontType::Image(f) => f.spec_fallback(),
            FontType::Bdf(f) => f.spec_fallback(),
        }
    }

    fn draw_character(
        &self,
        buffer: &mut Buffer,
        screen_x: usize,
        screen_y: usize,
        character: char,
    ) -> (advance: usize) {
        match self {
            FontType::Image(f) => f.draw_character(buffer, screen_x, screen_y, character),
            FontType::Bdf(f) => f.draw_character(buffer, screen_x, screen_y, character),
        }
    }

    fn glyph_width(&self, character: char) -> (r: usize) {
        match self {
            FontType::Image(f) => f.glyph_width(character),
            FontType::Bdf(f) => f.glyph_width(character),
        }
    }

    fn width(&self) -> (r: usize) {
        match self {
            FontType::Image(f) => f.width(),
            FontType::Bdf(f) => f.width(),
        }
    }

    fn height(&self) -> (r: usize) {
        match self {
            FontType::Image(f) => f.height(),
            FontType::Bdf(f) => f.height(),
        }
    }

    fn fallback_character(&self) -> (r: char) {
        match self {
            FontType::Image(f) => f.fallback_character(),
            FontType::Bdf(f) => f.fallback_character(),
        }
    }
}

} // verus!
