//! Scaling a loaded face into an atlas: the driver that rasterizes the
//! character set through FreeType and hands the results to the packer.

use vstd::prelude::*;
use crate::pack::char_at;
use crate::pack::pack_glyphs;
use crate::pack::PackConfig;
use crate::pack::ScaledFont;
use crate::raster::BaseFont;
use crate::raster::ft_rasterize;
use crate::raster::ft_set_pixel_sizes;
use crate::raster::ft_size_metrics;
use crate::types::FontError;
use crate::types::RawGlyph;

verus! {

/// The built-in character set: digits, Latin letters, punctuation and
/// symbols, a few accented letters, and a trailing space.
pub open spec fn default_charset_view() -> Seq<char> {
    "0123456789abcdefghijklmnopqrstuvwxyzABCDEFGHIJKLMNOPQRSTUVWXYZ!№;%:?*()_+-=.,/|\"'@#$^&{}[]üäöß "@
}

/// Builds the built-in character set as a vector, in set order.
pub fn default_charset() -> (r: Vec<char>)
    ensures
        r@ == default_charset_view(),
{
    let s = "0123456789abcdefghijklmnopqrstuvwxyzABCDEFGHIJKLMNOPQRSTUVWXYZ!№;%:?*()_+-=.,/|\"'@#$^&{}[]üäöß ";
    let n = s.unicode_len();
    let mut out: Vec<char> = Vec::new();
    let mut i: usize = 0;
    while i < n
        invariant
            n == s@.len(),
            i <= n,
            out@ == s@.take(i as int),
        decreases n - i,
    {
        let c = s.get_char(i);
        out.push(c);
        proof {
            assert(s@.take(i + 1 as int) =~= s@.take(i as int).push(s@[i as int]));
        }
        i = i + 1;
    }
    proof {
        assert(s@.take(n as int) =~= s@);
    }
    out
}

impl BaseFont {
    /// Rasterizes every character of the given set at `pixel_height` and
    /// packs the glyphs into an atlas with the given parameters. Sizing or
    /// rasterization failures and malformed glyph data end the whole pack
    /// with `GlyphRasterizationFailure`; see `pack_glyphs` for the other
    /// errors.
    pub fn scaled_with(&self, pixel_height: i32, charset: &Vec<char>, cfg: PackConfig) -> (r:
        Result<ScaledFont, FontError>)
        ensures
            match r {
                Ok(sf) => sf.wf() && sf.pixel_height == pixel_height && sf.chars@.len()
                    == charset@.len() && (forall|k: int|
                    0 <= k < charset@.len() ==> (#[trigger] sf.chars@[k]).id == charset@[k]),
                Err(e) => e == FontError::GlyphRasterizationFailure || e
                    == FontError::InvalidConfiguration || e == FontError::AtlasOverflow,
            },
    {
        if !ft_set_pixel_sizes(&self.face, pixel_height as u32) {
            return Err(FontError::GlyphRasterizationFailure);
        }
        let metrics = ft_size_metrics(&self.face);
        let (line_height_fixed, max_advance_fixed): (i64, i64) = match metrics {
            Some(m) => m,
            None => {
                return Err(FontError::GlyphRasterizationFailure);
            },
        };
        let n = charset.len();
        let mut glyphs: Vec<RawGlyph> = Vec::new();
        let mut i: usize = 0;
        while i < n
            invariant
                n == charset@.len(),
                i <= n,
                glyphs@.len() == i,
            decreases n - i,
        {
            let c = char_at(charset, i);
            match ft_rasterize(&self.face, c) {
                Some(g) => {
                    glyphs.push(g);
                },
                None => {
                    return Err(FontError::GlyphRasterizationFailure);
                },
            }
            i = i + 1;
        }
        pack_glyphs(charset, &glyphs, pixel_height, line_height_fixed, max_advance_fixed, cfg)
    }

    /// Packs the built-in character set with the default parameters.
    pub fn scaled(&self, pixel_height: i32) -> (r: Result<ScaledFont, FontError>)
        ensures
            match r {
                Ok(sf) => sf.wf() && sf.pixel_height == pixel_height && sf.chars@.len()
                    == default_charset_view().len() && (forall|k: int|
                    0 <= k < default_charset_view().len() ==> (#[trigger] sf.chars@[k]).id
                        == default_charset_view()[k]),
                Err(e) => e == FontError::GlyphRasterizationFailure || e
                    == FontError::InvalidConfiguration || e == FontError::AtlasOverflow,
            },
    {
        let charset = default_charset();
        self.scaled_with(pixel_height, &charset, PackConfig::default())
    }
}

} // verus!
