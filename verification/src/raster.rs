//! The vector-font rasterizer: FreeType, held behind a small trusted
//! interface.
//!
//! What a face reports — metrics, bitmaps, bearings, advances — depends on
//! the font bytes it was opened from, so nothing value-specific is promised
//! of these calls; the packer validates every value before using it.

use vstd::prelude::*;
use crate::types::FontError;
use crate::types::RawGlyph;

verus! {

/// A FreeType library instance. Opaque to the verifier.
#[verifier::external_body]
pub struct LibraryHandle {
    lib: freetype::Library,
}

/// A loaded font face. Opaque to the verifier. The face carries a mutable
/// glyph slot that every rasterization call overwrites, so one face must
/// not serve two packing passes at once; holding it exclusively inside a
/// `BaseFont` enforces that.
#[verifier::external_body]
pub struct FontFace {
    face: freetype::Face,
}

/// Relies on `freetype::Library::init`: a fresh library instance, or an
/// error this crate maps to `None`.
#[verifier::external_body]
pub(crate) fn ft_library_init() -> (r: Option<LibraryHandle>) {
    match freetype::Library::init() {
        Ok(lib) => Some(LibraryHandle { lib }),
        Err(_) => None,
    }
}

/// Relies on `freetype::Library::new_memory_face`: opens a face from font
/// bytes in memory; failure is mapped to `None`.
#[verifier::external_body]
pub(crate) fn ft_new_memory_face(lib: &LibraryHandle, data: Vec<u8>) -> (r: Option<FontFace>) {
    match lib.lib.new_memory_face(data, 0) {
        Ok(face) => Some(FontFace { face }),
        Err(_) => None,
    }
}

/// Relies on `freetype::Face::set_pixel_sizes`: sets the rasterization
/// size to 0 x `pixel_height` (square pixels); reports success.
#[verifier::external_body]
pub(crate) fn ft_set_pixel_sizes(face: &FontFace, pixel_height: u32) -> (r: bool) {
    face.face.set_pixel_sizes(0, pixel_height).is_ok()
}

/// Relies on `freetype::Face::size_metrics`: the 26.6 fixed-point line
/// height and maximal advance width of the face at its current size.
#[verifier::external_body]
pub(crate) fn ft_size_metrics(face: &FontFace) -> (r: Option<(i64, i64)>) {
    face.face.size_metrics().map(|m| (m.height, m.max_advance))
}

/// Relies on `freetype::Face::load_char` with `LoadFlag::RENDER` and the
/// glyph-slot accessors `bitmap` (with `width`, `rows`, `pitch`, `buffer`),
/// `bitmap_left`, `bitmap_top` and `advance`: rasterizes one character at
/// the current size and copies the slot's bitmap and metrics out.
#[verifier::external_body]
pub(crate) fn ft_rasterize(face: &FontFace, c: char) -> (r: Option<RawGlyph>) {
    if face.face.load_char(c as usize, freetype::face::LoadFlag::RENDER).is_err() {
        return None;
    }
    let slot = face.face.glyph();
    let bitmap = slot.bitmap();
    Some(RawGlyph {
        width: bitmap.width(),
        rows: bitmap.rows(),
        pitch: bitmap.pitch(),
        buffer: bitmap.buffer().to_vec(),
        bearing_left: slot.bitmap_left(),
        bearing_top: slot.bitmap_top(),
        advance_x: slot.advance().x,
    })
}

/// Owner of the rasterizer library; fonts are opened through it.
pub struct FontLoader {
    pub lib: LibraryHandle,
}

/// A font opened from memory, ready to be scaled and packed into an atlas.
pub struct BaseFont {
    pub name: String,
    pub face: FontFace,
}

impl FontLoader {
    /// Starts the rasterizer. `None` when the FreeType library cannot be
    /// initialized.
    pub fn new() -> (r: Option<FontLoader>) {
        match ft_library_init() {
            Some(lib) => Some(FontLoader { lib }),
            None => None,
        }
    }

    /// Opens a font face from font-file bytes under the given name.
    pub fn load_font(&self, name: &str, font_data: Vec<u8>) -> (r: Result<BaseFont, FontError>)
        ensures
            match r {
                Ok(f) => f.name@ == name@,
                Err(e) => e == FontError::FontLoadFailure,
            },
    {
        match ft_new_memory_face(&self.lib, font_data) {
            Some(face) => Ok(BaseFont { name: String::from_str(name), face }),
            None => Err(FontError::FontLoadFailure),
        }
    }
}

} // verus!
