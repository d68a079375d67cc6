//! Bitmap font atlas construction and text measurement.
//!
//! A fixed character set is rasterized through FreeType at a chosen pixel
//! height, the glyph bitmaps are packed into one RGBA coverage-mask atlas by
//! row (shelf) packing, and a table of per-glyph placement records is kept.
//! The table answers width/height measurements and "how many characters fit
//! in this pixel budget" queries.

mod canvas;
mod font;
mod measure;
mod pack;
mod raster;
mod types;
mod metrics;

pub use types::Character;
pub use types::FontError;
pub use types::RawGlyph;
pub use metrics::calculate_value;
pub use canvas::Canvas;
pub use canvas::canvas_width;
pub use canvas::canvas_height;
pub use canvas::canvas_pixels;
pub use raster::BaseFont;
pub use raster::FontFace;
pub use raster::FontLoader;
pub use raster::LibraryHandle;
pub use pack::PackConfig;
pub use pack::ScaledFont;
pub use pack::pack_glyphs;
pub use pack::pack_ok;
pub use pack::packed_table;
pub use pack::rec_matches;
pub use pack::canvas_fits;
pub use font::default_charset;
pub use font::default_charset_view;
pub use measure::WHITESPACE_WIDTH;
pub use measure::MAX_TEXT_LEN;
pub use measure::char_width;
pub use measure::covers_seq;
pub use measure::covers_text;
pub use measure::height_sum;
pub use measure::is_text_whitespace;
pub use measure::lemma_find_unique;
pub use measure::lemma_find_none;
pub use measure::lemma_packed_lookup;
pub use measure::lemma_find_from_mem;
pub use measure::lemma_text_width_monotone;
pub use measure::lemma_fit_threshold;
pub use measure::lemma_uniform_height;
pub use pack::lemma_pos_step;
pub use pack::lemma_pos_y_monotone;
pub use pack::lemma_same_row_disjoint;
pub use pack::lemma_canvas_height_monotone;
pub use measure::lemma_height_sum_bounds;
pub use measure::lemma_seq_width_bounds;
pub use measure::lemma_text_width_bounds;
pub use measure::nonws_count;
pub use measure::seq_char_width;
pub use measure::seq_width;
pub use measure::spec_find;
pub use measure::spec_find_from;
pub use measure::spec_is_ws;
pub use measure::text_width;
pub use pack::adv_px;
pub use pack::config_ok;
pub use pack::glyph_ok;
pub use pack::glyphs_ok;
pub use pack::spec_canvas_height;
pub use pack::spec_fits;
pub use pack::spec_pen;
pub use pack::spec_pos;
pub use pack::LEFT_INSET;
pub use pack::TOP_EXTRA;
pub use pack::VERTICAL_SLACK;
pub use pack::DEFAULT_CANVAS_WIDTH;
pub use pack::DEFAULT_PAD_X;
pub use pack::DEFAULT_PAD_Y;
pub use pack::MAX_DIMENSION;
pub use pack::MAX_PAD;
pub use pack::MAX_GLYPHS;
