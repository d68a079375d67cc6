//! Shelf packing of rasterized glyphs into one atlas canvas.
//!
//! Glyphs are placed left to right along a row; when a glyph would cross
//! the right edge the pen wraps to the left inset of the next row. The pen
//! path, and with it every placement, is fully determined by the glyph
//! dimensions and the packing parameters; `spec_pen` and `spec_pos` state
//! that path, and the packer's contract ties the produced records to it.

use vstd::prelude::*;
use crate::canvas::Canvas;
use crate::canvas::canvas_height;
use crate::canvas::canvas_width;
use crate::metrics::calculate_value;
use crate::types::Character;
use crate::types::FontError;
use crate::types::RawGlyph;

verus! {

/// Horizontal inset of the first glyph of every row, in pixels.
pub const LEFT_INSET: i32 = 10;

/// Extra pixels above the first row, added to the line height, so that
/// ascenders are not clipped at the top edge.
pub const TOP_EXTRA: i32 = 20;

/// Extra canvas height beyond the estimated rows, in pixels.
pub const VERTICAL_SLACK: i32 = 1000;

/// Canvas width used by `scaled`, in pixels.
pub const DEFAULT_CANVAS_WIDTH: i32 = 2000;

/// Horizontal padding between glyphs used by `scaled`, in pixels.
pub const DEFAULT_PAD_X: i32 = 12;

/// Vertical padding between rows used by `scaled`, in pixels.
pub const DEFAULT_PAD_Y: i32 = 20;

/// Largest accepted canvas width, line height, advance, glyph dimension
/// and bearing magnitude, in pixels. Keeps every pen coordinate inside
/// `i32`.
pub const MAX_DIMENSION: i32 = 100000;

/// Largest accepted padding, in pixels.
pub const MAX_PAD: i32 = 1000;

/// Largest accepted character-set size. Keeps the canvas height inside
/// `i32`.
pub const MAX_GLYPHS: usize = 10000;

/// The packing parameters: canvas width budget and the padding between
/// glyphs and between rows.
#[derive(Clone, Copy, PartialEq, Eq, Structural, Debug)]
pub struct PackConfig {
    /// Canvas width budget, in pixels.
    pub canvas_width: i32,
    /// Horizontal padding added after each glyph's advance, in pixels.
    pub pad_x: i32,
    /// Vertical padding added between rows, in pixels.
    pub pad_y: i32,
}

impl Default for PackConfig {
    /// The parameters `scaled` packs with.
    fn default() -> (r: PackConfig)
        ensures
            r.canvas_width == DEFAULT_CANVAS_WIDTH,
            r.pad_x == DEFAULT_PAD_X,
            r.pad_y == DEFAULT_PAD_Y,
    {
        PackConfig {
            canvas_width: DEFAULT_CANVAS_WIDTH,
            pad_x: DEFAULT_PAD_X,
            pad_y: DEFAULT_PAD_Y,
        }
    }
}

/// A glyph's advance in whole pixels: its 26.6 fixed-point advance,
/// rounded toward negative infinity.
pub open spec fn adv_px(g: RawGlyph) -> int {
    g.advance_x as int / 64
}

/// What the packer demands of one rasterized glyph: consistent bitmap
/// dimensions, a bitmap that fits a row of the canvas, and a bounded,
/// non-negative advance and top bearing.
pub open spec fn glyph_ok(g: RawGlyph, canvas_width: int) -> bool {
    &&& 0 <= g.width
    &&& 0 <= g.rows <= MAX_DIMENSION
    &&& g.width <= g.pitch
    &&& g.buffer@.len() == g.pitch * g.rows
    &&& LEFT_INSET + g.width <= canvas_width
    &&& 0 <= g.advance_x
    &&& 0 <= adv_px(g) <= canvas_width
    &&& -MAX_DIMENSION <= g.bearing_top <= MAX_DIMENSION
}

/// Every glyph of the sequence passes `glyph_ok`.
pub open spec fn glyphs_ok(glyphs: Seq<RawGlyph>, canvas_width: int) -> bool {
    forall|k: int| 0 <= k < glyphs.len() ==> glyph_ok(#[trigger] glyphs[k], canvas_width)
}

/// What the packer demands of its parameters: positive bounded canvas
/// width and line height, a positive maximal advance no wider than the
/// canvas, bounded non-negative padding, and a bounded glyph count.
pub open spec fn config_ok(cfg: PackConfig, line_h: int, max_adv: int, n: nat) -> bool {
    &&& 0 < cfg.canvas_width <= MAX_DIMENSION
    &&& 0 <= cfg.pad_x <= MAX_PAD
    &&& 0 <= cfg.pad_y <= MAX_PAD
    &&& 0 < line_h <= MAX_DIMENSION
    &&& 0 < max_adv <= cfg.canvas_width
    &&& n <= MAX_GLYPHS
    &&& canvas_fits(cfg, line_h, max_adv, n)
}

/// The canvas byte length (4 bytes per pixel) fits the machine's `usize`.
/// Kept opaque so its product only enters a proof where it is revealed.
#[verifier::opaque]
pub open spec fn canvas_fits(cfg: PackConfig, line_h: int, max_adv: int, n: nat) -> bool {
    4 * cfg.canvas_width * spec_canvas_height(n, line_h, max_adv, cfg.canvas_width as int)
        <= usize::MAX as int
}

/// The canvas height allocated for `n` glyphs: estimated rows (glyphs per
/// row bounded through the maximal advance) times the line height, plus
/// fixed slack.
pub open spec fn spec_canvas_height(n: nat, line_h: int, max_adv: int, canvas_width: int) -> int {
    (n as int / (canvas_width / max_adv) + 1) * line_h + VERTICAL_SLACK
}

/// The pen position before glyph `k` is placed. The pen starts at the
/// left inset, one line height plus `TOP_EXTRA` below the top edge, and
/// moves right by advance plus padding after each glyph; the row wrap
/// itself happens as part of placing a glyph (see `spec_pos`).
pub open spec fn spec_pen(glyphs: Seq<RawGlyph>, k: int, line_h: int, cfg: PackConfig) -> (
    int,
    int,
)
    decreases k, 0int,
{
    if k <= 0 {
        (LEFT_INSET as int, line_h + TOP_EXTRA)
    } else {
        let prev = spec_pos(glyphs, k - 1, line_h, cfg);
        (prev.0 + adv_px(glyphs[k - 1]) + cfg.pad_x, prev.1)
    }
}

/// The top-left corner at which glyph `k` is placed: the pen position,
/// wrapped to the left inset of the next row first when the glyph would
/// cross the right canvas edge.
pub open spec fn spec_pos(glyphs: Seq<RawGlyph>, k: int, line_h: int, cfg: PackConfig) -> (
    int,
    int,
)
    decreases k, 1int,
{
    let pen = spec_pen(glyphs, k, line_h, cfg);
    if pen.0 + glyphs[k].width > cfg.canvas_width {
        (LEFT_INSET as int, pen.1 + line_h + cfg.pad_y)
    } else {
        pen
    }
}

/// Every glyph's placement, together with its rows, stays above the
/// bottom canvas edge.
pub open spec fn spec_fits(glyphs: Seq<RawGlyph>, line_h: int, ch: int, cfg: PackConfig) -> bool {
    forall|k: int|
        0 <= k < glyphs.len() ==> #[trigger] spec_pos(glyphs, k, line_h, cfg).1 + glyphs[k].rows
            <= ch
}

/// All three demands the packer makes; it succeeds exactly on these
/// inputs.
pub open spec fn pack_ok(glyphs: Seq<RawGlyph>, line_h: int, max_adv: int, cfg: PackConfig) -> bool {
    &&& config_ok(cfg, line_h, max_adv, glyphs.len())
    &&& glyphs_ok(glyphs, cfg.canvas_width as int)
    &&& spec_fits(
        glyphs,
        line_h,
        spec_canvas_height(glyphs.len(), line_h, max_adv, cfg.canvas_width as int),
        cfg,
    )
}

/// The record the packer writes for glyph `g` of character `c` placed at
/// `pos`: the placement, the bitmap dimensions, the bearings (the vertical
/// offset is the top bearing minus the bitmap height), and the advance in
/// whole pixels.
pub open spec fn rec_matches(rec: Character, c: char, g: RawGlyph, pos: (int, int)) -> bool {
    &&& rec.id == c
    &&& rec.x == pos.0
    &&& rec.y == pos.1
    &&& rec.width == g.width
    &&& rec.height == g.rows
    &&& rec.x_offset == g.bearing_left
    &&& rec.y_offset == g.bearing_top - g.rows
    &&& rec.x_advance == adv_px(g)
}

/// The full statement of a packed table: one record per character in set
/// order, each matching its glyph and the pen path, and each inside the
/// canvas.
pub open spec fn packed_table(
    sf: ScaledFont,
    charset: Seq<char>,
    glyphs: Seq<RawGlyph>,
    line_h: int,
    max_adv: int,
    cfg: PackConfig,
) -> bool {
    &&& sf.chars@.len() == glyphs.len()
    &&& forall|k: int|
        0 <= k < glyphs.len() ==> rec_matches(
            #[trigger] sf.chars@[k],
            charset[k],
            glyphs[k],
            spec_pos(glyphs, k, line_h, cfg),
        )
    &&& forall|k: int|
        0 <= k < glyphs.len() ==> LEFT_INSET <= (#[trigger] sf.chars@[k]).x && sf.chars@[k].x
            + sf.chars@[k].width <= cfg.canvas_width && line_h + TOP_EXTRA <= sf.chars@[k].y
            && sf.chars@[k].y + sf.chars@[k].height <= canvas_height(sf.image) as int
}

/// The atlas for one pixel height: the canvas the glyph bitmaps were
/// written to and the placement records, one per character of the set the
/// atlas was packed from. Immutable once built.
pub struct ScaledFont {
    /// The pixel height the atlas was rasterized at.
    pub pixel_height: i32,
    /// The placement records, in character-set order.
    pub chars: Vec<Character>,
    /// The atlas canvas: opaque white, alpha = glyph coverage.
    pub image: Canvas,
}

impl ScaledFont {
    /// Every record's advance and height is non-negative and bounded;
    /// measurement arithmetic stays inside its integer types because of
    /// this.
    pub open spec fn wf(self) -> bool {
        forall|k: int|
            0 <= k < self.chars@.len() ==> 0 <= (#[trigger] self.chars@[k]).x_advance
                <= MAX_DIMENSION && 0 <= self.chars@[k].height <= MAX_DIMENSION
    }
}

/// Writes one glyph bitmap into the canvas at `(pen_x, pen_y)`: every
/// coverage byte becomes an opaque-white pixel whose alpha is that byte.
/// The placement must already be known to lie inside the canvas.
fn blit_glyph(image: &mut Canvas, g: &RawGlyph, pen_x: i32, pen_y: i32, cw: i32, ch: i32)
    requires
        glyph_ok(*g, cw as int),
        0 < cw <= MAX_DIMENSION,
        0 < ch < 0x80000000,
        canvas_width(*old(image)) == cw as u32,
        canvas_height(*old(image)) == ch as u32,
        0 <= pen_x,
        pen_x + g.width <= cw,
        0 <= pen_y,
        pen_y + g.rows <= ch,
    ensures
        canvas_width(*final(image)) == cw as u32,
        canvas_height(*final(image)) == ch as u32,
{
    let w = g.width;
    let h = g.rows;
    let mut dy: i32 = 0;
    while dy < h
        invariant
            0 <= dy <= h,
            h == g.rows,
            w == g.width,
            glyph_ok(*g, cw as int),
            0 <= pen_x,
            pen_x + w <= cw,
            0 <= pen_y,
            pen_y + h <= ch < 0x80000000,
            0 < cw <= MAX_DIMENSION,
            canvas_width(*image) == cw as u32,
            canvas_height(*image) == ch as u32,
        decreases h - dy,
    {
        let mut dx: i32 = 0;
        while dx < w
            invariant
                0 <= dy < h,
                0 <= dx <= w,
                h == g.rows,
                w == g.width,
                glyph_ok(*g, cw as int),
                0 <= pen_x,
                pen_x + w <= cw,
                0 <= pen_y,
                pen_y + h <= ch < 0x80000000,
                0 < cw <= MAX_DIMENSION,
                canvas_width(*image) == cw as u32,
                canvas_height(*image) == ch as u32,
            decreases w - dx,
        {
            let dyu: u64 = dy as u64;
            let dxu: u64 = dx as u64;
            let pu: u64 = g.pitch as u64;
            proof {
                assert(dyu * pu + dxu < g.pitch * g.rows && dyu * pu + dxu <= 300000000000000)
                    by (nonlinear_arith)
                    requires
                        dyu == dy as int,
                        dxu == dx as int,
                        pu == g.pitch as int,
                        0 <= dy < g.rows,
                        0 <= dx < g.width,
                        0 < g.width <= g.pitch <= 0x7fffffff,
                        0 < g.rows <= 100000,
                ;
                assert(g.buffer@.len() == g.pitch * g.rows);
            }
            let idx64: u64 = dyu * pu + dxu;
            let idx: usize = idx64 as usize;
            let a = g.buffer[idx];
            image.put((pen_x + dx) as u32, (pen_y + dy) as u32, 255, 255, 255, a);
            dx = dx + 1;
        }
        dy = dy + 1;
    }
}

/// Runs `glyph_ok` over the whole batch, answering exactly whether every
/// glyph passes.
fn check_glyphs(glyphs: &Vec<RawGlyph>, cw: i32) -> (r: bool)
    requires
        0 < cw <= MAX_DIMENSION,
    ensures
        r == glyphs_ok(glyphs@, cw as int),
{
    let n = glyphs.len();
    let mut i: usize = 0;
    while i < n
        invariant
            n == glyphs@.len(),
            i <= n,
            0 < cw <= MAX_DIMENSION,
            forall|j: int| 0 <= j < i ==> glyph_ok(#[trigger] glyphs@[j], cw as int),
        decreases n - i,
    {
        let g = &glyphs[i];
        if !(0 <= g.width && g.width <= g.pitch && 0 <= g.rows && g.rows <= MAX_DIMENSION
            && g.width <= cw - LEFT_INSET && 0 <= g.advance_x && -MAX_DIMENSION <= g.bearing_top
            && g.bearing_top <= MAX_DIMENSION) {
            return false;
        }
        let pu: u64 = g.pitch as u64;
        let ru: u64 = g.rows as u64;
        proof {
            assert(pu * ru == g.pitch * g.rows && pu * ru <= 300000000000000) by (nonlinear_arith)
                requires
                    pu == g.pitch as int,
                    ru == g.rows as int,
                    0 <= g.pitch <= 0x7fffffff,
                    0 <= g.rows <= 100000,
            ;
        }
        let expected: u64 = pu * ru;
        if g.buffer.len() as u64 != expected {
            return false;
        }
        let adv64 = calculate_value(g.advance_x);
        if !(0 <= adv64 && adv64 <= cw as i64) {
            return false;
        }
        proof {
            assert(glyph_ok(glyphs@[i as int], cw as int));
        }
        i = i + 1;
    }
    true
}

/// Walks the shelf path over already-validated glyphs, blitting each into
/// the canvas and collecting its record; stops with `AtlasOverflow` as
/// soon as a glyph would cross the bottom canvas edge.
#[verifier::rlimit(100)]
fn place_glyphs(
    charset: &Vec<char>,
    glyphs: &Vec<RawGlyph>,
    line_h: i32,
    max_adv: i32,
    ch: i32,
    cfg: PackConfig,
    canvas: Canvas,
) -> (r: Result<(Vec<Character>, Canvas), FontError>)
    requires
        charset@.len() == glyphs@.len(),
        config_ok(cfg, line_h as int, max_adv as int, glyphs@.len()),
        glyphs_ok(glyphs@, cfg.canvas_width as int),
        line_h + TOP_EXTRA <= ch <= 0x40000000,
        canvas_width(canvas) == cfg.canvas_width as u32,
        canvas_height(canvas) == ch as u32,
    ensures
        r.is_ok() <==> spec_fits(glyphs@, line_h as int, ch as int, cfg),
        match r {
            Ok(rc) => canvas_width(rc.1) == cfg.canvas_width as u32 && canvas_height(rc.1)
                == ch as u32 && rc.0@.len() == glyphs@.len() && (forall|k: int|
                0 <= k < glyphs@.len() ==> rec_matches(
                    #[trigger] rc.0@[k],
                    charset@[k],
                    glyphs@[k],
                    spec_pos(glyphs@, k, line_h as int, cfg),
                )) && (forall|k: int|
                0 <= k < glyphs@.len() ==> LEFT_INSET <= (#[trigger] rc.0@[k]).x && rc.0@[k].x
                    + rc.0@[k].width <= cfg.canvas_width && line_h + TOP_EXTRA <= rc.0@[k].y
                    && rc.0@[k].y + rc.0@[k].height <= ch),
            Err(e) => e == FontError::AtlasOverflow,
        },
{
    let mut image = canvas;
    let n: usize = glyphs.len();
    let mut records: Vec<Character> = Vec::new();
    let mut pen_x: i32 = LEFT_INSET;
    let mut pen_y: i32 = line_h + TOP_EXTRA;
    let mut k: usize = 0;
    while k < n
        invariant
            n == glyphs@.len(),
            charset@.len() == n,
            k <= n,
            config_ok(cfg, line_h as int, max_adv as int, glyphs@.len()),
            glyphs_ok(glyphs@, cfg.canvas_width as int),
            line_h + TOP_EXTRA <= ch <= 0x40000000,
            canvas_width(image) == cfg.canvas_width as u32,
            canvas_height(image) == ch as u32,
            (pen_x as int, pen_y as int) == spec_pen(glyphs@, k as int, line_h as int, cfg),
            LEFT_INSET <= pen_x <= 2 * MAX_DIMENSION + MAX_PAD,
            line_h + TOP_EXTRA <= pen_y,
            pen_y <= ch,
            records@.len() == k,
            forall|j: int|
                0 <= j < k ==> rec_matches(
                    #[trigger] records@[j],
                    charset@[j],
                    glyphs@[j],
                    spec_pos(glyphs@, j, line_h as int, cfg),
                ),
            forall|j: int|
                0 <= j < k ==> LEFT_INSET <= (#[trigger] records@[j]).x && records@[j].x
                    + records@[j].width <= cfg.canvas_width && line_h + TOP_EXTRA <= records@[j].y
                    && records@[j].y + records@[j].height <= ch,
        decreases n - k,
    {
        let g = glyph_at(glyphs, k);
        let c = char_at(charset, k);
        proof {
            assert(glyph_ok(glyphs@[k as int], cfg.canvas_width as int));
        }
        if pen_x + g.width > cfg.canvas_width {
            pen_y = pen_y + line_h + cfg.pad_y;
            pen_x = LEFT_INSET;
        }
        proof {
            assert((pen_x as int, pen_y as int) == spec_pos(glyphs@, k as int, line_h as int, cfg));
            assert(pen_x + g.width <= cfg.canvas_width);
        }
        if pen_y + g.rows > ch {
            proof {
                assert(spec_pos(glyphs@, k as int, line_h as int, cfg).1 + glyphs@[k as int].rows
                    > ch);
                assert(!spec_fits(glyphs@, line_h as int, ch as int, cfg));
            }
            return Err(FontError::AtlasOverflow);
        }
        if c != ' ' {
            blit_glyph(&mut image, g, pen_x, pen_y, cfg.canvas_width, ch);
        }
        let adv64 = calculate_value(g.advance_x);
        let adv: i32 = adv64 as i32;
        let rec = Character {
            id: c,
            x: pen_x,
            y: pen_y,
            width: g.width,
            height: g.rows,
            x_offset: g.bearing_left,
            y_offset: g.bearing_top - g.rows,
            x_advance: adv,
        };
        records.push(rec);
        pen_x = pen_x + adv + cfg.pad_x;
        k = k + 1;
    }
    proof {
        assert forall|j: int| 0 <= j < glyphs@.len() implies #[trigger] spec_pos(
            glyphs@,
            j,
            line_h as int,
            cfg,
        ).1 + glyphs@[j].rows <= ch by {
            assert(rec_matches(
                records@[j],
                charset@[j],
                glyphs@[j],
                spec_pos(glyphs@, j, line_h as int, cfg),
            ));
            assert(records@[j].y + records@[j].height <= ch);
        }
        assert(spec_fits(glyphs@, line_h as int, ch as int, cfg));
    }
    Ok((records, image))
}

/// Reads one character of the set.
pub(crate) fn char_at(v: &Vec<char>, i: usize) -> (c: char)
    requires
        i < v@.len(),
    ensures
        c == v@[i as int],
{
    v[i]
}

/// Borrows one rasterized glyph of the batch.
pub(crate) fn glyph_at<'a>(v: &'a Vec<RawGlyph>, i: usize) -> (g: &'a RawGlyph)
    requires
        i < v@.len(),
    ensures
        *g == v@[i as int],
{
    &v[i]
}

/// Packs rasterized glyphs into a fresh atlas.
///
/// `glyphs[k]` must be the rasterization of `charset[k]`. The canvas is
/// sized from the estimated row count, every glyph is validated, placed on
/// the shelf path stated by `spec_pos`, and blitted as opaque white with
/// the coverage byte as alpha — except the space character, which gets a
/// record but no pixels. Unusable parameters, malformed glyphs and a
/// canvas overrun each abort the whole pack with their own error.
#[verifier::rlimit(100)]
pub fn pack_glyphs(
    charset: &Vec<char>,
    glyphs: &Vec<RawGlyph>,
    pixel_height: i32,
    line_height_fixed: i64,
    max_advance_fixed: i64,
    cfg: PackConfig,
) -> (r: Result<ScaledFont, FontError>)
    requires
        charset@.len() == glyphs@.len(),
    ensures
        r == Err::<ScaledFont, FontError>(FontError::InvalidConfiguration) <==> !config_ok(
            cfg,
            line_height_fixed as int / 64,
            max_advance_fixed as int / 64,
            glyphs@.len(),
        ),
        r == Err::<ScaledFont, FontError>(FontError::GlyphRasterizationFailure) <==> config_ok(
            cfg,
            line_height_fixed as int / 64,
            max_advance_fixed as int / 64,
            glyphs@.len(),
        ) && !glyphs_ok(glyphs@, cfg.canvas_width as int),
        r == Err::<ScaledFont, FontError>(FontError::AtlasOverflow) <==> config_ok(
            cfg,
            line_height_fixed as int / 64,
            max_advance_fixed as int / 64,
            glyphs@.len(),
        ) && glyphs_ok(glyphs@, cfg.canvas_width as int) && !spec_fits(
            glyphs@,
            line_height_fixed as int / 64,
            spec_canvas_height(
                glyphs@.len(),
                line_height_fixed as int / 64,
                max_advance_fixed as int / 64,
                cfg.canvas_width as int,
            ),
            cfg,
        ),
        r.is_ok() <==> pack_ok(
            glyphs@,
            line_height_fixed as int / 64,
            max_advance_fixed as int / 64,
            cfg,
        ),
        match r {
            Ok(sf) => packed_table(
                sf,
                charset@,
                glyphs@,
                line_height_fixed as int / 64,
                max_advance_fixed as int / 64,
                cfg,
            ) && sf.pixel_height == pixel_height && sf.wf() && canvas_width(sf.image)
                == cfg.canvas_width as u32 && canvas_height(sf.image) == spec_canvas_height(
                glyphs@.len(),
                line_height_fixed as int / 64,
                max_advance_fixed as int / 64,
                cfg.canvas_width as int,
            ) as u32,
            Err(_) => true,
        },
{
    let n: usize = charset.len();
    if line_height_fixed < 64 || max_advance_fixed < 64 {
        return Err(FontError::InvalidConfiguration);
    }
    let line_h64 = calculate_value(line_height_fixed);
    let max_adv64 = calculate_value(max_advance_fixed);
    if line_h64 > MAX_DIMENSION as i64 {
        return Err(FontError::InvalidConfiguration);
    }
    if !(0 < cfg.canvas_width && cfg.canvas_width <= MAX_DIMENSION) {
        return Err(FontError::InvalidConfiguration);
    }
    if max_adv64 > cfg.canvas_width as i64 {
        return Err(FontError::InvalidConfiguration);
    }
    if !(0 <= cfg.pad_x && cfg.pad_x <= MAX_PAD && 0 <= cfg.pad_y && cfg.pad_y <= MAX_PAD) {
        return Err(FontError::InvalidConfiguration);
    }
    if n > MAX_GLYPHS {
        return Err(FontError::InvalidConfiguration);
    }
    let line_h: i32 = line_h64 as i32;
    let max_adv: i32 = max_adv64 as i32;
    let n_i: i32 = n as i32;
    let per_w: i32 = cfg.canvas_width / max_adv;
    proof {
        vstd::arithmetic::div_mod::lemma_div_non_zero(cfg.canvas_width as int, max_adv as int);
        assert(1 <= per_w);
        vstd::arithmetic::div_mod::lemma_div_nonincreasing(n_i as int, per_w as int);
        assert(n_i as int / per_w as int <= n_i);
    }
    let rows_est: i32 = n_i / per_w + 1;
    proof {
        assert(line_h <= rows_est * line_h <= 1000100000) by (nonlinear_arith)
            requires
                1 <= rows_est <= MAX_GLYPHS + 1,
                0 < line_h <= MAX_DIMENSION,
        ;
    }
    let ch: i32 = rows_est * line_h + VERTICAL_SLACK;
    let cw64: u64 = cfg.canvas_width as u64;
    let ch64: u64 = ch as u64;
    proof {
        assert(4 * cw64 * ch64 == 4 * (cfg.canvas_width as int) * (ch as int) && 4 * cw64 * ch64
            <= 1000000000000000000) by (nonlinear_arith)
            requires
                cw64 == cfg.canvas_width as int,
                ch64 == ch as int,
                0 < cfg.canvas_width <= MAX_DIMENSION,
                0 < ch < 0x80000000,
        ;
    }
    let need: u64 = 4 * cw64 * ch64;
    proof {
        reveal(canvas_fits);
        assert(ch as int == spec_canvas_height(
            n as nat,
            line_h as int,
            max_adv as int,
            cfg.canvas_width as int,
        ));
    }
    if need > usize::MAX as u64 {
        return Err(FontError::InvalidConfiguration);
    }
    proof {
        assert(config_ok(cfg, line_h as int, max_adv as int, glyphs@.len()));
    }
    if !check_glyphs(glyphs, cfg.canvas_width) {
        return Err(FontError::GlyphRasterizationFailure);
    }
    let cw_u: u32 = cfg.canvas_width as u32;
    let ch_u: u32 = ch as u32;
    proof {
        assert(4 * (cw_u as int) * (ch_u as int) == 4 * cw64 * ch64) by (nonlinear_arith)
            requires
                cw_u as int == cfg.canvas_width as int,
                ch_u as int == ch as int,
                cw64 == cfg.canvas_width as int,
                ch64 == ch as int,
        ;
    }
    proof {
        assert(ch <= 0x40000000);
    }
    let image = Canvas::new(cw_u, ch_u);
    match place_glyphs(charset, glyphs, line_h, max_adv, ch, cfg, image) {
        Ok(rc) => {
            let (records, canvas) = rc;
            let sf = ScaledFont { pixel_height, chars: records, image: canvas };
            proof {
                assert forall|j: int|
                    0 <= j < glyphs@.len() implies 0 <= (#[trigger] sf.chars@[j]).x_advance
                    <= MAX_DIMENSION && 0 <= sf.chars@[j].height <= MAX_DIMENSION by {
                    assert(rec_matches(
                        sf.chars@[j],
                        charset@[j],
                        glyphs@[j],
                        spec_pos(glyphs@, j, line_h as int, cfg),
                    ));
                    assert(glyph_ok(glyphs@[j], cfg.canvas_width as int));
                }
                assert(packed_table(sf, charset@, glyphs@, line_h as int, max_adv as int, cfg));
                assert(sf.wf());
            }
            Ok(sf)
        },
        Err(_) => Err(FontError::AtlasOverflow),
    }
}

/// One placement step of the shelf path: the next glyph sits either on
/// the same row, exactly one advance plus padding to the right, or at
/// the left inset of a row exactly one line height plus padding lower.
/// Row transitions therefore raise `y` by at least the line height.
pub proof fn lemma_pos_step(glyphs: Seq<RawGlyph>, k: int, line_h: int, cfg: PackConfig)
    requires
        0 <= k,
        k + 1 < glyphs.len(),
        glyphs_ok(glyphs, cfg.canvas_width as int),
        0 < line_h,
        0 <= cfg.pad_y,
    ensures
        spec_pos(glyphs, k + 1, line_h, cfg).1 == spec_pos(glyphs, k, line_h, cfg).1
            || spec_pos(glyphs, k + 1, line_h, cfg).1 == spec_pos(glyphs, k, line_h, cfg).1
            + line_h + cfg.pad_y,
        spec_pos(glyphs, k + 1, line_h, cfg).1 == spec_pos(glyphs, k, line_h, cfg).1
            ==> spec_pos(glyphs, k + 1, line_h, cfg).0 == spec_pos(glyphs, k, line_h, cfg).0
            + adv_px(glyphs[k]) + cfg.pad_x,
{
    assert(glyph_ok(glyphs[k], cfg.canvas_width as int));
    assert(glyph_ok(glyphs[k + 1], cfg.canvas_width as int));
}

/// Along the shelf path the row coordinate never decreases.
pub proof fn lemma_pos_y_monotone(glyphs: Seq<RawGlyph>, i: int, j: int, line_h: int, cfg: PackConfig)
    requires
        0 <= i <= j,
        j < glyphs.len(),
        glyphs_ok(glyphs, cfg.canvas_width as int),
        0 < line_h,
        0 <= cfg.pad_y,
    ensures
        spec_pos(glyphs, i, line_h, cfg).1 <= spec_pos(glyphs, j, line_h, cfg).1,
    decreases j - i,
{
    if i < j {
        lemma_pos_y_monotone(glyphs, i, j - 1, line_h, cfg);
        lemma_pos_step(glyphs, j - 1, line_h, cfg);
    }
}

/// Two glyphs placed on the same row do not overlap: when every glyph
/// between them is no wider than its advance plus the horizontal
/// padding, the earlier one ends at or before where the later one
/// starts, so their `[x, x + width)` spans are disjoint.
pub proof fn lemma_same_row_disjoint(
    glyphs: Seq<RawGlyph>,
    i: int,
    j: int,
    line_h: int,
    cfg: PackConfig,
)
    requires
        0 <= i < j < glyphs.len(),
        glyphs_ok(glyphs, cfg.canvas_width as int),
        0 < line_h,
        0 <= cfg.pad_x,
        0 <= cfg.pad_y,
        forall|k: int|
            i <= k < j ==> (#[trigger] glyphs[k]).width <= adv_px(glyphs[k]) + cfg.pad_x,
        spec_pos(glyphs, i, line_h, cfg).1 == spec_pos(glyphs, j, line_h, cfg).1,
    ensures
        spec_pos(glyphs, i, line_h, cfg).0 + glyphs[i].width <= spec_pos(glyphs, j, line_h, cfg).0,
    decreases j - i,
{
    assert(glyph_ok(glyphs[i], cfg.canvas_width as int));
    if j == i + 1 {
        lemma_pos_step(glyphs, i, line_h, cfg);
    } else {
        lemma_pos_y_monotone(glyphs, i, j - 1, line_h, cfg);
        lemma_pos_step(glyphs, j - 1, line_h, cfg);
        assert(spec_pos(glyphs, j - 1, line_h, cfg).1 == spec_pos(glyphs, i, line_h, cfg).1);
        lemma_same_row_disjoint(glyphs, i, j - 1, line_h, cfg);
        assert(glyph_ok(glyphs[j - 1], cfg.canvas_width as int));
    }
}

/// For a fixed canvas width, line height and maximal advance, the
/// allocated canvas height never shrinks as the character set grows.
pub proof fn lemma_canvas_height_monotone(
    n1: nat,
    n2: nat,
    line_h: int,
    max_adv: int,
    canvas_width: int,
)
    requires
        n1 <= n2,
        0 < line_h,
        0 < max_adv <= canvas_width,
    ensures
        spec_canvas_height(n1, line_h, max_adv, canvas_width) <= spec_canvas_height(
            n2,
            line_h,
            max_adv,
            canvas_width,
        ),
{
    vstd::arithmetic::div_mod::lemma_div_non_zero(canvas_width, max_adv);
    vstd::arithmetic::div_mod::lemma_div_is_ordered(n1 as int, n2 as int, canvas_width / max_adv);
    vstd::arithmetic::mul::lemma_mul_inequality(
        n1 as int / (canvas_width / max_adv) + 1,
        n2 as int / (canvas_width / max_adv) + 1,
        line_h,
    );
}

} // verus!
