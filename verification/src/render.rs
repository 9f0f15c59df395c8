//! Quantization of mel bands into a fixed glyph catalog.
//!
//! Band energies are consumed two at a time, in band order (an odd trailing
//! band is dropped); each is mapped through
//! `level = clamp(floor(scale * (value + offset)), 0, max_level)` with a
//! rational scale, and the pair of levels indexes the catalog. The scale,
//! offset and maximum level are calibration constants fixed at
//! construction; rendering is a deterministic, stateless function of the
//! frame and those constants.

use vstd::prelude::*;

verus! {

use vstd::arithmetic::div_mod::lemma_div_pos_is_pos;
use crate::error::ConfigError;
use crate::mel::MelFrame;

/// The quantization level of one band energy `v` under a rational scale
/// `scale_num / scale_den`, an offset, and a clamp at `max_level`.
pub open spec fn level_spec(
    scale_num: int,
    scale_den: int,
    offset: int,
    max_level: int,
    v: int,
) -> int {
    let scaled = scale_num * (v + offset);
    if scaled <= 0 {
        0
    } else if scaled / scale_den > max_level {
        max_level
    } else {
        scaled / scale_den
    }
}

/// Quantization levels always land in `[0, max_level]`, whatever the input
/// magnitude.
pub proof fn law_levels_clamped(scale_num: int, scale_den: int, offset: int, max_level: int, v: int)
    requires
        scale_num >= 0,
        scale_den >= 1,
        max_level >= 0,
    ensures
        0 <= level_spec(scale_num, scale_den, offset, max_level, v) <= max_level,
{
    let scaled = scale_num * (v + offset);
    if scaled > 0 {
        lemma_div_pos_is_pos(scaled, scale_den);
    }
}

/// Renders mel frames as glyph lines from a fixed catalog.
pub struct GlyphRenderer {
    scale_num: i64,
    scale_den: i64,
    offset: i64,
    max_level: usize,
    grid: Vec<Vec<char>>,
}

impl GlyphRenderer {
    /// Numerator of the calibration scale.
    pub closed spec fn scale_num(self) -> int {
        self.scale_num as int
    }

    /// Denominator of the calibration scale.
    pub closed spec fn scale_den(self) -> int {
        self.scale_den as int
    }

    /// Calibration offset added to each band energy before scaling.
    pub closed spec fn offset(self) -> int {
        self.offset as int
    }

    /// Largest quantization level; the catalog is square with side
    /// `max_level + 1`.
    pub closed spec fn max_level(self) -> int {
        self.max_level as int
    }

    /// The glyph catalog, indexed by (first level, second level).
    pub closed spec fn grid_view(self) -> Seq<Seq<char>> {
        self.grid@.map_values(|row: Vec<char>| row@)
    }

    /// Calibration constants in range and a square catalog of matching
    /// side.
    pub open spec fn wf(self) -> bool {
        &&& 0 <= self.scale_num() <= 1_000_000
        &&& 1 <= self.scale_den() <= 1_000_000_000
        &&& -1_000_000_000_000 <= self.offset() <= 1_000_000_000_000
        &&& self.max_level() <= 255
        &&& self.grid_view().len() == self.max_level() + 1
        &&& forall|i: int|
            0 <= i < self.grid_view().len() ==> (#[trigger] self.grid_view()[i]).len()
                == self.max_level() + 1
    }

    /// The quantization level of `v` under this renderer's calibration.
    pub open spec fn level_of(self, v: int) -> int {
        level_spec(self.scale_num(), self.scale_den(), self.offset(), self.max_level(), v)
    }

    /// The glyph selected by one pair of band energies.
    pub open spec fn glyph_of(self, v1: int, v2: int) -> char {
        self.grid_view()[self.level_of(v1)][self.level_of(v2)]
    }

    /// The glyph line rendered from a sequence of band energies: one glyph
    /// per pair of bands, an odd trailing band dropped.
    pub open spec fn render_spec(self, bands: Seq<i64>) -> Seq<char> {
        Seq::new(
            (bands.len() / 2) as nat,
            |i: int| self.glyph_of(bands[2 * i] as int, bands[2 * i + 1] as int),
        )
    }

    /// Validates calibration constants and a glyph catalog; the catalog
    /// must be square with side `max_level + 1`.
    pub fn new(
        scale_num: i64,
        scale_den: i64,
        offset: i64,
        max_level: usize,
        grid: Vec<Vec<char>>,
    ) -> (r: Result<GlyphRenderer, ConfigError>)
        ensures
            r matches Ok(g) ==> g.wf() && g.scale_num() == scale_num && g.scale_den() == scale_den
                && g.offset() == offset && g.max_level() == max_level && g.grid_view()
                == grid@.map_values(|row: Vec<char>| row@),
            r is Err ==> !(0 <= scale_num <= 1_000_000 && 1 <= scale_den <= 1_000_000_000
                && -1_000_000_000_000 <= offset <= 1_000_000_000_000 && max_level <= 255
                && grid@.len() == max_level + 1 && (forall|i: int|
                0 <= i < grid@.len() ==> (#[trigger] grid@[i])@.len() == max_level + 1)),
    {
        if !(0 <= scale_num && scale_num <= 1_000_000) {
            return Err(ConfigError::BadShape);
        }
        if !(1 <= scale_den && scale_den <= 1_000_000_000) {
            return Err(ConfigError::BadShape);
        }
        if !(-1_000_000_000_000 <= offset && offset <= 1_000_000_000_000) {
            return Err(ConfigError::BadShape);
        }
        if max_level > 255 {
            return Err(ConfigError::BadShape);
        }
        if grid.len() != max_level + 1 {
            return Err(ConfigError::BadShape);
        }
        let mut i: usize = 0;
        let n: usize = grid.len();
        while i < n
            invariant
                0 <= i <= n == grid@.len(),
                forall|j: int| 0 <= j < i ==> (#[trigger] grid@[j])@.len() == n,
            decreases n - i,
        {
            if grid[i].len() != n {
                return Err(ConfigError::BadShape);
            }
            i = i + 1;
        }
        let g = GlyphRenderer { scale_num, scale_den, offset, max_level, grid };
        proof {
            assert forall|j: int|
                0 <= j < g.grid_view().len() implies (#[trigger] g.grid_view()[j]).len()
                == g.max_level() + 1 by {
                assert(g.grid_view()[j] == g.grid@[j]@);
            }
        }
        Ok(g)
    }

    /// Largest quantization level.
    pub fn top_level(&self) -> (n: usize)
        ensures
            n == self.max_level(),
    {
        self.max_level
    }

    /// Quantizes one band energy into a catalog level.
    pub fn quantize_level(&self, v: i64) -> (lvl: usize)
        requires
            self.wf(),
        ensures
            lvl == self.level_of(v as int),
            0 <= lvl <= self.max_level(),
    {
        let shifted: i128 = (v as i128) + (self.offset as i128);
        proof {
            assert(-0x8000_0000_0000_0000i128 - 1_000_000_000_000i128 <= shifted
                <= 0x8000_0000_0000_0000i128 + 1_000_000_000_000i128);
            assert(-1_000_000 * (0x8000_0000_0000_0000i128 + 1_000_000_000_000i128) <= (
            self.scale_num as i128) * shifted <= 1_000_000 * (0x8000_0000_0000_0000i128
                + 1_000_000_000_000i128)) by (nonlinear_arith)
                requires
                    0 <= self.scale_num as i128 <= 1_000_000,
                    -0x8000_0000_0000_0000i128 - 1_000_000_000_000i128 <= shifted
                        <= 0x8000_0000_0000_0000i128 + 1_000_000_000_000i128,
            ;
        }
        let scaled: i128 = (self.scale_num as i128) * shifted;
        proof {
            assert(scaled == self.scale_num() * (v + self.offset()));
        }
        if scaled <= 0 {
            0
        } else {
            let q: u128 = (scaled as u128) / (self.scale_den as u128);
            proof {
                lemma_div_pos_is_pos(scaled as int, self.scale_den());
            }
            if q > self.max_level as u128 {
                self.max_level
            } else {
                q as usize
            }
        }
    }

    /// Renders one mel frame into its glyph sequence.
    pub fn render_frame(&self, mel: &MelFrame) -> (line: Vec<char>)
        requires
            self.wf(),
        ensures
            line@ == self.render_spec(mel.bands()),
    {
        let mut line: Vec<char> = Vec::new();
        let pairs: usize = mel.len() / 2;
        let mut i: usize = 0;
        while i < pairs
            invariant
                0 <= i <= pairs == mel.bands().len() / 2,
                2 * pairs <= usize::MAX,
                self.wf(),
                line@.len() == i,
                forall|j: int|
                    0 <= j < i ==> #[trigger] line@[j] == self.glyph_of(
                        mel.bands()[2 * j] as int,
                        mel.bands()[2 * j + 1] as int,
                    ),
            decreases pairs - i,
        {
            proof {
                assert(2 * (pairs as int) <= mel.bands().len());
            }
            let v1 = mel.band(2 * i);
            let v2 = mel.band(2 * i + 1);
            let l1 = self.quantize_level(v1);
            let l2 = self.quantize_level(v2);
            proof {
                assert(self.grid_view()[l1 as int] == self.grid@[l1 as int]@);
            }
            let row = &self.grid[l1];
            let ch = row[l2];
            line.push(ch);
            i = i + 1;
        }
        proof {
            assert(line@ =~= self.render_spec(mel.bands()));
        }
        line
    }

    /// Renders one mel frame as a full display line: the glyphs between
    /// bar delimiters, terminated by a line break.
    pub fn render_line(&self, mel: &MelFrame) -> (out: Vec<char>)
        requires
            self.wf(),
        ensures
            out@ == seq!['|'] + self.render_spec(mel.bands()) + seq!['|', '\n'],
    {
        let glyphs = self.render_frame(mel);
        let mut out: Vec<char> = Vec::new();
        out.push('|');
        let n: usize = glyphs.len();
        let mut i: usize = 0;
        while i < n
            invariant
                0 <= i <= n == glyphs@.len(),
                out@ == seq!['|'] + glyphs@.subrange(0, i as int),
            decreases n - i,
        {
            let ch = glyphs[i];
            out.push(ch);
            proof {
                assert(seq!['|'] + glyphs@.subrange(0, i + 1) =~= (seq!['|'] + glyphs@.subrange(
                    0,
                    i as int,
                )).push(glyphs@[i as int]));
            }
            i = i + 1;
        }
        out.push('|');
        out.push('\n');
        proof {
            assert(glyphs@.subrange(0, n as int) =~= glyphs@);
            assert(out@ =~= seq!['|'] + self.render_spec(mel.bands()) + seq!['|', '\n']);
        }
        out
    }
}

/// The default catalog: a 5 by 5 table of braille-style bar glyphs, the
/// first level selecting the left column's height and the second the
/// right's.
pub open spec fn braille_grid() -> Seq<Seq<char>> {
    seq![
        seq!['⠀', '⢀', '⢠', '⢰', '⢸'],
        seq!['⡀', '⣀', '⣠', '⣰', '⣸'],
        seq!['⡄', '⣄', '⣤', '⣴', '⣼'],
        seq!['⡆', '⣆', '⣦', '⣶', '⣾'],
        seq!['⡇', '⣇', '⣧', '⣷', '⣿'],
    ]
}

/// One five-glyph catalog row.
fn row5(a: char, b: char, c: char, d: char, e: char) -> (r: Vec<char>)
    ensures
        r@ == seq![a, b, c, d, e],
{
    let mut r: Vec<char> = Vec::new();
    r.push(a);
    r.push(b);
    r.push(c);
    r.push(d);
    r.push(e);
    proof {
        assert(r@ =~= seq![a, b, c, d, e]);
    }
    r
}

impl GlyphRenderer {
    /// The default renderer: the braille bar catalog with the empirically
    /// tuned calibration mapping band energies in thousandths of a log
    /// unit through `5 * ((v + 1.1) / 3.3)` into levels 0 to 4.
    pub fn braille_default() -> (g: GlyphRenderer)
        ensures
            g.wf(),
            g.scale_num() == 5,
            g.scale_den() == 3300,
            g.offset() == 1100,
            g.max_level() == 4,
            g.grid_view() == braille_grid(),
    {
        let mut grid: Vec<Vec<char>> = Vec::new();
        grid.push(row5('⠀', '⢀', '⢠', '⢰', '⢸'));
        grid.push(row5('⡀', '⣀', '⣠', '⣰', '⣸'));
        grid.push(row5('⡄', '⣄', '⣤', '⣴', '⣼'));
        grid.push(row5('⡆', '⣆', '⣦', '⣶', '⣾'));
        grid.push(row5('⡇', '⣇', '⣧', '⣷', '⣿'));
        proof {
            assert(grid@.map_values(|row: Vec<char>| row@) =~~= braille_grid());
        }
        let r = GlyphRenderer::new(5, 3300, 1100, 4, grid);
        r.unwrap()
    }
}

/// Rendering is pure: bit-for-bit identical band energies always render to
/// the identical glyph sequence under the same renderer.
pub proof fn law_renderer_pure(r: GlyphRenderer, a: Seq<i64>, b: Seq<i64>)
    requires
        a == b,
    ensures
        r.render_spec(a) == r.render_spec(b),
{
}

/// A frame whose every band energy sits at or below the bottom of the
/// calibrated range renders entirely to the glyph at level (0, 0).
pub proof fn law_minimum_energy_renders_origin(r: GlyphRenderer, bands: Seq<i64>)
    requires
        r.wf(),
        forall|i: int| 0 <= i < bands.len() ==> #[trigger] bands[i] + r.offset() <= 0,
    ensures
        forall|j: int|
            0 <= j < r.render_spec(bands).len() ==> #[trigger] r.render_spec(bands)[j]
                == r.grid_view()[0][0],
{
    assert forall|j: int|
        0 <= j < r.render_spec(bands).len() implies #[trigger] r.render_spec(bands)[j]
        == r.grid_view()[0][0] by {
        assert(bands[2 * j] + r.offset() <= 0);
        assert(bands[2 * j + 1] + r.offset() <= 0);
        assert(r.scale_num() * (bands[2 * j] + r.offset()) <= 0) by (nonlinear_arith)
            requires
                r.scale_num() >= 0,
                bands[2 * j] + r.offset() <= 0,
        ;
        assert(r.scale_num() * (bands[2 * j + 1] + r.offset()) <= 0) by (nonlinear_arith)
            requires
                r.scale_num() >= 0,
                bands[2 * j + 1] + r.offset() <= 0,
        ;
    }
}

} // verus!
