use vstd::prelude::*;
use vstd::wrapping::u32_specs;

use crate::framebuffer::{lemma_pixel_index_bounds, pixel_index};

verus! {

/// Side of the square procedural wall textures, in texels.
pub const SIZE: usize = 64;

/// A row-major grid of packed RGB texels.
pub struct Texture {
    pub width: usize,
    pub height: usize,
    pub pixels: Vec<u32>,
}

/// The three wall textures, one per wall kind.
pub struct TextureSet {
    pub stone: Texture,
    pub metal: Texture,
    pub vine: Texture,
}

/// How one texel is colored: the channels of `base` are scaled by the factor
/// `offset / 1000 + (noise / 1000) * (scale / 1000)`, where `noise` is a
/// deterministic noise level in thousandths.
#[derive(PartialEq, Eq, Structural, Clone, Copy, Debug)]
pub struct Tint {
    pub base: u32,
    pub offset: u32,
    pub noise: u32,
    pub scale: u32,
}

/// Gray shown when a texture has no texels.
pub const EMPTY_TEXEL: u32 = 0x808080;

/// The integer hash behind the texture noise, in thousandths (`0..1000`):
/// a multiplicative hash of the coordinates and the seed in wrapping 32-bit
/// arithmetic, mixed by two xor-shifts.
pub open spec fn noise_level_spec(x: usize, y: usize, seed: u32) -> u32 {
    let h0 = u32_specs::wrapping_add(
        u32_specs::wrapping_add(
            u32_specs::wrapping_mul(x as u32, 374761393u32),
            u32_specs::wrapping_mul(y as u32, 668265263u32),
        ),
        u32_specs::wrapping_mul(seed, 2246822519u32),
    );
    let h1 = u32_specs::wrapping_mul(h0 ^ (h0 >> 13u32), 1274126177u32);
    (h1 ^ (h1 >> 16u32)) % 1000
}

/// Stone texels on a mortar line: the horizontal joints every 16 rows and the
/// vertical joints every 32 columns, shifted by half a brick on odd courses.
pub open spec fn stone_mortar(x: int, y: int) -> bool {
    let offset = if (y / 16) % 2 == 0 { 0int } else { 16int };
    y % 16 < 2 || (x + offset) % 32 < 2
}

pub open spec fn stone_tint(x: usize, y: usize) -> Tint {
    if stone_mortar(x as int, y as int) {
        Tint { base: 0x5B5B55, offset: 700, noise: noise_level_spec(x, y, 1), scale: 200 }
    } else {
        Tint {
            base: 0x8A8A80,
            offset: 800,
            noise: noise_level_spec(x / 2, y / 2, 2),
            scale: 350,
        }
    }
}

/// Metal texels on a rivet: two 4 x 4 studs per 32 x 32 plate.
pub open spec fn metal_rivet(x: int, y: int) -> bool {
    let rx = x % 32;
    let ry = y % 32;
    (4 <= rx <= 7 && 4 <= ry <= 7) || (24 <= rx <= 27 && 24 <= ry <= 27)
}

/// Metal texels on a plate seam.
pub open spec fn metal_seam(x: int, y: int) -> bool {
    y % 32 < 2 || x % 32 < 2
}

/// Noise level above which a plate texel is rust.
pub const RUST_LEVEL: u32 = 620;

pub open spec fn metal_tint(x: usize, y: usize) -> Tint {
    let rust = noise_level_spec(x / 3, y / 3, 5);
    if metal_rivet(x as int, y as int) {
        Tint { base: 0xC9B79A, offset: 1000, noise: 0, scale: 0 }
    } else if metal_seam(x as int, y as int) {
        Tint { base: 0x4A2B18, offset: 900, noise: 0, scale: 0 }
    } else if rust > RUST_LEVEL {
        Tint { base: 0xB5561F, offset: 750, noise: rust, scale: 400 }
    } else {
        Tint { base: 0x8A5A34, offset: 700, noise: noise_level_spec(x, y, 6), scale: 450 }
    }
}

/// Horizontal distance from column `x` to a stem centered on column `center`.
pub open spec fn stem_distance(x: int, center: int) -> int {
    if x >= center {
        x - center
    } else {
        center - x
    }
}

/// Noise level above which a texel near a stem carries a leaf.
pub const LEAF_LEVEL: u32 = 780;

/// Vine texels of a row whose stems sway by `wave` columns: one stem centered
/// on column `14 + wave`, one on `42 - wave`, leaves within 6 columns of a stem
/// where the noise is high, and mossy stone elsewhere.
pub open spec fn vine_tint(x: usize, y: usize, wave: i32) -> Tint {
    let da = stem_distance(x as int, 14 + wave);
    let db = stem_distance(x as int, 42 - wave);
    let leaf = noise_level_spec(x / 2, y / 2, 11) > LEAF_LEVEL && (da <= 6 || db <= 6);
    if da <= 1 || db <= 1 {
        Tint { base: 0x2F5A22, offset: 900, noise: noise_level_spec(x, y, 12), scale: 300 }
    } else if leaf {
        Tint { base: 0x4E8A34, offset: 800, noise: noise_level_spec(x, y, 13), scale: 450 }
    } else {
        Tint {
            base: 0x6E7062,
            offset: 750,
            noise: noise_level_spec(x / 2, y / 2, 9),
            scale: 350,
        }
    }
}

/// The solid color that stands for a wall kind where no texture is drawn.
pub open spec fn wall_color(cell: char) -> u32 {
    if cell == '#' {
        0x8A5A34
    } else if cell == '%' {
        0x4E8A34
    } else {
        0x8A8A80
    }
}

/// A row-major `SIZE` x `SIZE` layout whose texel at column `x`, row `y` is
/// `tint(x, y)`.
pub open spec fn is_layout(v: Seq<Tint>, tint: spec_fn(usize, usize) -> Tint) -> bool {
    &&& v.len() == SIZE * SIZE
    &&& forall|x: usize, y: usize|
        x < SIZE && y < SIZE ==> #[trigger] v[y * SIZE + x] == tint(x, y)
}

impl Texture {
    /// The texel grid holds exactly one entry per texel.
    pub open spec fn wf(&self) -> bool {
        self.pixels@.len() == self.width * self.height
    }

    /// The texel at column `x`, row `y`.
    pub open spec fn texel(&self, x: int, y: int) -> u32 {
        self.pixels@[pixel_index(self.width as int, x, y)]
    }

    /// The texel at column `x`, row `y`, each clamped to the last column or
    /// row; an empty texture reads as gray.
    pub fn get_pixel(&self, x: usize, y: usize) -> (c: u32)
        requires
            self.wf(),
        ensures
            c == if self.width == 0 || self.height == 0 {
                EMPTY_TEXEL
            } else {
                self.texel(
                    if x < self.width { x as int } else { self.width - 1 },
                    if y < self.height { y as int } else { self.height - 1 },
                )
            },
    {
        if self.width == 0 || self.height == 0 {
            return EMPTY_TEXEL;
        }
        let cx = if x < self.width { x } else { self.width - 1 };
        let cy = if y < self.height { y } else { self.height - 1 };
        proof {
            lemma_pixel_index_bounds(self.width as int, self.height as int, cx as int, cy as int);
            assert(self.pixels.len() == self.pixels@.len());
        }
        self.pixels[cy * self.width + cx]
    }
}

impl TextureSet {
    /// The texture of a wall kind: metal for `'#'`, vines for `'%'`, stone for
    /// every other cell.
    pub open spec fn texture_for(&self, cell: char) -> Texture {
        if cell == '#' {
            self.metal
        } else if cell == '%' {
            self.vine
        } else {
            self.stone
        }
    }

    /// The texture drawn on walls of kind `cell`.
    pub fn for_cell(&self, cell: char) -> (t: &Texture)
        ensures
            *t == self.texture_for(cell),
    {
        match cell {
            '#' => &self.metal,
            '%' => &self.vine,
            _ => &self.stone,
        }
    }
}

/// The solid color of a wall kind: rust brown for metal `'#'`, green for vines
/// `'%'`, gray for every other cell.
pub fn fallback_color(cell: char) -> (c: u32)
    ensures
        c == wall_color(cell),
{
    match cell {
        '#' => 0x8A5A34,
        '%' => 0x4E8A34,
        _ => 0x8A8A80,
    }
}

/// The three wall kinds look different: each has its own texture and its own
/// solid color, and every other cell is drawn as stone.
pub proof fn lemma_wall_kinds_differ(set: TextureSet, cell: char)
    ensures
        wall_color('+') != wall_color('#'),
        wall_color('#') != wall_color('%'),
        wall_color('%') != wall_color('+'),
        set.texture_for('#') == set.metal,
        set.texture_for('%') == set.vine,
        set.texture_for('+') == set.stone,
        cell != '#' && cell != '%' ==> set.texture_for(cell) == set.stone && wall_color(cell)
            == wall_color('+'),
{
}

/// The stone texture is bricks 32 texels long and 16 tall, laid in courses
/// shifted by half a brick: the first two rows of every course and the first
/// two columns of every brick are mortar (dark gray, noise from the texel),
/// every other texel is brick (light gray, noise from the half-resolution
/// texel).
pub proof fn lemma_stone_layout(x: usize, y: usize)
    requires
        x < SIZE,
        y < SIZE,
    ensures
        ({
            let mortar = Tint { base: 0x5B5B55, offset: 700, noise: noise_level_spec(x, y, 1), scale: 200 };
            let brick = Tint {
                base: 0x8A8A80,
                offset: 800,
                noise: noise_level_spec(x / 2, y / 2, 2),
                scale: 350,
            };
            let even_course = (y / 16) % 2 == 0;
            let joint = if even_course { x % 32 < 2 } else { x % 32 == 16 || x % 32 == 17 };
            &&& y % 16 < 2 ==> stone_tint(x, y) == mortar
            &&& joint ==> stone_tint(x, y) == mortar
            &&& y % 16 >= 2 && !joint ==> stone_tint(x, y) == brick
        }),
{
    assert(((x + 16) % 32 < 2) == (x % 32 == 16 || x % 32 == 17)) by (bit_vector)
        requires
            x < 64,
    ;
    assert((x % 32 < 2) == ((x + 0) % 32 < 2)) by (bit_vector)
        requires
            x < 64,
    ;
}

/// The metal texture is 32 x 32 plates: two 4 x 4 rivets per plate (at
/// offsets 4..=7 and 24..=27), seams on the first two rows and columns of a
/// plate, rust where the coarse noise exceeds 620 thousandths, bare plate
/// elsewhere.
pub proof fn lemma_metal_layout(x: usize, y: usize)
    requires
        x < SIZE,
        y < SIZE,
    ensures
        ({
            let rx = x % 32;
            let ry = y % 32;
            let rivet = (4 <= rx && rx <= 7 && 4 <= ry && ry <= 7) || (24 <= rx && rx <= 27 && 24
                <= ry && ry <= 27);
            let seam = rx < 2 || ry < 2;
            let rust = noise_level_spec(x / 3, y / 3, 5);
            &&& rivet ==> metal_tint(x, y) == (Tint { base: 0xC9B79A, offset: 1000, noise: 0, scale: 0 })
            &&& !rivet && seam ==> metal_tint(x, y) == (Tint {
                base: 0x4A2B18,
                offset: 900,
                noise: 0,
                scale: 0,
            })
            &&& !rivet && !seam && rust > 620 ==> metal_tint(x, y) == (Tint {
                base: 0xB5561F,
                offset: 750,
                noise: rust,
                scale: 400,
            })
            &&& !rivet && !seam && rust <= 620 ==> metal_tint(x, y) == (Tint {
                base: 0x8A5A34,
                offset: 700,
                noise: noise_level_spec(x, y, 6),
                scale: 450,
            })
        }),
{
}

/// The vine texture of a row swaying by `wave`: stems three texels wide
/// centered on columns `14 + wave` and `42 - wave`, leaves within six columns
/// of a stem where the noise exceeds 780 thousandths, mossy stone elsewhere.
pub proof fn lemma_vine_layout(x: usize, y: usize, wave: i32)
    requires
        x < SIZE,
        y < SIZE,
    ensures
        ({
            let a = 14 + wave;
            let b = 42 - wave;
            let stem = (a - 1 <= x && x <= a + 1) || (b - 1 <= x && x <= b + 1);
            let near = (a - 6 <= x && x <= a + 6) || (b - 6 <= x && x <= b + 6);
            let leafy = noise_level_spec(x / 2, y / 2, 11) > 780;
            &&& stem ==> vine_tint(x, y, wave) == (Tint {
                base: 0x2F5A22,
                offset: 900,
                noise: noise_level_spec(x, y, 12),
                scale: 300,
            })
            &&& !stem && near && leafy ==> vine_tint(x, y, wave) == (Tint {
                base: 0x4E8A34,
                offset: 800,
                noise: noise_level_spec(x, y, 13),
                scale: 450,
            })
            &&& !stem && !(near && leafy) ==> vine_tint(x, y, wave) == (Tint {
                base: 0x6E7062,
                offset: 750,
                noise: noise_level_spec(x / 2, y / 2, 9),
                scale: 350,
            })
        }),
{
}

/// The noise level, in thousandths, of texel `(x, y)` for `seed`.
pub fn noise_level(x: usize, y: usize, seed: u32) -> (n: u32)
    ensures
        n == noise_level_spec(x, y, seed),
        n < 1000,
{
    #[verifier::truncate]
    let xs = x as u32;
    #[verifier::truncate]
    let ys = y as u32;
    let mut h = xs.wrapping_mul(374761393u32).wrapping_add(ys.wrapping_mul(668265263u32)).wrapping_add(
        seed.wrapping_mul(2246822519u32),
    );
    h = (h ^ (h >> 13u32)).wrapping_mul(1274126177u32);
    (h ^ (h >> 16u32)) % 1000
}

fn stone_texel(x: usize, y: usize) -> (t: Tint)
    requires
        x < SIZE,
        y < SIZE,
    ensures
        t == stone_tint(x, y),
{
    let row = y / 16;
    let offset: usize = if row % 2 == 0 { 0 } else { 16 };
    let brick_x = (x + offset) % 32;
    let mortar = y % 16 < 2 || brick_x < 2;
    if mortar {
        Tint { base: 0x5B5B55, offset: 700, noise: noise_level(x, y, 1), scale: 200 }
    } else {
        Tint { base: 0x8A8A80, offset: 800, noise: noise_level(x / 2, y / 2, 2), scale: 350 }
    }
}

fn metal_texel(x: usize, y: usize) -> (t: Tint)
    requires
        x < SIZE,
        y < SIZE,
    ensures
        t == metal_tint(x, y),
{
    let seam = y % 32 < 2 || x % 32 < 2;
    let rivet_x = x % 32;
    let rivet_y = y % 32;
    let rivet = (rivet_x >= 4 && rivet_x <= 7 && rivet_y >= 4 && rivet_y <= 7) || (rivet_x >= 24
        && rivet_x <= 27 && rivet_y >= 24 && rivet_y <= 27);
    let rust = noise_level(x / 3, y / 3, 5);
    if rivet {
        Tint { base: 0xC9B79A, offset: 1000, noise: 0, scale: 0 }
    } else if seam {
        Tint { base: 0x4A2B18, offset: 900, noise: 0, scale: 0 }
    } else if rust > RUST_LEVEL {
        Tint { base: 0xB5561F, offset: 750, noise: rust, scale: 400 }
    } else {
        Tint { base: 0x8A5A34, offset: 700, noise: noise_level(x, y, 6), scale: 450 }
    }
}

fn vine_texel(x: usize, y: usize, wave: i32) -> (t: Tint)
    requires
        x < SIZE,
        y < SIZE,
    ensures
        t == vine_tint(x, y, wave),
{
    let xi = x as i64;
    let center_a = 14i64 + wave as i64;
    let center_b = 42i64 - wave as i64;
    let da = if xi >= center_a { xi - center_a } else { center_a - xi };
    let db = if xi >= center_b { xi - center_b } else { center_b - xi };
    let stone = Tint { base: 0x6E7062, offset: 750, noise: noise_level(x / 2, y / 2, 9), scale: 350 };
    let leaf = noise_level(x / 2, y / 2, 11) > LEAF_LEVEL && (da <= 6 || db <= 6);
    if da <= 1 || db <= 1 {
        Tint { base: 0x2F5A22, offset: 900, noise: noise_level(x, y, 12), scale: 300 }
    } else if leaf {
        Tint { base: 0x4E8A34, offset: 800, noise: noise_level(x, y, 13), scale: 450 }
    } else {
        stone
    }
}

/// The tints of the stone texture: blocks of brick with mortar joints.
pub fn stone_tints() -> (v: Vec<Tint>)
    ensures
        is_layout(v@, |x: usize, y: usize| stone_tint(x, y)),
{
    let mut v: Vec<Tint> = Vec::new();
    let mut y: usize = 0;
    while y < SIZE
        invariant
            y <= SIZE,
            v@.len() == y * SIZE,
            forall|x2: usize, y2: usize|
                x2 < SIZE && y2 < y ==> #[trigger] v@[y2 * SIZE + x2] == stone_tint(x2, y2),
        decreases SIZE - y,
    {
        let mut x: usize = 0;
        while x < SIZE
            invariant
                y < SIZE,
                x <= SIZE,
                v@.len() == y * SIZE + x,
                forall|x2: usize, y2: usize|
                    x2 < SIZE && y2 < SIZE && (y2 < y || (y2 == y && x2 < x))
                        ==> #[trigger] v@[y2 * SIZE + x2] == stone_tint(x2, y2),
            decreases SIZE - x,
        {
            v.push(stone_texel(x, y));
            x = x + 1;
        }
        y = y + 1;
    }
    v
}

/// The tints of the metal texture: riveted plates with seams and rust stains.
pub fn metal_tints() -> (v: Vec<Tint>)
    ensures
        is_layout(v@, |x: usize, y: usize| metal_tint(x, y)),
{
    let mut v: Vec<Tint> = Vec::new();
    let mut y: usize = 0;
    while y < SIZE
        invariant
            y <= SIZE,
            v@.len() == y * SIZE,
            forall|x2: usize, y2: usize|
                x2 < SIZE && y2 < y ==> #[trigger] v@[y2 * SIZE + x2] == metal_tint(x2, y2),
        decreases SIZE - y,
    {
        let mut x: usize = 0;
        while x < SIZE
            invariant
                y < SIZE,
                x <= SIZE,
                v@.len() == y * SIZE + x,
                forall|x2: usize, y2: usize|
                    x2 < SIZE && y2 < SIZE && (y2 < y || (y2 == y && x2 < x))
                        ==> #[trigger] v@[y2 * SIZE + x2] == metal_tint(x2, y2),
            decreases SIZE - x,
        {
            v.push(metal_texel(x, y));
            x = x + 1;
        }
        y = y + 1;
    }
    v
}

/// The tints of the vine texture; row `y` sways by `waves[y]` columns.
pub fn vine_tints(waves: &Vec<i32>) -> (v: Vec<Tint>)
    requires
        waves@.len() == SIZE,
    ensures
        is_layout(v@, |x: usize, y: usize| vine_tint(x, y, waves@[y as int])),
{
    let mut v: Vec<Tint> = Vec::new();
    let mut y: usize = 0;
    while y < SIZE
        invariant
            y <= SIZE,
            v@.len() == y * SIZE,
            forall|x2: usize, y2: usize|
                x2 < SIZE && y2 < y ==> #[trigger] v@[y2 * SIZE + x2] == vine_tint(x2, y2, waves@[y2 as int]),
            waves@.len() == SIZE,
        decreases SIZE - y,
    {
        let mut x: usize = 0;
        while x < SIZE
            invariant
                y < SIZE,
                x <= SIZE,
                v@.len() == y * SIZE + x,
                forall|x2: usize, y2: usize|
                    x2 < SIZE && y2 < SIZE && (y2 < y || (y2 == y && x2 < x))
                        ==> #[trigger] v@[y2 * SIZE + x2] == vine_tint(x2, y2, waves@[y2 as int]),
                waves@.len() == SIZE,
            decreases SIZE - x,
        {
            v.push(vine_texel(x, y, waves[y]));
            x = x + 1;
        }
        y = y + 1;
    }
    v
}

} // verus!
