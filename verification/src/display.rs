use vstd::arithmetic::div_mod::lemma_fundamental_div_mod;
use vstd::prelude::*;

verus! {

/// The 64x32 monochrome display bitmap, one bool per pixel, row-major: the
/// pixel at column `px`, row `py` sits at index `py * 64 + px`. Sprites are
/// drawn by XOR with wrap-around at both edges; presenting the bitmap on an
/// output device happens outside, reading `pixels`.
pub struct Display {
    pub pixels: [bool; 2048],
}

/// Whether bit `i` (0 = leftmost pixel) of sprite row `row` is set.
pub open spec fn sprite_bit(row: u8, i: int) -> bool
    recommends
        0 <= i < 8,
{
    row & (0x80u8 >> (i as u8)) != 0
}

/// The bitmap index where bit `i` of sprite row `j` lands when the sprite is
/// drawn at (x, y): columns wrap modulo 64, rows modulo 32.
pub open spec fn sprite_target(x: int, y: int, j: int, i: int) -> int {
    ((y + j) % 32) * 64 + (x + i) % 64
}

/// Whether drawing `sprite` at (x, y) toggles the pixel at bitmap index `k`:
/// some set sprite bit lands there.
pub open spec fn sprite_covers(x: int, y: int, sprite: Seq<u8>, k: int) -> bool {
    exists|j: int, i: int|
        0 <= j < sprite.len() && 0 <= i < 8 && #[trigger] sprite_bit(sprite[j], i) && k
            == sprite_target(x, y, j, i)
}

/// The bitmap after drawing `sprite` at (x, y): every covered pixel is
/// toggled, all others keep their value.
pub open spec fn draw_result(pixels: Seq<bool>, x: int, y: int, sprite: Seq<u8>) -> Seq<bool> {
    Seq::new(2048, |k: int| pixels[k] != sprite_covers(x, y, sprite, k))
}

/// Whether drawing `sprite` at (x, y) erases a pixel that was set.
pub open spec fn draw_erases(pixels: Seq<bool>, x: int, y: int, sprite: Seq<u8>) -> bool {
    exists|k: int| 0 <= k < 2048 && #[trigger] pixels[k] && sprite_covers(x, y, sprite, k)
}

/// Lexicographic bound on (row, bit) pairs: the pairs a row-by-row,
/// bit-by-bit drawing has already processed when it stands at (j_lim, i_lim).
spec fn pair_before(j: int, i: int, j_lim: int, i_lim: int) -> bool {
    j < j_lim || (j == j_lim && i < i_lim)
}

/// `sprite_covers` restricted to the (row, bit) pairs before (j_lim, i_lim).
spec fn covers_upto(x: int, y: int, sprite: Seq<u8>, j_lim: int, i_lim: int, k: int) -> bool {
    exists|j: int, i: int|
        0 <= j < sprite.len() && 0 <= i < 8 && pair_before(j, i, j_lim, i_lim)
            && #[trigger] sprite_bit(sprite[j], i) && k == sprite_target(x, y, j, i)
}

/// `draw_result` restricted to the pairs before (j_lim, i_lim).
spec fn draw_upto(
    pixels: Seq<bool>,
    x: int,
    y: int,
    sprite: Seq<u8>,
    j_lim: int,
    i_lim: int,
) -> Seq<bool> {
    Seq::new(2048, |k: int| pixels[k] != covers_upto(x, y, sprite, j_lim, i_lim, k))
}

/// `draw_erases` restricted to the pairs before (j_lim, i_lim).
spec fn erases_upto(
    pixels: Seq<bool>,
    x: int,
    y: int,
    sprite: Seq<u8>,
    j_lim: int,
    i_lim: int,
) -> bool {
    exists|k: int|
        0 <= k < 2048 && #[trigger] pixels[k] && covers_upto(x, y, sprite, j_lim, i_lim, k)
}

/// Two integers with the same remainder modulo `d` that lie less than `d`
/// apart are equal.
proof fn lemma_same_mod_close(a: int, b: int, d: int)
    requires
        0 < d,
        a % d == b % d,
        -d < a - b < d,
    ensures
        a == b,
{
    lemma_fundamental_div_mod(a, d);
    lemma_fundamental_div_mod(b, d);
    let q = a / d - b / d;
    assert(a - b == d * q) by (nonlinear_arith)
        requires
            a == d * (a / d) + a % d,
            b == d * (b / d) + b % d,
            a % d == b % d,
            q == a / d - b / d,
    ;
    assert(q == 0) by (nonlinear_arith)
        requires
            0 < d,
            -d < d * q < d,
    ;
}

/// For a sprite of at most 32 rows, distinct (row, bit) pairs land on
/// distinct bitmap indices: rows stay distinct modulo 32 and bits modulo 64.
proof fn lemma_target_injective(x: int, y: int, rows: int, j1: int, i1: int, j2: int, i2: int)
    requires
        rows <= 32,
        0 <= j1 < rows,
        0 <= j2 < rows,
        0 <= i1 < 8,
        0 <= i2 < 8,
        sprite_target(x, y, j1, i1) == sprite_target(x, y, j2, i2),
    ensures
        j1 == j2 && i1 == i2,
{
    let py1 = (y + j1) % 32;
    let py2 = (y + j2) % 32;
    let px1 = (x + i1) % 64;
    let px2 = (x + i2) % 64;
    assert(0 <= px1 < 64 && 0 <= px2 < 64 && 0 <= py1 < 32 && 0 <= py2 < 32) by {
        lemma_fundamental_div_mod(x + i1, 64);
        lemma_fundamental_div_mod(x + i2, 64);
        lemma_fundamental_div_mod(y + j1, 32);
        lemma_fundamental_div_mod(y + j2, 32);
    }
    assert(py1 * 64 + px1 == py2 * 64 + px2);
    assert(py1 == py2 && px1 == px2);
    lemma_same_mod_close(y + j1, y + j2, 32);
    lemma_same_mod_close(x + i1, x + i2, 64);
}

impl Display {
    /// A display with every pixel off.
    pub fn new() -> (r: Display)
        ensures
            forall|k: int| 0 <= k < 2048 ==> !r.pixels@[k],
    {
        Display { pixels: [false; 2048] }
    }

    /// Switch every pixel off.
    pub fn clear(&mut self)
        ensures
            forall|k: int| 0 <= k < 2048 ==> !final(self).pixels@[k],
    {
        self.pixels = [false; 2048];
    }

    /// Toggle the pixel at column `x`, row `y`, reporting whether it was set
    /// (and is hence being erased).
    fn set_pixel(&mut self, x: usize, y: usize) -> (was_set: bool)
        requires
            x < 64,
            y < 32,
        ensures
            final(self).pixels@ == old(self).pixels@.update(
                y * 64 + x,
                !old(self).pixels@[y * 64 + x],
            ),
            was_set == old(self).pixels@[y * 64 + x],
    {
        let i = y * 64 + x;
        let was_set = self.pixels[i];
        self.pixels[i] = !was_set;
        was_set
    }

    /// Draw `sprite` at (x, y) by XOR-ing each sprite bit onto the bitmap,
    /// wrapping at both edges, and report whether any previously-set pixel
    /// was erased.
    pub fn draw_sprite(&mut self, x: u8, y: u8, sprite: &[u8]) -> (erased: bool)
        requires
            sprite@.len() <= 32,
        ensures
            final(self).pixels@ == draw_result(old(self).pixels@, x as int, y as int, sprite@),
            erased == draw_erases(old(self).pixels@, x as int, y as int, sprite@),
    {
        let ghost p0 = self.pixels@;
        let ghost xi = x as int;
        let ghost yi = y as int;
        let ghost s = sprite@;
        let mut erased = false;
        let mut j: usize = 0;
        proof {
            assert(self.pixels@ =~= draw_upto(p0, xi, yi, s, 0, 0));
        }
        while j < sprite.len()
            invariant
                j <= s.len(),
                s.len() <= 32,
                s == sprite@,
                xi == x as int,
                yi == y as int,
                p0.len() == 2048,
                self.pixels@ == draw_upto(p0, xi, yi, s, j as int, 0),
                erased == erases_upto(p0, xi, yi, s, j as int, 0),
            decreases s.len() - j,
        {
            let row = sprite[j];
            let mut i: usize = 0;
            while i < 8
                invariant
                    i <= 8,
                    j < s.len(),
                    s.len() <= 32,
                    s == sprite@,
                    xi == x as int,
                    yi == y as int,
                    p0.len() == 2048,
                    row == s[j as int],
                    self.pixels@ == draw_upto(p0, xi, yi, s, j as int, i as int),
                    erased == erases_upto(p0, xi, yi, s, j as int, i as int),
                decreases 8 - i,
            {
                let ghost ji = j as int;
                let ghost ii = i as int;
                if row & (0x80u8 >> (i as u8)) != 0 {
                    let px = (x as usize + i) % 64;
                    let py = (y as usize + j) % 32;
                    let ghost pre = self.pixels@;
                    let ghost k0 = sprite_target(xi, yi, ji, ii);
                    proof {
                        assert(sprite_bit(s[ji], ii));
                        assert(k0 == py * 64 + px);
                        lemma_upto_not_current(xi, yi, s, ji, ii);
                        assert(pre[k0] == p0[k0]);
                    }
                    let was_set = self.set_pixel(px, py);
                    erased = erased || was_set;
                    proof {
                        assert forall|k: int| 0 <= k < 2048 implies draw_upto(
                            p0,
                            xi,
                            yi,
                            s,
                            ji,
                            ii + 1,
                        )[k] == self.pixels@[k] by {
                            lemma_covers_step(xi, yi, s, ji, ii, k);
                            if k == k0 {
                                assert(!covers_upto(xi, yi, s, ji, ii, k0));
                            }
                        }
                        assert(self.pixels@ =~= draw_upto(p0, xi, yi, s, ji, ii + 1));
                        lemma_erases_step(p0, xi, yi, s, ji, ii);
                        assert(erases_upto(p0, xi, yi, s, ji, ii + 1) == (erases_upto(
                            p0,
                            xi,
                            yi,
                            s,
                            ji,
                            ii,
                        ) || p0[k0]));
                    }
                } else {
                    proof {
                        assert forall|k: int| 0 <= k < 2048 implies draw_upto(
                            p0,
                            xi,
                            yi,
                            s,
                            ji,
                            ii + 1,
                        )[k] == self.pixels@[k] by {
                            lemma_covers_step(xi, yi, s, ji, ii, k);
                        }
                        assert(self.pixels@ =~= draw_upto(p0, xi, yi, s, ji, ii + 1));
                        assert forall|k: int|
                            0 <= k < 2048 && p0[k] implies covers_upto(xi, yi, s, ji, ii + 1, k)
                            == covers_upto(xi, yi, s, ji, ii, k) by {
                            lemma_covers_step(xi, yi, s, ji, ii, k);
                        }
                        assert(erases_upto(p0, xi, yi, s, ji, ii + 1) == erases_upto(
                            p0,
                            xi,
                            yi,
                            s,
                            ji,
                            ii,
                        ));
                    }
                }
                i += 1;
            }
            proof {
                let ji = j as int;
                assert forall|k: int| 0 <= k < 2048 implies covers_upto(xi, yi, s, ji + 1, 0, k)
                    == covers_upto(xi, yi, s, ji, 8, k) by {
                    lemma_covers_row_wrap(xi, yi, s, ji, k);
                }
                assert(draw_upto(p0, xi, yi, s, ji + 1, 0) =~= draw_upto(p0, xi, yi, s, ji, 8));
                assert(erases_upto(p0, xi, yi, s, ji + 1, 0) == erases_upto(p0, xi, yi, s, ji, 8));
            }
            j += 1;
        }
        proof {
            let len = s.len() as int;
            assert forall|k: int| 0 <= k < 2048 implies covers_upto(xi, yi, s, len, 0, k)
                == sprite_covers(xi, yi, s, k) by {
                lemma_covers_full(xi, yi, s, k);
            }
            assert(self.pixels@ =~= draw_result(p0, xi, yi, s));
            assert(erased == draw_erases(p0, xi, yi, s));
        }
        erased
    }
}

/// Processing one more bit extends the covered set by exactly the pixel that
/// bit lands on, when the bit is set.
proof fn lemma_covers_step(x: int, y: int, sprite: Seq<u8>, j: int, i: int, k: int)
    requires
        0 <= j < sprite.len(),
        0 <= i < 8,
    ensures
        covers_upto(x, y, sprite, j, i + 1, k) == (covers_upto(x, y, sprite, j, i, k) || (
        sprite_bit(sprite[j], i) && k == sprite_target(x, y, j, i))),
{
    if covers_upto(x, y, sprite, j, i + 1, k) {
        let (j2, i2) = choose|j2: int, i2: int|
            0 <= j2 < sprite.len() && 0 <= i2 < 8 && pair_before(j2, i2, j, i + 1)
                && #[trigger] sprite_bit(sprite[j2], i2) && k == sprite_target(x, y, j2, i2);
        if j2 == j && i2 == i {
            assert(sprite_bit(sprite[j], i) && k == sprite_target(x, y, j, i));
        } else {
            assert(pair_before(j2, i2, j, i));
            assert(covers_upto(x, y, sprite, j, i, k));
        }
    }
    if covers_upto(x, y, sprite, j, i, k) {
        let (j2, i2) = choose|j2: int, i2: int|
            0 <= j2 < sprite.len() && 0 <= i2 < 8 && pair_before(j2, i2, j, i)
                && #[trigger] sprite_bit(sprite[j2], i2) && k == sprite_target(x, y, j2, i2);
        assert(pair_before(j2, i2, j, i + 1));
        assert(covers_upto(x, y, sprite, j, i + 1, k));
    }
    if sprite_bit(sprite[j], i) && k == sprite_target(x, y, j, i) {
        assert(pair_before(j, i, j, i + 1));
        assert(covers_upto(x, y, sprite, j, i + 1, k));
    }
}

/// The pixel the current bit lands on has not been toggled by any earlier
/// bit: the drawing touches each pixel at most once.
proof fn lemma_upto_not_current(x: int, y: int, sprite: Seq<u8>, j: int, i: int)
    requires
        sprite.len() <= 32,
        0 <= j < sprite.len(),
        0 <= i < 8,
    ensures
        !covers_upto(x, y, sprite, j, i, sprite_target(x, y, j, i)),
{
    let k0 = sprite_target(x, y, j, i);
    if covers_upto(x, y, sprite, j, i, k0) {
        let (j2, i2) = choose|j2: int, i2: int|
            0 <= j2 < sprite.len() && 0 <= i2 < 8 && pair_before(j2, i2, j, i)
                && #[trigger] sprite_bit(sprite[j2], i2) && k0 == sprite_target(x, y, j2, i2);
        lemma_target_injective(x, y, sprite.len() as int, j2, i2, j, i);
        assert(!pair_before(j, i, j, i));
    }
}

/// Processing one more set bit adds one possible erasure: the prior value of
/// the pixel that bit lands on.
proof fn lemma_erases_step(p0: Seq<bool>, x: int, y: int, sprite: Seq<u8>, j: int, i: int)
    requires
        p0.len() == 2048,
        sprite.len() <= 32,
        0 <= j < sprite.len(),
        0 <= i < 8,
        sprite_bit(sprite[j], i),
    ensures
        erases_upto(p0, x, y, sprite, j, i + 1) == (erases_upto(p0, x, y, sprite, j, i)
            || p0[sprite_target(x, y, j, i)]),
{
    let k0 = sprite_target(x, y, j, i);
    assert(0 <= k0 < 2048) by {
        lemma_fundamental_div_mod(x + i, 64);
        lemma_fundamental_div_mod(y + j, 32);
    }
    if erases_upto(p0, x, y, sprite, j, i + 1) {
        let k = choose|k: int|
            0 <= k < 2048 && #[trigger] p0[k] && covers_upto(x, y, sprite, j, i + 1, k);
        lemma_covers_step(x, y, sprite, j, i, k);
        if k == k0 {
        } else {
            assert(covers_upto(x, y, sprite, j, i, k));
            assert(erases_upto(p0, x, y, sprite, j, i));
        }
    }
    if erases_upto(p0, x, y, sprite, j, i) {
        let k = choose|k: int|
            0 <= k < 2048 && #[trigger] p0[k] && covers_upto(x, y, sprite, j, i, k);
        lemma_covers_step(x, y, sprite, j, i, k);
        assert(covers_upto(x, y, sprite, j, i + 1, k));
        assert(erases_upto(p0, x, y, sprite, j, i + 1));
    }
    if p0[k0] {
        lemma_covers_step(x, y, sprite, j, i, k0);
        assert(covers_upto(x, y, sprite, j, i + 1, k0));
        assert(erases_upto(p0, x, y, sprite, j, i + 1));
    }
}

/// Drawing a sprite with at least one set bit on a clear canvas erases
/// nothing; drawing the same sprite again at the same coordinates reports an
/// erasure and XORs the canvas fully off again.
pub proof fn lemma_draw_twice(pixels: Seq<bool>, x: int, y: int, sprite: Seq<u8>)
    requires
        pixels.len() == 2048,
        forall|k: int| 0 <= k < 2048 ==> !pixels[k],
        sprite.len() <= 32,
        exists|j: int, i: int|
            0 <= j < sprite.len() && 0 <= i < 8 && #[trigger] sprite_bit(sprite[j], i),
    ensures
        !draw_erases(pixels, x, y, sprite),
        draw_erases(draw_result(pixels, x, y, sprite), x, y, sprite),
        draw_result(draw_result(pixels, x, y, sprite), x, y, sprite) == pixels,
{
    let p1 = draw_result(pixels, x, y, sprite);
    let (j, i) = choose|j: int, i: int|
        0 <= j < sprite.len() && 0 <= i < 8 && #[trigger] sprite_bit(sprite[j], i);
    let k0 = sprite_target(x, y, j, i);
    assert(0 <= k0 < 2048) by {
        lemma_fundamental_div_mod(x + i, 64);
        lemma_fundamental_div_mod(y + j, 32);
    }
    assert(sprite_covers(x, y, sprite, k0));
    assert(p1[k0]);
    assert(draw_erases(p1, x, y, sprite));
    assert(draw_result(p1, x, y, sprite) =~= pixels);
}

/// Standing past the last bit of row `j` covers the same pixels as standing
/// at the first bit of row `j + 1`.
proof fn lemma_covers_row_wrap(x: int, y: int, sprite: Seq<u8>, j: int, k: int)
    ensures
        covers_upto(x, y, sprite, j + 1, 0, k) == covers_upto(x, y, sprite, j, 8, k),
{
    if covers_upto(x, y, sprite, j + 1, 0, k) {
        let (j2, i2) = choose|j2: int, i2: int|
            0 <= j2 < sprite.len() && 0 <= i2 < 8 && pair_before(j2, i2, j + 1, 0)
                && #[trigger] sprite_bit(sprite[j2], i2) && k == sprite_target(x, y, j2, i2);
        assert(pair_before(j2, i2, j, 8));
        assert(covers_upto(x, y, sprite, j, 8, k));
    }
    if covers_upto(x, y, sprite, j, 8, k) {
        let (j2, i2) = choose|j2: int, i2: int|
            0 <= j2 < sprite.len() && 0 <= i2 < 8 && pair_before(j2, i2, j, 8)
                && #[trigger] sprite_bit(sprite[j2], i2) && k == sprite_target(x, y, j2, i2);
        assert(pair_before(j2, i2, j + 1, 0));
        assert(covers_upto(x, y, sprite, j + 1, 0, k));
    }
}

/// Standing past the last row covers exactly what the whole sprite covers.
proof fn lemma_covers_full(x: int, y: int, sprite: Seq<u8>, k: int)
    ensures
        covers_upto(x, y, sprite, sprite.len() as int, 0, k) == sprite_covers(x, y, sprite, k),
{
    let len = sprite.len() as int;
    if covers_upto(x, y, sprite, len, 0, k) {
        let (j2, i2) = choose|j2: int, i2: int|
            0 <= j2 < sprite.len() && 0 <= i2 < 8 && pair_before(j2, i2, len, 0)
                && #[trigger] sprite_bit(sprite[j2], i2) && k == sprite_target(x, y, j2, i2);
        assert(sprite_covers(x, y, sprite, k));
    }
    if sprite_covers(x, y, sprite, k) {
        let (j2, i2) = choose|j2: int, i2: int|
            0 <= j2 < sprite.len() && 0 <= i2 < 8 && #[trigger] sprite_bit(sprite[j2], i2) && k
                == sprite_target(x, y, j2, i2);
        assert(pair_before(j2, i2, len, 0));
        assert(covers_upto(x, y, sprite, len, 0, k));
    }
}

} // verus!
