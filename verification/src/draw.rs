use vstd::prelude::*;

verus! {

/// True when row `r`, column `c` of the sprite that starts at memory address
/// `base` has its bit set. Column 0 is the most significant bit of a row.
pub open spec fn sprite_bit(mem: Seq<u8>, base: int, r: int, c: int) -> bool {
    (mem[base + r] >> ((7 - c) as u8)) & 1 == 1
}

/// The sprite row that owns screen row `py` when drawing starts at row
/// `ypos`: the distance from `ypos` down to `py`, wrapping at 32. Because a
/// sprite has at most 15 rows, each screen row is owned by at most one
/// sprite row, which is what makes the draw contract pointwise.
pub open spec fn row_of(ypos: int, py: int) -> int {
    if py >= ypos {
        py - ypos
    } else {
        py + 32 - ypos
    }
}

/// The sprite column that owns screen column `px`, wrapping at 64.
pub open spec fn col_of(xpos: int, px: int) -> int {
    if px >= xpos {
        px - xpos
    } else {
        px + 64 - xpos
    }
}

/// True when drawing the first `rows` full sprite rows, plus the first
/// `cols` bits of row `rows`, toggles screen pixel (py, px): the pixel is
/// owned by a drawn position whose sprite bit is set.
pub open spec fn hit_upto(
    mem: Seq<u8>,
    base: int,
    rows: int,
    cols: int,
    xpos: int,
    ypos: int,
    py: int,
    px: int,
) -> bool {
    let r = row_of(ypos, py);
    let c = col_of(xpos, px);
    0 <= c < 8 && (r < rows || (r == rows && c < cols)) && sprite_bit(mem, base, r, c)
}

/// True when drawing a whole `n`-row sprite toggles screen pixel (py, px).
pub open spec fn hit(mem: Seq<u8>, base: int, n: int, xpos: int, ypos: int, py: int, px: int) -> bool {
    hit_upto(mem, base, n, 0, xpos, ypos, py, px)
}

/// A single-bit pixel after an XOR with a set sprite bit.
pub open spec fn flip(b: u32) -> u32 {
    if b == 0 {
        1
    } else {
        0
    }
}

/// The display after drawing an `n`-row sprite from `base` at (xpos, ypos):
/// every pixel the sprite touches with a set bit is toggled, every other
/// pixel keeps its value.
pub open spec fn draw_video(d: Seq<u32>, mem: Seq<u8>, base: int, n: int, xpos: int, ypos: int) -> Seq<u32> {
    Seq::new(2048, |p: int| if hit(mem, base, n, xpos, ypos, p / 64, p % 64) {
        flip(d[p])
    } else {
        d[p]
    })
}

/// Collision within the first `rows` rows plus `cols` bits of row `rows`:
/// some drawn, set sprite bit lands on a pixel that is already on.
pub open spec fn collision_upto(
    d: Seq<u32>,
    mem: Seq<u8>,
    base: int,
    rows: int,
    cols: int,
    xpos: int,
    ypos: int,
) -> bool {
    exists|py: int, px: int|
        0 <= py < 32 && 0 <= px < 64 && #[trigger] hit_upto(mem, base, rows, cols, xpos, ypos, py, px)
            && d[py * 64 + px] == 1
}

/// Collision of a whole `n`-row draw.
pub open spec fn collision(d: Seq<u32>, mem: Seq<u8>, base: int, n: int, xpos: int, ypos: int) -> bool {
    collision_upto(d, mem, base, n, 0, xpos, ypos)
}

/// Taking `a` modulo `m` when `a` is below `2m` either leaves it alone or
/// subtracts `m` once: the arithmetic form of coordinate wraparound.
pub proof fn lemma_wrap_mod(a: int, m: int)
    requires
        0 <= a < 2 * m,
        0 < m,
    ensures
        a % m == if a < m { a } else { a - m },
{
    if a < m {
        vstd::arithmetic::div_mod::lemma_fundamental_div_mod_converse(a, m, 0, a);
    } else {
        vstd::arithmetic::div_mod::lemma_fundamental_div_mod_converse(a, m, 1, a - m);
    }
}

/// Finishing a sprite row is the same as standing at the start of the next:
/// the touched pixels, and so the collision verdict, agree.
pub proof fn lemma_row_rollover(d: Seq<u32>, mem: Seq<u8>, base: int, rows: int, xpos: int, ypos: int)
    ensures
        forall|py: int, px: int| #[trigger] hit_upto(mem, base, rows, 8, xpos, ypos, py, px)
            == hit_upto(mem, base, rows + 1, 0, xpos, ypos, py, px),
        collision_upto(d, mem, base, rows, 8, xpos, ypos) == collision_upto(d, mem, base, rows + 1, 0, xpos, ypos),
{
    assert forall|py: int, px: int| #[trigger] hit_upto(mem, base, rows, 8, xpos, ypos, py, px)
        == hit_upto(mem, base, rows + 1, 0, xpos, ypos, py, px) by {
        let r = row_of(ypos, py);
        let c = col_of(xpos, px);
        assert(0 <= c < 8 ==> (r < rows || (r == rows && c < 8)) == (r < rows + 1 || (r == rows + 1 && c < 0)));
    };
    if collision_upto(d, mem, base, rows, 8, xpos, ypos) {
        let (py, px) = choose|py: int, px: int|
            0 <= py < 32 && 0 <= px < 64 && hit_upto(mem, base, rows, 8, xpos, ypos, py, px) && d[py * 64 + px] == 1;
        assert(hit_upto(mem, base, rows + 1, 0, xpos, ypos, py, px));
        assert(collision_upto(d, mem, base, rows + 1, 0, xpos, ypos));
    }
    if collision_upto(d, mem, base, rows + 1, 0, xpos, ypos) {
        let (py, px) = choose|py: int, px: int|
            0 <= py < 32 && 0 <= px < 64 && #[trigger] hit_upto(mem, base, rows + 1, 0, xpos, ypos, py, px) && d[py * 64 + px] == 1;
        assert(hit_upto(mem, base, rows, 8, xpos, ypos, py, px));
        assert(collision_upto(d, mem, base, rows, 8, xpos, ypos));
    }
}

/// Row-major flattening of screen coordinates round-trips through division:
/// the pixel at (py, px) has index py*64+px, and that index names no other
/// coordinate pair.
pub proof fn lemma_pixel_index(py: int, px: int)
    requires
        0 <= py < 32,
        0 <= px < 64,
    ensures
        (py * 64 + px) / 64 == py,
        (py * 64 + px) % 64 == px,
        0 <= py * 64 + px < 2048,
{
    vstd::arithmetic::div_mod::lemma_fundamental_div_mod_converse(py * 64 + px, 64, py, px);
}

} // verus!
