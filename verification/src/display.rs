//! The 64x32 monochrome display, and drawing sprites onto it by XOR.

use vstd::prelude::*;

verus! {

/// The number of pixel columns.
pub const WIDTH: usize = 64;

/// The number of pixel rows.
pub const HEIGHT: usize = 32;

/// The display: 32 rows of 64 pixels, `true` for a lit pixel.
pub type Display = [[bool; 64]; 32];

/// A display as rows of pixels: `grid_view(d)[y][x]` is the pixel in column `x` of
/// row `y`.
pub open spec fn grid_view(d: Display) -> Seq<Seq<bool>> {
    Seq::new(32, |y: int| d@[y]@)
}

/// A grid has 32 rows of 64 pixels each.
pub open spec fn is_grid(g: Seq<Seq<bool>>) -> bool {
    &&& g.len() == 32
    &&& forall|y: int| 0 <= y < 32 ==> (#[trigger] g[y]).len() == 64
}

/// The grid with every pixel off.
pub open spec fn blank_grid() -> Seq<Seq<bool>> {
    Seq::new(32, |y: int| Seq::new(64, |x: int| false))
}

/// The pixel of a sprite row in column `col`, counted from the left: the most
/// significant bit of the byte is column 0.
pub open spec fn sprite_bit(byte: u8, col: int) -> bool {
    (byte >> ((7 - col) as u8)) & 1 == 1
}

/// Whether the sprite drawn at origin `(ox, oy)` has a lit pixel at `(x, y)`.
/// A sprite is eight columns wide and one row high for each of its bytes.
pub open spec fn sprite_pixel(sprite: Seq<u8>, ox: int, oy: int, x: int, y: int) -> bool {
    &&& oy <= y < oy + sprite.len()
    &&& ox <= x < ox + 8
    &&& sprite_bit(sprite[y - oy], x - ox)
}

/// The grid after the sprite was drawn at `(ox, oy)`: each pixel of the grid is
/// flipped where the sprite has a lit pixel. What the sprite has beyond the right
/// or bottom edge falls on no pixel of the grid.
pub open spec fn draw(g: Seq<Seq<bool>>, sprite: Seq<u8>, ox: int, oy: int) -> Seq<Seq<bool>> {
    Seq::new(32, |y: int| Seq::new(64, |x: int| g[y][x] ^ sprite_pixel(sprite, ox, oy, x, y)))
}

/// Whether the sprite has a lit pixel at `(x, y)` where the grid has one too.
pub open spec fn erased_at(g: Seq<Seq<bool>>, sprite: Seq<u8>, ox: int, oy: int, x: int, y: int) -> bool {
    &&& 0 <= x < 64
    &&& 0 <= y < 32
    &&& g[y][x]
    &&& sprite_pixel(sprite, ox, oy, x, y)
}

/// Whether drawing the sprite at `(ox, oy)` turns some lit pixel off.
pub open spec fn collides(g: Seq<Seq<bool>>, sprite: Seq<u8>, ox: int, oy: int) -> bool {
    exists|x: int, y: int| erased_at(g, sprite, ox, oy, x, y)
}

/// Whether drawing turns off a lit pixel in one of the sprite's first `rows` rows,
/// or in the first `cols` columns of the row after them.
pub open spec fn collides_within(
    g: Seq<Seq<bool>>,
    sprite: Seq<u8>,
    ox: int,
    oy: int,
    rows: int,
    cols: int,
) -> bool {
    exists|x: int, y: int|
        erased_at(g, sprite, ox, oy, x, y) && (y < oy + rows || (y == oy + rows && x < ox + cols))
}

/// Whether the sprite drawn at `(ox, oy)` has a lit pixel somewhere on the display.
pub open spec fn visible(sprite: Seq<u8>, ox: int, oy: int) -> bool {
    exists|x: int, y: int| 0 <= x < 64 && 0 <= y < 32 && sprite_pixel(sprite, ox, oy, x, y)
}

/// Drawing flips exactly the pixels that the sprite lights, and leaves every pixel
/// outside the sprite's eight columns and its rows as it was. In particular nothing
/// left of the origin changes: what passes the right edge does not come back at
/// column 0, and what passes the bottom edge does not come back at row 0.
pub proof fn lemma_draw_clips(g: Seq<Seq<bool>>, sprite: Seq<u8>, ox: int, oy: int, x: int, y: int)
    requires
        is_grid(g),
        0 <= x < 64,
        0 <= y < 32,
    ensures
        draw(g, sprite, ox, oy)[y][x] == (g[y][x] ^ sprite_pixel(sprite, ox, oy, x, y)),
        x < ox || x >= ox + 8 || y < oy || y >= oy + sprite.len() ==> draw(g, sprite, ox, oy)[y][x]
            == g[y][x],
        is_grid(draw(g, sprite, ox, oy)),
{
}

/// Drawing the same sprite twice at the same origin gives the grid back, since XOR
/// undoes itself. The second draw reports a collision exactly if the first one lit a
/// pixel that was off.
pub proof fn lemma_draw_twice_restores(g: Seq<Seq<bool>>, sprite: Seq<u8>, ox: int, oy: int)
    requires
        is_grid(g),
    ensures
        draw(draw(g, sprite, ox, oy), sprite, ox, oy) == g,
        collides(draw(g, sprite, ox, oy), sprite, ox, oy) <==> exists|x: int, y: int|
            0 <= x < 64 && 0 <= y < 32 && !g[y][x] && sprite_pixel(sprite, ox, oy, x, y),
{
    let once = draw(g, sprite, ox, oy);
    let twice = draw(once, sprite, ox, oy);
    assert forall|y: int| 0 <= y < 32 implies #[trigger] twice[y] =~= g[y] by {
        assert forall|x: int| 0 <= x < 64 implies twice[y][x] == g[y][x] by {
            assert(once[y][x] == (g[y][x] ^ sprite_pixel(sprite, ox, oy, x, y)));
        }
    }
    assert(twice =~= g);
    if collides(once, sprite, ox, oy) {
        let (x, y) = choose|x: int, y: int| erased_at(once, sprite, ox, oy, x, y);
        assert(0 <= x < 64 && 0 <= y < 32 && !g[y][x] && sprite_pixel(sprite, ox, oy, x, y));
    }
    if exists|x: int, y: int|
        0 <= x < 64 && 0 <= y < 32 && !g[y][x] && sprite_pixel(sprite, ox, oy, x, y) {
        let (x, y) = choose|x: int, y: int|
            0 <= x < 64 && 0 <= y < 32 && !g[y][x] && sprite_pixel(sprite, ox, oy, x, y);
        assert(erased_at(once, sprite, ox, oy, x, y));
    }
}

/// On a blank grid the first draw of a sprite reports no collision, and drawing it
/// again at the same origin reports one exactly if the sprite shows a lit pixel.
pub proof fn lemma_draw_twice_on_blank(sprite: Seq<u8>, ox: int, oy: int)
    ensures
        !collides(blank_grid(), sprite, ox, oy),
        collides(draw(blank_grid(), sprite, ox, oy), sprite, ox, oy) == visible(sprite, ox, oy),
        draw(draw(blank_grid(), sprite, ox, oy), sprite, ox, oy) == blank_grid(),
{
    let g = blank_grid();
    lemma_draw_twice_restores(g, sprite, ox, oy);
    if collides(g, sprite, ox, oy) {
        let (x, y) = choose|x: int, y: int| erased_at(g, sprite, ox, oy, x, y);
        assert(!g[y][x]);
    }
    if visible(sprite, ox, oy) {
        let (x, y) = choose|x: int, y: int|
            0 <= x < 64 && 0 <= y < 32 && sprite_pixel(sprite, ox, oy, x, y);
        assert(0 <= x < 64 && 0 <= y < 32 && !g[y][x] && sprite_pixel(sprite, ox, oy, x, y));
    }
    if exists|x: int, y: int|
        0 <= x < 64 && 0 <= y < 32 && !g[y][x] && sprite_pixel(sprite, ox, oy, x, y) {
        let (x, y) = choose|x: int, y: int|
            0 <= x < 64 && 0 <= y < 32 && !g[y][x] && sprite_pixel(sprite, ox, oy, x, y);
        assert(0 <= x < 64 && 0 <= y < 32 && sprite_pixel(sprite, ox, oy, x, y));
    }
}

/// A display with every pixel off.
pub fn blank() -> (d: Display)
    ensures
        grid_view(d) == blank_grid(),
{
    let d: Display = [[false; 64]; 32];
    assert(grid_view(d) =~~= blank_grid());
    d
}

/// Tests the pixel of a sprite row in column `col`.
fn bit_of(byte: u8, col: u8) -> (b: bool)
    requires
        col < 8,
    ensures
        b == sprite_bit(byte, col as int),
{
    (byte >> (7 - col)) & 1 == 1
}

/// Draws a sprite at `(ox, oy)` by XOR and reports whether a lit pixel was turned
/// off. Rows and columns past the edge of the display are dropped.
pub fn draw_sprite(display: &mut Display, sprite: &[u8], ox: u8, oy: u8) -> (collision: bool)
    ensures
        grid_view(*final(display)) == draw(grid_view(*old(display)), sprite@, ox as int, oy as int),
        collision == collides(grid_view(*old(display)), sprite@, ox as int, oy as int),
{
    let ghost g = grid_view(*display);
    let ghost sp = sprite@;
    let mut collision = false;
    let mut i: usize = 0;
    while i < sprite.len() && (oy as usize) + i < 32
        invariant
            sp == sprite@,
            g == grid_view(*old(display)),
            i <= sprite.len(),
            i <= 32,
            collision == collides_within(g, sp, ox as int, oy as int, i as int, 0),
            forall|x: int, y: int|
                0 <= x < 64 && 0 <= y < 32 ==> #[trigger] display@[y]@[x] == (if y < oy + i {
                    g[y][x] ^ sprite_pixel(sp, ox as int, oy as int, x, y)
                } else {
                    g[y][x]
                }),
        decreases sprite.len() - i,
    {
        let y: usize = oy as usize + i;
        let byte: u8 = sprite[i];
        let mut j: u8 = 0;
        while j < 8 && ox as usize + (j as usize) < 64
            invariant
                sp == sprite@,
                i < sprite.len(),
                y == oy + i,
                y < 32,
                byte == sp[i as int],
                j <= 8,
                collision == collides_within(g, sp, ox as int, oy as int, i as int, j as int),
                forall|x: int, yy: int|
                    0 <= x < 64 && 0 <= yy < 32 ==> #[trigger] display@[yy]@[x] == (if yy < y || (yy
                        == y && x < ox + j) {
                        g[yy][x] ^ sprite_pixel(sp, ox as int, oy as int, x, yy)
                    } else {
                        g[yy][x]
                    }),
            decreases 8 - j,
        {
            let x: usize = ox as usize + j as usize;
            let bit = bit_of(byte, j);
            let lit = display[y][x];
            assert(lit == g[y as int][x as int]);
            assert(bit == sprite_pixel(sp, ox as int, oy as int, x as int, y as int));
            proof {
                let before = collides_within(g, sp, ox as int, oy as int, i as int, j as int);
                let after = collides_within(g, sp, ox as int, oy as int, i as int, j + 1);
                if lit && bit {
                    assert(erased_at(g, sp, ox as int, oy as int, x as int, y as int));
                    assert(after);
                } else {
                    if after {
                        let (cx, cy) = choose|cx: int, cy: int|
                            erased_at(g, sp, ox as int, oy as int, cx, cy) && (cy < oy + i || (cy
                                == oy + i && cx < ox + (j + 1)));
                        assert(!(cx == x && cy == y));
                        assert(erased_at(g, sp, ox as int, oy as int, cx, cy) && (cy < oy + i || (cy
                            == oy + i && cx < ox + j)));
                        assert(before);
                    }
                }
                if before {
                    let (cx, cy) = choose|cx: int, cy: int|
                        erased_at(g, sp, ox as int, oy as int, cx, cy) && (cy < oy + i || (cy == oy
                            + i && cx < ox + j));
                    assert(erased_at(g, sp, ox as int, oy as int, cx, cy) && (cy < oy + i || (cy
                        == oy + i && cx < ox + (j + 1))));
                    assert(after);
                }
            }
            if lit && bit {
                collision = true;
            }
            display[y][x] = lit ^ bit;
            j = j + 1;
        }
        proof {
            // What is left of this row lies beyond the sprite or beyond the display.
            let done = collides_within(g, sp, ox as int, oy as int, i as int, j as int);
            let next = collides_within(g, sp, ox as int, oy as int, i + 1, 0);
            if done {
                let (cx, cy) = choose|cx: int, cy: int|
                    erased_at(g, sp, ox as int, oy as int, cx, cy) && (cy < oy + i || (cy == oy + i
                        && cx < ox + j));
                assert(erased_at(g, sp, ox as int, oy as int, cx, cy) && (cy < oy + (i + 1) || (cy
                    == oy + (i + 1) && cx < ox + 0)));
            }
            if next {
                let (cx, cy) = choose|cx: int, cy: int|
                    erased_at(g, sp, ox as int, oy as int, cx, cy) && (cy < oy + (i + 1) || (cy
                        == oy + (i + 1) && cx < ox + 0));
                assert(erased_at(g, sp, ox as int, oy as int, cx, cy) && (cy < oy + i || (cy == oy
                    + i && cx < ox + j)));
            }
        }
        i = i + 1;
    }
    proof {
        let all = collides(g, sp, ox as int, oy as int);
        let seen = collides_within(g, sp, ox as int, oy as int, i as int, 0);
        if all {
            let (cx, cy) = choose|cx: int, cy: int| erased_at(g, sp, ox as int, oy as int, cx, cy);
            assert(erased_at(g, sp, ox as int, oy as int, cx, cy) && (cy < oy + i || (cy == oy + i
                && cx < ox + 0)));
        }
        assert(seen ==> all);
        assert forall|y: int| 0 <= y < 32 implies #[trigger] grid_view(*display)[y] =~= draw(
            g,
            sp,
            ox as int,
            oy as int,
        )[y] by {
            assert forall|x: int| 0 <= x < 64 implies grid_view(*display)[y][x] == draw(
                g,
                sp,
                ox as int,
                oy as int,
            )[y][x] by {
                assert(display@[y]@[x] == g[y][x] ^ sprite_pixel(sp, ox as int, oy as int, x, y)
                    || y >= oy + i);
            }
        }
        assert(grid_view(*display) =~= draw(g, sp, ox as int, oy as int));
    }
    collision
}

} // verus!
