//! Pixel addressing of the procedural star-field texture: stars wrap around
//! horizontally and are held at the top and bottom rows.
use vstd::prelude::*;

verus! {

/// `x` modulo `width`, in `0..width`.
pub open spec fn wrap_column(x: int, width: int) -> int {
    x % width
}

/// `y` held inside `0..height`.
pub open spec fn clamp_row(y: int, height: int) -> int {
    if y < 0 {
        0
    } else if y > height - 1 {
        height - 1
    } else {
        y
    }
}

/// Byte offset of the RGBA texel a star at `(x, y)` lands on in a
/// `width` x `height` image, or `None` for an empty image.
pub fn star_texel_offset(width: u32, height: u32, x: i32, y: i32) -> (r: Option<usize>)
    requires
        width <= i32::MAX,
        height <= i32::MAX,
        4 * width * height <= u32::MAX,
    ensures
        width == 0 || height == 0 <==> r is None,
        r matches Some(o) ==> o == 4 * (clamp_row(y as int, height as int) * width + wrap_column(x as int, width as int)),
{
    if height == 0 || width == 0 {
        return None;
    }
    let h = height as i32;
    let wrapped: u32 = if x >= 0 {
        (x as u32) % width
    } else {
        let n: u32 = (-(x as i64)) as u32;
        let r = n % width;
        proof {
            let q = (n / width) as int;
            vstd::arithmetic::div_mod::lemma_fundamental_div_mod(n as int, width as int);
            assert(n as int == q * width + r) by (nonlinear_arith)
                requires
                    n as int == width * (n as int / width as int) + (n as int % width as int),
                    q == n as int / width as int,
                    r == n as int % width as int,
            ;
            if r == 0 {
                assert(x as int == (-q) * width + 0) by (nonlinear_arith)
                    requires
                        n as int == q * width + r,
                        r == 0,
                        x as int == -(n as int),
                ;
                vstd::arithmetic::div_mod::lemma_fundamental_div_mod_converse(x as int, width as int, -q, 0);
            } else {
                assert(x as int == (-q - 1) * width + (width - r)) by (nonlinear_arith)
                    requires
                        n as int == q * width + r,
                        x as int == -(n as int),
                ;
                vstd::arithmetic::div_mod::lemma_fundamental_div_mod_converse(
                    x as int,
                    width as int,
                    -q - 1,
                    (width - r) as int,
                );
            }
        }
        if r == 0 {
            0
        } else {
            width - r
        }
    };
    assert(wrapped == wrap_column(x as int, width as int));
    let row: i32 = if y < 0 {
        0
    } else if y > h - 1 {
        h - 1
    } else {
        y
    };
    let rowu = row as u32;
    let colu = wrapped;
    proof {
        assert(rowu * width + colu < width * height) by (nonlinear_arith)
            requires
                rowu < height,
                colu < width,
        ;
        assert(4 * (rowu * width + colu) < 4 * width * height) by (nonlinear_arith)
            requires
                rowu * width + colu < width * height,
        ;
    }
    Some(((rowu * width + colu) * 4) as usize)
}

/// Offsets and brightness (in percent) of the five texels a star covers: its
/// centre at full strength and its four neighbours at 30%.
pub fn star_pattern() -> (r: [(i32, i32, u8); 5])
    ensures
        r@ == seq![(0i32, 0i32, 100u8), (1, 0, 30), (-1i32, 0, 30), (0, 1, 30), (0, -1i32, 30)],
{
    let r = [(0, 0, 100), (1, 0, 30), (-1i32, 0, 30), (0, 1, 30), (0, -1i32, 30)];
    assert(r@ =~= seq![(0i32, 0i32, 100u8), (1, 0, 30), (-1i32, 0, 30), (0, 1, 30), (0, -1i32, 30)]);
    r
}

} // verus!
