//! Laws of the instruction semantics, proved for all inputs.
use vstd::prelude::*;

use crate::exec::draw_row;
use crate::exec::draw_sprite;
use crate::exec::spec_exec;
use crate::exec::wrap_add8;
use crate::exec::wrap_sub8;
use crate::instr::spec_decode;
use crate::instr::Instr;
use crate::step_spec;
use crate::Chip8Error;
use crate::EmuView;
use crate::RAM_SIZE;

verus! {

/// Law: add-with-carry sets VF to 1 exactly when Vx + Vy overflows eight
/// bits, and Vx (when it is not the flag register itself, which the flag
/// overwrites) becomes the wrapped sum.
pub proof fn lemma_add_reg_carry(pre: EmuView, x: usize, y: usize, rnd: u8)
    requires
        pre.wf(),
        x < 16,
        y < 16,
    ensures
        spec_exec(pre, Instr::AddReg(x, y), rnd) matches Ok(post) && {
            &&& post.v[15] == if pre.v[x as int] + pre.v[y as int] > 255 {
                1u8
            } else {
                0u8
            }
            &&& x != 15 ==> post.v[x as int] == wrap_add8(pre.v[x as int], pre.v[y as int])
        },
{
}

/// Law: subtract-with-borrow sets VF to 1 exactly when Vx >= Vy (no borrow),
/// and Vx (when it is not the flag register itself, which the flag
/// overwrites) becomes the wrapped difference.
pub proof fn lemma_sub_reg_borrow(pre: EmuView, x: usize, y: usize, rnd: u8)
    requires
        pre.wf(),
        x < 16,
        y < 16,
    ensures
        spec_exec(pre, Instr::SubReg(x, y), rnd) matches Ok(post) && {
            &&& post.v[15] == if pre.v[x as int] >= pre.v[y as int] {
                1u8
            } else {
                0u8
            }
            &&& x != 15 ==> post.v[x as int] == wrap_sub8(pre.v[x as int], pre.v[y as int])
        },
{
}

/// Whether bit `k` (counted from the most significant) of a sprite byte is set.
pub open spec fn bit_set(p: u8, k: int) -> bool {
    p & (0x80u8 >> (k as u8)) != 0
}

/// The framebuffer index that bit `k` of a sprite row at column `xc` in
/// framebuffer row `yrow` lands on.
pub open spec fn row_pos(xc: u8, yrow: int, k: int) -> int {
    (xc + k) % 64 + yrow * 64
}

/// Whether any of the bits `xl` onward of a sprite row toggles pixel `idx`.
pub open spec fn row_hits(p: u8, xc: u8, yrow: int, xl: int, idx: int) -> bool {
    exists|k: int| xl <= k < 8 && bit_set(p, k) && row_pos(xc, yrow, k) == idx
}

/// Whether any bit of sprite rows `yl` onward toggles pixel `idx`.
pub open spec fn sprite_hits(
    ram: Seq<u8>,
    i: int,
    xc: u8,
    yc: u8,
    n: int,
    yl: int,
    idx: int,
) -> bool {
    exists|l: int, k: int|
        yl <= l < n && 0 <= k < 8 && #[trigger] bit_set(ram[i + l], k) && #[trigger] row_pos(
            xc,
            (yc + l) % 32,
            k,
        ) == idx
}

/// Two distinct bits of one sprite row land on distinct pixels: their
/// columns differ modulo 64 because the bit offsets differ by less than 64.
proof fn lemma_row_pos_distinct(xc: u8, yrow: int, k1: int, k2: int)
    requires
        0 <= k1 < k2 < 8,
    ensures
        row_pos(xc, yrow, k1) != row_pos(xc, yrow, k2),
{
    vstd::arithmetic::div_mod::lemma_mod_bound(xc + k1, 64);
    vstd::arithmetic::div_mod::lemma_mod_bound(xc + k2, 64);
    vstd::arithmetic::div_mod::lemma_fundamental_div_mod(xc + k1, 64);
    vstd::arithmetic::div_mod::lemma_fundamental_div_mod(xc + k2, 64);
}

/// Two distinct rows of one sprite land in distinct framebuffer rows: the
/// row offsets differ by less than 32, so they differ modulo 32.
proof fn lemma_sprite_row_distinct(yc: u8, l1: int, l2: int)
    requires
        0 <= l1 < l2,
        l2 - l1 < 32,
    ensures
        (yc + l1) % 32 != (yc + l2) % 32,
{
    vstd::arithmetic::div_mod::lemma_mod_bound(yc + l1, 32);
    vstd::arithmetic::div_mod::lemma_mod_bound(yc + l2, 32);
    vstd::arithmetic::div_mod::lemma_fundamental_div_mod(yc + l1, 32);
    vstd::arithmetic::div_mod::lemma_fundamental_div_mod(yc + l2, 32);
}

/// Pixel positions in distinct framebuffer rows are distinct indices.
proof fn lemma_pos_band(xc1: u8, xc2: u8, yr1: int, yr2: int, k1: int, k2: int)
    requires
        0 <= yr1 < 32,
        0 <= yr2 < 32,
        yr1 != yr2,
    ensures
        row_pos(xc1, yr1, k1) != row_pos(xc2, yr2, k2),
{
    vstd::arithmetic::div_mod::lemma_mod_bound(xc1 + k1, 64);
    vstd::arithmetic::div_mod::lemma_mod_bound(xc2 + k2, 64);
}

/// Pointwise account of drawing one sprite row: a pixel is toggled exactly
/// when some set bit lands on it, and a collision is reported exactly when
/// some set bit lands on a pixel that was set beforehand.
proof fn lemma_draw_row_char(s: Seq<bool>, p: u8, xc: u8, yrow: int, xl: int)
    requires
        s.len() == 2048,
        0 <= xl <= 8,
        0 <= yrow < 32,
    ensures
        draw_row(s, p, xc, yrow, xl).0.len() == 2048,
        forall|idx: int|
            0 <= idx < 2048 ==> draw_row(s, p, xc, yrow, xl).0[idx] == (if row_hits(
                p,
                xc,
                yrow,
                xl,
                idx,
            ) {
                !s[idx]
            } else {
                s[idx]
            }),
        draw_row(s, p, xc, yrow, xl).1 == exists|k: int|
            xl <= k < 8 && bit_set(p, k) && s[row_pos(xc, yrow, k)],
    decreases 8 - xl,
{
    if xl >= 8 {
        assert(forall|idx: int| !row_hits(p, xc, yrow, xl, idx));
    } else {
        assert forall|k: int| 0 <= k < 8 implies 0 <= #[trigger] row_pos(xc, yrow, k) < 2048 by {
            vstd::arithmetic::div_mod::lemma_mod_bound(xc + k, 64);
        }
        if bit_set(p, xl) {
            let idx0 = row_pos(xc, yrow, xl);
            let s1 = s.update(idx0, !s[idx0]);
            lemma_draw_row_char(s1, p, xc, yrow, xl + 1);
            assert forall|k: int| xl < k < 8 implies #[trigger] row_pos(xc, yrow, k) != idx0 by {
                lemma_row_pos_distinct(xc, yrow, xl, k);
            }
            assert(!row_hits(p, xc, yrow, xl + 1, idx0));
            // the hit sets agree: bit xl adds exactly the pixel idx0
            assert forall|idx: int| 0 <= idx < 2048 implies row_hits(p, xc, yrow, xl, idx) == (idx
                == idx0 || row_hits(p, xc, yrow, xl + 1, idx)) by {
                if row_hits(p, xc, yrow, xl, idx) {
                    let k = choose|k: int|
                        xl <= k < 8 && bit_set(p, k) && row_pos(xc, yrow, k) == idx;
                    if k != xl {
                        assert(xl + 1 <= k < 8 && bit_set(p, k) && row_pos(xc, yrow, k) == idx);
                    }
                }
                if idx == idx0 {
                    assert(xl <= xl < 8 && bit_set(p, xl) && row_pos(xc, yrow, xl) == idx);
                }
                if row_hits(p, xc, yrow, xl + 1, idx) {
                    let k = choose|k: int|
                        xl + 1 <= k < 8 && bit_set(p, k) && row_pos(xc, yrow, k) == idx;
                    assert(xl <= k < 8 && bit_set(p, k) && row_pos(xc, yrow, k) == idx);
                }
            }
            // collisions: bit xl contributes s[idx0]; later bits read pixels
            // the toggle of idx0 did not touch
            assert(draw_row(s, p, xc, yrow, xl).1 == (s[idx0] || draw_row(s1, p, xc, yrow, xl
                + 1).1));
            assert((exists|k: int| xl <= k < 8 && bit_set(p, k) && s[row_pos(xc, yrow, k)]) == (
            s[idx0] || exists|k: int| xl + 1 <= k < 8 && bit_set(p, k) && s1[row_pos(xc, yrow, k)]))
                by {
                if exists|k: int| xl <= k < 8 && bit_set(p, k) && s[row_pos(xc, yrow, k)] {
                    let k = choose|k: int| xl <= k < 8 && bit_set(p, k) && s[row_pos(xc, yrow, k)];
                    if k != xl {
                        assert(s1[row_pos(xc, yrow, k)] == s[row_pos(xc, yrow, k)]);
                        assert(xl + 1 <= k < 8 && bit_set(p, k) && s1[row_pos(xc, yrow, k)]);
                    }
                }
                if exists|k: int| xl + 1 <= k < 8 && bit_set(p, k) && s1[row_pos(xc, yrow, k)] {
                    let k = choose|k: int|
                        xl + 1 <= k < 8 && bit_set(p, k) && s1[row_pos(xc, yrow, k)];
                    assert(s[row_pos(xc, yrow, k)] == s1[row_pos(xc, yrow, k)]);
                    assert(xl <= k < 8 && bit_set(p, k) && s[row_pos(xc, yrow, k)]);
                }
                if s[idx0] {
                    assert(xl <= xl < 8 && bit_set(p, xl) && s[row_pos(xc, yrow, xl)]);
                }
            }
            assert forall|idx: int| 0 <= idx < 2048 implies draw_row(s, p, xc, yrow, xl).0[idx]
                == (if row_hits(p, xc, yrow, xl, idx) {
                !s[idx]
            } else {
                s[idx]
            }) by {
                assert(draw_row(s, p, xc, yrow, xl).0 == draw_row(s1, p, xc, yrow, xl + 1).0);
                if idx == idx0 {
                    assert(!row_hits(p, xc, yrow, xl + 1, idx0));
                    assert(draw_row(s1, p, xc, yrow, xl + 1).0[idx0] == s1[idx0]);
                } else {
                    assert(s1[idx] == s[idx]);
                }
            }
        } else {
            lemma_draw_row_char(s, p, xc, yrow, xl + 1);
            assert forall|idx: int| 0 <= idx < 2048 implies row_hits(p, xc, yrow, xl, idx)
                == row_hits(p, xc, yrow, xl + 1, idx) by {
                if row_hits(p, xc, yrow, xl, idx) {
                    let k = choose|k: int|
                        xl <= k < 8 && bit_set(p, k) && row_pos(xc, yrow, k) == idx;
                    assert(k != xl);
                    assert(xl + 1 <= k < 8 && bit_set(p, k) && row_pos(xc, yrow, k) == idx);
                }
                if row_hits(p, xc, yrow, xl + 1, idx) {
                    let k = choose|k: int|
                        xl + 1 <= k < 8 && bit_set(p, k) && row_pos(xc, yrow, k) == idx;
                    assert(xl <= k < 8 && bit_set(p, k) && row_pos(xc, yrow, k) == idx);
                }
            }
            assert((exists|k: int| xl <= k < 8 && bit_set(p, k) && s[row_pos(xc, yrow, k)]) == (
            exists|k: int| xl + 1 <= k < 8 && bit_set(p, k) && s[row_pos(xc, yrow, k)])) by {
                if exists|k: int| xl <= k < 8 && bit_set(p, k) && s[row_pos(xc, yrow, k)] {
                    let k = choose|k: int| xl <= k < 8 && bit_set(p, k) && s[row_pos(xc, yrow, k)];
                    assert(k != xl);
                    assert(xl + 1 <= k < 8 && bit_set(p, k) && s[row_pos(xc, yrow, k)]);
                }
            }
            assert forall|idx: int| 0 <= idx < 2048 implies draw_row(s, p, xc, yrow, xl).0[idx]
                == (if row_hits(p, xc, yrow, xl, idx) {
                !s[idx]
            } else {
                s[idx]
            }) by {
                assert(draw_row(s, p, xc, yrow, xl).0 == draw_row(s, p, xc, yrow, xl + 1).0);
            }
        }
    }
}

/// Pointwise account of drawing a whole sprite: a pixel is toggled exactly
/// when some set bit of some row lands on it, and a collision is reported
/// exactly when some set bit lands on a pixel that was set before the draw.
proof fn lemma_draw_sprite_char(s: Seq<bool>, ram: Seq<u8>, i: int, xc: u8, yc: u8, n: int, yl: int)
    requires
        s.len() == 2048,
        ram.len() == 4096,
        0 <= yl <= n,
        n <= 15,
        0 <= i,
        n > 0 ==> i + n <= 4096,
    ensures
        draw_sprite(s, ram, i, xc, yc, n, yl).0.len() == 2048,
        forall|idx: int|
            0 <= idx < 2048 ==> draw_sprite(s, ram, i, xc, yc, n, yl).0[idx] == (if sprite_hits(
                ram,
                i,
                xc,
                yc,
                n,
                yl,
                idx,
            ) {
                !s[idx]
            } else {
                s[idx]
            }),
        draw_sprite(s, ram, i, xc, yc, n, yl).1 == exists|l: int, k: int|
            yl <= l < n && 0 <= k < 8 && #[trigger] bit_set(ram[i + l], k) && s[#[trigger] row_pos(
                xc,
                (yc + l) % 32,
                k,
            )],
    decreases n - yl,
{
    if yl >= n {
        assert(forall|idx: int| !sprite_hits(ram, i, xc, yc, n, yl, idx));
    } else {
        let p = ram[i + yl];
        let yrow = (yc + yl) % 32;
        vstd::arithmetic::div_mod::lemma_mod_bound(yc + yl, 32);
        lemma_draw_row_char(s, p, xc, yrow, 0);
        let s1 = draw_row(s, p, xc, yrow, 0).0;
        lemma_draw_sprite_char(s1, ram, i, xc, yc, n, yl + 1);
        // later rows land in other framebuffer rows, so their pixels kept
        // their pre-row values and their hits are disjoint from this row's
        assert forall|l: int, k: int| yl < l < n && 0 <= k < 8 implies (yc + l) % 32 != yrow && (
        0 <= #[trigger] row_pos(xc, (yc + l) % 32, k) < 2048) && s1[row_pos(xc, (yc + l) % 32, k)]
            == s[row_pos(xc, (yc + l) % 32, k)] by {
            lemma_sprite_row_distinct(yc, yl, l);
            vstd::arithmetic::div_mod::lemma_mod_bound(yc + l, 32);
            vstd::arithmetic::div_mod::lemma_mod_bound(xc + k, 64);
            let pos = row_pos(xc, (yc + l) % 32, k);
            assert(!row_hits(p, xc, yrow, 0, pos)) by {
                if row_hits(p, xc, yrow, 0, pos) {
                    let k2 = choose|k2: int|
                        0 <= k2 < 8 && bit_set(p, k2) && row_pos(xc, yrow, k2) == pos;
                    lemma_pos_band(xc, xc, yrow, (yc + l) % 32, k2, k);
                }
            }
        }
        // the hit sets combine row by row
        assert forall|idx: int| 0 <= idx < 2048 implies sprite_hits(ram, i, xc, yc, n, yl, idx) == (
        row_hits(p, xc, yrow, 0, idx) || sprite_hits(ram, i, xc, yc, n, yl + 1, idx)) by {
            if sprite_hits(ram, i, xc, yc, n, yl, idx) {
                let (l, k) = choose|l: int, k: int|
                    yl <= l < n && 0 <= k < 8 && #[trigger] bit_set(ram[i + l], k) && #[trigger] row_pos(
                        xc,
                        (yc + l) % 32,
                        k,
                    ) == idx;
                if l == yl {
                    assert(row_hits(p, xc, yrow, 0, idx));
                } else {
                    assert(yl + 1 <= l < n && 0 <= k < 8 && bit_set(ram[i + l], k) && row_pos(
                        xc,
                        (yc + l) % 32,
                        k,
                    ) == idx);
                }
            }
            if row_hits(p, xc, yrow, 0, idx) {
                let k = choose|k: int| 0 <= k < 8 && bit_set(p, k) && row_pos(xc, yrow, k) == idx;
                assert(yl <= yl < n && 0 <= k < 8 && bit_set(ram[i + yl], k) && row_pos(
                    xc,
                    (yc + yl) % 32,
                    k,
                ) == idx);
            }
            if sprite_hits(ram, i, xc, yc, n, yl + 1, idx) {
                let (l, k) = choose|l: int, k: int|
                    yl + 1 <= l < n && 0 <= k < 8 && #[trigger] bit_set(ram[i + l], k) && #[trigger] row_pos(
                        xc,
                        (yc + l) % 32,
                        k,
                    ) == idx;
                assert(yl <= l < n && 0 <= k < 8 && bit_set(ram[i + l], k) && row_pos(
                    xc,
                    (yc + l) % 32,
                    k,
                ) == idx);
            }
        }
        // a pixel this row toggles is toggled by no later row
        assert forall|idx: int|
            0 <= idx < 2048 && row_hits(p, xc, yrow, 0, idx) implies !sprite_hits(
            ram,
            i,
            xc,
            yc,
            n,
            yl + 1,
            idx,
        ) by {
            let k = choose|k: int| 0 <= k < 8 && bit_set(p, k) && row_pos(xc, yrow, k) == idx;
            if sprite_hits(ram, i, xc, yc, n, yl + 1, idx) {
                let (l2, k2) = choose|l2: int, k2: int|
                    yl + 1 <= l2 < n && 0 <= k2 < 8 && #[trigger] bit_set(ram[i + l2], k2) && #[trigger] row_pos(
                        xc,
                        (yc + l2) % 32,
                        k2,
                    ) == idx;
                lemma_sprite_row_distinct(yc, yl, l2);
                vstd::arithmetic::div_mod::lemma_mod_bound(yc + l2, 32);
                lemma_pos_band(xc, xc, yrow, (yc + l2) % 32, k, k2);
            }
        }
        // collision flags combine row by row over the original framebuffer
        assert((exists|l: int, k: int|
            yl <= l < n && 0 <= k < 8 && #[trigger] bit_set(ram[i + l], k) && s[#[trigger] row_pos(xc, (yc + l) % 32, k)])
            == (draw_row(s, p, xc, yrow, 0).1 || exists|l: int, k: int|
            yl + 1 <= l < n && 0 <= k < 8 && #[trigger] bit_set(ram[i + l], k) && s1[#[trigger] row_pos(
                xc,
                (yc + l) % 32,
                k,
            )])) by {
            if exists|l: int, k: int|
                yl <= l < n && 0 <= k < 8 && #[trigger] bit_set(ram[i + l], k) && s[#[trigger] row_pos(
                    xc,
                    (yc + l) % 32,
                    k,
                )] {
                let (l, k) = choose|l: int, k: int|
                    yl <= l < n && 0 <= k < 8 && #[trigger] bit_set(ram[i + l], k) && s[#[trigger] row_pos(
                        xc,
                        (yc + l) % 32,
                        k,
                    )];
                if l == yl {
                    assert(0 <= k < 8 && bit_set(p, k) && s[row_pos(xc, yrow, k)]);
                } else {
                    assert(yl + 1 <= l < n && 0 <= k < 8 && #[trigger] bit_set(ram[i + l], k) && s1[#[trigger] row_pos(
                        xc,
                        (yc + l) % 32,
                        k,
                    )]);
                }
            }
            if draw_row(s, p, xc, yrow, 0).1 {
                let k = choose|k: int| 0 <= k < 8 && bit_set(p, k) && s[row_pos(xc, yrow, k)];
                assert(yl <= yl < n && 0 <= k < 8 && bit_set(ram[i + yl], k) && s[row_pos(
                    xc,
                    (yc + yl) % 32,
                    k,
                )]);
            }
            if exists|l: int, k: int|
                yl + 1 <= l < n && 0 <= k < 8 && #[trigger] bit_set(ram[i + l], k) && s1[#[trigger] row_pos(
                    xc,
                    (yc + l) % 32,
                    k,
                )] {
                let (l, k) = choose|l: int, k: int|
                    yl + 1 <= l < n && 0 <= k < 8 && #[trigger] bit_set(ram[i + l], k) && s1[#[trigger] row_pos(
                        xc,
                        (yc + l) % 32,
                        k,
                    )];
                assert(yl <= l < n && 0 <= k < 8 && #[trigger] bit_set(ram[i + l], k) && s[#[trigger] row_pos(
                    xc,
                    (yc + l) % 32,
                    k,
                )]);
            }
        }
    }
}

/// Law: drawing the same sprite twice at the same coordinates restores the
/// framebuffer (XOR idempotence), and the second draw reports a collision
/// exactly when some set sprite bit lands on a pixel the first draw set,
/// that is, one that was clear before both draws.
pub proof fn lemma_draw_twice(s: Seq<bool>, ram: Seq<u8>, i: int, xc: u8, yc: u8, n: int)
    requires
        s.len() == 2048,
        ram.len() == 4096,
        0 <= n <= 15,
        0 <= i,
        n > 0 ==> i + n <= 4096,
    ensures
        ({
            let first = draw_sprite(s, ram, i, xc, yc, n, 0);
            let second = draw_sprite(first.0, ram, i, xc, yc, n, 0);
            &&& second.0 == s
            &&& second.1 == exists|l: int, k: int|
                0 <= l < n && 0 <= k < 8 && #[trigger] bit_set(ram[i + l], k) && !s[#[trigger] row_pos(
                    xc,
                    (yc + l) % 32,
                    k,
                )]
        }),
{
    let first = draw_sprite(s, ram, i, xc, yc, n, 0);
    let second = draw_sprite(first.0, ram, i, xc, yc, n, 0);
    lemma_draw_sprite_char(s, ram, i, xc, yc, n, 0);
    lemma_draw_sprite_char(first.0, ram, i, xc, yc, n, 0);
    assert forall|l: int, k: int| 0 <= l < n && 0 <= k < 8 implies 0 <= #[trigger] row_pos(
        xc,
        (yc + l) % 32,
        k,
    ) < 2048 by {
        vstd::arithmetic::div_mod::lemma_mod_bound(yc + l, 32);
        vstd::arithmetic::div_mod::lemma_mod_bound(xc + k, 64);
    }
    assert forall|idx: int| 0 <= idx < 2048 implies second.0[idx] == s[idx] by {
        if sprite_hits(ram, i, xc, yc, n, 0, idx) {
            assert(first.0[idx] == !s[idx]);
            assert(second.0[idx] == !first.0[idx]);
        }
    }
    assert(second.0 =~= s);
    assert(second.1 == exists|l: int, k: int|
        0 <= l < n && 0 <= k < 8 && #[trigger] bit_set(ram[i + l], k) && !s[#[trigger] row_pos(xc, (yc + l) % 32, k)])
        by {
        if second.1 {
            let (l, k) = choose|l: int, k: int|
                0 <= l < n && 0 <= k < 8 && #[trigger] bit_set(ram[i + l], k) && first.0[#[trigger] row_pos(
                    xc,
                    (yc + l) % 32,
                    k,
                )];
            let pos = row_pos(xc, (yc + l) % 32, k);
            assert(sprite_hits(ram, i, xc, yc, n, 0, pos));
            assert(first.0[pos] == !s[pos]);
            assert(0 <= l < n && 0 <= k < 8 && bit_set(ram[i + l], k) && !s[pos]);
        }
        if exists|l: int, k: int|
            0 <= l < n && 0 <= k < 8 && #[trigger] bit_set(ram[i + l], k) && !s[#[trigger] row_pos(xc, (yc + l) % 32, k)] {
            let (l, k) = choose|l: int, k: int|
                0 <= l < n && 0 <= k < 8 && #[trigger] bit_set(ram[i + l], k) && !s[#[trigger] row_pos(
                    xc,
                    (yc + l) % 32,
                    k,
                )];
            let pos = row_pos(xc, (yc + l) % 32, k);
            assert(sprite_hits(ram, i, xc, yc, n, 0, pos));
            assert(first.0[pos] == !s[pos]);
            assert(0 <= l < n && 0 <= k < 8 && bit_set(ram[i + l], k) && first.0[pos]);
        }
    }
}

/// Law: executing the same draw instruction twice in a row restores the
/// framebuffer, and the second execution raises the collision flag exactly
/// when some set sprite bit landed on a pixel that was clear before the
/// first draw (the first draw set it; the second unsets it). The coordinate
/// registers must not be the flag register, which the first draw overwrites.
pub proof fn lemma_draw_instr_twice(pre: EmuView, x: usize, y: usize, n: u8, rnd: u8)
    requires
        pre.wf(),
        x < 15,
        y < 15,
        n < 16,
        n > 0 ==> pre.i + n <= 4096,
    ensures
        ({
            let r1 = spec_exec(pre, Instr::Draw(x, y, n), rnd);
            r1 matches Ok(mid) && {
                let r2 = spec_exec(mid, Instr::Draw(x, y, n), rnd);
                r2 matches Ok(post) && {
                    &&& post.screen == pre.screen
                    &&& post.v[15] == (if exists|l: int, k: int|
                        0 <= l < n && 0 <= k < 8 && #[trigger] bit_set(pre.ram[pre.i + l], k)
                            && !pre.screen[#[trigger] row_pos(
                            pre.v[x as int],
                            (pre.v[y as int] + l) % 32,
                            k,
                        )] {
                        1u8
                    } else {
                        0u8
                    })
                }
            }
        }),
{
    lemma_draw_twice(pre.screen, pre.ram, pre.i as int, pre.v[x as int], pre.v[y as int], n as int);
}

/// Law: a machine after `reset` and a freshly constructed machine are
/// byte-for-byte identical: the contracts of `Emulator::reset` and
/// `Emulator::new` both pin the state to `initial_view()`, so the two
/// states are one.
pub proof fn lemma_reset_matches_fresh(after_reset: EmuView, fresh: EmuView)
    requires
        after_reset == crate::initial_view(),
        fresh == crate::initial_view(),
    ensures
        after_reset == fresh,
{
}

/// Law: one cycle on a two-byte no-operation leaves every part of the state
/// unchanged except the program counter, which advances by two.
pub proof fn lemma_nop_advances_pc(pre: EmuView, rnd: u8)
    requires
        pre.wf(),
        pre.pc + 1 < RAM_SIZE,
        pre.ram[pre.pc as int] == 0,
        pre.ram[pre.pc + 1] == 0,
    ensures
        step_spec(pre, rnd) == Ok::<EmuView, Chip8Error>(
            EmuView { pc: (pre.pc + 2) as u16, ..pre },
        ),
{
    let op = ((pre.ram[pre.pc as int] as u16) << 8u16) | (pre.ram[pre.pc + 1] as u16);
    assert(((0u16 as u16) << 8u16) | 0u16 == 0u16) by (bit_vector);
    assert(((0u16 >> 12) & 0xF) == 0 && ((0u16 >> 8) & 0xF) == 0 && ((0u16 >> 4) & 0xF) == 0 && (
    0u16 & 0xF) == 0) by (bit_vector);
    assert(spec_decode(op) == Some(Instr::Nop));
}

/// Law: a subroutine call pushes the address of the instruction after it,
/// and a return with that stack pops execution back to exactly that address.
/// `pre` is the state after the call opcode was fetched, so `pre.pc` is the
/// address of the instruction after the call.
pub proof fn lemma_call_then_ret(pre: EmuView, addr: u16, rnd: u8)
    requires
        pre.wf(),
        pre.sp < 16,
    ensures
        spec_exec(pre, Instr::Call(addr), rnd) matches Ok(mid) && mid.pc == addr && {
            let r = spec_exec(mid, Instr::Ret, rnd);
            r matches Ok(post) && post.pc == pre.pc && post.sp == pre.sp
        },
{
}

} // verus!
