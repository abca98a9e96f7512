//! Instruction semantics: a mathematical interpreter (`spec_exec`) and the
//! verified executor that realizes it.
//!
//! `spec_exec` is applied to a state whose program counter has already been
//! advanced past the fetched instruction, so control-flow effects (skips,
//! the key-wait rewind) are stated against the following instruction.
use vstd::prelude::*;

use crate::instr::Instr;
use crate::Chip8Error;
use crate::EmuView;
use crate::Emulator;
use crate::KEYS_NUM;
use crate::RAM_SIZE;
use crate::REGS_NUM;
use crate::SCREEN_HEIGHT;
use crate::SCREEN_WIDTH;
use crate::STACK_SIZE;

verus! {

/// 8-bit addition that wraps on overflow.
pub open spec fn wrap_add8(a: u8, b: u8) -> u8 {
    if a + b > 255 {
        (a + b - 256) as u8
    } else {
        (a + b) as u8
    }
}

/// 8-bit subtraction that wraps on borrow.
pub open spec fn wrap_sub8(a: u8, b: u8) -> u8 {
    if a - b < 0 {
        (a - b + 256) as u8
    } else {
        (a - b) as u8
    }
}

/// 16-bit addition that wraps on overflow.
pub open spec fn wrap_add16(a: u16, b: u16) -> u16 {
    if a + b > 0xFFFF {
        (a + b - 0x10000) as u16
    } else {
        (a + b) as u16
    }
}

/// The index of the lowest pressed key at or above `k`, or 16 when none is.
pub open spec fn first_pressed(keys: Seq<bool>, k: int) -> int
    decreases 16 - k,
{
    if k < 0 || k >= 16 {
        16
    } else if keys[k] {
        k
    } else {
        first_pressed(keys, k + 1)
    }
}

/// Drawing one sprite row into the framebuffer, bit `xl` onward: each set bit
/// toggles the pixel in row `yrow` at column `(xc + bit) mod 64`. Returns the
/// new framebuffer and whether any toggled pixel was set before its toggle.
pub open spec fn draw_row(s: Seq<bool>, p: u8, xc: u8, yrow: int, xl: int) -> (Seq<bool>, bool)
    decreases 8 - xl,
{
    if xl < 0 || xl >= 8 {
        (s, false)
    } else if p & (0x80u8 >> (xl as u8)) != 0 {
        let idx = (xc + xl) % 64 + yrow * 64;
        let rest = draw_row(s.update(idx, !s[idx]), p, xc, yrow, xl + 1);
        (rest.0, s[idx] || rest.1)
    } else {
        draw_row(s, p, xc, yrow, xl + 1)
    }
}

/// Drawing sprite rows `yl` onward: row `yl` takes its bits from
/// `ram[i + yl]` and lands in framebuffer row `(yc + yl) mod 32`. Returns the
/// new framebuffer and whether any toggled pixel was set before its toggle.
pub open spec fn draw_sprite(
    s: Seq<bool>,
    ram: Seq<u8>,
    i: int,
    xc: u8,
    yc: u8,
    n: int,
    yl: int,
) -> (Seq<bool>, bool)
    decreases n - yl,
{
    if yl < 0 || yl >= n {
        (s, false)
    } else {
        let row = draw_row(s, ram[i + yl], xc, (yc + yl) % 32, 0);
        let rest = draw_sprite(row.0, ram, i, xc, yc, n, yl + 1);
        (rest.0, row.1 || rest.1)
    }
}

/// Memory after registers V0..Vx inclusive are stored at address `i`.
pub open spec fn stored_ram(ram: Seq<u8>, v: Seq<u8>, i: int, x: int) -> Seq<u8> {
    Seq::new(ram.len(), |k: int| if i <= k <= i + x { v[k - i] } else { ram[k] })
}

/// Registers after V0..Vx inclusive are loaded from memory at address `i`.
pub open spec fn loaded_regs(v: Seq<u8>, ram: Seq<u8>, i: int, x: int) -> Seq<u8> {
    Seq::new(v.len(), |k: int| if 0 <= k <= x { ram[i + k] } else { v[k] })
}

/// The effect of one decoded instruction on a machine state whose program
/// counter has already been advanced past it. `rnd` is the byte drawn for a
/// random-number instruction; every other instruction ignores it.
pub open spec fn spec_exec(pre: EmuView, instr: Instr, rnd: u8) -> Result<EmuView, Chip8Error> {
    match instr {
        Instr::Nop => Ok(pre),
        Instr::Cls => Ok(
            EmuView {
                screen: Seq::new((SCREEN_WIDTH * SCREEN_HEIGHT) as nat, |k: int| false),
                ..pre
            },
        ),
        Instr::Ret => {
            if pre.sp == 0 {
                Err(Chip8Error::StackUnderflow)
            } else {
                Ok(EmuView { pc: pre.stack[pre.sp - 1], sp: (pre.sp - 1) as u16, ..pre })
            }
        },
        Instr::Jmp(addr) => Ok(EmuView { pc: addr, ..pre }),
        Instr::Call(addr) => {
            if pre.sp >= STACK_SIZE {
                Err(Chip8Error::StackOverflow)
            } else {
                Ok(
                    EmuView {
                        stack: pre.stack.update(pre.sp as int, pre.pc),
                        sp: (pre.sp + 1) as u16,
                        pc: addr,
                        ..pre
                    },
                )
            }
        },
        Instr::SkipEqByte(x, kk) => Ok(
            EmuView {
                pc: if pre.v[x as int] == kk {
                    (pre.pc + 2) as u16
                } else {
                    pre.pc
                },
                ..pre
            },
        ),
        Instr::SkipNeByte(x, kk) => Ok(
            EmuView {
                pc: if pre.v[x as int] != kk {
                    (pre.pc + 2) as u16
                } else {
                    pre.pc
                },
                ..pre
            },
        ),
        Instr::SkipEqReg(x, y) => Ok(
            EmuView {
                pc: if pre.v[x as int] == pre.v[y as int] {
                    (pre.pc + 2) as u16
                } else {
                    pre.pc
                },
                ..pre
            },
        ),
        Instr::LdByte(x, kk) => Ok(EmuView { v: pre.v.update(x as int, kk), ..pre }),
        Instr::AddByte(x, kk) => Ok(
            EmuView { v: pre.v.update(x as int, wrap_add8(pre.v[x as int], kk)), ..pre },
        ),
        Instr::LdReg(x, y) => Ok(EmuView { v: pre.v.update(x as int, pre.v[y as int]), ..pre }),
        Instr::Or(x, y) => Ok(
            EmuView { v: pre.v.update(x as int, pre.v[x as int] | pre.v[y as int]), ..pre },
        ),
        Instr::And(x, y) => Ok(
            EmuView { v: pre.v.update(x as int, pre.v[x as int] & pre.v[y as int]), ..pre },
        ),
        Instr::Xor(x, y) => Ok(
            EmuView { v: pre.v.update(x as int, pre.v[x as int] ^ pre.v[y as int]), ..pre },
        ),
        Instr::AddReg(x, y) => {
            let v1 = pre.v.update(x as int, wrap_add8(pre.v[x as int], pre.v[y as int]));
            let v2 = v1.update(
                15,
                if pre.v[x as int] + pre.v[y as int] > 255 {
                    1u8
                } else {
                    0u8
                },
            );
            Ok(EmuView { v: v2, ..pre })
        },
        Instr::SubReg(x, y) => {
            let v1 = pre.v.update(x as int, wrap_sub8(pre.v[x as int], pre.v[y as int]));
            let v2 = v1.update(
                15,
                if pre.v[x as int] >= pre.v[y as int] {
                    1u8
                } else {
                    0u8
                },
            );
            Ok(EmuView { v: v2, ..pre })
        },
        Instr::Shr(x) => {
            let v1 = pre.v.update(15, pre.v[x as int] & 1);
            let v2 = v1.update(x as int, v1[x as int] >> 1u8);
            Ok(EmuView { v: v2, ..pre })
        },
        Instr::SubnReg(x, y) => {
            let v1 = pre.v.update(x as int, wrap_sub8(pre.v[y as int], pre.v[x as int]));
            let v2 = v1.update(
                15,
                if pre.v[y as int] < pre.v[x as int] {
                    1u8
                } else {
                    0u8
                },
            );
            Ok(EmuView { v: v2, ..pre })
        },
        Instr::Shl(x) => {
            let v1 = pre.v.update(15, (pre.v[x as int] >> 7u8) & 1);
            let v2 = v1.update(x as int, v1[x as int] << 1u8);
            Ok(EmuView { v: v2, ..pre })
        },
        Instr::SkipNeReg(x, y) => Ok(
            EmuView {
                pc: if pre.v[x as int] != pre.v[y as int] {
                    (pre.pc + 2) as u16
                } else {
                    pre.pc
                },
                ..pre
            },
        ),
        Instr::LdI(addr) => Ok(EmuView { i: addr, ..pre }),
        Instr::JmpV0(addr) => Ok(EmuView { pc: (addr + pre.v[0]) as u16, ..pre }),
        Instr::Rnd(x, kk) => Ok(EmuView { v: pre.v.update(x as int, rnd & kk), ..pre }),
        Instr::Draw(x, y, n) => {
            if n > 0 && pre.i + n > RAM_SIZE {
                Err(Chip8Error::OutOfBounds)
            } else {
                let r = draw_sprite(
                    pre.screen,
                    pre.ram,
                    pre.i as int,
                    pre.v[x as int],
                    pre.v[y as int],
                    n as int,
                    0,
                );
                Ok(
                    EmuView {
                        screen: r.0,
                        v: pre.v.update(
                            15,
                            if r.1 {
                                1u8
                            } else {
                                0u8
                            },
                        ),
                        ..pre
                    },
                )
            }
        },
        Instr::SkipKey(x) => {
            if pre.v[x as int] >= KEYS_NUM {
                Err(Chip8Error::OutOfBounds)
            } else {
                Ok(
                    EmuView {
                        pc: if pre.keys[pre.v[x as int] as int] {
                            (pre.pc + 2) as u16
                        } else {
                            pre.pc
                        },
                        ..pre
                    },
                )
            }
        },
        Instr::SkipNoKey(x) => {
            if pre.v[x as int] >= KEYS_NUM {
                Err(Chip8Error::OutOfBounds)
            } else {
                Ok(
                    EmuView {
                        pc: if !pre.keys[pre.v[x as int] as int] {
                            (pre.pc + 2) as u16
                        } else {
                            pre.pc
                        },
                        ..pre
                    },
                )
            }
        },
        Instr::LdFromDt(x) => Ok(EmuView { v: pre.v.update(x as int, pre.dt), ..pre }),
        Instr::WaitKey(x) => {
            let k = first_pressed(pre.keys, 0);
            if k < 16 {
                Ok(EmuView { v: pre.v.update(x as int, k as u8), ..pre })
            } else {
                Ok(EmuView { pc: (pre.pc - 2) as u16, ..pre })
            }
        },
        Instr::LdDt(x) => Ok(EmuView { dt: pre.v[x as int], ..pre }),
        Instr::LdSt(x) => Ok(EmuView { st: pre.v[x as int], ..pre }),
        Instr::AddI(x) => Ok(EmuView { i: wrap_add16(pre.i, pre.v[x as int] as u16), ..pre }),
        Instr::LdFont(x) => Ok(EmuView { i: (pre.v[x as int] * 5) as u16, ..pre }),
        Instr::Bcd(x) => {
            if pre.i + 3 > RAM_SIZE {
                Err(Chip8Error::OutOfBounds)
            } else {
                let vx = pre.v[x as int] as int;
                let ram1 = pre.ram.update(pre.i as int, (vx / 100) as u8);
                let ram2 = ram1.update(pre.i + 1, ((vx / 10) % 10) as u8);
                let ram3 = ram2.update(pre.i + 2, (vx % 10) as u8);
                Ok(EmuView { ram: ram3, ..pre })
            }
        },
        Instr::StoreRegs(x) => {
            if pre.i + x + 1 > RAM_SIZE {
                Err(Chip8Error::OutOfBounds)
            } else {
                Ok(EmuView { ram: stored_ram(pre.ram, pre.v, pre.i as int, x as int), ..pre })
            }
        },
        Instr::LoadRegs(x) => {
            if pre.i + x + 1 > RAM_SIZE {
                Err(Chip8Error::OutOfBounds)
            } else {
                Ok(EmuView { v: loaded_regs(pre.v, pre.ram, pre.i as int, x as int), ..pre })
            }
        },
    }
}

impl Emulator {
    /// Executes one decoded instruction, exactly as `spec_exec` states; on
    /// an error the machine is left untouched.
    pub(crate) fn exec_instr(&mut self, instr: Instr, rnd: u8) -> (r: Result<(), Chip8Error>)
        requires
            old(self)@.wf(),
            instr.wf(),
            2 <= old(self)@.pc <= RAM_SIZE,
        ensures
            final(self)@.wf(),
            match r {
                Ok(()) => spec_exec(old(self)@, instr, rnd) == Ok::<EmuView, Chip8Error>(
                    final(self)@,
                ),
                Err(e) => final(self)@ == old(self)@ && spec_exec(old(self)@, instr, rnd)
                    == Err::<EmuView, Chip8Error>(e),
            },
    {
        let ghost pre = self@;
        match instr {
            Instr::Nop => {},
            Instr::Cls => {
                self.screen = crate::repeat_val(false, SCREEN_WIDTH * SCREEN_HEIGHT);
            },
            Instr::Ret => {
                if self.sp == 0 {
                    return Err(Chip8Error::StackUnderflow);
                }
                self.sp = self.sp - 1;
                self.pc = self.stack[self.sp as usize];
            },
            Instr::Jmp(addr) => {
                self.pc = addr;
            },
            Instr::Call(addr) => {
                if self.sp as usize >= STACK_SIZE {
                    return Err(Chip8Error::StackOverflow);
                }
                self.stack[self.sp as usize] = self.pc;
                self.sp = self.sp + 1;
                self.pc = addr;
            },
            Instr::SkipEqByte(x, kk) => {
                if self.v_reg[x] == kk {
                    self.pc = self.pc + 2;
                }
            },
            Instr::SkipNeByte(x, kk) => {
                if self.v_reg[x] != kk {
                    self.pc = self.pc + 2;
                }
            },
            Instr::SkipEqReg(x, y) => {
                if self.v_reg[x] == self.v_reg[y] {
                    self.pc = self.pc + 2;
                }
            },
            Instr::LdByte(x, kk) => {
                self.v_reg[x] = kk;
            },
            Instr::AddByte(x, kk) => {
                self.v_reg[x] = self.v_reg[x].wrapping_add(kk);
            },
            Instr::LdReg(x, y) => {
                self.v_reg[x] = self.v_reg[y];
            },
            Instr::Or(x, y) => {
                self.v_reg[x] = self.v_reg[x] | self.v_reg[y];
            },
            Instr::And(x, y) => {
                self.v_reg[x] = self.v_reg[x] & self.v_reg[y];
            },
            Instr::Xor(x, y) => {
                self.v_reg[x] = self.v_reg[x] ^ self.v_reg[y];
            },
            Instr::AddReg(x, y) => {
                let a = self.v_reg[x];
                let b = self.v_reg[y];
                self.v_reg[x] = a.wrapping_add(b);
                self.v_reg[15] = if a as u16 + b as u16 > 255 {
                    1
                } else {
                    0
                };
            },
            Instr::SubReg(x, y) => {
                let a = self.v_reg[x];
                let b = self.v_reg[y];
                self.v_reg[x] = a.wrapping_sub(b);
                self.v_reg[15] = if a >= b {
                    1
                } else {
                    0
                };
            },
            Instr::Shr(x) => {
                self.v_reg[15] = self.v_reg[x] & 1;
                let cur = self.v_reg[x];
                self.v_reg[x] = cur >> 1u8;
            },
            Instr::SubnReg(x, y) => {
                let a = self.v_reg[x];
                let b = self.v_reg[y];
                self.v_reg[x] = b.wrapping_sub(a);
                self.v_reg[15] = if b < a {
                    1
                } else {
                    0
                };
            },
            Instr::Shl(x) => {
                self.v_reg[15] = (self.v_reg[x] >> 7u8) & 1;
                let cur = self.v_reg[x];
                self.v_reg[x] = cur << 1u8;
            },
            Instr::SkipNeReg(x, y) => {
                if self.v_reg[x] != self.v_reg[y] {
                    self.pc = self.pc + 2;
                }
            },
            Instr::LdI(addr) => {
                self.i_reg = addr;
            },
            Instr::JmpV0(addr) => {
                self.pc = addr + self.v_reg[0] as u16;
            },
            Instr::Rnd(x, kk) => {
                self.v_reg[x] = rnd & kk;
            },
            Instr::Draw(x, y, n) => {
                let r = self.exec_draw(x, y, n);
                if let Err(e) = r {
                    return Err(e);
                }
            },
            Instr::SkipKey(x) => {
                let vx = self.v_reg[x];
                if vx as usize >= KEYS_NUM {
                    return Err(Chip8Error::OutOfBounds);
                }
                if self.keys[vx as usize] {
                    self.pc = self.pc + 2;
                }
            },
            Instr::SkipNoKey(x) => {
                let vx = self.v_reg[x];
                if vx as usize >= KEYS_NUM {
                    return Err(Chip8Error::OutOfBounds);
                }
                if !self.keys[vx as usize] {
                    self.pc = self.pc + 2;
                }
            },
            Instr::LdFromDt(x) => {
                self.v_reg[x] = self.delay_timer;
            },
            Instr::WaitKey(x) => {
                let mut k: usize = 0;
                while k < KEYS_NUM && !self.keys[k]
                    invariant
                        k <= KEYS_NUM,
                        self == old(self),
                        self@.wf(),
                        first_pressed(self@.keys, 0) == first_pressed(self@.keys, k as int),
                    decreases KEYS_NUM - k,
                {
                    proof {
                        assert(first_pressed(self@.keys, k as int) == first_pressed(
                            self@.keys,
                            k as int + 1,
                        ));
                    }
                    k = k + 1;
                }
                if k < KEYS_NUM {
                    self.v_reg[x] = k as u8;
                } else {
                    self.pc = self.pc - 2;
                }
            },
            Instr::LdDt(x) => {
                self.delay_timer = self.v_reg[x];
            },
            Instr::LdSt(x) => {
                self.sound_timer = self.v_reg[x];
            },
            Instr::AddI(x) => {
                self.i_reg = self.i_reg.wrapping_add(self.v_reg[x] as u16);
            },
            Instr::LdFont(x) => {
                self.i_reg = self.v_reg[x] as u16 * 5;
            },
            Instr::Bcd(x) => {
                let i = self.i_reg as usize;
                if i + 3 > RAM_SIZE {
                    return Err(Chip8Error::OutOfBounds);
                }
                let vx = self.v_reg[x];
                self.ram[i] = vx / 100;
                self.ram[i + 1] = (vx / 10) % 10;
                self.ram[i + 2] = vx % 10;
            },
            Instr::StoreRegs(x) => {
                let i = self.i_reg as usize;
                if i + x + 1 > RAM_SIZE {
                    return Err(Chip8Error::OutOfBounds);
                }
                let mut num: usize = 0;
                while num < x + 1
                    invariant
                        num <= x + 1,
                        x < REGS_NUM,
                        i == pre.i,
                        i + x + 1 <= RAM_SIZE,
                        pre.wf(),
                        self@ == (EmuView { ram: self@.ram, ..pre }),
                        self@.ram.len() == RAM_SIZE,
                        forall|j: int| i <= j < i + num ==> self@.ram[j] == pre.v[j - i],
                        forall|j: int|
                            0 <= j < RAM_SIZE && !(i <= j < i + num) ==> self@.ram[j] == pre.ram[j],
                    decreases x + 1 - num,
                {
                    self.ram[i + num] = self.v_reg[num];
                    num = num + 1;
                }
                proof {
                    assert(self@.ram =~= stored_ram(pre.ram, pre.v, pre.i as int, x as int));
                }
            },
            Instr::LoadRegs(x) => {
                let i = self.i_reg as usize;
                if i + x + 1 > RAM_SIZE {
                    return Err(Chip8Error::OutOfBounds);
                }
                let mut num: usize = 0;
                while num < x + 1
                    invariant
                        num <= x + 1,
                        x < REGS_NUM,
                        i == pre.i,
                        i + x + 1 <= RAM_SIZE,
                        pre.wf(),
                        self@ == (EmuView { v: self@.v, ..pre }),
                        self@.v.len() == REGS_NUM,
                        forall|j: int| 0 <= j < num ==> self@.v[j] == pre.ram[i + j],
                        forall|j: int|
                            0 <= j < REGS_NUM && !(0 <= j < num) ==> self@.v[j] == pre.v[j],
                    decreases x + 1 - num,
                {
                    self.v_reg[num] = self.ram[i + num];
                    num = num + 1;
                }
                proof {
                    assert(self@.v =~= loaded_regs(pre.v, pre.ram, pre.i as int, x as int));
                }
            },
        }
        proof {
            assert(spec_exec(pre, instr, rnd) matches Ok(post) && post =~~= self@);
        }
        Ok(())
    }

    /// Draws one sprite: `n` bytes of memory at I, at position (Vx, Vy), each
    /// set bit toggling a pixel with wraparound on both axes; VF records
    /// whether any pixel was unset by the draw. A draw ignores the random
    /// byte, so its effect is stated with the byte fixed at zero.
    fn exec_draw(&mut self, x: usize, y: usize, n: u8) -> (r: Result<(), Chip8Error>)
        requires
            old(self)@.wf(),
            x < REGS_NUM,
            y < REGS_NUM,
        ensures
            final(self)@.wf(),
            match r {
                Ok(()) => spec_exec(old(self)@, Instr::Draw(x, y, n), 0) == Ok::<
                    EmuView,
                    Chip8Error,
                >(final(self)@),
                Err(e) => final(self)@ == old(self)@ && spec_exec(
                    old(self)@,
                    Instr::Draw(x, y, n),
                    0,
                ) == Err::<EmuView, Chip8Error>(e),
            },
    {
        let ghost pre = self@;
        let n_us = n as usize;
        if n_us > 0 && self.i_reg as usize + n_us > RAM_SIZE {
            return Err(Chip8Error::OutOfBounds);
        }
        let i = self.i_reg as usize;
        let xc = self.v_reg[x];
        let yc = self.v_reg[y];
        let ghost target = draw_sprite(pre.screen, pre.ram, pre.i as int, xc, yc, n as int, 0);
        let mut flipped: bool = false;
        let mut yl: usize = 0;
        while yl < n_us
            invariant
                yl <= n_us,
                n_us == n,
                n_us > 0 ==> pre.i + n_us <= RAM_SIZE,
                i == pre.i,
                pre.wf(),
                x < REGS_NUM,
                y < REGS_NUM,
                xc == pre.v[x as int],
                yc == pre.v[y as int],
                self@ == (EmuView { screen: self@.screen, ..pre }),
                self@.screen.len() == SCREEN_WIDTH * SCREEN_HEIGHT,
                target == draw_sprite(pre.screen, pre.ram, pre.i as int, xc, yc, n as int, 0),
                draw_sprite(self@.screen, pre.ram, pre.i as int, xc, yc, n as int, yl as int).0
                    == target.0,
                (flipped || draw_sprite(
                    self@.screen,
                    pre.ram,
                    pre.i as int,
                    xc,
                    yc,
                    n as int,
                    yl as int,
                ).1) == target.1,
            decreases n_us - yl,
        {
            let pixels = self.ram[i + yl];
            let yrow = (yc as usize + yl) % SCREEN_HEIGHT;
            let ghost row_start = self@.screen;
            let ghost f_in = flipped;
            let ghost row_target = draw_row(row_start, pixels, xc, yrow as int, 0);
            let mut xl: usize = 0;
            while xl < 8
                invariant
                    xl <= 8,
                    pre.wf(),
                    self@ == (EmuView { screen: self@.screen, ..pre }),
                    self@.screen.len() == SCREEN_WIDTH * SCREEN_HEIGHT,
                    yrow < SCREEN_HEIGHT,
                    row_target == draw_row(row_start, pixels, xc, yrow as int, 0),
                    draw_row(self@.screen, pixels, xc, yrow as int, xl as int).0 == row_target.0,
                    (flipped || draw_row(self@.screen, pixels, xc, yrow as int, xl as int).1) == (
                    f_in || row_target.1),
                decreases 8 - xl,
            {
                if pixels & (0x80u8 >> (xl as u8)) != 0 {
                    let idx = (xc as usize + xl) % SCREEN_WIDTH + yrow * SCREEN_WIDTH;
                    let cur = self.screen[idx];
                    flipped = flipped || cur;
                    self.screen[idx] = !cur;
                }
                xl = xl + 1;
            }
            proof {
                assert(self@.screen == row_target.0);
                assert(flipped == (f_in || row_target.1));
                assert(draw_sprite(row_start, pre.ram, pre.i as int, xc, yc, n as int, yl as int)
                    == (
                draw_sprite(self@.screen, pre.ram, pre.i as int, xc, yc, n as int, yl as int + 1).0,
                row_target.1 || draw_sprite(
                    self@.screen,
                    pre.ram,
                    pre.i as int,
                    xc,
                    yc,
                    n as int,
                    yl as int + 1,
                ).1,
                ));
            }
            yl = yl + 1;
        }
        self.v_reg[15] = if flipped {
            1
        } else {
            0
        };
        proof {
            assert(self@.screen == target.0);
            assert(spec_exec(pre, Instr::Draw(x, y, n), 0) matches Ok(post) && post =~~= self@);
        }
        Ok(())
    }
}

} // verus!
