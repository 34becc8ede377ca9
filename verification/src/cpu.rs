//! The processor: register file, program counter, call stack, both timers,
//! and the semantics of every opcode.
//!
//! Each opcode's behaviour is captured by a `sem_*` predicate relating the
//! processor (and any touched component) before and after the instruction;
//! the handlers are verified against those predicates and the whole
//! fetch-decode-execute cycle against their dispatch.
//!
//! The program counter and stack pointer wrap silently on overflow and
//! underflow, reproducing the unguarded behaviour of the original machine;
//! register-computed memory addresses wrap modulo the 4096-byte space.

use vstd::prelude::*;

use crate::dsp::Display;
use crate::dsp::DISPLAY_PIXELS;
use crate::dsp::pixel_index;
use crate::kbd::Keyboard;
use crate::mem::Memory;
use crate::op::Op;
use crate::op::decode_spec;
use crate::op::defined;
use crate::op::lemma_field_bounds;
use crate::op::lemma_invalid_iff_undefined;
use crate::rng::RNG;
use crate::rng::rng_next_seed;
use crate::rng::rng_output;
use crate::settings::Settings;

verus! {

pub const STACK_SIZE: usize = 16;

pub struct CPU {
    pub v: [u8; 16],
    pub i: u16,
    pub pc: u16,
    pub sp: u8,
    pub stack: [u16; STACK_SIZE],
    pub dt: u8,
    pub st: u8,
}

/// 16-bit address arithmetic: addition wrapping at 0x10000.
pub open spec fn wadd16(x: u16, y: u16) -> u16 {
    if x + y > 0xFFFF {
        (x + y - 0x10000) as u16
    } else {
        (x + y) as u16
    }
}

/// 16-bit address arithmetic: subtraction wrapping at 0x10000.
pub open spec fn wsub16(x: u16, y: u16) -> u16 {
    if x - y < 0 {
        (x - y + 0x10000) as u16
    } else {
        (x - y) as u16
    }
}

/// 8-bit stack pointer arithmetic, wrapping at 0x100.
pub open spec fn wadd8(x: u8, y: u8) -> u8 {
    if x + y > 0xFF {
        (x + y - 0x100) as u8
    } else {
        (x + y) as u8
    }
}

/// 8-bit stack pointer arithmetic: subtraction wrapping at 0x100.
pub open spec fn wsub8(x: u8, y: u8) -> u8 {
    if x - y < 0 {
        (x - y + 0x100) as u8
    } else {
        (x - y) as u8
    }
}

/// The post state differs from the pre state in the register file alone.
pub open spec fn regs_with(pre: CPU, post: CPU, v: Seq<u8>) -> bool {
    &&& post.v@ == v
    &&& post.i == pre.i
    &&& post.pc == pre.pc
    &&& post.sp == pre.sp
    &&& post.stack == pre.stack
    &&& post.dt == pre.dt
    &&& post.st == pre.st
}

/// SYS is a no-op on this machine.
pub open spec fn sem_sys(pre: CPU, post: CPU) -> bool {
    post == pre
}

/// CLS leaves the processor alone and clears the display.
pub open spec fn sem_cls(pre: CPU, post: CPU, d0: Display, d1: Display) -> bool {
    &&& post == pre
    &&& forall|px: int| 0 <= px < DISPLAY_PIXELS ==> !d1.pixels@[px]
    &&& d1.redraw
}

/// RET pops the return address: the stack pointer steps back (wrapping) and
/// the program counter is loaded from the slot it then selects.
pub open spec fn sem_ret(pre: CPU, post: CPU) -> bool {
    let sp2 = wsub8(pre.sp, 1);
    post == (CPU { sp: sp2, pc: pre.stack@[sp2 as int % 16], ..pre })
}

/// JP loads the program counter.
pub open spec fn sem_jp(pre: CPU, post: CPU, addr: u16) -> bool {
    post == (CPU { pc: addr, ..pre })
}

/// CALL pushes the (already advanced) program counter and jumps.
pub open spec fn sem_call(pre: CPU, post: CPU, addr: u16) -> bool {
    &&& post.stack@ == pre.stack@.update(pre.sp as int % 16, pre.pc)
    &&& post.sp == wadd8(pre.sp, 1)
    &&& post.pc == addr
    &&& post.v == pre.v
    &&& post.i == pre.i
    &&& post.dt == pre.dt
    &&& post.st == pre.st
}

/// SE skips the next instruction when the register equals the immediate.
pub open spec fn sem_se(pre: CPU, post: CPU, reg: u8, byte: u8) -> bool {
    post == (CPU {
        pc: if pre.v@[reg as int] == byte {
            wadd16(pre.pc, 2)
        } else {
            pre.pc
        },
        ..pre
    })
}

/// SNE skips the next instruction when the register differs.
pub open spec fn sem_sne(pre: CPU, post: CPU, reg: u8, byte: u8) -> bool {
    post == (CPU {
        pc: if pre.v@[reg as int] != byte {
            wadd16(pre.pc, 2)
        } else {
            pre.pc
        },
        ..pre
    })
}

/// SER skips the next instruction when the two registers are equal.
pub open spec fn sem_ser(pre: CPU, post: CPU, reg_a: u8, reg_b: u8) -> bool {
    post == (CPU {
        pc: if pre.v@[reg_a as int] == pre.v@[reg_b as int] {
            wadd16(pre.pc, 2)
        } else {
            pre.pc
        },
        ..pre
    })
}

/// SNER skips the next instruction when the two registers differ.
pub open spec fn sem_sner(pre: CPU, post: CPU, reg_a: u8, reg_b: u8) -> bool {
    post == (CPU {
        pc: if pre.v@[reg_a as int] != pre.v@[reg_b as int] {
            wadd16(pre.pc, 2)
        } else {
            pre.pc
        },
        ..pre
    })
}

/// LD writes the immediate into the register.
pub open spec fn sem_ld(pre: CPU, post: CPU, reg: u8, byte: u8) -> bool {
    regs_with(pre, post, pre.v@.update(reg as int, byte))
}

/// ADD adds the immediate with 8-bit wraparound; VF is not touched.
pub open spec fn sem_add(pre: CPU, post: CPU, reg: u8, byte: u8) -> bool {
    regs_with(pre, post, pre.v@.update(reg as int, ((pre.v@[reg as int] + byte) % 256) as u8))
}

/// LDR copies the second register into the first.
pub open spec fn sem_ldr(pre: CPU, post: CPU, reg_a: u8, reg_b: u8) -> bool {
    regs_with(pre, post, pre.v@.update(reg_a as int, pre.v@[reg_b as int]))
}

/// OR merges the second register into the first.
pub open spec fn sem_or(pre: CPU, post: CPU, reg_a: u8, reg_b: u8) -> bool {
    regs_with(pre, post, pre.v@.update(reg_a as int, pre.v@[reg_a as int] | pre.v@[reg_b as int]))
}

/// AND masks the first register by the second.
pub open spec fn sem_and(pre: CPU, post: CPU, reg_a: u8, reg_b: u8) -> bool {
    regs_with(pre, post, pre.v@.update(reg_a as int, pre.v@[reg_a as int] & pre.v@[reg_b as int]))
}

/// XOR toggles the first register by the second.
pub open spec fn sem_xor(pre: CPU, post: CPU, reg_a: u8, reg_b: u8) -> bool {
    regs_with(pre, post, pre.v@.update(reg_a as int, pre.v@[reg_a as int] ^ pre.v@[reg_b as int]))
}

/// ADDR adds the second register into the first with 8-bit wraparound and
/// sets VF to 1 exactly when the true sum exceeds 255.
pub open spec fn sem_addr(pre: CPU, post: CPU, reg_a: u8, reg_b: u8) -> bool {
    let sum = pre.v@[reg_a as int] + pre.v@[reg_b as int];
    regs_with(
        pre,
        post,
        pre.v@.update(reg_a as int, (sum % 256) as u8).update(15, if sum > 255 { 1u8 } else { 0u8 }),
    )
}

/// SUB subtracts the second register from the first with 8-bit wraparound
/// and sets VF to 1 exactly when no borrow occurred.
pub open spec fn sem_sub(pre: CPU, post: CPU, reg_a: u8, reg_b: u8) -> bool {
    let a = pre.v@[reg_a as int];
    let b = pre.v@[reg_b as int];
    let dif = if a >= b { (a - b) as u8 } else { (a - b + 256) as u8 };
    regs_with(pre, post, pre.v@.update(reg_a as int, dif).update(15, if a >= b { 1u8 } else { 0u8 }))
}

/// SUBN subtracts the first register from the second, storing into the
/// first, and sets VF to 1 exactly when no borrow occurred.
pub open spec fn sem_subn(pre: CPU, post: CPU, reg_a: u8, reg_b: u8) -> bool {
    let a = pre.v@[reg_a as int];
    let b = pre.v@[reg_b as int];
    let dif = if b >= a { (b - a) as u8 } else { (b - a + 256) as u8 };
    regs_with(pre, post, pre.v@.update(reg_a as int, dif).update(15, if b >= a { 1u8 } else { 0u8 }))
}

/// The register a shift reads from: the first register itself under the
/// shift quirk, the second register otherwise. The result always lands in
/// the first register.
pub open spec fn shift_src(reg_a: u8, reg_b: u8, quirk: bool) -> u8 {
    if quirk {
        reg_a
    } else {
        reg_b
    }
}

/// SHR writes the source shifted right by one into the first register and
/// the shifted-out low bit into VF.
pub open spec fn sem_shr(pre: CPU, post: CPU, reg_a: u8, reg_b: u8, quirk: bool) -> bool {
    let src = pre.v@[shift_src(reg_a, reg_b, quirk) as int];
    regs_with(pre, post, pre.v@.update(reg_a as int, src >> 1).update(15, src & 1))
}

/// SHL writes the source shifted left by one (truncated to 8 bits) into the
/// first register and the shifted-out high bit into VF.
pub open spec fn sem_shl(pre: CPU, post: CPU, reg_a: u8, reg_b: u8, quirk: bool) -> bool {
    let src = pre.v@[shift_src(reg_a, reg_b, quirk) as int];
    regs_with(pre, post, pre.v@.update(reg_a as int, src << 1).update(15, (src >> 7) & 1))
}

/// LDA loads the address register.
pub open spec fn sem_lda(pre: CPU, post: CPU, addr: u16) -> bool {
    post == (CPU { i: addr, ..pre })
}

/// JPO jumps to the address plus V0.
pub open spec fn sem_jpo(pre: CPU, post: CPU, addr: u16) -> bool {
    post == (CPU { pc: (addr + pre.v@[0]) as u16, ..pre })
}

/// RND steps the generator once and writes its byte masked by the immediate.
pub open spec fn sem_rnd(pre: CPU, post: CPU, reg: u8, byte: u8, s0: u32, s1: u32) -> bool {
    &&& s1 == rng_next_seed(s0)
    &&& regs_with(pre, post, pre.v@.update(reg as int, rng_output(s1) & byte))
}

/// SKP skips when the key selected by the register's low nibble is down.
pub open spec fn sem_skp(pre: CPU, post: CPU, reg: u8, kb: Keyboard) -> bool {
    post == (CPU {
        pc: if kb.keys@[(pre.v@[reg as int] % 16) as int] {
            wadd16(pre.pc, 2)
        } else {
            pre.pc
        },
        ..pre
    })
}

/// SKNP skips when the key selected by the register's low nibble is up.
pub open spec fn sem_sknp(pre: CPU, post: CPU, reg: u8, kb: Keyboard) -> bool {
    post == (CPU {
        pc: if !kb.keys@[(pre.v@[reg as int] % 16) as int] {
            wadd16(pre.pc, 2)
        } else {
            pre.pc
        },
        ..pre
    })
}

/// LDDT reads the delay timer into the register.
pub open spec fn sem_lddt(pre: CPU, post: CPU, reg: u8) -> bool {
    regs_with(pre, post, pre.v@.update(reg as int, pre.dt))
}

/// LDKP, the blocking key wait, re-executes until a key press has been
/// latched: while nothing is pending the program counter rewinds by two and
/// the wait is armed; a pending press is consumed into the register.
pub open spec fn sem_ldkp(pre: CPU, post: CPU, reg: u8, k0: Keyboard, k1: Keyboard) -> bool {
    &&& k1.keys == k0.keys
    &&& if k0.kp_wait && k0.kp is Some {
        &&& regs_with(pre, post, pre.v@.update(reg as int, k0.kp->0))
        &&& k1.kp is None
        &&& !k1.kp_wait
    } else {
        &&& post == (CPU { pc: wsub16(pre.pc, 2), ..pre })
        &&& k1.kp is None
        &&& k1.kp_wait
    }
}

/// Whether bit `col` (counted from the left) of a sprite row byte is set.
pub open spec fn sprite_bit(b: u8, col: int) -> bool
    recommends
        0 <= col < 8,
{
    (b >> ((7 - col) as u8)) & 1 == 1
}

/// Whether a sprite row is drawn at all: always when vertical wrap is on,
/// otherwise only rows that land on the screen.
pub open spec fn row_visible(y: int, row: int, wrap: bool) -> bool {
    wrap || y + row < 32
}

/// Whether sprite cell `(row, col)` writes a set bit at flat pixel `px`:
/// the cell is visible, its wrapped coordinates select `px`, and its sprite
/// bit is set.
pub open spec fn cell_covers(
    x: int,
    y: int,
    mem: Seq<u8>,
    i: u16,
    wrap: bool,
    row: int,
    col: int,
    px: int,
) -> bool {
    &&& 0 <= row
    &&& 0 <= col < 8
    &&& row_visible(y, row, wrap)
    &&& px == pixel_index((x + col) % 64, (y + row) % 32)
    &&& sprite_bit(mem[wadd16(i, row as u16) as int % 4096], col)
}

/// Whether some sprite cell strictly before `(row_lim, col_lim)` in raster
/// order writes a set bit at flat pixel `px`.
pub open spec fn drw_covers_upto(
    x: int,
    y: int,
    mem: Seq<u8>,
    i: u16,
    wrap: bool,
    row_lim: int,
    col_lim: int,
    px: int,
) -> bool {
    exists|row: int, col: int|
        (row < row_lim || (row == row_lim && col < col_lim)) && #[trigger] cell_covers(
            x,
            y,
            mem,
            i,
            wrap,
            row,
            col,
            px,
        )
}

/// Whether the whole `n`-row sprite writes a set bit at flat pixel `px`.
pub open spec fn drw_covers(
    x: int,
    y: int,
    n: int,
    mem: Seq<u8>,
    i: u16,
    wrap: bool,
    px: int,
) -> bool {
    drw_covers_upto(x, y, mem, i, wrap, n, 0, px)
}

/// DRW blits the `n`-byte sprite at address I to `(Vx, Vy)` by XOR: each
/// covered pixel toggles, every other pixel is untouched, VF reports
/// whether any lit pixel was erased, and the dirty flag is set when any
/// pixel was written.
pub open spec fn sem_drw(
    pre: CPU,
    post: CPU,
    reg_a: u8,
    reg_b: u8,
    nibble: u8,
    m: Memory,
    d0: Display,
    d1: Display,
    wrap: bool,
) -> bool {
    let x = pre.v@[reg_a as int] as int;
    let y = pre.v@[reg_b as int] as int;
    let n = nibble as int;
    let erased = exists|px: int|
        0 <= px < DISPLAY_PIXELS && d0.pixels@[px] && #[trigger] drw_covers(
            x,
            y,
            n,
            m.bytes@,
            pre.i,
            wrap,
            px,
        );
    &&& forall|px: int|
        0 <= px < DISPLAY_PIXELS ==> d1.pixels@[px] == (d0.pixels@[px] != drw_covers(
            x,
            y,
            n,
            m.bytes@,
            pre.i,
            wrap,
            px,
        ))
    &&& d1.redraw == (d0.redraw || exists|px: int|
        0 <= px < DISPLAY_PIXELS && #[trigger] drw_covers(x, y, n, m.bytes@, pre.i, wrap, px))
    &&& regs_with(pre, post, pre.v@.update(15, if erased { 1u8 } else { 0u8 }))
}

/// Two in-range columns that wrap to the same screen column are equal: the
/// eight columns of a sprite row land on eight distinct pixels.
proof fn lemma_mod64_inj(x: int, a: int, b: int)
    requires
        0 <= x,
        0 <= a < 64,
        0 <= b < 64,
        (x + a) % 64 == (x + b) % 64,
    ensures
        a == b,
{
    vstd::arithmetic::div_mod::lemma_fundamental_div_mod(x + a, 64);
    vstd::arithmetic::div_mod::lemma_fundamental_div_mod(x + b, 64);
    let qa = (x + a) / 64;
    let qb = (x + b) / 64;
    assert(a - b == 64 * (qa - qb));
}

/// Two in-range rows that wrap to the same screen row are equal: the rows
/// of a sprite (at most sixteen) land on distinct screen rows.
proof fn lemma_mod32_inj(y: int, a: int, b: int)
    requires
        0 <= y,
        0 <= a < 32,
        0 <= b < 32,
        (y + a) % 32 == (y + b) % 32,
    ensures
        a == b,
{
    vstd::arithmetic::div_mod::lemma_fundamental_div_mod(y + a, 32);
    vstd::arithmetic::div_mod::lemma_fundamental_div_mod(y + b, 32);
    let qa = (y + a) / 32;
    let qb = (y + b) / 32;
    assert(a - b == 32 * (qa - qb));
}

/// Distinct screen coordinates have distinct flat indices.
proof fn lemma_pixel_index_inj(x1: int, y1: int, x2: int, y2: int)
    requires
        0 <= x1 < 64,
        0 <= y1 < 32,
        0 <= x2 < 64,
        0 <= y2 < 32,
        pixel_index(x1, y1) == pixel_index(x2, y2),
    ensures
        x1 == x2,
        y1 == y2,
{
}

/// Raster order grows one cell at a time: the cells before `(row, col+1)`
/// are those before `(row, col)` plus the cell `(row, col)` itself.
proof fn lemma_covers_step(
    x: int,
    y: int,
    mem: Seq<u8>,
    i: u16,
    wrap: bool,
    row: int,
    col: int,
    px: int,
)
    requires
        0 <= row,
        0 <= col < 8,
    ensures
        drw_covers_upto(x, y, mem, i, wrap, row, col + 1, px) == (drw_covers_upto(
            x,
            y,
            mem,
            i,
            wrap,
            row,
            col,
            px,
        ) || cell_covers(x, y, mem, i, wrap, row, col, px)),
{
    if drw_covers_upto(x, y, mem, i, wrap, row, col + 1, px) {
        let (r2, c2) = choose|r2: int, c2: int|
            (r2 < row || (r2 == row && c2 < col + 1)) && #[trigger] cell_covers(
                x,
                y,
                mem,
                i,
                wrap,
                r2,
                c2,
                px,
            );
        if r2 == row && c2 == col {
            assert(cell_covers(x, y, mem, i, wrap, row, col, px));
        } else {
            assert((r2 < row || (r2 == row && c2 < col)) && cell_covers(
                x,
                y,
                mem,
                i,
                wrap,
                r2,
                c2,
                px,
            ));
        }
    }
    if drw_covers_upto(x, y, mem, i, wrap, row, col, px) {
        let (r2, c2) = choose|r2: int, c2: int|
            (r2 < row || (r2 == row && c2 < col)) && #[trigger] cell_covers(
                x,
                y,
                mem,
                i,
                wrap,
                r2,
                c2,
                px,
            );
        assert((r2 < row || (r2 == row && c2 < col + 1)) && cell_covers(
            x,
            y,
            mem,
            i,
            wrap,
            r2,
            c2,
            px,
        ));
    }
    if cell_covers(x, y, mem, i, wrap, row, col, px) {
        assert((row < row || (row == row && col < col + 1)) && cell_covers(
            x,
            y,
            mem,
            i,
            wrap,
            row,
            col,
            px,
        ));
    }
}

/// Finishing a row reaches the start of the next: a column limit of eight
/// admits every cell of the row.
proof fn lemma_covers_row(x: int, y: int, mem: Seq<u8>, i: u16, wrap: bool, row: int, px: int)
    requires
        0 <= row,
    ensures
        drw_covers_upto(x, y, mem, i, wrap, row, 8, px) == drw_covers_upto(
            x,
            y,
            mem,
            i,
            wrap,
            row + 1,
            0,
            px,
        ),
{
    if drw_covers_upto(x, y, mem, i, wrap, row, 8, px) {
        let (r2, c2) = choose|r2: int, c2: int|
            (r2 < row || (r2 == row && c2 < 8)) && #[trigger] cell_covers(
                x,
                y,
                mem,
                i,
                wrap,
                r2,
                c2,
                px,
            );
        assert((r2 < row + 1 || (r2 == row + 1 && c2 < 0)) && cell_covers(
            x,
            y,
            mem,
            i,
            wrap,
            r2,
            c2,
            px,
        ));
    }
    if drw_covers_upto(x, y, mem, i, wrap, row + 1, 0, px) {
        let (r2, c2) = choose|r2: int, c2: int|
            (r2 < row + 1 || (r2 == row + 1 && c2 < 0)) && #[trigger] cell_covers(
                x,
                y,
                mem,
                i,
                wrap,
                r2,
                c2,
                px,
            );
        assert((r2 < row || (r2 == row && c2 < 8)) && cell_covers(x, y, mem, i, wrap, r2, c2, px));
    }
}

/// Once a clipped sprite row falls past the bottom edge, no later row is
/// visible either, so the draw is already complete.
proof fn lemma_covers_clipped(
    x: int,
    y: int,
    mem: Seq<u8>,
    i: u16,
    wrap: bool,
    row: int,
    n: int,
    px: int,
)
    requires
        0 <= row <= n,
        !wrap,
        y + row >= 32,
    ensures
        drw_covers_upto(x, y, mem, i, wrap, n, 0, px) == drw_covers_upto(
            x,
            y,
            mem,
            i,
            wrap,
            row,
            0,
            px,
        ),
{
    if drw_covers_upto(x, y, mem, i, wrap, n, 0, px) {
        let (r2, c2) = choose|r2: int, c2: int|
            (r2 < n || (r2 == n && c2 < 0)) && #[trigger] cell_covers(x, y, mem, i, wrap, r2, c2, px);
        assert(row_visible(y, r2, wrap));
        assert(r2 < row);
        assert((r2 < row || (r2 == row && c2 < 0)) && cell_covers(x, y, mem, i, wrap, r2, c2, px));
    }
    if drw_covers_upto(x, y, mem, i, wrap, row, 0, px) {
        let (r2, c2) = choose|r2: int, c2: int|
            (r2 < row || (r2 == row && c2 < 0)) && #[trigger] cell_covers(
                x,
                y,
                mem,
                i,
                wrap,
                r2,
                c2,
                px,
            );
        assert((r2 < n || (r2 == n && c2 < 0)) && cell_covers(x, y, mem, i, wrap, r2, c2, px));
    }
}

/// When the row loop stops — after the last row, or at the first clipped
/// row — the partial draw is the whole draw.
proof fn lemma_drw_finish(
    x: int,
    y: int,
    mem: Seq<u8>,
    i: u16,
    wrap: bool,
    row: int,
    n: int,
    d0: Seq<bool>,
    dcur: Seq<bool>,
    erased: bool,
    redraw: bool,
    r0: bool,
)
    requires
        0 <= row <= n,
        row == n || (!wrap && y + row >= 32),
        d0.len() == DISPLAY_PIXELS,
        forall|px: int|
            0 <= px < DISPLAY_PIXELS ==> dcur[px] == (d0[px] != drw_covers_upto(
                x,
                y,
                mem,
                i,
                wrap,
                row,
                0,
                px,
            )),
        erased == exists|px: int|
            0 <= px < DISPLAY_PIXELS && d0[px] && #[trigger] drw_covers_upto(
                x,
                y,
                mem,
                i,
                wrap,
                row,
                0,
                px,
            ),
        redraw == (r0 || exists|px: int|
            0 <= px < DISPLAY_PIXELS && #[trigger] drw_covers_upto(x, y, mem, i, wrap, row, 0, px)),
    ensures
        forall|px: int|
            0 <= px < DISPLAY_PIXELS ==> dcur[px] == (d0[px] != drw_covers(
                x,
                y,
                n,
                mem,
                i,
                wrap,
                px,
            )),
        erased == exists|px: int|
            0 <= px < DISPLAY_PIXELS && d0[px] && #[trigger] drw_covers(x, y, n, mem, i, wrap, px),
        redraw == (r0 || exists|px: int|
            0 <= px < DISPLAY_PIXELS && #[trigger] drw_covers(x, y, n, mem, i, wrap, px)),
{
    assert forall|px: int| 0 <= px < DISPLAY_PIXELS implies (drw_covers(x, y, n, mem, i, wrap, px)
        == drw_covers_upto(x, y, mem, i, wrap, row, 0, px)) by {
        if row != n {
            lemma_covers_clipped(x, y, mem, i, wrap, row, n, px);
        }
    }
    if erased {
        let w = choose|px: int|
            0 <= px < DISPLAY_PIXELS && d0[px] && #[trigger] drw_covers_upto(
                x,
                y,
                mem,
                i,
                wrap,
                row,
                0,
                px,
            );
        assert(drw_covers(x, y, n, mem, i, wrap, w));
    }
    if exists|px: int|
        0 <= px < DISPLAY_PIXELS && d0[px] && #[trigger] drw_covers(x, y, n, mem, i, wrap, px) {
        let w = choose|px: int|
            0 <= px < DISPLAY_PIXELS && d0[px] && #[trigger] drw_covers(x, y, n, mem, i, wrap, px);
        assert(drw_covers_upto(x, y, mem, i, wrap, row, 0, w));
        assert(erased);
    }
    if redraw && !r0 {
        let w = choose|px: int|
            0 <= px < DISPLAY_PIXELS && #[trigger] drw_covers_upto(x, y, mem, i, wrap, row, 0, px);
        assert(drw_covers(x, y, n, mem, i, wrap, w));
    }
    if exists|px: int| 0 <= px < DISPLAY_PIXELS && #[trigger] drw_covers(x, y, n, mem, i, wrap, px) {
        let w = choose|px: int|
            0 <= px < DISPLAY_PIXELS && #[trigger] drw_covers(x, y, n, mem, i, wrap, px);
        assert(drw_covers_upto(x, y, mem, i, wrap, row, 0, w));
        assert(redraw);
    }
}

/// No cell strictly before `(row, col)` lands on the pixel that cell
/// `(row, col)` itself writes: the cells of one sprite draw touch distinct
/// pixels.
proof fn lemma_cell_fresh(x: int, y: int, mem: Seq<u8>, i: u16, wrap: bool, row: int, col: int)
    requires
        0 <= x,
        0 <= y,
        0 <= row < 16,
        0 <= col < 8,
    ensures
        !drw_covers_upto(
            x,
            y,
            mem,
            i,
            wrap,
            row,
            col,
            pixel_index((x + col) % 64, (y + row) % 32),
        ),
{
    let px = pixel_index((x + col) % 64, (y + row) % 32);
    if drw_covers_upto(x, y, mem, i, wrap, row, col, px) {
        let (r2, c2) = choose|r2: int, c2: int|
            (r2 < row || (r2 == row && c2 < col)) && #[trigger] cell_covers(
                x,
                y,
                mem,
                i,
                wrap,
                r2,
                c2,
                px,
            );
        lemma_pixel_index_inj((x + c2) % 64, (y + r2) % 32, (x + col) % 64, (y + row) % 32);
        lemma_mod64_inj(x, c2, col);
        lemma_mod32_inj(y, r2, row);
    }
}

/// The shift quirk changes only which register is read as the shift
/// source, never which register receives the result: with the quirk on,
/// SHR behaves exactly as SHR with the quirk off reading the first
/// register; and under either setting only the first register and VF are
/// written.
pub proof fn lemma_shr_quirk(pre: CPU, post: CPU, reg_a: u8, reg_b: u8)
    requires
        reg_a < 16,
        reg_b < 16,
    ensures
        sem_shr(pre, post, reg_a, reg_b, true) == sem_shr(pre, post, reg_a, reg_a, false),
        sem_shr(pre, post, reg_a, reg_b, true) || sem_shr(pre, post, reg_a, reg_b, false)
            ==> forall|r: int|
            0 <= r < 16 && r != reg_a && r != 15 ==> post.v@[r] == pre.v@[r],
{
}

/// The shift quirk changes only which register is read as the shift
/// source, never which register receives the result: the same statement as
/// for SHR, for the left shift.
pub proof fn lemma_shl_quirk(pre: CPU, post: CPU, reg_a: u8, reg_b: u8)
    requires
        reg_a < 16,
        reg_b < 16,
    ensures
        sem_shl(pre, post, reg_a, reg_b, true) == sem_shl(pre, post, reg_a, reg_a, false),
        sem_shl(pre, post, reg_a, reg_b, true) || sem_shl(pre, post, reg_a, reg_b, false)
            ==> forall|r: int|
            0 <= r < 16 && r != reg_a && r != 15 ==> post.v@[r] == pre.v@[r],
{
}

/// Drawing the same sprite twice at the same location restores every
/// touched pixel to its pre-draw state, and the second draw reports a
/// collision exactly when the first draw set some pixel.
pub proof fn lemma_drw_idempotent(
    x: int,
    y: int,
    n: int,
    mem: Seq<u8>,
    i: u16,
    wrap: bool,
    d0: Seq<bool>,
    d1: Seq<bool>,
    d2: Seq<bool>,
)
    requires
        d0.len() == DISPLAY_PIXELS,
        d1.len() == DISPLAY_PIXELS,
        d2.len() == DISPLAY_PIXELS,
        forall|px: int|
            0 <= px < DISPLAY_PIXELS ==> d1[px] == (d0[px] != drw_covers(x, y, n, mem, i, wrap, px)),
        forall|px: int|
            0 <= px < DISPLAY_PIXELS ==> d2[px] == (d1[px] != drw_covers(x, y, n, mem, i, wrap, px)),
    ensures
        d2 =~= d0,
        (exists|px: int|
            0 <= px < DISPLAY_PIXELS && d1[px] && #[trigger] drw_covers(x, y, n, mem, i, wrap, px))
            == (exists|px: int|
            0 <= px < DISPLAY_PIXELS && !d0[px] && #[trigger] drw_covers(x, y, n, mem, i, wrap, px)),
{
    if exists|px: int|
        0 <= px < DISPLAY_PIXELS && d1[px] && #[trigger] drw_covers(x, y, n, mem, i, wrap, px) {
        let w = choose|px: int|
            0 <= px < DISPLAY_PIXELS && d1[px] && #[trigger] drw_covers(x, y, n, mem, i, wrap, px);
        assert(!d0[w] && drw_covers(x, y, n, mem, i, wrap, w));
    }
    if exists|px: int|
        0 <= px < DISPLAY_PIXELS && !d0[px] && #[trigger] drw_covers(x, y, n, mem, i, wrap, px) {
        let w = choose|px: int|
            0 <= px < DISPLAY_PIXELS && !d0[px] && #[trigger] drw_covers(x, y, n, mem, i, wrap, px);
        assert(d1[w] && drw_covers(x, y, n, mem, i, wrap, w));
    }
}

/// STDT writes the register into the delay timer.
pub open spec fn sem_stdt(pre: CPU, post: CPU, reg: u8) -> bool {
    post == (CPU { dt: pre.v@[reg as int], ..pre })
}

/// STST writes the register into the sound timer.
pub open spec fn sem_stst(pre: CPU, post: CPU, reg: u8) -> bool {
    post == (CPU { st: pre.v@[reg as int], ..pre })
}

/// ADDA adds the register into the address register with 16-bit wraparound;
/// under the address-overflow quirk VF records the carry, otherwise the
/// register file is untouched.
pub open spec fn sem_adda(pre: CPU, post: CPU, reg: u8, quirk: bool) -> bool {
    let sum = pre.i + pre.v@[reg as int];
    let carry = sum > 0xFFFF;
    &&& post.i == wadd16(pre.i, pre.v@[reg as int] as u16)
    &&& post.v@ == if quirk {
        pre.v@.update(15, if carry { 1u8 } else { 0u8 })
    } else {
        pre.v@
    }
    &&& post.pc == pre.pc
    &&& post.sp == pre.sp
    &&& post.stack == pre.stack
    &&& post.dt == pre.dt
    &&& post.st == pre.st
}

/// LDSA points the address register at the font glyph for the register's
/// low nibble.
pub open spec fn sem_ldsa(pre: CPU, post: CPU, reg: u8) -> bool {
    post == (CPU { i: (5 * (pre.v@[reg as int] % 16)) as u16, ..pre })
}

/// STDR stores the register's three decimal digits at I, I+1 and I+2.
pub open spec fn sem_stdr(pre: CPU, post: CPU, reg: u8, m0: Memory, m1: Memory) -> bool {
    let b = pre.v@[reg as int];
    &&& post == pre
    &&& m1.bytes@ == m0.bytes@.update(pre.i as int % 4096, (b / 100) as u8).update(
        wadd16(pre.i, 1) as int % 4096,
        ((b / 10) % 10) as u8,
    ).update(wadd16(pre.i, 2) as int % 4096, (b % 10) as u8)
}

/// Memory after storing registers V0..=Vk at consecutive addresses from I.
pub open spec fn store_regs(mem: Seq<u8>, v: Seq<u8>, i: u16, k: int) -> Seq<u8>
    decreases k + 1,
{
    if k < 0 {
        mem
    } else {
        store_regs(mem, v, i, k - 1).update(wadd16(i, k as u16) as int % 4096, v[k])
    }
}

/// STRR copies V0..=Vx into memory at I; under the load/store quirk I then
/// advances past the stored block, otherwise it is unchanged.
pub open spec fn sem_strr(
    pre: CPU,
    post: CPU,
    reg: u8,
    m0: Memory,
    m1: Memory,
    quirk: bool,
) -> bool {
    &&& m1.bytes@ == store_regs(m0.bytes@, pre.v@, pre.i, reg as int)
    &&& post == (CPU {
        i: if quirk {
            wadd16(pre.i, (reg + 1) as u16)
        } else {
            pre.i
        },
        ..pre
    })
}

/// LDRR loads V0..=Vx from memory at I; under the load/store quirk I then
/// advances past the loaded block, otherwise it is unchanged.
pub open spec fn sem_ldrr(pre: CPU, post: CPU, reg: u8, m0: Memory, quirk: bool) -> bool {
    &&& forall|j: int|
        0 <= j < 16 ==> post.v@[j] == if j <= reg {
            m0.bytes@[wadd16(pre.i, j as u16) as int % 4096]
        } else {
            pre.v@[j]
        }
    &&& post.i == if quirk {
        wadd16(pre.i, (reg + 1) as u16)
    } else {
        pre.i
    }
    &&& post.pc == pre.pc
    &&& post.sp == pre.sp
    &&& post.stack == pre.stack
    &&& post.dt == pre.dt
    &&& post.st == pre.st
}

/// A fatal decode failure: the raw word and the address it was fetched
/// from, surfaced to the caller because corrupted program state cannot be
/// safely continued.
#[derive(Clone, Copy, PartialEq, Eq, Structural, Debug)]
pub struct CycleError {
    pub addr: u16,
    pub opcode: u16,
}

/// The big-endian instruction word at the program counter.
pub open spec fn fetch_word(cpu: CPU, mem: Seq<u8>) -> u16 {
    (mem[cpu.pc as int % 4096] * 256 + mem[wadd16(cpu.pc, 1) as int % 4096]) as u16
}

/// One whole fetch-decode-execute cycle on a defined instruction: the
/// program counter first advances past the word, then the decoded opcode's
/// semantics relate the advanced state to the final one, and every
/// component the opcode does not touch is unchanged.
pub open spec fn step_rel(
    pre: CPU,
    post: CPU,
    m0: Memory,
    m1: Memory,
    d0: Display,
    d1: Display,
    k0: Keyboard,
    k1: Keyboard,
    s0: u32,
    s1: u32,
    st: Settings,
) -> bool {
    let w = fetch_word(pre, m0.bytes@);
    let mid = CPU { pc: wadd16(pre.pc, 2), ..pre };
    match decode_spec(w) {
        Op::SYS { addr: _ } => sem_sys(mid, post) && m1 == m0 && d1 == d0 && k1 == k0 && s1 == s0,
        Op::CLS => sem_cls(mid, post, d0, d1) && m1 == m0 && k1 == k0 && s1 == s0,
        Op::RET => sem_ret(mid, post) && m1 == m0 && d1 == d0 && k1 == k0 && s1 == s0,
        Op::JP { addr } => sem_jp(mid, post, addr) && m1 == m0 && d1 == d0 && k1 == k0 && s1 == s0,
        Op::CALL { addr } => sem_call(mid, post, addr) && m1 == m0 && d1 == d0 && k1 == k0 && s1
            == s0,
        Op::SE { reg, byte } => sem_se(mid, post, reg, byte) && m1 == m0 && d1 == d0 && k1 == k0
            && s1 == s0,
        Op::SNE { reg, byte } => sem_sne(mid, post, reg, byte) && m1 == m0 && d1 == d0 && k1 == k0
            && s1 == s0,
        Op::SER { reg_a, reg_b } => sem_ser(mid, post, reg_a, reg_b) && m1 == m0 && d1 == d0 && k1
            == k0 && s1 == s0,
        Op::LD { reg, byte } => sem_ld(mid, post, reg, byte) && m1 == m0 && d1 == d0 && k1 == k0
            && s1 == s0,
        Op::ADD { reg, byte } => sem_add(mid, post, reg, byte) && m1 == m0 && d1 == d0 && k1 == k0
            && s1 == s0,
        Op::LDR { reg_a, reg_b } => sem_ldr(mid, post, reg_a, reg_b) && m1 == m0 && d1 == d0 && k1
            == k0 && s1 == s0,
        Op::OR { reg_a, reg_b } => sem_or(mid, post, reg_a, reg_b) && m1 == m0 && d1 == d0 && k1
            == k0 && s1 == s0,
        Op::AND { reg_a, reg_b } => sem_and(mid, post, reg_a, reg_b) && m1 == m0 && d1 == d0 && k1
            == k0 && s1 == s0,
        Op::XOR { reg_a, reg_b } => sem_xor(mid, post, reg_a, reg_b) && m1 == m0 && d1 == d0 && k1
            == k0 && s1 == s0,
        Op::ADDR { reg_a, reg_b } => sem_addr(mid, post, reg_a, reg_b) && m1 == m0 && d1 == d0
            && k1 == k0 && s1 == s0,
        Op::SUB { reg_a, reg_b } => sem_sub(mid, post, reg_a, reg_b) && m1 == m0 && d1 == d0 && k1
            == k0 && s1 == s0,
        Op::SHR { reg_a, reg_b } => sem_shr(mid, post, reg_a, reg_b, st.shift_quirk) && m1 == m0
            && d1 == d0 && k1 == k0 && s1 == s0,
        Op::SUBN { reg_a, reg_b } => sem_subn(mid, post, reg_a, reg_b) && m1 == m0 && d1 == d0
            && k1 == k0 && s1 == s0,
        Op::SHL { reg_a, reg_b } => sem_shl(mid, post, reg_a, reg_b, st.shift_quirk) && m1 == m0
            && d1 == d0 && k1 == k0 && s1 == s0,
        Op::SNER { reg_a, reg_b } => sem_sner(mid, post, reg_a, reg_b) && m1 == m0 && d1 == d0
            && k1 == k0 && s1 == s0,
        Op::LDA { addr } => sem_lda(mid, post, addr) && m1 == m0 && d1 == d0 && k1 == k0 && s1
            == s0,
        Op::JPO { addr } => sem_jpo(mid, post, addr) && m1 == m0 && d1 == d0 && k1 == k0 && s1
            == s0,
        Op::RND { reg, byte } => sem_rnd(mid, post, reg, byte, s0, s1) && m1 == m0 && d1 == d0
            && k1 == k0,
        Op::DRW { reg_a, reg_b, nibble } => sem_drw(
            mid,
            post,
            reg_a,
            reg_b,
            nibble,
            m0,
            d0,
            d1,
            st.vertical_wrap,
        ) && m1 == m0 && k1 == k0 && s1 == s0,
        Op::SKP { reg } => sem_skp(mid, post, reg, k0) && m1 == m0 && d1 == d0 && k1 == k0 && s1
            == s0,
        Op::SKNP { reg } => sem_sknp(mid, post, reg, k0) && m1 == m0 && d1 == d0 && k1 == k0 && s1
            == s0,
        Op::LDDT { reg } => sem_lddt(mid, post, reg) && m1 == m0 && d1 == d0 && k1 == k0 && s1
            == s0,
        Op::LDKP { reg } => sem_ldkp(mid, post, reg, k0, k1) && m1 == m0 && d1 == d0 && s1 == s0,
        Op::STDT { reg } => sem_stdt(mid, post, reg) && m1 == m0 && d1 == d0 && k1 == k0 && s1
            == s0,
        Op::STST { reg } => sem_stst(mid, post, reg) && m1 == m0 && d1 == d0 && k1 == k0 && s1
            == s0,
        Op::ADDA { reg } => sem_adda(mid, post, reg, st.address_overflow_quirk) && m1 == m0 && d1
            == d0 && k1 == k0 && s1 == s0,
        Op::LDSA { reg } => sem_ldsa(mid, post, reg) && m1 == m0 && d1 == d0 && k1 == k0 && s1
            == s0,
        Op::STDR { reg } => sem_stdr(mid, post, reg, m0, m1) && d1 == d0 && k1 == k0 && s1 == s0,
        Op::STRR { reg } => sem_strr(mid, post, reg, m0, m1, st.load_store_quirk) && d1 == d0 && k1
            == k0 && s1 == s0,
        Op::LDRR { reg } => sem_ldrr(mid, post, reg, m0, st.load_store_quirk) && m1 == m0 && d1
            == d0 && k1 == k0 && s1 == s0,
        Op::INV { opcode: _ } => false,
    }
}

impl CPU {
    /// The processor at machine start: cleared registers, the program
    /// counter at the ROM base.
    pub fn new() -> (cpu: Self)
        ensures
            forall|r: int| 0 <= r < 16 ==> cpu.v@[r] == 0,
            cpu.i == 0,
            cpu.pc == 0x200,
            cpu.sp == 0,
            forall|s: int| 0 <= s < 16 ==> cpu.stack@[s] == 0,
            cpu.dt == 0,
            cpu.st == 0,
    {
        Self { v: [0; 16], i: 0, pc: 0x200, sp: 0, stack: [0; STACK_SIZE], dt: 0, st: 0 }
    }

    /// One tick of the 60 Hz delay-timer clock: decrement toward zero,
    /// never below it.
    pub fn cycle_dt(&mut self)
        ensures
            *final(self) == (CPU {
                dt: if old(self).dt > 0 {
                    (old(self).dt - 1) as u8
                } else {
                    0
                },
                ..*old(self)
            }),
    {
        if self.dt > 0 {
            self.dt = self.dt - 1;
        }
    }

    /// One tick of the 60 Hz sound-timer clock: decrement toward zero,
    /// never below it, and report whether the tone should sound.
    pub fn cycle_st(&mut self) -> (beeping: bool)
        ensures
            *final(self) == (CPU {
                st: if old(self).st > 0 {
                    (old(self).st - 1) as u8
                } else {
                    0
                },
                ..*old(self)
            }),
            beeping == (final(self).st > 0),
    {
        if self.st > 0 {
            self.st = self.st - 1;
        }
        self.st > 0
    }

    pub fn sys(&mut self, addr: u16)
        ensures
            sem_sys(*old(self), *final(self)),
    {
        let _ = addr;
    }

    pub fn cls(&mut self, display: &mut Display)
        ensures
            sem_cls(*old(self), *final(self), *old(display), *final(display)),
    {
        display.clear();
    }

    pub fn ret(&mut self)
        ensures
            sem_ret(*old(self), *final(self)),
    {
        self.sp = self.sp.wrapping_sub(1);
        self.pc = self.stack[(self.sp % 16) as usize];
    }

    pub fn jp(&mut self, addr: u16)
        ensures
            sem_jp(*old(self), *final(self), addr),
    {
        self.pc = addr;
    }

    pub fn call(&mut self, addr: u16)
        ensures
            sem_call(*old(self), *final(self), addr),
    {
        self.stack[(self.sp % 16) as usize] = self.pc;
        self.sp = self.sp.wrapping_add(1);
        self.pc = addr;
    }

    pub fn se(&mut self, reg: u8, byte: u8)
        requires
            reg < 16,
        ensures
            sem_se(*old(self), *final(self), reg, byte),
    {
        if self.v[reg as usize] == byte {
            self.pc = self.pc.wrapping_add(2);
        }
    }

    pub fn sne(&mut self, reg: u8, byte: u8)
        requires
            reg < 16,
        ensures
            sem_sne(*old(self), *final(self), reg, byte),
    {
        if self.v[reg as usize] != byte {
            self.pc = self.pc.wrapping_add(2);
        }
    }

    pub fn ser(&mut self, reg_a: u8, reg_b: u8)
        requires
            reg_a < 16,
            reg_b < 16,
        ensures
            sem_ser(*old(self), *final(self), reg_a, reg_b),
    {
        if self.v[reg_a as usize] == self.v[reg_b as usize] {
            self.pc = self.pc.wrapping_add(2);
        }
    }

    pub fn sner(&mut self, reg_a: u8, reg_b: u8)
        requires
            reg_a < 16,
            reg_b < 16,
        ensures
            sem_sner(*old(self), *final(self), reg_a, reg_b),
    {
        if self.v[reg_a as usize] != self.v[reg_b as usize] {
            self.pc = self.pc.wrapping_add(2);
        }
    }

    pub fn ld(&mut self, reg: u8, byte: u8)
        requires
            reg < 16,
        ensures
            sem_ld(*old(self), *final(self), reg, byte),
    {
        self.v[reg as usize] = byte;
    }

    pub fn add(&mut self, reg: u8, byte: u8)
        requires
            reg < 16,
        ensures
            sem_add(*old(self), *final(self), reg, byte),
    {
        self.v[reg as usize] = self.v[reg as usize].wrapping_add(byte);
    }

    pub fn ldr(&mut self, reg_a: u8, reg_b: u8)
        requires
            reg_a < 16,
            reg_b < 16,
        ensures
            sem_ldr(*old(self), *final(self), reg_a, reg_b),
    {
        self.v[reg_a as usize] = self.v[reg_b as usize];
    }

    pub fn or(&mut self, reg_a: u8, reg_b: u8)
        requires
            reg_a < 16,
            reg_b < 16,
        ensures
            sem_or(*old(self), *final(self), reg_a, reg_b),
    {
        self.v[reg_a as usize] = self.v[reg_a as usize] | self.v[reg_b as usize];
    }

    pub fn and(&mut self, reg_a: u8, reg_b: u8)
        requires
            reg_a < 16,
            reg_b < 16,
        ensures
            sem_and(*old(self), *final(self), reg_a, reg_b),
    {
        self.v[reg_a as usize] = self.v[reg_a as usize] & self.v[reg_b as usize];
    }

    pub fn xor(&mut self, reg_a: u8, reg_b: u8)
        requires
            reg_a < 16,
            reg_b < 16,
        ensures
            sem_xor(*old(self), *final(self), reg_a, reg_b),
    {
        self.v[reg_a as usize] = self.v[reg_a as usize] ^ self.v[reg_b as usize];
    }

    pub fn addr(&mut self, reg_a: u8, reg_b: u8)
        requires
            reg_a < 16,
            reg_b < 16,
        ensures
            sem_addr(*old(self), *final(self), reg_a, reg_b),
    {
        let a = self.v[reg_a as usize];
        let b = self.v[reg_b as usize];
        let carry: bool = a as u16 + b as u16 > 255;
        self.v[reg_a as usize] = a.wrapping_add(b);
        self.v[15] = if carry {
            1
        } else {
            0
        };
    }

    pub fn sub(&mut self, reg_a: u8, reg_b: u8)
        requires
            reg_a < 16,
            reg_b < 16,
        ensures
            sem_sub(*old(self), *final(self), reg_a, reg_b),
    {
        let a = self.v[reg_a as usize];
        let b = self.v[reg_b as usize];
        self.v[reg_a as usize] = a.wrapping_sub(b);
        self.v[15] = if a >= b {
            1
        } else {
            0
        };
    }

    pub fn subn(&mut self, reg_a: u8, reg_b: u8)
        requires
            reg_a < 16,
            reg_b < 16,
        ensures
            sem_subn(*old(self), *final(self), reg_a, reg_b),
    {
        let a = self.v[reg_a as usize];
        let b = self.v[reg_b as usize];
        self.v[reg_a as usize] = b.wrapping_sub(a);
        self.v[15] = if b >= a {
            1
        } else {
            0
        };
    }

    pub fn shr(&mut self, reg_a: u8, reg_b: u8, settings: &Settings)
        requires
            reg_a < 16,
            reg_b < 16,
        ensures
            sem_shr(*old(self), *final(self), reg_a, reg_b, settings.shift_quirk),
    {
        let src_reg = if settings.shift_quirk {
            reg_a
        } else {
            reg_b
        };
        let src = self.v[src_reg as usize];
        self.v[reg_a as usize] = src >> 1;
        self.v[15] = src & 1;
    }

    pub fn shl(&mut self, reg_a: u8, reg_b: u8, settings: &Settings)
        requires
            reg_a < 16,
            reg_b < 16,
        ensures
            sem_shl(*old(self), *final(self), reg_a, reg_b, settings.shift_quirk),
    {
        let src_reg = if settings.shift_quirk {
            reg_a
        } else {
            reg_b
        };
        let src = self.v[src_reg as usize];
        self.v[reg_a as usize] = src << 1;
        self.v[15] = (src >> 7) & 1;
    }

    pub fn lda(&mut self, addr: u16)
        ensures
            sem_lda(*old(self), *final(self), addr),
    {
        self.i = addr;
    }

    pub fn jpo(&mut self, addr: u16)
        requires
            addr < 0x1000,
        ensures
            sem_jpo(*old(self), *final(self), addr),
    {
        self.pc = addr + self.v[0] as u16;
    }

    pub fn rnd(&mut self, reg: u8, byte: u8, rng: &mut RNG)
        requires
            reg < 16,
        ensures
            sem_rnd(*old(self), *final(self), reg, byte, old(rng).seed, final(rng).seed),
    {
        self.v[reg as usize] = rng.next() & byte;
    }

    #[verifier::rlimit(100)]
    pub fn drw(
        &mut self,
        reg_a: u8,
        reg_b: u8,
        nibble: u8,
        memory: &Memory,
        display: &mut Display,
        settings: &Settings,
    )
        requires
            reg_a < 16,
            reg_b < 16,
            nibble < 16,
        ensures
            sem_drw(
                *old(self),
                *final(self),
                reg_a,
                reg_b,
                nibble,
                *memory,
                *old(display),
                *final(display),
                settings.vertical_wrap,
            ),
    {
        let x: usize = self.v[reg_a as usize] as usize;
        let y: usize = self.v[reg_b as usize] as usize;
        let h: usize = nibble as usize;
        let ghost gm = memory.bytes@;
        let ghost gi = self.i;
        let ghost wrap = settings.vertical_wrap;
        let ghost d0 = old(display).pixels@;
        let ghost r0 = old(display).redraw;

        let mut erased = false;
        let mut row: usize = 0;
        while row < h && (settings.vertical_wrap || y + row < 32)
            invariant
                row <= h,
                h < 16,
                x <= 255,
                y <= 255,
                *self == *old(self),
                self.i == gi,
                wrap == settings.vertical_wrap,
                gm == memory.bytes@,
                d0.len() == DISPLAY_PIXELS,
                forall|px: int|
                    0 <= px < DISPLAY_PIXELS ==> display.pixels@[px] == (d0[px]
                        != drw_covers_upto(x as int, y as int, gm, gi, wrap, row as int, 0, px)),
                erased == exists|px: int|
                    0 <= px < DISPLAY_PIXELS && d0[px] && #[trigger] drw_covers_upto(
                        x as int,
                        y as int,
                        gm,
                        gi,
                        wrap,
                        row as int,
                        0,
                        px,
                    ),
                display.redraw == (r0 || exists|px: int|
                    0 <= px < DISPLAY_PIXELS && #[trigger] drw_covers_upto(
                        x as int,
                        y as int,
                        gm,
                        gi,
                        wrap,
                        row as int,
                        0,
                        px,
                    )),
            decreases h - row,
        {
            let byte = memory.read(self.i.wrapping_add(row as u16));
            let mut col: usize = 0;
            while col < 8
                invariant
                    col <= 8,
                    row < h,
                    h < 16,
                    x <= 255,
                    y <= 255,
                    *self == *old(self),
                    self.i == gi,
                    wrap == settings.vertical_wrap,
                    gm == memory.bytes@,
                    d0.len() == DISPLAY_PIXELS,
                    row_visible(y as int, row as int, wrap),
                    byte == gm[wadd16(gi, row as u16) as int % 4096],
                    forall|px: int|
                        0 <= px < DISPLAY_PIXELS ==> display.pixels@[px] == (d0[px]
                            != drw_covers_upto(
                            x as int,
                            y as int,
                            gm,
                            gi,
                            wrap,
                            row as int,
                            col as int,
                            px,
                        )),
                    erased == exists|px: int|
                        0 <= px < DISPLAY_PIXELS && d0[px] && #[trigger] drw_covers_upto(
                            x as int,
                            y as int,
                            gm,
                            gi,
                            wrap,
                            row as int,
                            col as int,
                            px,
                        ),
                    display.redraw == (r0 || exists|px: int|
                        0 <= px < DISPLAY_PIXELS && #[trigger] drw_covers_upto(
                            x as int,
                            y as int,
                            gm,
                            gi,
                            wrap,
                            row as int,
                            col as int,
                            px,
                        )),
                decreases 8 - col,
            {
                let sh: u8 = 7 - col as u8;
                let pixel: bool = (byte >> sh) & 1 == 1;
                let ghost cur = display.pixels@;
                let ghost gerased = erased;
                let ghost gredraw = display.redraw;
                let ghost idx = pixel_index((x + col) as int % 64, (y + row) as int % 32);
                let e = display.set_pixel(x + col, y + row, pixel);
                erased = erased || e;
                proof {
                    let gx = x as int;
                    let gy = y as int;
                    let grow = row as int;
                    let gcol = col as int;
                    assert(pixel == sprite_bit(gm[wadd16(gi, grow as u16) as int % 4096], gcol));
                    assert(cell_covers(gx, gy, gm, gi, wrap, grow, gcol, idx) == pixel);
                    lemma_cell_fresh(gx, gy, gm, gi, wrap, grow, gcol);
                    // the pixel grid after this cell
                    assert forall|px: int| 0 <= px < DISPLAY_PIXELS implies display.pixels@[px] == (
                    d0[px] != drw_covers_upto(gx, gy, gm, gi, wrap, grow, gcol + 1, px)) by {
                        lemma_covers_step(gx, gy, gm, gi, wrap, grow, gcol, px);
                        if px != idx {
                            assert(!cell_covers(gx, gy, gm, gi, wrap, grow, gcol, px));
                            assert(display.pixels@[px] == cur[px]);
                        }
                    }
                    // the erased flag after this cell
                    assert(erased == (gerased || (pixel && d0[idx]))) by {
                        assert(cur[idx] == (d0[idx] != drw_covers_upto(
                            gx,
                            gy,
                            gm,
                            gi,
                            wrap,
                            grow,
                            gcol,
                            idx,
                        )));
                    }
                    let goal_erased = exists|px: int|
                        0 <= px < DISPLAY_PIXELS && d0[px] && #[trigger] drw_covers_upto(
                            gx,
                            gy,
                            gm,
                            gi,
                            wrap,
                            grow,
                            gcol + 1,
                            px,
                        );
                    if erased {
                        if gerased {
                            let w = choose|px: int|
                                0 <= px < DISPLAY_PIXELS && d0[px] && #[trigger] drw_covers_upto(
                                    gx,
                                    gy,
                                    gm,
                                    gi,
                                    wrap,
                                    grow,
                                    gcol,
                                    px,
                                );
                            lemma_covers_step(gx, gy, gm, gi, wrap, grow, gcol, w);
                            assert(drw_covers_upto(gx, gy, gm, gi, wrap, grow, gcol + 1, w));
                        } else {
                            lemma_covers_step(gx, gy, gm, gi, wrap, grow, gcol, idx);
                            assert(drw_covers_upto(gx, gy, gm, gi, wrap, grow, gcol + 1, idx));
                        }
                        assert(goal_erased);
                    }
                    if goal_erased {
                        let w = choose|px: int|
                            0 <= px < DISPLAY_PIXELS && d0[px] && #[trigger] drw_covers_upto(
                                gx,
                                gy,
                                gm,
                                gi,
                                wrap,
                                grow,
                                gcol + 1,
                                px,
                            );
                        lemma_covers_step(gx, gy, gm, gi, wrap, grow, gcol, w);
                        if drw_covers_upto(gx, gy, gm, gi, wrap, grow, gcol, w) {
                            assert(gerased);
                        } else {
                            assert(cell_covers(gx, gy, gm, gi, wrap, grow, gcol, w));
                            assert(w == idx);
                        }
                        assert(erased);
                    }
                    assert(erased == goal_erased);
                    // the dirty flag after this cell
                    let goal_redraw = exists|px: int|
                        0 <= px < DISPLAY_PIXELS && #[trigger] drw_covers_upto(
                            gx,
                            gy,
                            gm,
                            gi,
                            wrap,
                            grow,
                            gcol + 1,
                            px,
                        );
                    if display.redraw && !r0 {
                        if gredraw {
                            let w = choose|px: int|
                                0 <= px < DISPLAY_PIXELS && #[trigger] drw_covers_upto(
                                    gx,
                                    gy,
                                    gm,
                                    gi,
                                    wrap,
                                    grow,
                                    gcol,
                                    px,
                                );
                            lemma_covers_step(gx, gy, gm, gi, wrap, grow, gcol, w);
                            assert(drw_covers_upto(gx, gy, gm, gi, wrap, grow, gcol + 1, w));
                        } else {
                            assert(pixel);
                            lemma_covers_step(gx, gy, gm, gi, wrap, grow, gcol, idx);
                            assert(drw_covers_upto(gx, gy, gm, gi, wrap, grow, gcol + 1, idx));
                        }
                        assert(goal_redraw);
                    }
                    if goal_redraw {
                        let w = choose|px: int|
                            0 <= px < DISPLAY_PIXELS && #[trigger] drw_covers_upto(
                                gx,
                                gy,
                                gm,
                                gi,
                                wrap,
                                grow,
                                gcol + 1,
                                px,
                            );
                        lemma_covers_step(gx, gy, gm, gi, wrap, grow, gcol, w);
                        if drw_covers_upto(gx, gy, gm, gi, wrap, grow, gcol, w) {
                            assert(gredraw);
                        } else {
                            assert(cell_covers(gx, gy, gm, gi, wrap, grow, gcol, w));
                            assert(pixel);
                        }
                        assert(display.redraw);
                    }
                    assert(display.redraw == (r0 || goal_redraw));
                }
                col = col + 1;
            }
            proof {
                let gx = x as int;
                let gy = y as int;
                let grow = row as int;
                assert forall|px: int| 0 <= px < DISPLAY_PIXELS implies (drw_covers_upto(
                    gx,
                    gy,
                    gm,
                    gi,
                    wrap,
                    grow,
                    8,
                    px,
                ) == drw_covers_upto(gx, gy, gm, gi, wrap, grow + 1, 0, px)) by {
                    lemma_covers_row(gx, gy, gm, gi, wrap, grow, px);
                }
                if erased {
                    let w = choose|px: int|
                        0 <= px < DISPLAY_PIXELS && d0[px] && #[trigger] drw_covers_upto(
                            gx,
                            gy,
                            gm,
                            gi,
                            wrap,
                            grow,
                            8,
                            px,
                        );
                    assert(drw_covers_upto(gx, gy, gm, gi, wrap, grow + 1, 0, w));
                }
                if exists|px: int|
                    0 <= px < DISPLAY_PIXELS && d0[px] && #[trigger] drw_covers_upto(
                        gx,
                        gy,
                        gm,
                        gi,
                        wrap,
                        grow + 1,
                        0,
                        px,
                    ) {
                    let w = choose|px: int|
                        0 <= px < DISPLAY_PIXELS && d0[px] && #[trigger] drw_covers_upto(
                            gx,
                            gy,
                            gm,
                            gi,
                            wrap,
                            grow + 1,
                            0,
                            px,
                        );
                    assert(drw_covers_upto(gx, gy, gm, gi, wrap, grow, 8, w));
                    assert(erased);
                }
                if display.redraw && !r0 {
                    let w = choose|px: int|
                        0 <= px < DISPLAY_PIXELS && #[trigger] drw_covers_upto(
                            gx,
                            gy,
                            gm,
                            gi,
                            wrap,
                            grow,
                            8,
                            px,
                        );
                    assert(drw_covers_upto(gx, gy, gm, gi, wrap, grow + 1, 0, w));
                }
                if exists|px: int|
                    0 <= px < DISPLAY_PIXELS && #[trigger] drw_covers_upto(
                        gx,
                        gy,
                        gm,
                        gi,
                        wrap,
                        grow + 1,
                        0,
                        px,
                    ) {
                    let w = choose|px: int|
                        0 <= px < DISPLAY_PIXELS && #[trigger] drw_covers_upto(
                            gx,
                            gy,
                            gm,
                            gi,
                            wrap,
                            grow + 1,
                            0,
                            px,
                        );
                    assert(drw_covers_upto(gx, gy, gm, gi, wrap, grow, 8, w));
                    assert(display.redraw);
                }
            }
            row = row + 1;
        }
        proof {
            lemma_drw_finish(
                x as int,
                y as int,
                gm,
                gi,
                wrap,
                row as int,
                h as int,
                d0,
                display.pixels@,
                erased,
                display.redraw,
                r0,
            );
        }
        self.v[15] = if erased {
            1
        } else {
            0
        };
    }

    pub fn skp(&mut self, reg: u8, keyboard: &Keyboard)
        requires
            reg < 16,
        ensures
            sem_skp(*old(self), *final(self), reg, *keyboard),
    {
        if keyboard.get_key(self.v[reg as usize] % 16) {
            self.pc = self.pc.wrapping_add(2);
        }
    }

    pub fn sknp(&mut self, reg: u8, keyboard: &Keyboard)
        requires
            reg < 16,
        ensures
            sem_sknp(*old(self), *final(self), reg, *keyboard),
    {
        if !keyboard.get_key(self.v[reg as usize] % 16) {
            self.pc = self.pc.wrapping_add(2);
        }
    }

    pub fn lddt(&mut self, reg: u8)
        requires
            reg < 16,
        ensures
            sem_lddt(*old(self), *final(self), reg),
    {
        self.v[reg as usize] = self.dt;
    }

    pub fn ldkp(&mut self, reg: u8, keyboard: &mut Keyboard)
        requires
            reg < 16,
        ensures
            sem_ldkp(*old(self), *final(self), reg, *old(keyboard), *final(keyboard)),
    {
        match keyboard.wait_keypress() {
            Some(key) => {
                self.v[reg as usize] = key;
            },
            None => {
                self.pc = self.pc.wrapping_sub(2);
            },
        }
    }

    pub fn stdt(&mut self, reg: u8)
        requires
            reg < 16,
        ensures
            sem_stdt(*old(self), *final(self), reg),
    {
        self.dt = self.v[reg as usize];
    }

    pub fn stst(&mut self, reg: u8)
        requires
            reg < 16,
        ensures
            sem_stst(*old(self), *final(self), reg),
    {
        self.st = self.v[reg as usize];
    }

    pub fn adda(&mut self, reg: u8, settings: &Settings)
        requires
            reg < 16,
        ensures
            sem_adda(*old(self), *final(self), reg, settings.address_overflow_quirk),
    {
        let operand = self.v[reg as usize] as u16;
        let carry: bool = self.i as u32 + operand as u32 > 0xFFFF;
        self.i = self.i.wrapping_add(operand);
        if settings.address_overflow_quirk {
            self.v[15] = if carry {
                1
            } else {
                0
            };
        }
    }

    pub fn ldsa(&mut self, reg: u8)
        requires
            reg < 16,
        ensures
            sem_ldsa(*old(self), *final(self), reg),
    {
        self.i = Memory::sprite_address(self.v[reg as usize]);
    }

    pub fn stdr(&mut self, reg: u8, memory: &mut Memory)
        requires
            reg < 16,
        ensures
            sem_stdr(*old(self), *final(self), reg, *old(memory), *final(memory)),
    {
        let b = self.v[reg as usize];
        memory.write(self.i, b / 100);
        memory.write(self.i.wrapping_add(1), (b / 10) % 10);
        memory.write(self.i.wrapping_add(2), b % 10);
    }

    pub fn strr(&mut self, reg: u8, memory: &mut Memory, settings: &Settings)
        requires
            reg < 16,
        ensures
            sem_strr(
                *old(self),
                *final(self),
                reg,
                *old(memory),
                *final(memory),
                settings.load_store_quirk,
            ),
    {
        let mut k: u8 = 0;
        while k <= reg
            invariant
                reg < 16,
                k <= reg + 1,
                *self == *old(self),
                memory.bytes@ == store_regs(old(memory).bytes@, self.v@, self.i, k as int - 1),
            decreases reg + 1 - k,
        {
            memory.write(self.i.wrapping_add(k as u16), self.v[k as usize]);
            k = k + 1;
        }
        if settings.load_store_quirk {
            self.i = self.i.wrapping_add(reg as u16 + 1);
        }
    }

    /// One fetch-decode-execute cycle.
    ///
    /// The word at the program counter is fetched big-endian and decoded;
    /// a defined instruction advances the program counter past the word
    /// and executes (`Ok`), an undefined word is fatal: nothing changes
    /// and the failing address and raw word are surfaced (`Err`).
    pub fn cycle(
        &mut self,
        memory: &mut Memory,
        display: &mut Display,
        keyboard: &mut Keyboard,
        rng: &mut RNG,
        settings: &Settings,
    ) -> (r: Result<(), CycleError>)
        ensures
            r is Ok <==> defined(fetch_word(*old(self), old(memory).bytes@)),
            r is Ok ==> step_rel(
                *old(self),
                *final(self),
                *old(memory),
                *final(memory),
                *old(display),
                *final(display),
                *old(keyboard),
                *final(keyboard),
                old(rng).seed,
                final(rng).seed,
                *settings,
            ),
            r is Err ==> {
                &&& *final(self) == *old(self)
                &&& *final(memory) == *old(memory)
                &&& *final(display) == *old(display)
                &&& *final(keyboard) == *old(keyboard)
                &&& *final(rng) == *old(rng)
                &&& r == Err::<(), CycleError>(
                    CycleError {
                        addr: old(self).pc,
                        opcode: fetch_word(*old(self), old(memory).bytes@),
                    },
                )
            },
    {
        let hi = memory.read(self.pc);
        let lo = memory.read(self.pc.wrapping_add(1));
        let opcode: u16 = (hi as u16) * 256 + (lo as u16);
        let opaddr = self.pc;

        let op = Op::decode(opcode);
        proof {
            lemma_field_bounds(opcode);
            lemma_invalid_iff_undefined(opcode);
        }
        match op {
            Op::INV { .. } => {
                return Err(CycleError { addr: opaddr, opcode });
            },
            _ => {},
        }
        self.pc = self.pc.wrapping_add(2);

        match op {
            Op::SYS { addr } => self.sys(addr),
            Op::CLS => self.cls(display),
            Op::RET => self.ret(),
            Op::JP { addr } => self.jp(addr),
            Op::CALL { addr } => self.call(addr),
            Op::SE { reg, byte } => self.se(reg, byte),
            Op::SNE { reg, byte } => self.sne(reg, byte),
            Op::SER { reg_a, reg_b } => self.ser(reg_a, reg_b),
            Op::LD { reg, byte } => self.ld(reg, byte),
            Op::ADD { reg, byte } => self.add(reg, byte),
            Op::LDR { reg_a, reg_b } => self.ldr(reg_a, reg_b),
            Op::OR { reg_a, reg_b } => self.or(reg_a, reg_b),
            Op::AND { reg_a, reg_b } => self.and(reg_a, reg_b),
            Op::XOR { reg_a, reg_b } => self.xor(reg_a, reg_b),
            Op::ADDR { reg_a, reg_b } => self.addr(reg_a, reg_b),
            Op::SUB { reg_a, reg_b } => self.sub(reg_a, reg_b),
            Op::SHR { reg_a, reg_b } => self.shr(reg_a, reg_b, settings),
            Op::SUBN { reg_a, reg_b } => self.subn(reg_a, reg_b),
            Op::SHL { reg_a, reg_b } => self.shl(reg_a, reg_b, settings),
            Op::SNER { reg_a, reg_b } => self.sner(reg_a, reg_b),
            Op::LDA { addr } => self.lda(addr),
            Op::JPO { addr } => self.jpo(addr),
            Op::RND { reg, byte } => self.rnd(reg, byte, rng),
            Op::DRW { reg_a, reg_b, nibble } => self.drw(
                reg_a,
                reg_b,
                nibble,
                memory,
                display,
                settings,
            ),
            Op::SKP { reg } => self.skp(reg, keyboard),
            Op::SKNP { reg } => self.sknp(reg, keyboard),
            Op::LDDT { reg } => self.lddt(reg),
            Op::LDKP { reg } => self.ldkp(reg, keyboard),
            Op::STDT { reg } => self.stdt(reg),
            Op::STST { reg } => self.stst(reg),
            Op::ADDA { reg } => self.adda(reg, settings),
            Op::LDSA { reg } => self.ldsa(reg),
            Op::STDR { reg } => self.stdr(reg, memory),
            Op::STRR { reg } => self.strr(reg, memory, settings),
            Op::LDRR { reg } => self.ldrr(reg, memory, settings),
            Op::INV { .. } => {},
        }
        Ok(())
    }

    pub fn ldrr(&mut self, reg: u8, memory: &Memory, settings: &Settings)
        requires
            reg < 16,
        ensures
            sem_ldrr(*old(self), *final(self), reg, *memory, settings.load_store_quirk),
    {
        let mut k: u8 = 0;
        while k <= reg
            invariant
                reg < 16,
                k <= reg + 1,
                self.i == old(self).i,
                self.pc == old(self).pc,
                self.sp == old(self).sp,
                self.stack == old(self).stack,
                self.dt == old(self).dt,
                self.st == old(self).st,
                forall|j: int|
                    0 <= j < 16 ==> self.v@[j] == if j < k {
                        memory.bytes@[wadd16(old(self).i, j as u16) as int % 4096]
                    } else {
                        old(self).v@[j]
                    },
            decreases reg + 1 - k,
        {
            self.v[k as usize] = memory.read(self.i.wrapping_add(k as u16));
            k = k + 1;
        }
        if settings.load_store_quirk {
            self.i = self.i.wrapping_add(reg as u16 + 1);
        }
    }
}

} // verus!
