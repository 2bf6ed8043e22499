//! What one fetch-decode-execute step does, stated over the machine model.
use vstd::prelude::*;
use crate::cpu::{Chip8Error, CpuState, KeyWait};
use crate::window::{collides, drawn};

verus! {

/// The big-endian instruction word at `pc`; addresses wrap at 4096.
pub open spec fn opcode_at(memory: Seq<u8>, pc: int) -> u16 {
    (memory[pc % 4096] as int * 256 + memory[(pc + 1) % 4096] as int) as u16
}

/// High nibble: the instruction group.
pub open spec fn op_group(op: u16) -> int {
    op as int / 4096
}

/// Bits 8 to 11: the first register operand.
pub open spec fn op_x(op: u16) -> int {
    (op as int / 256) % 16
}

/// Bits 4 to 7: the second register operand.
pub open spec fn op_y(op: u16) -> int {
    (op as int / 16) % 16
}

/// Bits 0 to 3.
pub open spec fn op_n(op: u16) -> int {
    op as int % 16
}

/// Bits 0 to 7.
pub open spec fn op_nn(op: u16) -> int {
    op as int % 256
}

/// Bits 0 to 11: an address.
pub open spec fn op_nnn(op: u16) -> int {
    op as int % 4096
}

/// `s` with register `x` set to `b`.
pub open spec fn set_v(s: CpuState, x: int, b: u8) -> CpuState {
    CpuState { v: s.v.update(x, b), ..s }
}

/// `s` with the next instruction skipped when `c` holds.
pub open spec fn skip_if(s: CpuState, c: bool) -> CpuState {
    if c {
        CpuState { pc: ((s.pc + 2) % 4096) as u16, ..s }
    } else {
        s
    }
}

/// Whether key `k` is down; an index outside the keypad names no key.
pub open spec fn key_pressed(keys: Seq<bool>, k: int) -> bool {
    0 <= k < 16 && keys[k]
}

/// The lowest index at or after `from` whose key is down.
pub open spec fn first_pressed_from(keys: Seq<bool>, from: int) -> Option<u8>
    decreases 16 - from,
{
    if from >= 16 || from < 0 {
        None
    } else if keys[from] {
        Some(from as u8)
    } else {
        first_pressed_from(keys, from + 1)
    }
}

/// The lowest index whose key is down, if any is.
pub open spec fn first_pressed(keys: Seq<bool>) -> Option<u8> {
    first_pressed_from(keys, 0)
}

/// The register-to-register group `8XYn`, or `None` for an undefined `n`.
/// The flag VF is written before VX; both results come from the operands
/// as they were before the instruction.
pub open spec fn alu(v: Seq<u8>, x: int, y: int, n: int) -> Option<Seq<u8>> {
    let a = v[x] as int;
    let b = v[y] as int;
    if n == 0 {
        Some(v.update(x, v[y]))
    } else if n == 1 {
        Some(v.update(x, v[x] | v[y]))
    } else if n == 2 {
        Some(v.update(x, v[x] & v[y]))
    } else if n == 3 {
        Some(v.update(x, v[x] ^ v[y]))
    } else if n == 4 {
        Some(v.update(15, if a + b > 255 { 1u8 } else { 0u8 }).update(x, ((a + b) % 256) as u8))
    } else if n == 5 {
        Some(v.update(15, if a >= b { 1u8 } else { 0u8 }).update(x, ((a - b) % 256) as u8))
    } else if n == 6 {
        Some(v.update(15, (a % 2) as u8).update(x, (a / 2) as u8))
    } else if n == 7 {
        Some(v.update(15, if b >= a { 1u8 } else { 0u8 }).update(x, ((b - a) % 256) as u8))
    } else if n == 14 {
        Some(v.update(15, (a / 128) as u8).update(x, ((a * 2) % 256) as u8))
    } else {
        None
    }
}

/// The `n` bytes of memory starting at `i`, wrapping at 4096.
pub open spec fn sprite_at(memory: Seq<u8>, i: int, n: int) -> Seq<u8> {
    Seq::new(n as nat, |k: int| memory[(i + k) % 4096])
}

/// Memory with the three decimal digits of `b` (hundreds first) at `i`.
pub open spec fn bcd(memory: Seq<u8>, i: int, b: u8) -> Seq<u8> {
    memory.update(i % 4096, b / 100).update((i + 1) % 4096, (b / 10) % 10).update(
        (i + 2) % 4096,
        b % 10,
    )
}

/// Memory with registers V0 to Vx stored from address `i` on.
pub open spec fn store_registers(memory: Seq<u8>, v: Seq<u8>, i: int, x: int) -> Seq<u8> {
    Seq::new(
        memory.len(),
        |a: int|
            {
                let j = (a - i) % 4096;
                if j <= x {
                    v[j]
                } else {
                    memory[a]
                }
            },
    )
}

/// Registers V0 to Vx loaded from address `i` on, the others kept.
pub open spec fn load_registers(v: Seq<u8>, memory: Seq<u8>, i: int, x: int) -> Seq<u8> {
    Seq::new(v.len(), |j: int| if j <= x { memory[(i + j) % 4096] } else { v[j] })
}

/// Group `0`: clear the screen, return from a subroutine, or ignore a
/// machine-language call.
pub open spec fn system_effect(s: CpuState, screen: Seq<bool>, op: u16) -> Result<
    (CpuState, Seq<bool>),
    Chip8Error,
> {
    if op == 0x00E0 {
        Ok((s, Seq::new(screen.len(), |p: int| false)))
    } else if op == 0x00EE {
        if s.stack.len() == 0 {
            Err(Chip8Error::StackUnderflow)
        } else {
            Ok((CpuState { pc: s.stack.last(), stack: s.stack.drop_last(), ..s }, screen))
        }
    } else {
        Ok((s, screen))
    }
}

/// Group `D`: draw `n` bytes from `I` at `(VX, VY)`, VF := collision.
pub open spec fn draw_effect(s: CpuState, screen: Seq<bool>, op: u16) -> (CpuState, Seq<bool>) {
    let sprite = sprite_at(s.memory, s.i as int, op_n(op));
    let x0 = s.v[op_x(op)] as int;
    let y0 = s.v[op_y(op)] as int;
    (
        set_v(s, 15, if collides(screen, sprite, x0, y0) { 1u8 } else { 0u8 }),
        drawn(screen, sprite, x0, y0),
    )
}

/// Group `F`: timers, key wait, index arithmetic, BCD and register transfer.
pub open spec fn misc_effect(s: CpuState, op: u16) -> Result<CpuState, Chip8Error> {
    let x = op_x(op);
    let nn = op_nn(op);
    let vx = s.v[x];
    if nn == 0x07 {
        Ok(set_v(s, x, s.delay_timer))
    } else if nn == 0x0A {
        Ok(CpuState { wait: KeyWait::AwaitingKey(x as u8), ..s })
    } else if nn == 0x15 {
        Ok(CpuState { delay_timer: vx, ..s })
    } else if nn == 0x18 {
        Ok(CpuState { sound_timer: vx, ..s })
    } else if nn == 0x1E {
        Ok(CpuState { i: ((s.i + vx) % 65536) as u16, ..s })
    } else if nn == 0x29 {
        Ok(CpuState { i: (vx * 5) as u16, ..s })
    } else if nn == 0x33 {
        Ok(CpuState { memory: bcd(s.memory, s.i as int, vx), ..s })
    } else if nn == 0x55 {
        Ok(CpuState { memory: store_registers(s.memory, s.v, s.i as int, x), ..s })
    } else if nn == 0x65 {
        Ok(CpuState { v: load_registers(s.v, s.memory, s.i as int, x), ..s })
    } else {
        Err(Chip8Error::UnknownOpcode(op))
    }
}

/// Every group but `0` and `D`: these touch the machine state only.
pub open spec fn register_effect(s: CpuState, keys: Seq<bool>, rnd: u8, op: u16) -> Result<
    CpuState,
    Chip8Error,
> {
    let g = op_group(op);
    let x = op_x(op);
    let y = op_y(op);
    let nn = op_nn(op);
    let nnn = op_nnn(op);
    let vx = s.v[x];
    let vy = s.v[y];
    if g == 1 {
        Ok(CpuState { pc: nnn as u16, ..s })
    } else if g == 2 {
        if s.stack.len() >= 16 {
            Err(Chip8Error::StackOverflow)
        } else {
            Ok(CpuState { pc: nnn as u16, stack: s.stack.push(s.pc), ..s })
        }
    } else if g == 3 {
        Ok(skip_if(s, vx as int == nn))
    } else if g == 4 {
        Ok(skip_if(s, vx as int != nn))
    } else if g == 5 {
        Ok(skip_if(s, vx == vy))
    } else if g == 6 {
        Ok(set_v(s, x, nn as u8))
    } else if g == 7 {
        Ok(set_v(s, x, ((vx + nn) % 256) as u8))
    } else if g == 8 {
        match alu(s.v, x, y, op_n(op)) {
            Some(v) => Ok(CpuState { v, ..s }),
            None => Err(Chip8Error::UnknownOpcode(op)),
        }
    } else if g == 9 {
        Ok(skip_if(s, vx != vy))
    } else if g == 10 {
        Ok(CpuState { i: nnn as u16, ..s })
    } else if g == 11 {
        Ok(CpuState { pc: ((nnn + s.v[0]) % 4096) as u16, ..s })
    } else if g == 12 {
        Ok(set_v(s, x, rnd & (nn as u8)))
    } else if g == 14 {
        if nn == 0x9E {
            Ok(skip_if(s, key_pressed(keys, vx as int)))
        } else if nn == 0xA1 {
            Ok(skip_if(s, !key_pressed(keys, vx as int)))
        } else {
            Err(Chip8Error::UnknownOpcode(op))
        }
    } else if g == 15 {
        misc_effect(s, op)
    } else {
        Err(Chip8Error::UnknownOpcode(op))
    }
}

/// Executes `op` on `s`, whose program counter already points past it.
pub open spec fn execute(s: CpuState, screen: Seq<bool>, keys: Seq<bool>, rnd: u8, op: u16) -> Result<
    (CpuState, Seq<bool>),
    Chip8Error,
> {
    let g = op_group(op);
    if g == 0 {
        system_effect(s, screen, op)
    } else if g == 13 {
        Ok(draw_effect(s, screen, op))
    } else {
        match register_effect(s, keys, rnd, op) {
            Ok(s2) => Ok((s2, screen)),
            Err(e) => Err(e),
        }
    }
}

/// One step of the decoder. While waiting for a key it fetches nothing: the
/// lowest pressed key, if any, goes to the target register and the machine
/// runs again from the next step. Otherwise the instruction at PC is
/// fetched, PC advances by two, and the instruction is executed; `rnd` is
/// the random byte that `CXNN` uses. The wait is level-triggered: a key
/// already down when it begins ends it at the next step. Memory addresses
/// and the program counter wrap at 4096.
#[verifier::opaque]
pub open spec fn step_spec(s: CpuState, screen: Seq<bool>, keys: Seq<bool>, rnd: u8) -> Result<
    (CpuState, Seq<bool>),
    Chip8Error,
> {
    match s.wait {
        KeyWait::AwaitingKey(x) => match first_pressed(keys) {
            Some(k) => Ok(
                (CpuState { v: s.v.update(x as int, k), wait: KeyWait::Running, ..s }, screen),
            ),
            None => Ok((s, screen)),
        },
        KeyWait::Running => execute(
            CpuState { pc: ((s.pc + 2) % 4096) as u16, ..s },
            screen,
            keys,
            rnd,
            opcode_at(s.memory, s.pc as int),
        ),
    }
}

/// The state after a call agrees with `expected`: on success the machine and
/// screen are the expected ones; on an error both are left as they were.
pub open spec fn outcome_matches(
    pre: CpuState,
    pre_screen: Seq<bool>,
    post: CpuState,
    post_screen: Seq<bool>,
    r: Result<(), Chip8Error>,
    expected: Result<(CpuState, Seq<bool>), Chip8Error>,
) -> bool {
    match expected {
        Ok((s, px)) => r is Ok && post == s && post_screen == px,
        Err(e) => r == Err::<(), Chip8Error>(e) && post == pre && post_screen == pre_screen,
    }
}

} // verus!
