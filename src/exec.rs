//! The instruction decoder and executor.
use vstd::prelude::*;
use crate::cpu::{CPU, Chip8Error, CpuState, KeyWait};
use crate::instruction::{
    alu, draw_effect, first_pressed, first_pressed_from, load_registers, misc_effect, op_group,
    opcode_at, outcome_matches, register_effect, step_spec, sprite_at, store_registers,
    system_effect,
};
use crate::window::Window;

verus! {

/// Address `i + j` wraps at 4096: for an offset `j` below 4096 the address
/// `b` is `(i + j) % 4096` exactly when `(b - i) % 4096 == j`.
proof fn lemma_wrapped_offset(i: int, j: int, b: int)
    requires
        0 <= i,
        0 <= j < 4096,
        0 <= b < 4096,
    ensures
        (b == (i + j) % 4096) <==> ((b - i) % 4096 == j),
{
}

/// The lowest index whose key is down.
fn first_key(keys: &[bool; 16]) -> (r: Option<u8>)
    ensures
        r == first_pressed(keys@),
{
    let mut k: usize = 0;
    while k < 16
        invariant
            k <= 16,
            first_pressed_from(keys@, k as int) == first_pressed(keys@),
        decreases 16 - k,
    {
        if keys[k] {
            return Some(k as u8);
        }
        k += 1;
    }
    None
}

/// Executes the register-to-register instruction `8XYn` on `v`; false, with
/// `v` untouched, for an undefined `n`.
fn alu_exec(v: &mut [u8; 16], x: usize, y: usize, n: u16) -> (ok: bool)
    requires
        x < 16,
        y < 16,
    ensures
        match alu(old(v)@, x as int, y as int, n as int) {
            Some(v2) => ok && final(v)@ == v2,
            None => !ok && final(v)@ == old(v)@,
        },
{
    let a = v[x];
    let b = v[y];
    if n == 0 {
        v[x] = b;
    } else if n == 1 {
        v[x] = a | b;
    } else if n == 2 {
        v[x] = a & b;
    } else if n == 3 {
        v[x] = a ^ b;
    } else if n == 4 {
        let sum = a as u16 + b as u16;
        v[15] = if sum > 255 { 1 } else { 0 };
        v[x] = (sum % 256) as u8;
    } else if n == 5 {
        v[15] = if a >= b { 1 } else { 0 };
        v[x] = if a >= b { a - b } else { (256 + a as u16 - b as u16) as u8 };
    } else if n == 6 {
        v[15] = a % 2;
        v[x] = a / 2;
    } else if n == 7 {
        v[15] = if b >= a { 1 } else { 0 };
        v[x] = if b >= a { b - a } else { (256 + b as u16 - a as u16) as u8 };
    } else if n == 14 {
        v[15] = a / 128;
        v[x] = ((a as u16 * 2) % 256) as u8;
    } else {
        return false;
    }
    true
}

/// Stores registers V0 to Vx in memory from address `i` on.
fn store_registers_exec(memory: &mut [u8; 4096], v: &[u8; 16], i: u16, x: usize)
    requires
        x < 16,
    ensures
        final(memory)@ == store_registers(old(memory)@, v@, i as int, x as int),
{
    let ghost start = memory@;
    let mut j: usize = 0;
    while j <= x
        invariant
            x < 16,
            j <= x + 1,
            start.len() == 4096,
            memory@ == store_registers(start, v@, i as int, j - 1),
        decreases x + 1 - j,
    {
        let a = (i as usize + j) % 4096;
        let ghost before = memory@;
        memory[a] = v[j];
        proof {
            assert forall|b: int| 0 <= b < 4096 implies #[trigger] memory@[b] == store_registers(
                start,
                v@,
                i as int,
                j as int,
            )[b] by {
                lemma_wrapped_offset(i as int, j as int, b);
            }
            assert(memory@ =~= store_registers(start, v@, i as int, j as int));
        }
        j += 1;
    }
}

/// Loads registers V0 to Vx from memory at address `i` on.
fn load_registers_exec(v: &mut [u8; 16], memory: &[u8; 4096], i: u16, x: usize)
    requires
        x < 16,
    ensures
        final(v)@ == load_registers(old(v)@, memory@, i as int, x as int),
{
    let ghost start = v@;
    let mut j: usize = 0;
    while j <= x
        invariant
            x < 16,
            j <= x + 1,
            start.len() == 16,
            v@ == load_registers(start, memory@, i as int, j - 1),
        decreases x + 1 - j,
    {
        v[j] = memory[(i as usize + j) % 4096];
        assert(v@ =~= load_registers(start, memory@, i as int, j as int));
        j += 1;
    }
}

impl CPU {
    /// The instruction word at the program counter.
    fn fetch(&self) -> (op: u16)
        requires
            self.wf(),
        ensures
            op == opcode_at(self@.memory, self@.pc as int),
    {
        proof {
            self.lemma_wf();
        }
        let hi = self.memory[self.pc as usize] as u16;
        let lo = self.memory[((self.pc + 1) % 4096) as usize] as u16;
        hi * 256 + lo
    }

    /// Group `0`: clear, return, or an ignored machine-language call.
    fn exec_system(&mut self, screen: &mut Window, op: u16, pc2: u16) -> (r: Result<(), Chip8Error>)
        requires
            old(self).wf(),
            op_group(op) == 0,
            pc2 == (old(self)@.pc + 2) % 4096,
        ensures
            final(self).wf(),
            outcome_matches(
                old(self)@,
                old(screen)@,
                final(self)@,
                final(screen)@,
                r,
                system_effect(CpuState { pc: pc2, ..old(self)@ }, old(screen)@, op),
            ),
    {
        proof {
            screen.lemma_len();
        }
        if op == 0x00E0 {
            screen.clear_screen();
            self.pc = pc2;
        } else if op == 0x00EE {
            if self.sp == 0 {
                return Err(Chip8Error::StackUnderflow);
            }
            let ghost before = self@.stack;
            self.sp = self.sp - 1;
            self.pc = self.stack[self.sp as usize];
            assert(self@.stack =~= before.drop_last());
        } else {
            self.pc = pc2;
        }
        Ok(())
    }

    /// Group `D`: draws `n` bytes of memory from `I` at `(VX, VY)`.
    fn exec_draw(&mut self, screen: &mut Window, op: u16, pc2: u16)
        requires
            old(self).wf(),
            op_group(op) == 13,
            pc2 == (old(self)@.pc + 2) % 4096,
        ensures
            final(self).wf(),
            (final(self)@, final(screen)@) == draw_effect(
                CpuState { pc: pc2, ..old(self)@ },
                old(screen)@,
                op,
            ),
    {
        let x = ((op / 256) % 16) as usize;
        let y = ((op / 16) % 16) as usize;
        let n = (op % 16) as usize;
        let mut sprite: Vec<u8> = Vec::new();
        let mut k: usize = 0;
        while k < n
            invariant
                k <= n,
                n < 16,
                sprite@ == sprite_at(self@.memory, self@.i as int, k as int),
            decreases n - k,
        {
            sprite.push(self.memory[(self.i as usize + k) % 4096]);
            k += 1;
            assert(sprite@ =~= sprite_at(self@.memory, self@.i as int, k as int));
        }
        let collision = screen.draw(sprite.as_slice(), self.v[x], self.v[y]);
        self.v[15] = if collision { 1 } else { 0 };
        self.pc = pc2;
    }

    /// Group `F`: timers, key wait, index arithmetic, BCD, register transfer.
    fn exec_misc(&mut self, op: u16, pc2: u16) -> (r: Result<(), Chip8Error>)
        requires
            old(self).wf(),
            op_group(op) == 15,
            pc2 == (old(self)@.pc + 2) % 4096,
        ensures
            final(self).wf(),
            match misc_effect(CpuState { pc: pc2, ..old(self)@ }, op) {
                Ok(s) => r is Ok && final(self)@ == s,
                Err(e) => r == Err::<(), Chip8Error>(e) && final(self)@ == old(self)@,
            },
    {
        let x = ((op / 256) % 16) as usize;
        let nn = op % 256;
        let vx = self.v[x];
        if nn == 0x07 {
            self.v[x] = self.delay_timer;
        } else if nn == 0x0A {
            self.wait = KeyWait::AwaitingKey(x as u8);
        } else if nn == 0x15 {
            self.delay_timer = vx;
        } else if nn == 0x18 {
            self.sound_timer = vx;
        } else if nn == 0x1E {
            self.i = ((self.i as u32 + vx as u32) % 65536) as u16;
        } else if nn == 0x29 {
            self.i = vx as u16 * 5;
        } else if nn == 0x33 {
            let a = self.i as usize;
            self.memory[a % 4096] = vx / 100;
            self.memory[(a + 1) % 4096] = (vx / 10) % 10;
            self.memory[(a + 2) % 4096] = vx % 10;
        } else if nn == 0x55 {
            store_registers_exec(&mut self.memory, &self.v, self.i, x);
        } else if nn == 0x65 {
            load_registers_exec(&mut self.v, &self.memory, self.i, x);
        } else {
            return Err(Chip8Error::UnknownOpcode(op));
        }
        self.pc = pc2;
        Ok(())
    }

    /// Every group but `0` and `D`.
    fn exec_registers(&mut self, keys: &[bool; 16], rnd: u8, op: u16, pc2: u16) -> (r: Result<
        (),
        Chip8Error,
    >)
        requires
            old(self).wf(),
            op_group(op) != 0,
            op_group(op) != 13,
            pc2 == (old(self)@.pc + 2) % 4096,
        ensures
            final(self).wf(),
            match register_effect(CpuState { pc: pc2, ..old(self)@ }, keys@, rnd, op) {
                Ok(s) => r is Ok && final(self)@ == s,
                Err(e) => r == Err::<(), Chip8Error>(e) && final(self)@ == old(self)@,
            },
    {
        let group = op / 4096;
        let x = ((op / 256) % 16) as usize;
        let y = ((op / 16) % 16) as usize;
        let nn = op % 256;
        let nnn = op % 4096;
        let vx = self.v[x];
        let vy = self.v[y];
        let skipped = (pc2 + 2) % 4096;
        if group == 1 {
            self.pc = nnn;
        } else if group == 2 {
            if self.sp >= 16 {
                return Err(Chip8Error::StackOverflow);
            }
            let ghost before = self@.stack;
            self.stack[self.sp as usize] = pc2;
            self.sp = self.sp + 1;
            self.pc = nnn;
            assert(self@.stack =~= before.push(pc2));
        } else if group == 3 {
            self.pc = if vx as u16 == nn { skipped } else { pc2 };
        } else if group == 4 {
            self.pc = if vx as u16 != nn { skipped } else { pc2 };
        } else if group == 5 {
            self.pc = if vx == vy { skipped } else { pc2 };
        } else if group == 6 {
            self.v[x] = nn as u8;
            self.pc = pc2;
        } else if group == 7 {
            self.v[x] = ((vx as u16 + nn) % 256) as u8;
            self.pc = pc2;
        } else if group == 8 {
            if !alu_exec(&mut self.v, x, y, op % 16) {
                return Err(Chip8Error::UnknownOpcode(op));
            }
            self.pc = pc2;
        } else if group == 9 {
            self.pc = if vx != vy { skipped } else { pc2 };
        } else if group == 10 {
            self.i = nnn;
            self.pc = pc2;
        } else if group == 11 {
            self.pc = (nnn + self.v[0] as u16) % 4096;
        } else if group == 12 {
            self.v[x] = rnd & (nn as u8);
            self.pc = pc2;
        } else if group == 14 {
            let pressed = vx < 16 && keys[vx as usize];
            if nn == 0x9E {
                self.pc = if pressed { skipped } else { pc2 };
            } else if nn == 0xA1 {
                self.pc = if !pressed { skipped } else { pc2 };
            } else {
                return Err(Chip8Error::UnknownOpcode(op));
            }
        } else {
            return self.exec_misc(op, pc2);
        }
        Ok(())
    }

    /// One fetch-decode-execute step, with `rnd` as the random byte that
    /// `CXNN` masks. While the machine waits for a key, no instruction is
    /// fetched: the lowest pressed key, if any, is stored and the machine runs
    /// again from the next step. On an error nothing is changed.
    pub fn step(&mut self, screen: &mut Window, keys: &[bool; 16], rnd: u8) -> (r: Result<
        (),
        Chip8Error,
    >)
        requires
            old(self).wf(),
        ensures
            final(self).wf(),
            outcome_matches(
                old(self)@,
                old(screen)@,
                final(self)@,
                final(screen)@,
                r,
                step_spec(old(self)@, old(screen)@, keys@, rnd),
            ),
    {
        proof {
            reveal(step_spec);
        }
        match self.wait {
            KeyWait::AwaitingKey(x) => {
                match first_key(keys) {
                    Some(k) => {
                        self.v[x as usize] = k;
                        self.wait = KeyWait::Running;
                    },
                    None => {},
                }
                return Ok(());
            },
            KeyWait::Running => {},
        }
        let op = self.fetch();
        let pc2 = (self.pc + 2) % 4096;
        let group = op / 4096;
        if group == 0 {
            self.exec_system(screen, op, pc2)
        } else if group == 13 {
            self.exec_draw(screen, op, pc2);
            Ok(())
        } else {
            self.exec_registers(keys, rnd, op, pc2)
        }
    }
}

} // verus!
