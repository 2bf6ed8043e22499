//! Laws of the machine, proved over the model that the executable
//! functions' contracts speak of.
use vstd::prelude::*;
use crate::cpu::{Chip8Error, CpuState, KeyWait, initial_memory, with_rom};
use crate::instruction::{
    first_pressed, first_pressed_from, op_group, op_n, op_nn, op_nnn, op_x, op_y, opcode_at,
    step_spec,
};
use crate::driver::run_cycles;
use crate::window::{col_offset, collides, drawn, row_offset, sprite_hits};

verus! {

/// Loading a program of at most 3584 bytes into power-on memory puts it byte
/// for byte at 0x200 and keeps every other byte, the font included.
pub proof fn law_load_layout(rom: Seq<u8>)
    requires
        rom.len() <= 0xE00,
    ensures
        with_rom(initial_memory(), rom).len() == 4096,
        forall|k: int| 0 <= k < rom.len() ==> #[trigger] with_rom(initial_memory(), rom)[0x200 + k] == rom[k],
        forall|a: int|
            0 <= a < 0x200 || 0x200 + rom.len() <= a < 4096 ==> #[trigger] with_rom(
                initial_memory(),
                rom,
            )[a] == initial_memory()[a],
{
}

/// The step taken by a running machine on instruction `op` at its program
/// counter.
pub open spec fn runs(s: CpuState, op: u16) -> bool {
    &&& s.wf()
    &&& s.wait == KeyWait::Running
    &&& opcode_at(s.memory, s.pc as int) == op
}

/// `6XNN` sets VX to NN whatever it held, and no other register.
pub proof fn law_load_immediate(s: CpuState, screen: Seq<bool>, keys: Seq<bool>, rnd: u8, op: u16)
    requires
        runs(s, op),
        op_group(op) == 6,
    ensures
        match step_spec(s, screen, keys, rnd) {
            Ok((t, px)) => t.v == s.v.update(op_x(op), op_nn(op) as u8) && px == screen,
            Err(_) => false,
        },
{
    reveal(step_spec);
}

/// `7XNN` adds NN to VX modulo 256 and leaves VF alone when X is not F.
pub proof fn law_add_immediate(s: CpuState, screen: Seq<bool>, keys: Seq<bool>, rnd: u8, op: u16)
    requires
        runs(s, op),
        op_group(op) == 7,
    ensures
        match step_spec(s, screen, keys, rnd) {
            Ok((t, px)) => {
                &&& t.v[op_x(op)] as int == (s.v[op_x(op)] + op_nn(op)) % 256
                &&& (op_x(op) != 15 ==> t.v[15] == s.v[15])
                &&& px == screen
            },
            Err(_) => false,
        },
{
    reveal(step_spec);
}

/// `8XY4` with VX = a and VY = b, X not F: VX becomes (a + b) mod 256 and VF
/// is 1 exactly when a + b exceeds 255.
pub proof fn law_add_carry(s: CpuState, screen: Seq<bool>, keys: Seq<bool>, rnd: u8, op: u16)
    requires
        runs(s, op),
        op_group(op) == 8,
        op_n(op) == 4,
        op_x(op) != 15,
    ensures
        match step_spec(s, screen, keys, rnd) {
            Ok((t, px)) => {
                let a = s.v[op_x(op)] as int;
                let b = s.v[op_y(op)] as int;
                &&& t.v[op_x(op)] as int == (a + b) % 256
                &&& t.v[15] == if a + b > 255 { 1u8 } else { 0u8 }
            },
            Err(_) => false,
        },
{
    reveal(step_spec);
}

/// `8XY5` with VX = a and VY = b, X not F: VX becomes (a - b) mod 256 and VF
/// is 1 exactly when a >= b.
pub proof fn law_sub_borrow(s: CpuState, screen: Seq<bool>, keys: Seq<bool>, rnd: u8, op: u16)
    requires
        runs(s, op),
        op_group(op) == 8,
        op_n(op) == 5,
        op_x(op) != 15,
    ensures
        match step_spec(s, screen, keys, rnd) {
            Ok((t, px)) => {
                let a = s.v[op_x(op)] as int;
                let b = s.v[op_y(op)] as int;
                &&& t.v[op_x(op)] as int == (a - b) % 256
                &&& t.v[15] == if a >= b { 1u8 } else { 0u8 }
            },
            Err(_) => false,
        },
{
    reveal(step_spec);
}

/// `8XY6` and `8XYE`, X not F: VF receives the bit shifted out of VX (bit 0,
/// bit 7), taken before the shift, and VY plays no part.
pub proof fn law_shift(s: CpuState, screen: Seq<bool>, keys: Seq<bool>, rnd: u8, op: u16)
    requires
        runs(s, op),
        op_group(op) == 8,
        op_n(op) == 6 || op_n(op) == 14,
        op_x(op) != 15,
    ensures
        match step_spec(s, screen, keys, rnd) {
            Ok((t, px)) => {
                let a = s.v[op_x(op)] as int;
                &&& op_n(op) == 6 ==> t.v[15] as int == a % 2 && t.v[op_x(op)] as int == a / 2
                &&& op_n(op) == 14 ==> t.v[15] as int == a / 128 && t.v[op_x(op)] as int == (a
                    * 2) % 256
            },
            Err(_) => false,
        },
{
    reveal(step_spec);
}

/// Sprite rows that hold only zero bits leave the pixels they cover as they
/// were; a sprite whose rows are all zero changes no pixel and never
/// collides.
pub proof fn law_blank_rows(screen: Seq<bool>, sprite: Seq<u8>, x0: int, y0: int)
    ensures
        forall|p: int|
            0 <= p < screen.len() && row_offset(y0, p) < sprite.len() && sprite[row_offset(y0, p)]
                == 0 ==> #[trigger] drawn(screen, sprite, x0, y0)[p] == screen[p],
        (forall|k: int| 0 <= k < sprite.len() ==> sprite[k] == 0) ==> drawn(screen, sprite, x0, y0)
            == screen && !collides(screen, sprite, x0, y0),
{
    assert forall|p: int|
        0 <= p < screen.len() && row_offset(y0, p) < sprite.len() && sprite[row_offset(y0, p)]
            == 0 implies !sprite_hits(sprite, x0, y0, p) by {
        let j = col_offset(x0, p);
        if j < 8 {
            let sh = (7 - j) as u8;
            assert(((0u8 >> sh) & 1u8) == 0u8) by (bit_vector);
        }
    }
    if forall|k: int| 0 <= k < sprite.len() ==> sprite[k] == 0 {
        assert forall|p: int| 0 <= p < screen.len() implies !sprite_hits(sprite, x0, y0, p) by {
            assert(row_offset(y0, p) >= 0);
        }
        assert(drawn(screen, sprite, x0, y0) =~= screen);
    }
}

/// Drawing a sprite twice at the same place restores every pixel, and the
/// second drawing collides exactly when the first turned some pixel on.
pub proof fn law_draw_twice(screen: Seq<bool>, sprite: Seq<u8>, x0: int, y0: int)
    ensures
        drawn(drawn(screen, sprite, x0, y0), sprite, x0, y0) == screen,
        collides(drawn(screen, sprite, x0, y0), sprite, x0, y0) <==> exists|p: int|
            0 <= p < screen.len() && !screen[p] && #[trigger] sprite_hits(sprite, x0, y0, p),
{
    let once = drawn(screen, sprite, x0, y0);
    assert(drawn(once, sprite, x0, y0) =~= screen);
    if collides(once, sprite, x0, y0) {
        let p = choose|p: int|
            0 <= p < once.len() && #[trigger] once[p] && sprite_hits(sprite, x0, y0, p);
        assert(!screen[p] && sprite_hits(sprite, x0, y0, p));
    }
    if exists|p: int| 0 <= p < screen.len() && !screen[p] && #[trigger] sprite_hits(sprite, x0, y0, p) {
        let p = choose|p: int|
            0 <= p < screen.len() && !screen[p] && #[trigger] sprite_hits(sprite, x0, y0, p);
        assert(once[p] && sprite_hits(sprite, x0, y0, p));
    }
}

/// `00E0` turns every one of the 2048 pixels off.
pub proof fn law_clear(s: CpuState, screen: Seq<bool>, keys: Seq<bool>, rnd: u8)
    requires
        runs(s, 0x00E0),
        screen.len() == 2048,
    ensures
        match step_spec(s, screen, keys, rnd) {
            Ok((t, px)) => px.len() == 2048 && forall|p: int| 0 <= p < 2048 ==> !#[trigger] px[p],
            Err(_) => false,
        },
{
    reveal(step_spec);
}

/// `2NNN` pushes the return address and jumps while fewer than sixteen are
/// stacked; with sixteen stacked it fails with `StackOverflow` (and the
/// machine is left as it was).
pub proof fn law_call(s: CpuState, screen: Seq<bool>, keys: Seq<bool>, rnd: u8, op: u16)
    requires
        runs(s, op),
        op_group(op) == 2,
    ensures
        s.stack.len() < 16 ==> match step_spec(s, screen, keys, rnd) {
            Ok((t, px)) => t == (CpuState {
                pc: op_nnn(op) as u16,
                stack: s.stack.push(((s.pc + 2) % 4096) as u16),
                ..s
            }) && px == screen && t.wf(),
            Err(_) => false,
        },
        s.stack.len() == 16 ==> step_spec(s, screen, keys, rnd) == Err::<
            (CpuState, Seq<bool>),
            Chip8Error,
        >(Chip8Error::StackOverflow),
{
    reveal(step_spec);
}

/// A call instruction that calls its own address, run from an empty stack:
/// each of up to sixteen successive steps pushes one more return address and
/// leaves everything else as it was; the seventeenth then fails with
/// `StackOverflow`.
pub proof fn law_successive_calls(s: CpuState, screen: Seq<bool>, keys: Seq<bool>, rnds: Seq<u8>)
    requires
        runs(s, opcode_at(s.memory, s.pc as int)),
        op_group(opcode_at(s.memory, s.pc as int)) == 2,
        op_nnn(opcode_at(s.memory, s.pc as int)) == s.pc,
        s.stack.len() == 0,
        rnds.len() <= 16,
    ensures
        run_cycles(s, screen, keys, rnds) == Ok::<(CpuState, Seq<bool>), Chip8Error>(
            (
                CpuState {
                    stack: Seq::new(rnds.len(), |k: int| ((s.pc + 2) % 4096) as u16),
                    ..s
                },
                screen,
            ),
        ),
        rnds.len() == 16 ==> #[trigger] step_spec(
            CpuState { stack: Seq::new(16, |k: int| ((s.pc + 2) % 4096) as u16), ..s },
            screen,
            keys,
            0,
        ) == Err::<(CpuState, Seq<bool>), Chip8Error>(Chip8Error::StackOverflow),
    decreases rnds.len(),
{
    let ret = ((s.pc + 2) % 4096) as u16;
    let op = opcode_at(s.memory, s.pc as int);
    if rnds.len() == 0 {
        assert(s.stack =~= Seq::new(0, |k: int| ret));
    } else {
        law_successive_calls(s, screen, keys, rnds.drop_last());
        let n = rnds.len() - 1;
        let t = CpuState { stack: Seq::new(n as nat, |k: int| ret), ..s };
        assert(runs(t, op));
        law_call(t, screen, keys, rnds.last(), op);
        let next = CpuState { stack: Seq::new(rnds.len(), |k: int| ret), ..s };
        assert(t.stack.push(ret) =~= next.stack);
        assert(step_spec(t, screen, keys, rnds.last()) == Ok::<(CpuState, Seq<bool>), Chip8Error>(
            (next, screen),
        ));
        assert(run_cycles(s, screen, keys, rnds.drop_last()) == Ok::<
            (CpuState, Seq<bool>),
            Chip8Error,
        >((t, screen)));
    }
    if rnds.len() == 16 {
        let full = CpuState { stack: Seq::new(16, |k: int| ret), ..s };
        assert(runs(full, op));
        law_call(full, screen, keys, 0, op);
    }
}

/// `00EE` with an empty stack fails with `StackUnderflow`.
pub proof fn law_return_empty(s: CpuState, screen: Seq<bool>, keys: Seq<bool>, rnd: u8)
    requires
        runs(s, 0x00EE),
        s.stack.len() == 0,
    ensures
        step_spec(s, screen, keys, rnd) == Err::<(CpuState, Seq<bool>), Chip8Error>(
            Chip8Error::StackUnderflow,
        ),
{
    reveal(step_spec);
}

/// The key found from index `from` on is the lowest pressed one there.
proof fn lemma_first_pressed_from(keys: Seq<bool>, from: int)
    requires
        keys.len() == 16,
        0 <= from <= 16,
    ensures
        match first_pressed_from(keys, from) {
            Some(k) => from <= k < 16 && keys[k as int] && forall|j: int|
                from <= j < k ==> !#[trigger] keys[j],
            None => forall|j: int| from <= j < 16 ==> !#[trigger] keys[j],
        },
    decreases 16 - from,
{
    if from < 16 && !keys[from] {
        lemma_first_pressed_from(keys, from + 1);
    }
}

/// `FX0A` suspends the machine on register X.
pub proof fn law_wait_starts(s: CpuState, screen: Seq<bool>, keys: Seq<bool>, rnd: u8, op: u16)
    requires
        runs(s, op),
        op_group(op) == 15,
        op_nn(op) == 0x0A,
    ensures
        match step_spec(s, screen, keys, rnd) {
            Ok((t, px)) => t.wait == KeyWait::AwaitingKey(op_x(op) as u8) && t.wf(),
            Err(_) => false,
        },
{
    reveal(step_spec);
}

/// A suspended machine fetches nothing: with no key down nothing changes;
/// with keys down the lowest pressed index goes to the target register, the
/// program counter stays, and the machine runs again from the next step.
pub proof fn law_wait_for_key(s: CpuState, screen: Seq<bool>, keys: Seq<bool>, rnd: u8, x: u8)
    requires
        s.wf(),
        keys.len() == 16,
        s.wait == KeyWait::AwaitingKey(x),
    ensures
        (forall|j: int| 0 <= j < 16 ==> !#[trigger] keys[j]) ==> step_spec(s, screen, keys, rnd)
            == Ok::<(CpuState, Seq<bool>), Chip8Error>((s, screen)),
        (exists|j: int| 0 <= j < 16 && #[trigger] keys[j]) ==> match step_spec(
            s,
            screen,
            keys,
            rnd,
        ) {
            Ok((t, px)) => {
                let k = t.v[x as int] as int;
                &&& 0 <= k < 16 && keys[k]
                &&& forall|j: int| 0 <= j < k ==> !#[trigger] keys[j]
                &&& t.wait == KeyWait::Running
                &&& t.pc == s.pc
                &&& t.memory == s.memory
                &&& t.stack == s.stack
                &&& px == screen
            },
            Err(_) => false,
        },
{
    reveal(step_spec);
    lemma_first_pressed_from(keys, 0);
    if first_pressed(keys) is None {
        assert(forall|j: int| 0 <= j < 16 ==> !#[trigger] keys[j]);
    }
}

/// Every step keeps the machine's shape: stack depth at most sixteen,
/// program counter and return addresses inside memory, and a screen of 2048
/// pixels.
pub proof fn law_step_keeps_shape(s: CpuState, screen: Seq<bool>, keys: Seq<bool>, rnd: u8)
    requires
        s.wf(),
        screen.len() == 2048,
    ensures
        match step_spec(s, screen, keys, rnd) {
            Ok((t, px)) => t.wf() && px.len() == 2048,
            Err(_) => true,
        },
{
    reveal(step_spec);
}

} // verus!
