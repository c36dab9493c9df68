//! Facts about the machine that span several instructions or calls, proved over the
//! state model that the machine's own contracts use.
use vstd::prelude::*;

use crate::display::blank_frame;
use crate::instructions::{decoded, Instruction};
use crate::memory::{word_at, RAM_SIZE};
use crate::keypad::KeyWait;
use crate::vm::{
    cycle_spec, execute_spec, handle_key_spec, pc_plus, sprite_lit, sprite_row, MachineState,
    VMError,
};

verus! {

/// Adding an immediate to a register wraps modulo 256 and always succeeds; nothing but
/// that register changes.
pub proof fn lemma_add_val_wraps(s: MachineState, x: u8, nn: u8, rnd: u8)
    requires
        s.wf(),
        x < 16,
    ensures
        ({
            let (t, r) = execute_spec(s, Instruction::AddVal(x, nn), rnd);
            &&& r is Ok
            &&& t.regs[x as int] == (s.regs[x as int] + nn) % 256
            &&& t == s.with_reg(x, t.regs[x as int])
        }),
{
}

/// Adding two registers sets `VF` to 1 exactly when the unsigned sum exceeds 255, and to
/// 0 otherwise; the sum modulo 256 lands in `Vx`, unless `Vx` is `VF` itself, which the
/// flag overwrites.
pub proof fn lemma_add_carry(s: MachineState, x: u8, y: u8, rnd: u8)
    requires
        s.wf(),
        x < 16,
        y < 16,
    ensures
        ({
            let (t, r) = execute_spec(s, Instruction::Add(x, y), rnd);
            let sum = s.regs[x as int] + s.regs[y as int];
            &&& r is Ok
            &&& (t.regs[15] == 1) == (sum > 255)
            &&& (t.regs[15] == 0) == (sum <= 255)
            &&& x != 15 ==> t.regs[x as int] == sum % 256
        }),
{
}

/// `SubLeft` sets `VF` to 1 exactly when `Vx` was at least `Vy` before it ran.
pub proof fn lemma_sub_left_flag(s: MachineState, x: u8, y: u8, rnd: u8)
    requires
        s.wf(),
        x < 16,
        y < 16,
    ensures
        ({
            let (t, r) = execute_spec(s, Instruction::SubLeft(x, y), rnd);
            &&& r is Ok
            &&& (t.regs[15] == 1) == (s.regs[x as int] >= s.regs[y as int])
        }),
{
}

/// Loading `V0` to `Vk` from `I` gives back the registers that an earlier `StoreMem(k)`
/// stored there, whatever ran in between, as long as `I` and the stored bytes are as the
/// store left them; the registers above `Vk` keep their values.
pub proof fn lemma_load_after_store(s: MachineState, t: MachineState, k: u8, rnd: u8)
    requires
        s.wf(),
        t.wf(),
        k < 16,
        execute_spec(s, Instruction::StoreMem(k), rnd).1 is Ok,
        t.index == s.index,
        forall|a: int|
            s.index <= a <= s.index + k ==> t.mem[a] == execute_spec(s, Instruction::StoreMem(k), rnd).0.mem[a],
    ensures
        ({
            let (t2, r) = execute_spec(t, Instruction::LoadMem(k), rnd);
            &&& r is Ok
            &&& forall|j: int| 0 <= j <= k ==> t2.regs[j] == s.regs[j]
            &&& forall|j: int| k < j < 16 ==> t2.regs[j] == t.regs[j]
            &&& t2 == t.with_regs(t2.regs)
        }),
{
    let s1 = execute_spec(s, Instruction::StoreMem(k), rnd).0;
    let (t2, r) = execute_spec(t, Instruction::LoadMem(k), rnd);
    assert forall|j: int| 0 <= j <= k implies t2.regs[j] == s.regs[j] by {
        assert(t.mem[s.index + j] == s1.mem[s.index + j]);
    }
}

/// Storing `V0` to `Vk` at `I` and then loading `V0` to `Vk` from the same `I` gives back
/// the registers exactly.
pub proof fn lemma_store_then_load(s: MachineState, k: u8, rnd: u8)
    requires
        s.wf(),
        k < 16,
    ensures
        ({
            let s1 = execute_spec(s, Instruction::StoreMem(k), rnd).0;
            let s2 = execute_spec(s1, Instruction::LoadMem(k), rnd).0;
            s2.regs == s.regs
        }),
{
    let s1 = execute_spec(s, Instruction::StoreMem(k), rnd).0;
    let s2 = execute_spec(s1, Instruction::LoadMem(k), rnd).0;
    if s.index + k + 1 <= RAM_SIZE {
        lemma_load_after_store(s, s1, k, rnd);
        assert(s2.regs =~= s.regs);
    }
}

/// Drawing a sprite a second time at the same place, whatever ran in between, as long as
/// the screen, `I`, the sprite's bytes and the two coordinates are as the first draw left
/// them, puts every pixel back as it was before the first draw; the second draw reports a
/// collision exactly when the first one lit a pixel: always, for a sprite with a set bit
/// drawn on a blank screen.
pub proof fn lemma_redraw_after(s: MachineState, t: MachineState, x: u8, y: u8, n: u8, rnd: u8)
    requires
        s.wf(),
        t.wf(),
        x < 16,
        y < 16,
        n < 16,
        s.index + n <= RAM_SIZE,
        t.pixels == execute_spec(s, Instruction::Display(x, y, n), rnd).0.pixels,
        t.index == s.index,
        t.regs[x as int] == s.regs[x as int],
        t.regs[y as int] == s.regs[y as int],
        forall|a: int| s.index <= a < s.index + n ==> t.mem[a] == s.mem[a],
    ensures
        ({
            let (t2, r) = execute_spec(t, Instruction::Display(x, y, n), rnd);
            let (vx, vy) = (s.regs[x as int], s.regs[y as int]);
            &&& r is Ok
            &&& t2.pixels == s.pixels
            &&& (t2.regs[15] == 1) == (exists|p: int|
                0 <= p < s.pixels.len() && #[trigger] sprite_lit(s.mem, s.index as int, vx, vy, n, p)
                    && !s.pixels[p])
            &&& (s.pixels == blank_frame() && (exists|p: int|
                0 <= p < s.pixels.len() && #[trigger] sprite_lit(s.mem, s.index as int, vx, vy, n, p)))
                ==> t2.regs[15] == 1
        }),
{
    let d = Instruction::Display(x, y, n);
    let s1 = execute_spec(s, d, rnd).0;
    let (t2, r) = execute_spec(t, d, rnd);
    let (vx, vy) = (s.regs[x as int], s.regs[y as int]);
    let i = s.index as int;
    assert forall|p: int| sprite_lit(t.mem, i, vx, vy, n, p) == sprite_lit(s.mem, i, vx, vy, n, p) by {
        let row = sprite_row(p, vy);
        if row < n {
            assert(t.mem[i + row] == s.mem[i + row]);
        }
    }
    assert(t2.pixels =~= s.pixels);
    if exists|p: int| 0 <= p < s.pixels.len() && sprite_lit(s.mem, i, vx, vy, n, p) && !s.pixels[p] {
        let p = choose|p: int| 0 <= p < s.pixels.len() && sprite_lit(s.mem, i, vx, vy, n, p) && !s.pixels[p];
        assert(t.pixels[p] && sprite_lit(t.mem, i, vx, vy, n, p));
    }
    if t2.regs[15] == 1 {
        let p = choose|p: int| 0 <= p < t.pixels.len() && sprite_lit(t.mem, i, vx, vy, n, p) && t.pixels[p];
        assert(!s.pixels[p]);
    }
    if s.pixels == blank_frame() && (exists|p: int| 0 <= p < s.pixels.len() && sprite_lit(s.mem, i, vx, vy, n, p)) {
        let p = choose|p: int| 0 <= p < s.pixels.len() && sprite_lit(s.mem, i, vx, vy, n, p);
        assert(!s.pixels[p]);
    }
}

/// Drawing the same sprite twice in a row at the same place (neither coordinate register
/// being `VF`, which the first draw overwrites) puts every pixel back as it was, and the
/// second draw reports a collision exactly when the first one lit a pixel.
pub proof fn lemma_redraw_erases(s: MachineState, x: u8, y: u8, n: u8, rnd: u8)
    requires
        s.wf(),
        x < 15,
        y < 15,
        n < 16,
        s.index + n <= RAM_SIZE,
    ensures
        ({
            let d = Instruction::Display(x, y, n);
            let s1 = execute_spec(s, d, rnd).0;
            let (s2, r) = execute_spec(s1, d, rnd);
            let (vx, vy) = (s.regs[x as int], s.regs[y as int]);
            &&& r is Ok
            &&& s2.pixels == s.pixels
            &&& (s2.regs[15] == 1) == (exists|p: int|
                0 <= p < s.pixels.len() && #[trigger] sprite_lit(s.mem, s.index as int, vx, vy, n, p)
                    && !s.pixels[p])
        }),
{
    let s1 = execute_spec(s, Instruction::Display(x, y, n), rnd).0;
    lemma_redraw_after(s, s1, x, y, n, rnd);
}

/// The state after running a cycle for each byte of `rnds`, which the cycles draw in turn,
/// stopping at the first failure.
pub open spec fn run_cycles(s: MachineState, rnds: Seq<u8>) -> MachineState
    decreases rnds.len(),
{
    if rnds.len() == 0 {
        s
    } else {
        let (t, r) = cycle_spec(s, rnds[0]);
        if r is Ok {
            run_cycles(t, rnds.drop_first())
        } else {
            t
        }
    }
}

/// While a key wait is under way, any number of cycles changes nothing.
pub proof fn lemma_waiting_cycles_idle(s: MachineState, rnds: Seq<u8>)
    requires
        s.is_waiting(),
    ensures
        run_cycles(s, rnds) == s,
    decreases rnds.len(),
{
    if rnds.len() > 0 {
        lemma_waiting_cycles_idle(s, rnds.drop_first());
    }
}

/// A cycle that is not waiting and whose opcode lies in memory executes that opcode with
/// the program counter past it.
proof fn lemma_cycle_executes(s: MachineState, rnd: u8)
    requires
        !s.is_waiting(),
        s.pc + 1 < RAM_SIZE,
    ensures
        cycle_spec(s, rnd) == execute_spec(s.with_pc(s.pc + 2), decoded(word_at(s.mem, s.pc)), rnd),
{
}

/// `GetKey(x)` outside a wait moves the program counter back onto itself and waits for a
/// press whose code goes to `Vx`.
proof fn lemma_get_key_parks(s: MachineState, x: u8, rnd: u8)
    requires
        !s.is_waiting(),
    ensures
        execute_spec(s, Instruction::GetKey(x), rnd) == (
        MachineState { pc: pc_plus(s.pc, -2), wait: KeyWait::WaitingForPress(x), ..s },
        Ok::<(), VMError>(()),
        ),
{
}

/// `GetKey(x)` parks the machine: cycles run no instruction until the same key is pressed
/// and then released. At that point `Vx` holds the key's code and execution resumes at the
/// instruction after `GetKey`.
pub proof fn lemma_key_wait(s: MachineState, x: u8, code: u8, rnd: u8, idle1: Seq<u8>, idle2: Seq<u8>)
    requires
        s.wf(),
        !s.is_waiting(),
        s.pc + 1 < RAM_SIZE,
        decoded(word_at(s.mem, s.pc)) == Instruction::GetKey(x),
        code < 16,
    ensures
        ({
            let (s1, r) = cycle_spec(s, rnd);
            let s2 = handle_key_spec(run_cycles(s1, idle1), code, true);
            let s3 = handle_key_spec(run_cycles(s2, idle2), code, false);
            &&& r is Ok
            &&& s1.is_waiting()
            &&& run_cycles(s1, idle1) == s1
            &&& s2.is_waiting()
            &&& run_cycles(s2, idle2) == s2
            &&& !s3.is_waiting()
            &&& s3.regs == s.regs.update(x as int, code)
            &&& s3.pc == s.pc + 2
        }),
{
    assert(x < 16) by {
        crate::instructions::lemma_decoded_wf(word_at(s.mem, s.pc));
    }
    let s0 = s.with_pc(s.pc + 2);
    lemma_cycle_executes(s, rnd);
    lemma_get_key_parks(s0, x, rnd);
    let (s1, r) = cycle_spec(s, rnd);
    assert(s1.pc == s.pc);
    lemma_waiting_cycles_idle(s1, idle1);
    let s2 = handle_key_spec(s1, code, true);
    assert(s2.wait == KeyWait::WaitingForRelease(code));
    assert(s2.regs == s.regs.update(x as int, code));
    lemma_waiting_cycles_idle(s2, idle2);
    let s3 = handle_key_spec(s2, code, false);
    assert(s3.pc == pc_plus(s.pc, 2));
}

} // verus!
