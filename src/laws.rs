use vstd::prelude::*;
use crate::error::MachineError;
use crate::instruction::Instruction;
use crate::stack::STACK_SIZE;
use crate::interpreter::{
    covered_before,
    drawn,
    executed,
    loaded,
    state_well_formed,
    toggled,
    word_at,
    MachineState,
    FLAG_REGISTER,
    MEMORY_SIZE,
    PC_START_ADDRESS,
    SCREEN_CELLS,
    SCREEN_HEIGHT,
    SCREEN_WIDTH,
};

verus! {

/// Loading a program that fits and then reading memory from the load address
/// on gives back the program's bytes.
pub proof fn lemma_load_reads_back(memory: Seq<u8>, bytes: Seq<u8>)
    requires
        memory.len() == MEMORY_SIZE,
        bytes.len() <= MEMORY_SIZE - PC_START_ADDRESS,
    ensures
        loaded(memory, bytes).len() == MEMORY_SIZE,
        loaded(memory, bytes).subrange(
            PC_START_ADDRESS as int,
            PC_START_ADDRESS + bytes.len(),
        ) == bytes,
{
    assert(loaded(memory, bytes).subrange(PC_START_ADDRESS as int, PC_START_ADDRESS + bytes.len())
        =~= bytes);
}

/// After a program is loaded, the word at the `k`-th instruction slot from the
/// load address is the big-endian combination of the program's bytes `2k` and
/// `2k + 1`.
pub proof fn lemma_fetch_loaded(memory: Seq<u8>, bytes: Seq<u8>, k: nat)
    requires
        memory.len() == MEMORY_SIZE,
        bytes.len() <= MEMORY_SIZE - PC_START_ADDRESS,
        2 * k + 1 < bytes.len(),
    ensures
        word_at(loaded(memory, bytes), PC_START_ADDRESS + 2 * k as int) as int == bytes[2 * k as int] as int
            * 256 + bytes[2 * k as int + 1] as int,
{
}

/// Adding to a register wraps at eight bits and leaves every other register,
/// the flag register among them, as it was.
pub proof fn lemma_add_wraps(s: MachineState, x: usize, value: u8)
    requires
        state_well_formed(s),
        x < 16,
    ensures
        executed(s, Instruction::AddToRegister(x, value)) is Ok,
        ({
            let t = executed(s, Instruction::AddToRegister(x, value))->Ok_0;
            &&& t.registers[x as int] as int == (s.registers[x as int] as int + value as int) % 256
            &&& forall|j: int| 0 <= j < 16 && j != x ==> #[trigger] t.registers[j] == s.registers[j]
            &&& t.screen == s.screen
        }),
{
}

/// A call followed by a return comes back to the instruction after the call,
/// with the call stack as it was before.
pub proof fn lemma_call_then_return(s: MachineState, address: usize)
    requires
        state_well_formed(s),
        address < 0x1000,
        s.stack.len() + 2 <= STACK_SIZE,
    ensures
        executed(s, Instruction::Call(address)) is Ok,
        executed(executed(s, Instruction::Call(address))->Ok_0, Instruction::Return) == Ok::<
            MachineState,
            MachineError,
        >(s),
{
    let called = executed(s, Instruction::Call(address))->Ok_0;
    let n = called.stack.len();
    assert(called.stack.subrange(0, n - 2) =~= s.stack);
    assert(called.stack[n - 2] == (s.pc / 256) as u8);
    assert(called.stack[n - 1] == (s.pc % 256) as u8);
    assert((s.pc / 256) * 256 + s.pc % 256 == s.pc) by (nonlinear_arith)
        requires
            0 <= s.pc <= 0xFFFF,
    ;
    assert(called.stack[n - 2] as int * 256 + called.stack[n - 1] as int == s.pc);
}

/// Drawing the same sprite twice at the same place gives the display back,
/// and the second draw reports a collision exactly when the first lit some
/// cell.
pub proof fn lemma_draw_twice(
    screen: Seq<u8>,
    memory: Seq<u8>,
    i: u16,
    x0: int,
    y0: int,
    height: int,
)
    requires
        screen.len() == SCREEN_CELLS,
        forall|p: int| 0 <= p < SCREEN_CELLS ==> #[trigger] screen[p] <= 1,
    ensures
        drawn(drawn(screen, memory, i, x0, y0, height), memory, i, x0, y0, height) == screen,
        crate::interpreter::collides(drawn(screen, memory, i, x0, y0, height), memory, i, x0, y0, height)
            <==> exists|p: int|
            0 <= p < SCREEN_CELLS && #[trigger] covered_before(memory, i, x0, y0, p, height, 0)
                && screen[p] == 0,
{
    let once = drawn(screen, memory, i, x0, y0, height);
    assert(drawn(once, memory, i, x0, y0, height) =~= screen);
    if crate::interpreter::collides(once, memory, i, x0, y0, height) {
        let w = choose|p: int|
            0 <= p < once.len() && #[trigger] covered_before(memory, i, x0, y0, p, height, 0)
                && once[p] != 0;
        assert(screen[w] == 0);
    }
    if exists|p: int|
        0 <= p < SCREEN_CELLS && #[trigger] covered_before(memory, i, x0, y0, p, height, 0)
            && screen[p] == 0 {
        let w = choose|p: int|
            0 <= p < SCREEN_CELLS && #[trigger] covered_before(memory, i, x0, y0, p, height, 0)
                && screen[p] == 0;
        assert(once[w] == toggled(screen[w]));
    }
}

/// On the machine: two runs of the same draw instruction, with coordinates
/// in registers other than the flag register, leave the display as it was and
/// set the flag register to 1 when the sprite has a set pixel over an unlit
/// cell.
pub proof fn lemma_execute_draw_twice(s: MachineState, x: usize, y: usize, height: u8)
    requires
        state_well_formed(s),
        x < FLAG_REGISTER,
        y < FLAG_REGISTER,
        height < 16,
    ensures
        ({
            let ins = Instruction::DrawSprite(x, y, height);
            let once = executed(s, ins)->Ok_0;
            let twice = executed(once, ins)->Ok_0;
            let x0 = s.registers[x as int] as int % SCREEN_WIDTH as int;
            let y0 = s.registers[y as int] as int % SCREEN_HEIGHT as int;
            &&& twice.screen == s.screen
            &&& (exists|p: int|
                0 <= p < SCREEN_CELLS && #[trigger] covered_before(
                    s.memory,
                    s.i,
                    x0,
                    y0,
                    p,
                    height as int,
                    0,
                ) && s.screen[p] == 0) ==> twice.registers[FLAG_REGISTER as int] == 1
        }),
{
    let ins = Instruction::DrawSprite(x, y, height);
    let once = executed(s, ins)->Ok_0;
    let x0 = s.registers[x as int] as int % SCREEN_WIDTH as int;
    let y0 = s.registers[y as int] as int % SCREEN_HEIGHT as int;
    assert(once.registers[x as int] == s.registers[x as int]);
    assert(once.registers[y as int] == s.registers[y as int]);
    lemma_draw_twice(s.screen, s.memory, s.i, x0, y0, height as int);
}

} // verus!
