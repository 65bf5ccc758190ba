//! Machine state and the fetch-decode-execute cycle.

use vstd::prelude::*;

verus! {

/// Size of addressable memory in bytes.
pub const MEMORY_SIZE: usize = 4096;
/// Address at which a program image is loaded; the region below is reserved.
pub const LOAD_OFFSET: usize = 512;
/// Largest program image that fits between the load offset and the end of memory.
pub const MAX_IMAGE_LEN: usize = 3584;
/// Number of 8-bit general-purpose registers.
pub const NUM_REGISTERS: usize = 16;
/// Maximum call-stack depth.
pub const STACK_CAPACITY: usize = 16;
/// Framebuffer width in pixels.
pub const DISPLAY_WIDTH: usize = 64;
/// Framebuffer height in pixels.
pub const DISPLAY_HEIGHT: usize = 32;
/// Number of framebuffer cells.
pub const DISPLAY_CELLS: usize = 2048;

/// Construction-time failure: the program image does not fit in memory.
#[derive(Clone, Copy, PartialEq, Eq, Structural, Debug)]
pub enum LoadError {
    ImageTooLarge { size: usize, max: usize },
}

/// Fetch-time failure: the program counter escaped addressable memory.
#[derive(Clone, Copy, PartialEq, Eq, Structural, Debug)]
pub enum FetchError {
    OutOfBounds { address: u16 },
}

/// Decode-time failure: the opcode has no defined mapping.
#[derive(Clone, Copy, PartialEq, Eq, Structural, Debug)]
pub enum DecodeError {
    UnknownOpcode(u16),
}

/// Call-stack failure: depth exceeded on call, or return from an empty stack.
#[derive(Clone, Copy, PartialEq, Eq, Structural, Debug)]
pub enum StackError {
    Overflow,
    Underflow,
}

/// Any fatal condition a cycle can surface.
#[derive(Clone, Copy, PartialEq, Eq, Structural, Debug)]
pub enum CycleError {
    Fetch(FetchError),
    Decode(DecodeError),
    Stack(StackError),
}

/// A decoded instruction. Register operands are indices below 16, addresses
/// are 12-bit values, immediates are single bytes.
#[derive(Clone, Copy, PartialEq, Eq, Structural, Debug)]
pub enum Instr {
    /// Stop execution.
    Halt,
    /// Clear the framebuffer.
    ClearScreen,
    /// Return from a subroutine.
    Return,
    /// Jump to an address.
    Jump(u16),
    /// Call a subroutine at an address.
    Call(u16),
    /// Skip the next instruction if a register equals an immediate.
    SkipEqImm(usize, u8),
    /// Skip the next instruction if a register differs from an immediate.
    SkipNeImm(usize, u8),
    /// Skip the next instruction if two registers are equal.
    SkipEqReg(usize, usize),
    /// Load an immediate into a register.
    SetImm(usize, u8),
    /// Add an immediate to a register, wrapping, without touching the flag.
    AddImm(usize, u8),
    /// Copy one register into another.
    Mov(usize, usize),
    /// Bitwise or of two registers.
    Or(usize, usize),
    /// Bitwise and of two registers.
    And(usize, usize),
    /// Bitwise xor of two registers.
    Xor(usize, usize),
    /// Add two registers, wrapping; the flag register records the carry.
    AddReg(usize, usize),
    /// Subtract, wrapping; the flag register records the absence of a borrow.
    SubReg(usize, usize),
    /// Shift right by one; the flag register records the dropped bit.
    Shr(usize),
    /// Reversed subtract, wrapping; the flag records the absence of a borrow.
    SubN(usize, usize),
    /// Shift left by one; the flag register records the dropped bit.
    Shl(usize),
    /// Skip the next instruction if two registers differ.
    SkipNeReg(usize, usize),
    /// Load an address into the index register.
    SetIndex(u16),
    /// Jump to an address plus register zero.
    JumpV0(u16),
    /// Draw an n-row sprite at coordinates taken from two registers.
    Draw(usize, usize, u8),
    /// Skip the next instruction if the key named by a register is down.
    SkipKey(usize),
    /// Skip the next instruction if the key named by a register is up.
    SkipNoKey(usize),
    /// Read the delay timer into a register.
    GetDelay(usize),
    /// Load the delay timer from a register.
    SetDelay(usize),
    /// Load the sound timer from a register.
    SetSound(usize),
    /// Add a register into the index register, wrapping at 16 bits.
    AddIndex(usize),
    /// Store the three decimal digits of a register at the index address.
    Bcd(usize),
    /// Store registers 0..=x to memory at the index address.
    Store(usize),
    /// Load registers 0..=x from memory at the index address.
    Load(usize),
    /// No defined mapping for this opcode.
    Unknown(u16),
}

/// The instruction a 16-bit opcode decodes to, by nibble fields: the high
/// nibble selects the family, the rest select operands.
pub open spec fn spec_decode(op: u16) -> Instr {
    let x = ((op >> 8) & 0xF) as usize;
    let y = ((op >> 4) & 0xF) as usize;
    let n = (op & 0xF) as u8;
    let nn = (op & 0xFF) as u8;
    let nnn = op & 0xFFF;
    if op == 0x0000 {
        Instr::Halt
    } else if op == 0x00E0 {
        Instr::ClearScreen
    } else if op == 0x00EE {
        Instr::Return
    } else {
        match op >> 12 {
            0x1 => Instr::Jump(nnn),
            0x2 => Instr::Call(nnn),
            0x3 => Instr::SkipEqImm(x, nn),
            0x4 => Instr::SkipNeImm(x, nn),
            0x5 => if n == 0 { Instr::SkipEqReg(x, y) } else { Instr::Unknown(op) },
            0x6 => Instr::SetImm(x, nn),
            0x7 => Instr::AddImm(x, nn),
            0x8 => match n {
                0x0 => Instr::Mov(x, y),
                0x1 => Instr::Or(x, y),
                0x2 => Instr::And(x, y),
                0x3 => Instr::Xor(x, y),
                0x4 => Instr::AddReg(x, y),
                0x5 => Instr::SubReg(x, y),
                0x6 => Instr::Shr(x),
                0x7 => Instr::SubN(x, y),
                0xE => Instr::Shl(x),
                _ => Instr::Unknown(op),
            },
            0x9 => if n == 0 { Instr::SkipNeReg(x, y) } else { Instr::Unknown(op) },
            0xA => Instr::SetIndex(nnn),
            0xB => Instr::JumpV0(nnn),
            0xD => Instr::Draw(x, y, n),
            0xE => match nn {
                0x9E => Instr::SkipKey(x),
                0xA1 => Instr::SkipNoKey(x),
                _ => Instr::Unknown(op),
            },
            0xF => match nn {
                0x07 => Instr::GetDelay(x),
                0x15 => Instr::SetDelay(x),
                0x18 => Instr::SetSound(x),
                0x1E => Instr::AddIndex(x),
                0x33 => Instr::Bcd(x),
                0x55 => Instr::Store(x),
                0x65 => Instr::Load(x),
                _ => Instr::Unknown(op),
            },
            _ => Instr::Unknown(op),
        }
    }
}

/// Register operands decode to indices below 16, sprite heights to at most
/// 15, and addresses to 12-bit values.
pub open spec fn instr_wf(i: Instr) -> bool {
    match i {
        Instr::Jump(a) => a < 4096,
        Instr::Call(a) => a < 4096,
        Instr::SkipEqImm(x, _) => x < 16,
        Instr::SkipNeImm(x, _) => x < 16,
        Instr::SkipEqReg(x, y) => x < 16 && y < 16,
        Instr::SetImm(x, _) => x < 16,
        Instr::AddImm(x, _) => x < 16,
        Instr::Mov(x, y) => x < 16 && y < 16,
        Instr::Or(x, y) => x < 16 && y < 16,
        Instr::And(x, y) => x < 16 && y < 16,
        Instr::Xor(x, y) => x < 16 && y < 16,
        Instr::AddReg(x, y) => x < 16 && y < 16,
        Instr::SubReg(x, y) => x < 16 && y < 16,
        Instr::Shr(x) => x < 16,
        Instr::SubN(x, y) => x < 16 && y < 16,
        Instr::Shl(x) => x < 16,
        Instr::SkipNeReg(x, y) => x < 16 && y < 16,
        Instr::SetIndex(a) => a < 4096,
        Instr::JumpV0(a) => a < 4096,
        Instr::Draw(x, y, n) => x < 16 && y < 16 && n < 16,
        Instr::SkipKey(x) => x < 16,
        Instr::SkipNoKey(x) => x < 16,
        Instr::GetDelay(x) => x < 16,
        Instr::SetDelay(x) => x < 16,
        Instr::SetSound(x) => x < 16,
        Instr::AddIndex(x) => x < 16,
        Instr::Bcd(x) => x < 16,
        Instr::Store(x) => x < 16,
        Instr::Load(x) => x < 16,
        _ => true,
    }
}

/// 8-bit addition wrapping modulo 256.
pub open spec fn wrap_add(a: u8, b: u8) -> u8 {
    if a + b > 255 {
        (a + b - 256) as u8
    } else {
        (a + b) as u8
    }
}

/// 8-bit subtraction wrapping modulo 256.
pub open spec fn wrap_sub(a: u8, b: u8) -> u8 {
    if a >= b {
        (a - b) as u8
    } else {
        (a - b + 256) as u8
    }
}

/// One timer decrement: down by one while positive, never below zero.
pub open spec fn spec_tick(t: u8) -> u8 {
    if t > 0 {
        (t - 1) as u8
    } else {
        0
    }
}

/// The address the index register plus an offset reaches, wrapping around
/// the end of memory.
pub open spec fn spec_mem_addr(index: u16, k: int) -> int {
    (index + k) % (MEMORY_SIZE as int)
}

/// Whether sprite-row byte `byte` has its bit for column offset `b` set;
/// bit 7 is the leftmost pixel.
pub open spec fn bit_of(byte: u8, b: int) -> bool {
    (byte >> ((7 - b) as u8)) & 1 == 1
}

/// The framebuffer column a sprite at column `x0` touches at offset `b`,
/// wrapping around the right edge.
pub open spec fn wrap_col(x0: int, b: int) -> int {
    if x0 + b < DISPLAY_WIDTH {
        x0 + b
    } else {
        x0 + b - DISPLAY_WIDTH
    }
}

/// The framebuffer row a sprite at row `y0` touches at offset `r`, wrapping
/// around the bottom edge.
pub open spec fn wrap_row(y0: int, r: int) -> int {
    if y0 + r < DISPLAY_HEIGHT {
        y0 + r
    } else {
        y0 + r - DISPLAY_HEIGHT
    }
}

/// The framebuffer cell a sprite at `(x0, y0)` touches at row offset `r`
/// and column offset `b`.
pub open spec fn cell_index(x0: int, y0: int, r: int, b: int) -> int {
    wrap_row(y0, r) * (DISPLAY_WIDTH as int) + wrap_col(x0, b)
}

/// The framebuffer after the first `k` bits of one sprite row have been
/// xored in at row offset `r`.
pub open spec fn draw_bits(fb: Seq<bool>, byte: u8, x0: int, y0: int, r: int, k: int) -> Seq<bool>
    decreases k,
{
    if k <= 0 {
        fb
    } else {
        let prev = draw_bits(fb, byte, x0, y0, r, k - 1);
        let c = cell_index(x0, y0, r, k - 1);
        if bit_of(byte, k - 1) {
            prev.update(c, !prev[c])
        } else {
            prev
        }
    }
}

/// Whether xoring the first `k` bits of one sprite row turned some set cell
/// off.
pub open spec fn bits_collision(fb: Seq<bool>, byte: u8, x0: int, y0: int, r: int, k: int) -> bool
    decreases k,
{
    if k <= 0 {
        false
    } else {
        bits_collision(fb, byte, x0, y0, r, k - 1) || (bit_of(byte, k - 1) && draw_bits(
            fb,
            byte,
            x0,
            y0,
            r,
            k - 1,
        )[cell_index(x0, y0, r, k - 1)])
    }
}

/// The framebuffer after the first `k` rows of a sprite read from memory at
/// the index register have been xored in at `(x0, y0)`.
pub open spec fn draw_rows(fb: Seq<bool>, mem: Seq<u8>, index: u16, x0: int, y0: int, k: int) -> Seq<bool>
    decreases k,
{
    if k <= 0 {
        fb
    } else {
        let prev = draw_rows(fb, mem, index, x0, y0, k - 1);
        draw_bits(prev, mem[spec_mem_addr(index, k - 1)], x0, y0, k - 1, 8)
    }
}

/// Whether xoring the first `k` rows of a sprite turned some set cell off.
pub open spec fn rows_collision(fb: Seq<bool>, mem: Seq<u8>, index: u16, x0: int, y0: int, k: int) -> bool
    decreases k,
{
    if k <= 0 {
        false
    } else {
        rows_collision(fb, mem, index, x0, y0, k - 1) || bits_collision(
            draw_rows(fb, mem, index, x0, y0, k - 1),
            mem[spec_mem_addr(index, k - 1)],
            x0,
            y0,
            k - 1,
            8,
        )
    }
}

/// Memory after registers `0..k` have been stored at the index address.
pub open spec fn store_regs(mem: Seq<u8>, regs: Seq<u8>, index: u16, k: int) -> Seq<u8>
    decreases k,
{
    if k <= 0 {
        mem
    } else {
        store_regs(mem, regs, index, k - 1).update(spec_mem_addr(index, k - 1), regs[k - 1])
    }
}

/// Registers after slots `0..k` have been loaded from the index address.
pub open spec fn load_regs(regs: Seq<u8>, mem: Seq<u8>, index: u16, k: int) -> Seq<u8>
    decreases k,
{
    if k <= 0 {
        regs
    } else {
        load_regs(regs, mem, index, k - 1).update(k - 1, mem[spec_mem_addr(index, k - 1)])
    }
}

/// Memory after the three decimal digits of `v` have been stored at the
/// index address: hundreds first, ones last.
pub open spec fn bcd_mem(mem: Seq<u8>, index: u16, v: u8) -> Seq<u8> {
    mem.update(spec_mem_addr(index, 0), (v / 100) as u8).update(
        spec_mem_addr(index, 1),
        ((v / 10) % 10) as u8,
    ).update(spec_mem_addr(index, 2), (v % 10) as u8)
}

/// Whether key number `k & 0xF` is down in the key bitmask.
pub open spec fn key_down(keys: u16, k: u8) -> bool {
    (keys >> ((k & 0xF) as u16)) & 1 == 1
}

/// The mathematical model of the machine: every piece of emulated hardware
/// state, with sequences in place of the executable buffers.
#[verifier::ext_equal]
pub ghost struct MachineModel {
    pub memory: Seq<u8>,
    pub registers: Seq<u8>,
    pub index: u16,
    pub pc: u16,
    pub stack: Seq<u16>,
    pub delay_timer: u8,
    pub sound_timer: u8,
    pub framebuffer: Seq<bool>,
    pub keys: u16,
    pub halted: bool,
}

impl MachineModel {
    /// The buffers have their fixed hardware sizes and the stack respects
    /// its depth bound.
    pub open spec fn wf(self) -> bool {
        &&& self.memory.len() == MEMORY_SIZE
        &&& self.registers.len() == NUM_REGISTERS
        &&& self.stack.len() <= STACK_CAPACITY
        &&& self.framebuffer.len() == DISPLAY_CELLS
    }
}

/// The emulated hardware state, mutated one instruction cycle at a time.
pub struct Machine {
    pub memory: Vec<u8>,
    pub registers: Vec<u8>,
    pub index: u16,
    pub program_counter: u16,
    pub stack: Vec<u16>,
    pub delay_timer: u8,
    pub sound_timer: u8,
    pub framebuffer: Vec<bool>,
    pub keys: u16,
    pub halted: bool,
}

impl View for Machine {
    type V = MachineModel;

    open spec fn view(&self) -> MachineModel {
        MachineModel {
            memory: self.memory@,
            registers: self.registers@,
            index: self.index,
            pc: self.program_counter,
            stack: self.stack@,
            delay_timer: self.delay_timer,
            sound_timer: self.sound_timer,
            framebuffer: self.framebuffer@,
            keys: self.keys,
            halted: self.halted,
        }
    }
}

/// The state a machine starts a run in: the image copied to the load offset,
/// everything else zeroed, the program counter at the load offset.
pub open spec fn spec_initial(rom: Seq<u8>) -> MachineModel {
    MachineModel {
        memory: Seq::new(MEMORY_SIZE as nat, |j: int|
            if LOAD_OFFSET <= j < LOAD_OFFSET + rom.len() { rom[j - LOAD_OFFSET] } else { 0u8 }),
        registers: Seq::new(NUM_REGISTERS as nat, |j: int| 0u8),
        index: 0,
        pc: LOAD_OFFSET as u16,
        stack: Seq::empty(),
        delay_timer: 0,
        sound_timer: 0,
        framebuffer: Seq::new(DISPLAY_CELLS as nat, |j: int| false),
        keys: 0,
        halted: false,
    }
}

impl Machine {
    /// Shorthand for a well-formed view.
    pub open spec fn wf(self) -> bool {
        self@.wf()
    }

    /// Construct a machine from a program image. Succeeds exactly when the
    /// image fits between the load offset and the end of memory; an oversized
    /// image is refused with the offending size and the maximum.
    pub fn new(rom_bytes: Vec<u8>) -> (r: Result<Machine, LoadError>)
        ensures
            rom_bytes@.len() <= MAX_IMAGE_LEN ==> {
                &&& r is Ok
                &&& r->Ok_0.wf()
                &&& r->Ok_0@ == spec_initial(rom_bytes@)
            },
            rom_bytes@.len() > MAX_IMAGE_LEN ==> r == Err::<Machine, LoadError>(
                LoadError::ImageTooLarge { size: rom_bytes.len(), max: MAX_IMAGE_LEN }),
    {
        if rom_bytes.len() > MAX_IMAGE_LEN {
            return Err(LoadError::ImageTooLarge { size: rom_bytes.len(), max: MAX_IMAGE_LEN });
        }
        let mut memory: Vec<u8> = vec![0u8; MEMORY_SIZE];
        let mut k: usize = 0;
        while k < rom_bytes.len()
            invariant
                k <= rom_bytes@.len(),
                rom_bytes@.len() <= MAX_IMAGE_LEN,
                memory@.len() == MEMORY_SIZE,
                forall|j: int| 0 <= j < MEMORY_SIZE ==> memory@[j] == (
                    if LOAD_OFFSET <= j < LOAD_OFFSET + k { rom_bytes@[j - LOAD_OFFSET] } else { 0u8 }),
            decreases rom_bytes@.len() - k,
        {
            memory[LOAD_OFFSET + k] = rom_bytes[k];
            k = k + 1;
        }
        let m = Machine {
            memory,
            registers: vec![0u8; NUM_REGISTERS],
            index: 0,
            program_counter: LOAD_OFFSET as u16,
            stack: Vec::new(),
            delay_timer: 0,
            sound_timer: 0,
            framebuffer: vec![false; DISPLAY_CELLS],
            keys: 0,
            halted: false,
        };
        proof {
            assert(m@.memory =~= spec_initial(rom_bytes@).memory);
            assert(m@.registers =~= spec_initial(rom_bytes@).registers);
            assert(m@.framebuffer =~= spec_initial(rom_bytes@).framebuffer);
            assert(m@.stack =~= spec_initial(rom_bytes@).stack);
            assert(m@ =~= spec_initial(rom_bytes@));
        }
        Ok(m)
    }

    /// Whether the machine has halted; no other termination condition exists.
    pub fn is_finished(&self) -> (r: bool)
        ensures
            r == self@.halted,
    {
        self.halted
    }

    /// Xor an `n`-row sprite, read from memory at the index register, onto
    /// the framebuffer at the coordinates held by registers `x` and `y`,
    /// recording in the flag register whether some set cell was turned off.
    fn exec_draw(&mut self, x: usize, y: usize, n: u8)
        requires
            old(self).wf(),
            x < NUM_REGISTERS,
            y < NUM_REGISTERS,
            n < 16,
        ensures
            final(self).wf(),
            final(self)@ == (MachineModel {
                framebuffer: draw_rows(
                    old(self)@.framebuffer,
                    old(self)@.memory,
                    old(self)@.index,
                    old(self)@.registers[x as int] as int % (DISPLAY_WIDTH as int),
                    old(self)@.registers[y as int] as int % (DISPLAY_HEIGHT as int),
                    n as int,
                ),
                registers: old(self)@.registers.update(
                    15,
                    if rows_collision(
                        old(self)@.framebuffer,
                        old(self)@.memory,
                        old(self)@.index,
                        old(self)@.registers[x as int] as int % (DISPLAY_WIDTH as int),
                        old(self)@.registers[y as int] as int % (DISPLAY_HEIGHT as int),
                        n as int,
                    ) { 1u8 } else { 0u8 },
                ),
                ..old(self)@
            }),
    {
        let x0 = (self.registers[x] % (DISPLAY_WIDTH as u8)) as usize;
        let y0 = (self.registers[y] % (DISPLAY_HEIGHT as u8)) as usize;
        let mut coll: bool = false;
        let mut r: usize = 0;
        while r < n as usize
            invariant
                old(self).wf(),
                x0 == old(self)@.registers[x as int] as int % (DISPLAY_WIDTH as int),
                y0 == old(self)@.registers[y as int] as int % (DISPLAY_HEIGHT as int),
                x0 < DISPLAY_WIDTH,
                y0 < DISPLAY_HEIGHT,
                n < 16,
                r <= n as usize,
                self.memory@ == old(self)@.memory,
                self.registers@ == old(self)@.registers,
                self.index == old(self)@.index,
                self.program_counter == old(self)@.pc,
                self.stack@ == old(self)@.stack,
                self.delay_timer == old(self)@.delay_timer,
                self.sound_timer == old(self)@.sound_timer,
                self.keys == old(self)@.keys,
                self.halted == old(self)@.halted,
                self.framebuffer@.len() == DISPLAY_CELLS,
                self.framebuffer@ == draw_rows(
                    old(self)@.framebuffer,
                    old(self)@.memory,
                    old(self)@.index,
                    x0 as int,
                    y0 as int,
                    r as int,
                ),
                coll == rows_collision(
                    old(self)@.framebuffer,
                    old(self)@.memory,
                    old(self)@.index,
                    x0 as int,
                    y0 as int,
                    r as int,
                ),
            decreases n as usize - r,
        {
            let byte = self.memory[(self.index as usize + r) % MEMORY_SIZE];
            let ghost fb_row = self.framebuffer@;
            let ghost coll_row = coll;
            let mut b: usize = 0;
            while b < 8
                invariant
                    old(self).wf(),
                    x0 < DISPLAY_WIDTH,
                    y0 < DISPLAY_HEIGHT,
                    n < 16,
                    r < n as usize,
                    b <= 8,
                    byte == old(self)@.memory[spec_mem_addr(old(self)@.index, r as int)],
                    self.memory@ == old(self)@.memory,
                    self.registers@ == old(self)@.registers,
                    self.index == old(self)@.index,
                    self.program_counter == old(self)@.pc,
                    self.stack@ == old(self)@.stack,
                    self.delay_timer == old(self)@.delay_timer,
                    self.sound_timer == old(self)@.sound_timer,
                    self.keys == old(self)@.keys,
                    self.halted == old(self)@.halted,
                    self.framebuffer@.len() == DISPLAY_CELLS,
                    fb_row.len() == DISPLAY_CELLS,
                    self.framebuffer@ == draw_bits(fb_row, byte, x0 as int, y0 as int, r as int, b as int),
                    coll == (coll_row || bits_collision(fb_row, byte, x0 as int, y0 as int, r as int, b as int)),
                decreases 8 - b,
            {
                let shift = (7 - b) as u8;
                let ghost fb_prev = self.framebuffer@;
                if (byte >> shift) & 1 == 1 {
                    let col = if x0 + b < DISPLAY_WIDTH { x0 + b } else { x0 + b - DISPLAY_WIDTH };
                    let row = if y0 + r < DISPLAY_HEIGHT { y0 + r } else { y0 + r - DISPLAY_HEIGHT };
                    let cell = row * DISPLAY_WIDTH + col;
                    assert(cell == cell_index(x0 as int, y0 as int, r as int, b as int));
                    let cur = self.framebuffer[cell];
                    if cur {
                        coll = true;
                    }
                    self.framebuffer[cell] = !cur;
                    assert(bit_of(byte, b as int));
                } else {
                    assert(!bit_of(byte, b as int));
                }
                proof {
                    assert(self.framebuffer@ == draw_bits(
                        fb_row, byte, x0 as int, y0 as int, r as int, b as int + 1));
                }
                b = b + 1;
            }
            r = r + 1;
        }
        let flag = if coll { 1u8 } else { 0u8 };
        self.registers[15] = flag;
        proof {
            assert(self@ =~= (MachineModel {
                framebuffer: draw_rows(
                    old(self)@.framebuffer,
                    old(self)@.memory,
                    old(self)@.index,
                    old(self)@.registers[x as int] as int % (DISPLAY_WIDTH as int),
                    old(self)@.registers[y as int] as int % (DISPLAY_HEIGHT as int),
                    n as int,
                ),
                registers: old(self)@.registers.update(
                    15,
                    if rows_collision(
                        old(self)@.framebuffer,
                        old(self)@.memory,
                        old(self)@.index,
                        old(self)@.registers[x as int] as int % (DISPLAY_WIDTH as int),
                        old(self)@.registers[y as int] as int % (DISPLAY_HEIGHT as int),
                        n as int,
                    ) { 1u8 } else { 0u8 },
                ),
                ..old(self)@
            }));
        }
    }

    /// Store registers `0..=x` to memory at the index address.
    fn exec_store(&mut self, x: usize)
        requires
            old(self).wf(),
            x < NUM_REGISTERS,
        ensures
            final(self).wf(),
            final(self)@ == (MachineModel {
                memory: store_regs(old(self)@.memory, old(self)@.registers, old(self)@.index, x as int + 1),
                ..old(self)@
            }),
    {
        let mut k: usize = 0;
        while k < x + 1
            invariant
                old(self).wf(),
                x < NUM_REGISTERS,
                k <= x + 1,
                self.memory@.len() == MEMORY_SIZE,
                self.memory@ == store_regs(old(self)@.memory, old(self)@.registers, old(self)@.index, k as int),
                self.registers@ == old(self)@.registers,
                self.index == old(self)@.index,
                self.program_counter == old(self)@.pc,
                self.stack@ == old(self)@.stack,
                self.delay_timer == old(self)@.delay_timer,
                self.sound_timer == old(self)@.sound_timer,
                self.framebuffer@ == old(self)@.framebuffer,
                self.keys == old(self)@.keys,
                self.halted == old(self)@.halted,
            decreases x + 1 - k,
        {
            let v = self.registers[k];
            self.memory[(self.index as usize + k) % MEMORY_SIZE] = v;
            k = k + 1;
        }
        proof {
            assert(self@ =~= (MachineModel {
                memory: store_regs(old(self)@.memory, old(self)@.registers, old(self)@.index, x as int + 1),
                ..old(self)@
            }));
        }
    }

    /// Load registers `0..=x` from memory at the index address.
    fn exec_load(&mut self, x: usize)
        requires
            old(self).wf(),
            x < NUM_REGISTERS,
        ensures
            final(self).wf(),
            final(self)@ == (MachineModel {
                registers: load_regs(old(self)@.registers, old(self)@.memory, old(self)@.index, x as int + 1),
                ..old(self)@
            }),
    {
        let mut k: usize = 0;
        while k < x + 1
            invariant
                old(self).wf(),
                x < NUM_REGISTERS,
                k <= x + 1,
                self.registers@.len() == NUM_REGISTERS,
                self.registers@ == load_regs(old(self)@.registers, old(self)@.memory, old(self)@.index, k as int),
                self.memory@ == old(self)@.memory,
                self.index == old(self)@.index,
                self.program_counter == old(self)@.pc,
                self.stack@ == old(self)@.stack,
                self.delay_timer == old(self)@.delay_timer,
                self.sound_timer == old(self)@.sound_timer,
                self.framebuffer@ == old(self)@.framebuffer,
                self.keys == old(self)@.keys,
                self.halted == old(self)@.halted,
            decreases x + 1 - k,
        {
            let v = self.memory[(self.index as usize + k) % MEMORY_SIZE];
            self.registers[k] = v;
            k = k + 1;
        }
        proof {
            assert(self@ =~= (MachineModel {
                registers: load_regs(old(self)@.registers, old(self)@.memory, old(self)@.index, x as int + 1),
                ..old(self)@
            }));
        }
    }

    /// One fetch-decode-execute step, the atomic unit of machine-state
    /// mutation: a halted machine does nothing; otherwise the two bytes at
    /// the program counter are fetched, decoded and executed, and any fatal
    /// condition halts the machine, changes nothing else, and is reported.
    pub fn perform_cycle(&mut self) -> (r: Result<(), CycleError>)
        requires
            old(self).wf(),
        ensures
            final(self).wf(),
            (final(self)@, r) == spec_cycle(old(self)@),
    {
        if self.halted {
            return Ok(());
        }
        if self.program_counter as usize + 1 >= MEMORY_SIZE {
            self.halted = true;
            proof {
                assert(self@ =~= spec_cycle(old(self)@).0);
            }
            return Err(CycleError::Fetch(FetchError::OutOfBounds { address: self.program_counter }));
        }
        let pc = self.program_counter as usize;
        let hi = self.memory[pc];
        let lo = self.memory[pc + 1];
        let op: u16 = ((hi as u16) << 8) | (lo as u16);
        let nx = self.program_counter + 2;
        let sk = self.program_counter + 4;
        let i = decode(op);
        let r: Result<(), CycleError> = match i {
            Instr::Halt => {
                self.program_counter = nx;
                self.halted = true;
                Ok(())
            },
            Instr::ClearScreen => {
                self.framebuffer = vec![false; DISPLAY_CELLS];
                self.program_counter = nx;
                proof {
                    assert(self@.framebuffer =~= Seq::new(DISPLAY_CELLS as nat, |j: int| false));
                }
                Ok(())
            },
            Instr::Return => {
                match self.stack.pop() {
                    None => {
                        self.halted = true;
                        Err(CycleError::Stack(StackError::Underflow))
                    },
                    Some(a) => {
                        self.program_counter = a;
                        proof {
                            assert(self@.stack =~= old(self)@.stack.drop_last());
                        }
                        Ok(())
                    },
                }
            },
            Instr::Jump(a) => {
                self.program_counter = a;
                Ok(())
            },
            Instr::Call(a) => {
                if self.stack.len() >= STACK_CAPACITY {
                    self.halted = true;
                    Err(CycleError::Stack(StackError::Overflow))
                } else {
                    self.stack.push(nx);
                    self.program_counter = a;
                    Ok(())
                }
            },
            Instr::SkipEqImm(x, imm) => {
                self.program_counter = if self.registers[x] == imm { sk } else { nx };
                Ok(())
            },
            Instr::SkipNeImm(x, imm) => {
                self.program_counter = if self.registers[x] != imm { sk } else { nx };
                Ok(())
            },
            Instr::SkipEqReg(x, y) => {
                self.program_counter = if self.registers[x] == self.registers[y] { sk } else { nx };
                Ok(())
            },
            Instr::SetImm(x, imm) => {
                self.registers[x] = imm;
                self.program_counter = nx;
                Ok(())
            },
            Instr::AddImm(x, imm) => {
                let v = self.registers[x].wrapping_add(imm);
                self.registers[x] = v;
                self.program_counter = nx;
                Ok(())
            },
            Instr::Mov(x, y) => {
                let v = self.registers[y];
                self.registers[x] = v;
                self.program_counter = nx;
                Ok(())
            },
            Instr::Or(x, y) => {
                let v = self.registers[x] | self.registers[y];
                self.registers[x] = v;
                self.program_counter = nx;
                Ok(())
            },
            Instr::And(x, y) => {
                let v = self.registers[x] & self.registers[y];
                self.registers[x] = v;
                self.program_counter = nx;
                Ok(())
            },
            Instr::Xor(x, y) => {
                let v = self.registers[x] ^ self.registers[y];
                self.registers[x] = v;
                self.program_counter = nx;
                Ok(())
            },
            Instr::AddReg(x, y) => {
                let vx = self.registers[x];
                let vy = self.registers[y];
                let carry: u8 = if vx as u16 + vy as u16 > 255 { 1 } else { 0 };
                self.registers[x] = vx.wrapping_add(vy);
                self.registers[15] = carry;
                self.program_counter = nx;
                Ok(())
            },
            Instr::SubReg(x, y) => {
                let vx = self.registers[x];
                let vy = self.registers[y];
                let flag: u8 = if vx >= vy { 1 } else { 0 };
                self.registers[x] = vx.wrapping_sub(vy);
                self.registers[15] = flag;
                self.program_counter = nx;
                Ok(())
            },
            Instr::Shr(x) => {
                let vx = self.registers[x];
                self.registers[x] = vx >> 1;
                self.registers[15] = vx & 1;
                self.program_counter = nx;
                Ok(())
            },
            Instr::SubN(x, y) => {
                let vx = self.registers[x];
                let vy = self.registers[y];
                let flag: u8 = if vy >= vx { 1 } else { 0 };
                self.registers[x] = vy.wrapping_sub(vx);
                self.registers[15] = flag;
                self.program_counter = nx;
                Ok(())
            },
            Instr::Shl(x) => {
                let vx = self.registers[x];
                self.registers[x] = vx << 1;
                self.registers[15] = vx >> 7;
                self.program_counter = nx;
                Ok(())
            },
            Instr::SkipNeReg(x, y) => {
                self.program_counter = if self.registers[x] != self.registers[y] { sk } else { nx };
                Ok(())
            },
            Instr::SetIndex(a) => {
                self.index = a;
                self.program_counter = nx;
                Ok(())
            },
            Instr::JumpV0(a) => {
                self.program_counter = a + self.registers[0] as u16;
                Ok(())
            },
            Instr::Draw(x, y, n) => {
                self.exec_draw(x, y, n);
                self.program_counter = nx;
                Ok(())
            },
            Instr::SkipKey(x) => {
                let vx = self.registers[x];
                self.program_counter = if key_is_down(self.keys, vx) { sk } else { nx };
                Ok(())
            },
            Instr::SkipNoKey(x) => {
                let vx = self.registers[x];
                self.program_counter = if !key_is_down(self.keys, vx) { sk } else { nx };
                Ok(())
            },
            Instr::GetDelay(x) => {
                let t = self.delay_timer;
                self.registers[x] = t;
                self.program_counter = nx;
                Ok(())
            },
            Instr::SetDelay(x) => {
                self.delay_timer = self.registers[x];
                self.program_counter = nx;
                Ok(())
            },
            Instr::SetSound(x) => {
                self.sound_timer = self.registers[x];
                self.program_counter = nx;
                Ok(())
            },
            Instr::AddIndex(x) => {
                self.index = self.index.wrapping_add(self.registers[x] as u16);
                self.program_counter = nx;
                Ok(())
            },
            Instr::Bcd(x) => {
                let vx = self.registers[x];
                let base = self.index as usize;
                self.memory[base % MEMORY_SIZE] = vx / 100;
                self.memory[(base + 1) % MEMORY_SIZE] = (vx / 10) % 10;
                self.memory[(base + 2) % MEMORY_SIZE] = vx % 10;
                self.program_counter = nx;
                Ok(())
            },
            Instr::Store(x) => {
                self.exec_store(x);
                self.program_counter = nx;
                Ok(())
            },
            Instr::Load(x) => {
                self.exec_load(x);
                self.program_counter = nx;
                Ok(())
            },
            Instr::Unknown(raw) => {
                self.halted = true;
                Err(CycleError::Decode(DecodeError::UnknownOpcode(raw)))
            },
        };
        proof {
            assert(op == fetch_op(old(self)@));
            assert(self@ =~= spec_execute(old(self)@, op).0);
        }
        r
    }

    /// Decrement the delay and sound timers independently, each stopping at
    /// zero; driven at a fixed sub-rate independent of the instruction rate.
    pub fn tick_timers(&mut self)
        ensures
            final(self)@ == (MachineModel {
                delay_timer: spec_tick(old(self)@.delay_timer),
                sound_timer: spec_tick(old(self)@.sound_timer),
                ..old(self)@
            }),
    {
        if self.delay_timer > 0 {
            self.delay_timer = self.delay_timer - 1;
        }
        if self.sound_timer > 0 {
            self.sound_timer = self.sound_timer - 1;
        }
        proof {
            assert(self@ =~= (MachineModel {
                delay_timer: spec_tick(old(self)@.delay_timer),
                sound_timer: spec_tick(old(self)@.sound_timer),
                ..old(self)@
            }));
        }
    }

    /// Replace the key bitmask; the host writes it between cycles, the core
    /// only reads it.
    pub fn set_keys(&mut self, keys: u16)
        ensures
            final(self)@ == (MachineModel { keys, ..old(self)@ }),
    {
        self.keys = keys;
        proof {
            assert(self@ =~= (MachineModel { keys, ..old(self)@ }));
        }
    }

    /// The current program counter.
    pub fn program_counter(&self) -> (r: u16)
        ensures
            r == self@.pc,
    {
        self.program_counter
    }

    /// The current index register.
    pub fn index_register(&self) -> (r: u16)
        ensures
            r == self@.index,
    {
        self.index
    }

    /// The current call-stack depth: 0 when the stack is empty.
    pub fn stack_pointer(&self) -> (r: usize)
        ensures
            r == self@.stack.len(),
    {
        self.stack.len()
    }

    /// The value of general-purpose register `i`.
    pub fn register(&self, i: usize) -> (r: u8)
        requires
            self.wf(),
            i < NUM_REGISTERS,
        ensures
            r == self@.registers[i as int],
    {
        self.registers[i]
    }

    /// The byte at memory address `addr`.
    pub fn read_byte(&self, addr: usize) -> (r: u8)
        requires
            self.wf(),
            addr < MEMORY_SIZE,
        ensures
            r == self@.memory[addr as int],
    {
        self.memory[addr]
    }

    /// The current delay timer.
    pub fn delay_timer(&self) -> (r: u8)
        ensures
            r == self@.delay_timer,
    {
        self.delay_timer
    }

    /// The current sound timer.
    pub fn sound_timer(&self) -> (r: u8)
        ensures
            r == self@.sound_timer,
    {
        self.sound_timer
    }

    /// Whether the framebuffer pixel at column `x`, row `y` is on.
    pub fn pixel(&self, x: usize, y: usize) -> (r: bool)
        requires
            self.wf(),
            x < DISPLAY_WIDTH,
            y < DISPLAY_HEIGHT,
        ensures
            r == self@.framebuffer[y * DISPLAY_WIDTH + x],
    {
        self.framebuffer[y * DISPLAY_WIDTH + x]
    }

    /// A runtime check that the buffers have their fixed hardware sizes, for
    /// callers outside the proof.
    pub fn is_well_formed(&self) -> (r: bool)
        ensures
            r == self.wf(),
    {
        self.memory.len() == MEMORY_SIZE && self.registers.len() == NUM_REGISTERS
            && self.stack.len() <= STACK_CAPACITY && self.framebuffer.len() == DISPLAY_CELLS
    }
}

/// Split a 16-bit opcode into its nibble fields and map it to an instruction.
pub fn decode(op: u16) -> (i: Instr)
    ensures
        i == spec_decode(op),
        instr_wf(i),
{
    proof {
        assert((op >> 8) & 0xF < 16) by (bit_vector);
        assert((op >> 4) & 0xF < 16) by (bit_vector);
        assert(op & 0xF < 16) by (bit_vector);
        assert(op & 0xFFF < 4096) by (bit_vector);
    }
    let x = ((op >> 8) & 0xF) as usize;
    let y = ((op >> 4) & 0xF) as usize;
    let n = (op & 0xF) as u8;
    let nn = (op & 0xFF) as u8;
    let nnn = op & 0xFFF;
    if op == 0x0000 {
        Instr::Halt
    } else if op == 0x00E0 {
        Instr::ClearScreen
    } else if op == 0x00EE {
        Instr::Return
    } else {
        match op >> 12 {
            0x1 => Instr::Jump(nnn),
            0x2 => Instr::Call(nnn),
            0x3 => Instr::SkipEqImm(x, nn),
            0x4 => Instr::SkipNeImm(x, nn),
            0x5 => if n == 0 { Instr::SkipEqReg(x, y) } else { Instr::Unknown(op) },
            0x6 => Instr::SetImm(x, nn),
            0x7 => Instr::AddImm(x, nn),
            0x8 => match n {
                0x0 => Instr::Mov(x, y),
                0x1 => Instr::Or(x, y),
                0x2 => Instr::And(x, y),
                0x3 => Instr::Xor(x, y),
                0x4 => Instr::AddReg(x, y),
                0x5 => Instr::SubReg(x, y),
                0x6 => Instr::Shr(x),
                0x7 => Instr::SubN(x, y),
                0xE => Instr::Shl(x),
                _ => Instr::Unknown(op),
            },
            0x9 => if n == 0 { Instr::SkipNeReg(x, y) } else { Instr::Unknown(op) },
            0xA => Instr::SetIndex(nnn),
            0xB => Instr::JumpV0(nnn),
            0xD => Instr::Draw(x, y, n),
            0xE => match nn {
                0x9E => Instr::SkipKey(x),
                0xA1 => Instr::SkipNoKey(x),
                _ => Instr::Unknown(op),
            },
            0xF => match nn {
                0x07 => Instr::GetDelay(x),
                0x15 => Instr::SetDelay(x),
                0x18 => Instr::SetSound(x),
                0x1E => Instr::AddIndex(x),
                0x33 => Instr::Bcd(x),
                0x55 => Instr::Store(x),
                0x65 => Instr::Load(x),
                _ => Instr::Unknown(op),
            },
            _ => Instr::Unknown(op),
        }
    }
}

/// Whether key number `vx & 0xF` is down in the key bitmask.
pub fn key_is_down(keys: u16, vx: u8) -> (r: bool)
    ensures
        r == key_down(keys, vx),
{
    let k = (vx & 0xF) as u16;
    proof {
        assert((vx & 0xF) < 16) by (bit_vector);
    }
    (keys >> k) & 1 == 1
}

/// The 16-bit opcode two consecutive bytes at the program counter form.
pub open spec fn fetch_op(m: MachineModel) -> u16 {
    ((m.memory[m.pc as int] as u16) << 8) | (m.memory[m.pc as int + 1] as u16)
}

/// The machine after executing decoded opcode `op` from a non-halted state
/// whose fetch succeeded, paired with what the cycle reports. A fatal
/// condition halts the machine and changes nothing else.
pub open spec fn spec_execute(m: MachineModel, op: u16) -> (MachineModel, Result<(), CycleError>) {
    let nx = (m.pc + 2) as u16;
    let sk = (m.pc + 4) as u16;
    match spec_decode(op) {
        Instr::Halt => (MachineModel { pc: nx, halted: true, ..m }, Ok(())),
        Instr::ClearScreen => (
            MachineModel { pc: nx, framebuffer: Seq::new(DISPLAY_CELLS as nat, |j: int| false), ..m },
            Ok(()),
        ),
        Instr::Return => if m.stack.len() == 0 {
            (MachineModel { halted: true, ..m }, Err(CycleError::Stack(StackError::Underflow)))
        } else {
            (MachineModel { pc: m.stack.last(), stack: m.stack.drop_last(), ..m }, Ok(()))
        },
        Instr::Jump(a) => (MachineModel { pc: a, ..m }, Ok(())),
        Instr::Call(a) => if m.stack.len() >= STACK_CAPACITY {
            (MachineModel { halted: true, ..m }, Err(CycleError::Stack(StackError::Overflow)))
        } else {
            (MachineModel { pc: a, stack: m.stack.push(nx), ..m }, Ok(()))
        },
        Instr::SkipEqImm(x, imm) => (
            MachineModel { pc: if m.registers[x as int] == imm { sk } else { nx }, ..m },
            Ok(()),
        ),
        Instr::SkipNeImm(x, imm) => (
            MachineModel { pc: if m.registers[x as int] != imm { sk } else { nx }, ..m },
            Ok(()),
        ),
        Instr::SkipEqReg(x, y) => (
            MachineModel {
                pc: if m.registers[x as int] == m.registers[y as int] { sk } else { nx },
                ..m
            },
            Ok(()),
        ),
        Instr::SetImm(x, imm) => (
            MachineModel { pc: nx, registers: m.registers.update(x as int, imm), ..m },
            Ok(()),
        ),
        Instr::AddImm(x, imm) => (
            MachineModel {
                pc: nx,
                registers: m.registers.update(x as int, wrap_add(m.registers[x as int], imm)),
                ..m
            },
            Ok(()),
        ),
        Instr::Mov(x, y) => (
            MachineModel { pc: nx, registers: m.registers.update(x as int, m.registers[y as int]), ..m },
            Ok(()),
        ),
        Instr::Or(x, y) => (
            MachineModel {
                pc: nx,
                registers: m.registers.update(x as int, m.registers[x as int] | m.registers[y as int]),
                ..m
            },
            Ok(()),
        ),
        Instr::And(x, y) => (
            MachineModel {
                pc: nx,
                registers: m.registers.update(x as int, m.registers[x as int] & m.registers[y as int]),
                ..m
            },
            Ok(()),
        ),
        Instr::Xor(x, y) => (
            MachineModel {
                pc: nx,
                registers: m.registers.update(x as int, m.registers[x as int] ^ m.registers[y as int]),
                ..m
            },
            Ok(()),
        ),
        Instr::AddReg(x, y) => (
            MachineModel {
                pc: nx,
                registers: m.registers.update(
                    x as int,
                    wrap_add(m.registers[x as int], m.registers[y as int]),
                ).update(15, if m.registers[x as int] + m.registers[y as int] > 255 { 1u8 } else { 0u8 }),
                ..m
            },
            Ok(()),
        ),
        Instr::SubReg(x, y) => (
            MachineModel {
                pc: nx,
                registers: m.registers.update(
                    x as int,
                    wrap_sub(m.registers[x as int], m.registers[y as int]),
                ).update(15, if m.registers[x as int] >= m.registers[y as int] { 1u8 } else { 0u8 }),
                ..m
            },
            Ok(()),
        ),
        Instr::Shr(x) => (
            MachineModel {
                pc: nx,
                registers: m.registers.update(x as int, m.registers[x as int] >> 1).update(
                    15,
                    m.registers[x as int] & 1,
                ),
                ..m
            },
            Ok(()),
        ),
        Instr::SubN(x, y) => (
            MachineModel {
                pc: nx,
                registers: m.registers.update(
                    x as int,
                    wrap_sub(m.registers[y as int], m.registers[x as int]),
                ).update(15, if m.registers[y as int] >= m.registers[x as int] { 1u8 } else { 0u8 }),
                ..m
            },
            Ok(()),
        ),
        Instr::Shl(x) => (
            MachineModel {
                pc: nx,
                registers: m.registers.update(x as int, m.registers[x as int] << 1).update(
                    15,
                    m.registers[x as int] >> 7,
                ),
                ..m
            },
            Ok(()),
        ),
        Instr::SkipNeReg(x, y) => (
            MachineModel {
                pc: if m.registers[x as int] != m.registers[y as int] { sk } else { nx },
                ..m
            },
            Ok(()),
        ),
        Instr::SetIndex(a) => (MachineModel { pc: nx, index: a, ..m }, Ok(())),
        Instr::JumpV0(a) => (MachineModel { pc: (a + m.registers[0]) as u16, ..m }, Ok(())),
        Instr::Draw(x, y, n) => {
            let x0 = m.registers[x as int] as int % (DISPLAY_WIDTH as int);
            let y0 = m.registers[y as int] as int % (DISPLAY_HEIGHT as int);
            let coll = rows_collision(m.framebuffer, m.memory, m.index, x0, y0, n as int);
            (
                MachineModel {
                    pc: nx,
                    framebuffer: draw_rows(m.framebuffer, m.memory, m.index, x0, y0, n as int),
                    registers: m.registers.update(15, if coll { 1u8 } else { 0u8 }),
                    ..m
                },
                Ok(()),
            )
        },
        Instr::SkipKey(x) => (
            MachineModel { pc: if key_down(m.keys, m.registers[x as int]) { sk } else { nx }, ..m },
            Ok(()),
        ),
        Instr::SkipNoKey(x) => (
            MachineModel { pc: if !key_down(m.keys, m.registers[x as int]) { sk } else { nx }, ..m },
            Ok(()),
        ),
        Instr::GetDelay(x) => (
            MachineModel { pc: nx, registers: m.registers.update(x as int, m.delay_timer), ..m },
            Ok(()),
        ),
        Instr::SetDelay(x) => (
            MachineModel { pc: nx, delay_timer: m.registers[x as int], ..m },
            Ok(()),
        ),
        Instr::SetSound(x) => (
            MachineModel { pc: nx, sound_timer: m.registers[x as int], ..m },
            Ok(()),
        ),
        Instr::AddIndex(x) => (
            MachineModel {
                pc: nx,
                index: if m.index + m.registers[x as int] > 65535 {
                    (m.index + m.registers[x as int] - 65536) as u16
                } else {
                    (m.index + m.registers[x as int]) as u16
                },
                ..m
            },
            Ok(()),
        ),
        Instr::Bcd(x) => (
            MachineModel { pc: nx, memory: bcd_mem(m.memory, m.index, m.registers[x as int]), ..m },
            Ok(()),
        ),
        Instr::Store(x) => (
            MachineModel {
                pc: nx,
                memory: store_regs(m.memory, m.registers, m.index, x as int + 1),
                ..m
            },
            Ok(()),
        ),
        Instr::Load(x) => (
            MachineModel {
                pc: nx,
                registers: load_regs(m.registers, m.memory, m.index, x as int + 1),
                ..m
            },
            Ok(()),
        ),
        Instr::Unknown(raw) => (
            MachineModel { halted: true, ..m },
            Err(CycleError::Decode(DecodeError::UnknownOpcode(raw))),
        ),
    }
}

/// One whole cycle from an arbitrary state: a halted machine does nothing;
/// a fetch that would read past the end of memory halts the machine and
/// reports it; otherwise the fetched opcode executes.
pub open spec fn spec_cycle(m: MachineModel) -> (MachineModel, Result<(), CycleError>) {
    if m.halted {
        (m, Ok(()))
    } else if m.pc + 1 >= MEMORY_SIZE {
        (
            MachineModel { halted: true, ..m },
            Err(CycleError::Fetch(FetchError::OutOfBounds { address: m.pc })),
        )
    } else {
        spec_execute(m, fetch_op(m))
    }
}

} // verus!
