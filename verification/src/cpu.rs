//! The instruction-set execution engine: register and flag state, the two
//! 64KB memories, the paging register, and the fetch-decode-execute cycle.

use vstd::prelude::*;

verus! {

/// Size of each of the two memories: the full address space of a 16-bit address.
pub const MEM_SIZE: usize = 65536;

/// First data-memory address of the framebuffer region.
pub const FRAMEBUFFER_BASE: u16 = 0x8000;

/// Length in bytes of the framebuffer region (the upper half of data memory).
pub const FRAMEBUFFER_LEN: usize = 32768;

/// A fatal runtime fault: execution must stop and no state is mutated.
#[derive(Clone, Copy, Debug, PartialEq, Eq, Structural)]
pub enum Fault {
    /// The fetched opcode byte is not in the instruction table.
    UnimplementedOpcode(u8),
}

/// A message for the external diagnostic sink, emitted by at most one per
/// executed instruction: the output instructions report an accumulator, and
/// the add instructions report an advisory overflow notice.
#[derive(Clone, Copy, Debug, PartialEq, Eq, Structural)]
pub enum Note {
    OutputA(u8),
    OutputB(u8),
    AdditionOverflow,
}

/// The mathematical model of the whole machine state.
pub struct CpuView {
    pub reg_a: u8,
    pub reg_b: u8,
    pub flags: u8,
    pub ram_ext: u8,
    pub pc: u16,
    pub halted: bool,
    pub ram: Seq<u8>,
    pub flash: Seq<u8>,
}

impl CpuView {
    /// Both memories cover exactly the 16-bit address space.
    pub open spec fn wf(self) -> bool {
        self.ram.len() == MEM_SIZE && self.flash.len() == MEM_SIZE
    }
}

/// The program counter after one fetch: advances by one, wrapping at the end
/// of program memory.
pub open spec fn wrap_inc(pc: u16) -> u16 {
    ((pc + 1) % 0x10000) as u16
}

/// A 16-bit data address formed from the paging register (high byte) and an
/// 8-bit operand (low byte).
pub open spec fn paged_addr(page: u8, low: u8) -> u16 {
    (page * 0x100 + low) as u16
}

/// A 16-bit value from an explicit high and low byte.
pub open spec fn word(hi: u8, lo: u8) -> u16 {
    (hi * 0x100 + lo) as u16
}

/// Whether the carry flag (bit 0 of the status byte) is set.
pub open spec fn carry_set(flags: u8) -> bool {
    flags & 1 == 1
}

/// The status byte after an add instruction: bit 0 holds the new carry,
/// all other bits are cleared together with it exactly as the add writes them.
pub open spec fn set_carry(flags: u8, carry: bool) -> u8 {
    if carry {
        (flags & 0xfe) | 1
    } else {
        flags & 0xfe
    }
}

/// The second operand of add-with-carry: the whole status byte is added to
/// accumulator B and the sum is masked to its lowest bit.
pub open spec fn adc_operand(b: u8, flags: u8) -> u8 {
    ((b + flags) % 2) as u8
}

/// The complete semantics of executing one instruction from state `c`:
/// either the successor state together with the note to emit, or a fault,
/// in which case the state is unchanged.
pub open spec fn step_spec(c: CpuView) -> Result<(CpuView, Option<Note>), Fault>
    recommends
        c.wf(),
{
    if c.halted {
        Ok((c, None))
    } else {
        let op = c.flash[c.pc as int];
        let pc1 = wrap_inc(c.pc);
        let pc2 = wrap_inc(pc1);
        let pc3 = wrap_inc(pc2);
        let b1 = c.flash[pc1 as int];
        let b2 = c.flash[pc2 as int];
        if op == 0x00 {  // nop
            Ok((CpuView { pc: pc1, ..c }, None))
        } else if op == 0x01 {  // output A
            Ok((CpuView { pc: pc1, ..c }, Some(Note::OutputA(c.reg_a))))
        } else if op == 0x02 {  // output B
            Ok((CpuView { pc: pc1, ..c }, Some(Note::OutputB(c.reg_b))))
        } else if op == 0x10 {  // load A immediate
            Ok((CpuView { reg_a: b1, pc: pc2, ..c }, None))
        } else if op == 0x11 {  // load B immediate
            Ok((CpuView { reg_b: b1, pc: pc2, ..c }, None))
        } else if op == 0x12 {  // load page immediate
            Ok((CpuView { ram_ext: b1, pc: pc2, ..c }, None))
        } else if op == 0x20 {  // store A paged
            Ok((CpuView { ram: c.ram.update(paged_addr(c.ram_ext, b1) as int, c.reg_a), pc: pc2, ..c }, None))
        } else if op == 0x21 {  // store B paged
            Ok((CpuView { ram: c.ram.update(paged_addr(c.ram_ext, b1) as int, c.reg_b), pc: pc2, ..c }, None))
        } else if op == 0x22 {  // load A paged
            Ok((CpuView { reg_a: c.ram[paged_addr(c.ram_ext, b1) as int], pc: pc2, ..c }, None))
        } else if op == 0x23 {  // load B paged
            Ok((CpuView { reg_b: c.ram[paged_addr(c.ram_ext, b1) as int], pc: pc2, ..c }, None))
        } else if op == 0x24 {  // move B to A
            Ok((CpuView { reg_a: c.reg_b, pc: pc1, ..c }, None))
        } else if op == 0x25 {  // move A to B
            Ok((CpuView { reg_b: c.reg_a, pc: pc1, ..c }, None))
        } else if op == 0x2d {  // page from A
            Ok((CpuView { ram_ext: c.reg_a, pc: pc1, ..c }, None))
        } else if op == 0x2e {  // page from B
            Ok((CpuView { ram_ext: c.reg_b, pc: pc1, ..c }, None))
        } else if op == 0x2f {  // load page paged
            Ok((CpuView { ram_ext: c.ram[paged_addr(c.ram_ext, b1) as int], pc: pc2, ..c }, None))
        } else if op == 0x30 {  // load A direct
            Ok((CpuView { reg_a: c.ram[word(b1, b2) as int], pc: pc3, ..c }, None))
        } else if op == 0x31 {  // load A indirect
            Ok((CpuView { reg_a: c.ram[word(c.reg_a, c.reg_b) as int], pc: pc1, ..c }, None))
        } else if op == 0x32 {  // load B indirect
            Ok((CpuView { reg_b: c.ram[word(c.reg_a, c.reg_b) as int], pc: pc1, ..c }, None))
        } else if op == 0x40 {  // add
            let sum: int = c.reg_a + c.reg_b;
            let carry: bool = sum > 255;
            Ok((
                CpuView { reg_a: (sum % 256) as u8, flags: set_carry(c.flags, carry), pc: pc1, ..c },
                if carry { Some(Note::AdditionOverflow) } else { None },
            ))
        } else if op == 0x41 {  // add with carry
            let sum: int = c.reg_a + adc_operand(c.reg_b, c.flags);
            let carry: bool = sum > 255;
            Ok((
                CpuView { reg_a: (sum % 256) as u8, flags: set_carry(c.flags, carry), pc: pc1, ..c },
                if carry { Some(Note::AdditionOverflow) } else { None },
            ))
        } else if op == 0xf0 {  // jump absolute
            Ok((CpuView { pc: word(b1, b2), ..c }, None))
        } else if op == 0xf1 {  // jump to A
            Ok((CpuView { pc: c.reg_a as u16, ..c }, None))
        } else if op == 0xf2 {  // jump to A:B
            Ok((CpuView { pc: word(c.reg_a, c.reg_b), ..c }, None))
        } else if op == 0xf3 {  // jump absolute if carry
            if carry_set(c.flags) {
                Ok((CpuView { pc: word(b1, b2), ..c }, None))
            } else {
                Ok((CpuView { pc: pc3, ..c }, None))
            }
        } else if op == 0xf4 {  // jump to A if carry
            if carry_set(c.flags) {
                Ok((CpuView { pc: c.reg_a as u16, ..c }, None))
            } else {
                Ok((CpuView { pc: pc3, ..c }, None))
            }
        } else if op == 0xf5 {  // jump to A:B if carry
            if carry_set(c.flags) {
                Ok((CpuView { pc: word(c.reg_a, c.reg_b), ..c }, None))
            } else {
                Ok((CpuView { pc: pc3, ..c }, None))
            }
        } else if op == 0xf6 {  // jump absolute if A=0
            if c.reg_a == 0 {
                Ok((CpuView { pc: word(b1, b2), ..c }, None))
            } else {
                Ok((CpuView { pc: pc3, ..c }, None))
            }
        } else if op == 0xf7 {  // jump to B if A=0
            if c.reg_a == 0 {
                Ok((CpuView { pc: c.reg_b as u16, ..c }, None))
            } else {
                Ok((CpuView { pc: pc3, ..c }, None))
            }
        } else if op == 0xff {  // halt
            Ok((CpuView { halted: true, pc: pc1, ..c }, None))
        } else {
            Err(Fault::UnimplementedOpcode(op))
        }
    }
}

/// The machine: accumulators, status byte, paging register, program counter,
/// halted flag, data memory (`ram`) and program memory (`flash`).
pub struct Cpu {
    reg_a: u8,
    reg_b: u8,
    ram: Vec<u8>,
    flash: Vec<u8>,
    flags: u8,
    ram_ext: u8,
    pc: u16,
    halted: bool,
}

impl View for Cpu {
    type V = CpuView;

    closed spec fn view(&self) -> CpuView {
        CpuView {
            reg_a: self.reg_a,
            reg_b: self.reg_b,
            flags: self.flags,
            ram_ext: self.ram_ext,
            pc: self.pc,
            halted: self.halted,
            ram: self.ram@,
            flash: self.flash@,
        }
    }
}

impl Cpu {
    /// A fresh machine over a loaded program image: program memory holds the
    /// image, everything else is zeroed.
    pub fn new(flash: Vec<u8>) -> (cpu: Cpu)
        requires
            flash@.len() == MEM_SIZE,
        ensures
            cpu@.wf(),
            cpu@.reg_a == 0,
            cpu@.reg_b == 0,
            cpu@.flags == 0,
            cpu@.ram_ext == 0,
            cpu@.pc == 0,
            !cpu@.halted,
            cpu@.flash == flash@,
            forall|i: int| 0 <= i < MEM_SIZE ==> cpu@.ram[i] == 0,
    {
        let mut ram: Vec<u8> = Vec::new();
        while ram.len() < MEM_SIZE
            invariant
                ram@.len() <= MEM_SIZE,
                forall|i: int| 0 <= i < ram@.len() ==> ram@[i] == 0,
            decreases MEM_SIZE - ram.len(),
        {
            ram.push(0);
        }
        Cpu {
            reg_a: 0,
            reg_b: 0,
            ram,
            flash,
            flags: 0,
            ram_ext: 0,
            pc: 0,
            halted: false,
        }
    }

    /// Fetches the program byte at the program counter and advances the
    /// program counter by one, wrapping at the end of program memory.
    pub fn load_next(&mut self) -> (b: u8)
        requires
            old(self)@.wf(),
        ensures
            b == old(self)@.flash[old(self)@.pc as int],
            final(self)@ == (CpuView { pc: wrap_inc(old(self)@.pc), ..old(self)@ }),
    {
        let b = self.flash[self.pc as usize];
        self.advance_pc();
        b
    }

    /// Advances the program counter by one, wrapping at the end of program
    /// memory; no other state changes.
    fn advance_pc(&mut self)
        ensures
            final(self)@ == (CpuView { pc: wrap_inc(old(self)@.pc), ..old(self)@ }),
    {
        self.pc = ((self.pc as u32 + 1) % 0x10000) as u16;
    }

    /// Reads the program-memory byte at `addr`; total over the full 16-bit
    /// address space.
    pub fn read_program(&self, addr: u16) -> (b: u8)
        requires
            self@.wf(),
        ensures
            b == self@.flash[addr as int],
    {
        self.flash[addr as usize]
    }

    /// Reads the data-memory byte at `addr`; total over the full 16-bit
    /// address space.
    pub fn read_data(&self, addr: u16) -> (b: u8)
        requires
            self@.wf(),
        ensures
            b == self@.ram[addr as int],
    {
        self.ram[addr as usize]
    }

    /// Writes `value` to the data-memory byte at `addr`; total over the full
    /// 16-bit address space. A write at or above `FRAMEBUFFER_BASE` is
    /// visible to the display driver on its next read.
    pub fn write_data(&mut self, addr: u16, value: u8)
        requires
            old(self)@.wf(),
        ensures
            final(self)@ == (CpuView {
                ram: old(self)@.ram.update(addr as int, value),
                ..old(self)@
            }),
    {
        self.ram[addr as usize] = value;
    }

    /// Executes exactly one instruction, as `step_spec` describes: a no-op
    /// when halted; otherwise fetches, decodes and executes the opcode at the
    /// program counter. Returns the note to hand to the diagnostic sink, or
    /// the fault on an opcode outside the table, in which case no state
    /// changes at all.
    pub fn step(&mut self) -> (r: Result<Option<Note>, Fault>)
        requires
            old(self)@.wf(),
        ensures
            final(self)@.wf(),
            final(self)@.flash == old(self)@.flash,
            (match step_spec(old(self)@) {
                Ok(out) => r == Ok::<Option<Note>, Fault>(out.1) && final(self)@ == out.0,
                Err(f) => r == Err::<Option<Note>, Fault>(f) && final(self)@ == old(self)@,
            }),
    {
        if self.halted {
            return Ok(None);
        }
        let op = self.read_program(self.pc);
        match op {
            0x00 => {
                self.advance_pc();
                Ok(None)
            },
            0x01 => {
                self.advance_pc();
                Ok(Some(Note::OutputA(self.reg_a)))
            },
            0x02 => {
                self.advance_pc();
                Ok(Some(Note::OutputB(self.reg_b)))
            },
            0x10 => {
                self.advance_pc();
                let b1 = self.load_next();
                self.reg_a = b1;
                Ok(None)
            },
            0x11 => {
                self.advance_pc();
                let b1 = self.load_next();
                self.reg_b = b1;
                Ok(None)
            },
            0x12 => {
                self.advance_pc();
                let b1 = self.load_next();
                self.ram_ext = b1;
                Ok(None)
            },
            0x20 => {
                self.advance_pc();
                let b1 = self.load_next();
                let addr = word16(self.ram_ext, b1);
                let v = self.reg_a;
                self.ram[addr as usize] = v;
                Ok(None)
            },
            0x21 => {
                self.advance_pc();
                let b1 = self.load_next();
                let addr = word16(self.ram_ext, b1);
                let v = self.reg_b;
                self.ram[addr as usize] = v;
                Ok(None)
            },
            0x22 => {
                self.advance_pc();
                let b1 = self.load_next();
                let addr = word16(self.ram_ext, b1);
                self.reg_a = self.read_data(addr);
                Ok(None)
            },
            0x23 => {
                self.advance_pc();
                let b1 = self.load_next();
                let addr = word16(self.ram_ext, b1);
                self.reg_b = self.read_data(addr);
                Ok(None)
            },
            0x24 => {
                self.advance_pc();
                self.reg_a = self.reg_b;
                Ok(None)
            },
            0x25 => {
                self.advance_pc();
                self.reg_b = self.reg_a;
                Ok(None)
            },
            0x2d => {
                self.advance_pc();
                self.ram_ext = self.reg_a;
                Ok(None)
            },
            0x2e => {
                self.advance_pc();
                self.ram_ext = self.reg_b;
                Ok(None)
            },
            0x2f => {
                self.advance_pc();
                let b1 = self.load_next();
                let addr = word16(self.ram_ext, b1);
                self.ram_ext = self.read_data(addr);
                Ok(None)
            },
            0x30 => {
                self.advance_pc();
                let b1 = self.load_next();
                let b2 = self.load_next();
                let addr = word16(b1, b2);
                self.reg_a = self.read_data(addr);
                Ok(None)
            },
            0x31 => {
                self.advance_pc();
                let addr = word16(self.reg_a, self.reg_b);
                self.reg_a = self.read_data(addr);
                Ok(None)
            },
            0x32 => {
                self.advance_pc();
                let addr = word16(self.reg_a, self.reg_b);
                self.reg_b = self.read_data(addr);
                Ok(None)
            },
            0x40 => {
                self.advance_pc();
                let sum: u16 = self.reg_a as u16 + self.reg_b as u16;
                self.reg_a = (sum % 256) as u8;
                if sum > 255 {
                    self.flags = (self.flags & 0xfe) | 1;
                    Ok(Some(Note::AdditionOverflow))
                } else {
                    self.flags = self.flags & 0xfe;
                    Ok(None)
                }
            },
            0x41 => {
                self.advance_pc();
                let operand: u8 = ((self.reg_b as u16 + self.flags as u16) % 2) as u8;
                let sum: u16 = self.reg_a as u16 + operand as u16;
                self.reg_a = (sum % 256) as u8;
                if sum > 255 {
                    self.flags = (self.flags & 0xfe) | 1;
                    Ok(Some(Note::AdditionOverflow))
                } else {
                    self.flags = self.flags & 0xfe;
                    Ok(None)
                }
            },
            0xf0 => {
                self.advance_pc();
                let b1 = self.load_next();
                let b2 = self.load_next();
                self.pc = word16(b1, b2);
                Ok(None)
            },
            0xf1 => {
                self.advance_pc();
                self.pc = self.reg_a as u16;
                Ok(None)
            },
            0xf2 => {
                self.advance_pc();
                self.pc = word16(self.reg_a, self.reg_b);
                Ok(None)
            },
            0xf3 => {
                self.advance_pc();
                let b1 = self.load_next();
                let b2 = self.load_next();
                if self.flags & 1 == 1 {
                    self.pc = word16(b1, b2);
                }
                Ok(None)
            },
            0xf4 => {
                self.advance_pc();
                if self.flags & 1 == 1 {
                    self.pc = self.reg_a as u16;
                } else {
                    self.load_next();
                    self.load_next();
                }
                Ok(None)
            },
            0xf5 => {
                self.advance_pc();
                if self.flags & 1 == 1 {
                    self.pc = word16(self.reg_a, self.reg_b);
                } else {
                    self.load_next();
                    self.load_next();
                }
                Ok(None)
            },
            0xf6 => {
                self.advance_pc();
                let b1 = self.load_next();
                let b2 = self.load_next();
                if self.reg_a == 0 {
                    self.pc = word16(b1, b2);
                }
                Ok(None)
            },
            0xf7 => {
                self.advance_pc();
                if self.reg_a == 0 {
                    self.pc = self.reg_b as u16;
                } else {
                    self.load_next();
                    self.load_next();
                }
                Ok(None)
            },
            0xff => {
                self.advance_pc();
                self.halted = true;
                Ok(None)
            },
            _ => Err(Fault::UnimplementedOpcode(op)),
        }
    }

    /// A snapshot of the framebuffer region: the upper half of data memory,
    /// in address order, one packed pixel per byte.
    pub fn get_pixels(&self) -> (pixels: Vec<u8>)
        requires
            self@.wf(),
        ensures
            pixels@.len() == FRAMEBUFFER_LEN,
            forall|i: int| 0 <= i < FRAMEBUFFER_LEN ==> pixels@[i] == self@.ram[FRAMEBUFFER_BASE + i],
    {
        let mut pixels: Vec<u8> = Vec::new();
        let mut i: usize = 0;
        while i < FRAMEBUFFER_LEN
            invariant
                self@.wf(),
                i <= FRAMEBUFFER_LEN,
                pixels@.len() == i,
                forall|j: int| 0 <= j < i ==> pixels@[j] == self@.ram[FRAMEBUFFER_BASE + j],
            decreases FRAMEBUFFER_LEN - i,
        {
            let b = self.ram[FRAMEBUFFER_BASE as usize + i];
            pixels.push(b);
            i = i + 1;
        }
        pixels
    }

    /// Accumulator A.
    pub fn reg_a(&self) -> (v: u8)
        ensures
            v == self@.reg_a,
    {
        self.reg_a
    }

    /// Accumulator B.
    pub fn reg_b(&self) -> (v: u8)
        ensures
            v == self@.reg_b,
    {
        self.reg_b
    }

    /// The status byte; only bit 0 (carry) is defined.
    pub fn flags(&self) -> (v: u8)
        ensures
            v == self@.flags,
    {
        self.flags
    }

    /// Whether the carry flag is set.
    pub fn carry(&self) -> (v: bool)
        ensures
            v == carry_set(self@.flags),
    {
        self.flags & 1 == 1
    }

    /// The paging register.
    pub fn ram_ext(&self) -> (v: u8)
        ensures
            v == self@.ram_ext,
    {
        self.ram_ext
    }

    /// The program counter.
    pub fn pc(&self) -> (v: u16)
        ensures
            v == self@.pc,
    {
        self.pc
    }

    /// Whether the machine has executed a halt instruction.
    pub fn halted(&self) -> (v: bool)
        ensures
            v == self@.halted,
    {
        self.halted
    }
}

/// A 16-bit value from an explicit high and low byte, as executable code.
pub fn word16(hi: u8, lo: u8) -> (w: u16)
    ensures
        w == word(hi, lo),
{
    (hi as u16) * 0x100 + (lo as u16)
}

/// Whether `n` successive instructions from state `c` all execute without a
/// fault.
pub open spec fn steps_ok(c: CpuView, n: nat) -> bool
    decreases n,
{
    n == 0 || (step_spec(c) is Ok && steps_ok(step_spec(c)->Ok_0.0, (n - 1) as nat))
}

/// The state after `n` successive instructions from state `c`, meaningful
/// when `steps_ok(c, n)` holds.
pub open spec fn run(c: CpuView, n: nat) -> CpuView
    decreases n,
{
    if n == 0 {
        c
    } else {
        run(step_spec(c)->Ok_0.0, (n - 1) as nat)
    }
}

/// Whether `op` is one of the conditional jump opcodes.
pub open spec fn is_cond_jump(op: u8) -> bool {
    op == 0xf3 || op == 0xf4 || op == 0xf5 || op == 0xf6 || op == 0xf7
}

/// Whether the conditional jump `op` takes its branch in state `c`: the
/// carry-conditional jumps test the carry flag, the zero-conditional jumps
/// test accumulator A against zero.
pub open spec fn cond_taken(op: u8, c: CpuView) -> bool
    recommends
        is_cond_jump(op),
{
    if op == 0xf3 || op == 0xf4 || op == 0xf5 {
        carry_set(c.flags)
    } else {
        c.reg_a == 0
    }
}

/// The target a taken conditional jump `op` transfers control to in state
/// `c`: the two operand bytes after the opcode, accumulator A, A:B, or B.
pub open spec fn cond_target(op: u8, c: CpuView) -> u16
    recommends
        is_cond_jump(op),
        c.wf(),
{
    if op == 0xf3 || op == 0xf6 {
        word(c.flash[wrap_inc(c.pc) as int], c.flash[wrap_inc(wrap_inc(c.pc)) as int])
    } else if op == 0xf4 {
        c.reg_a as u16
    } else if op == 0xf5 {
        word(c.reg_a, c.reg_b)
    } else {
        c.reg_b as u16
    }
}

/// Whether `op` is in the instruction table.
pub open spec fn known_opcode(op: u8) -> bool {
    ||| op == 0x00
    ||| op == 0x01
    ||| op == 0x02
    ||| op == 0x10
    ||| op == 0x11
    ||| op == 0x12
    ||| op == 0x20
    ||| op == 0x21
    ||| op == 0x22
    ||| op == 0x23
    ||| op == 0x24
    ||| op == 0x25
    ||| op == 0x2d
    ||| op == 0x2e
    ||| op == 0x2f
    ||| op == 0x30
    ||| op == 0x31
    ||| op == 0x32
    ||| op == 0x40
    ||| op == 0x41
    ||| op == 0xf0
    ||| op == 0xf1
    ||| op == 0xf2
    ||| op == 0xf3
    ||| op == 0xf4
    ||| op == 0xf5
    ||| op == 0xf6
    ||| op == 0xf7
    ||| op == 0xff
}

/// Executing the add instruction sets the carry flag iff the accumulator sum
/// exceeds 255, and leaves accumulator A holding the sum modulo 256.
pub proof fn lemma_add_carry(c: CpuView)
    requires
        c.wf(),
        !c.halted,
        c.flash[c.pc as int] == 0x40,
    ensures
        step_spec(c) is Ok,
        step_spec(c)->Ok_0.0.reg_a == (c.reg_a + c.reg_b) % 256,
        carry_set(step_spec(c)->Ok_0.0.flags) <==> c.reg_a + c.reg_b > 255,
{
    let f = c.flags;
    assert(((f & 0xfe) | 1) & 1 == 1) by (bit_vector);
    assert((f & 0xfe) & 1 != 1) by (bit_vector);
}

/// Paged load/store round-trip: from any running state whose next four
/// instructions are {set page `p`; store A paged at offset `o`; set page `p`;
/// load A paged from offset `o`}, with accumulator A holding `v`, the four
/// steps all succeed and leave `v` in accumulator A again.
pub proof fn lemma_paged_round_trip(c: CpuView, p: u8, o: u8, v: u8)
    requires
        c.wf(),
        !c.halted,
        c.reg_a == v,
        c.pc + 8 <= 0x10000,
        c.flash[c.pc as int] == 0x12,
        c.flash[c.pc + 1] == p,
        c.flash[c.pc + 2] == 0x20,
        c.flash[c.pc + 3] == o,
        c.flash[c.pc + 4] == 0x12,
        c.flash[c.pc + 5] == p,
        c.flash[c.pc + 6] == 0x22,
        c.flash[c.pc + 7] == o,
    ensures
        steps_ok(c, 4),
        run(c, 4).reg_a == v,
{
    let c1 = step_spec(c)->Ok_0.0;
    assert(c1 == (CpuView { ram_ext: p, pc: (c.pc + 2) as u16, ..c }));
    let c2 = step_spec(c1)->Ok_0.0;
    assert(c2 == (CpuView {
        ram: c1.ram.update(paged_addr(p, o) as int, v),
        pc: (c.pc + 4) as u16,
        ..c1
    }));
    let c3 = step_spec(c2)->Ok_0.0;
    assert(c3 == (CpuView { ram_ext: p, pc: (c.pc + 6) as u16, ..c2 }));
    let c4 = step_spec(c3)->Ok_0.0;
    assert(c4.reg_a == c3.ram[paged_addr(p, o) as int]);
    assert(c4.reg_a == v);
    assert(steps_ok(c4, 0));
    assert(steps_ok(c3, 1));
    assert(steps_ok(c2, 2));
    assert(steps_ok(c1, 3));
    assert(steps_ok(c, 4));
    assert(run(c4, 0) == c4);
    assert(run(c3, 1) == c4);
    assert(run(c2, 2) == c4);
    assert(run(c1, 3) == c4);
    assert(run(c, 4) == c4);
}

/// Conditional jump length invariant: every conditional jump succeeds and
/// emits nothing; when the branch is not taken the program counter advances
/// by exactly 3 (one opcode byte plus two address bytes, wrapping), and when
/// it is taken the program counter lands exactly on the encoded target.
pub proof fn lemma_cond_jump_length(c: CpuView)
    requires
        c.wf(),
        !c.halted,
        is_cond_jump(c.flash[c.pc as int]),
    ensures
        step_spec(c) is Ok,
        step_spec(c)->Ok_0.1 is None,
        cond_taken(c.flash[c.pc as int], c) ==> step_spec(c)->Ok_0.0.pc == cond_target(
            c.flash[c.pc as int],
            c,
        ),
        !cond_taken(c.flash[c.pc as int], c) ==> step_spec(c)->Ok_0.0.pc == (c.pc + 3) % 0x10000,
{
    lemma_wrap3(c.pc);
}

/// Three wrapping increments of the program counter advance it by 3 modulo
/// the size of program memory.
proof fn lemma_wrap3(pc: u16)
    ensures
        wrap_inc(wrap_inc(wrap_inc(pc))) == (pc + 3) % 0x10000,
{
    if pc + 3 < 0x10000 {
        assert(wrap_inc(wrap_inc(wrap_inc(pc))) == (pc + 3) % 0x10000);
    } else {
        assert(pc >= 0xfffd);
        assert(wrap_inc(wrap_inc(wrap_inc(pc))) == (pc + 3) % 0x10000);
    }
}

/// The halted flag is sticky: once the machine is halted, a step changes no
/// register, no memory cell, not the paging register, and emits nothing.
pub proof fn lemma_halted_stutter(c: CpuView)
    requires
        c.halted,
    ensures
        step_spec(c) == Ok::<(CpuView, Option<Note>), Fault>((c, None::<Note>)),
{
}

/// An opcode outside the instruction table faults, naming the offending
/// byte, and the faulting result carries no successor state: the engine's
/// step leaves every register and memory cell exactly as it found them.
/// A known opcode never faults.
pub proof fn lemma_unimplemented_fault(c: CpuView)
    requires
        c.wf(),
        !c.halted,
    ensures
        !known_opcode(c.flash[c.pc as int]) ==> step_spec(c) == Err::<
            (CpuView, Option<Note>),
            Fault,
        >(Fault::UnimplementedOpcode(c.flash[c.pc as int])),
        known_opcode(c.flash[c.pc as int]) ==> step_spec(c) is Ok,
{
}

} // verus!
