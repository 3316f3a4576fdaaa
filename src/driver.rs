use crate::cpu::{is_ram, step_spec, w16, Cpu, CpuState, State};
use crate::mmu::{lemma_run_timer_frame, MemState, INT_STAT, INT_TIMER, INT_VBLANK};
use crate::ppu::{
    draw_scanline, frame_px, rgba_of, FRAME_BYTES, LINE_BYTES, SCREEN_HEIGHT,
};
use vstd::prelude::*;

verus! {

/// M-cycles per scanline: 456 T-cycles of four each.
pub const LINE_CYCLES: u32 = 114;

/// Scanlines per frame, the last ten of them in vertical blank.
pub const FRAME_LINES: u8 = 154;

/// The interrupt sources in priority order: VBlank, LCD STAT, Timer, Serial, Joypad; source
/// `k` is IF bit `k` and jumps to 0x40 + 8k.
pub open spec fn pending(m: MemState) -> u8 {
    m.read(0xFFFF) & m.read(0xFF0F)
}

/// Services source `k`: IME cleared, its IF bit cleared, PC pushed, PC set to its vector.
pub open spec fn dispatch(s: CpuState, k: u8) -> CpuState {
    let bitmask = (1u8 << k) as u8;
    let m = s.mem.write(0xFF0F, s.mem.read(0xFF0F) & !bitmask);
    CpuState { ime: false, mem: m, ..s }.push(s.pc).jump(0x40 + 8 * k)
}

/// With IME set, the highest-priority pending source is serviced (and a halted CPU runs on);
/// with IME clear, a pending source only wakes a halted CPU.
pub open spec fn service(s: CpuState) -> CpuState {
    let p = pending(s.mem);
    if s.ime {
        let s1 = if p != 0 {
            CpuState { state: State::Running, ..s }
        } else {
            s
        };
        if p & 0x01 != 0 {
            dispatch(s1, 0)
        } else if p & 0x02 != 0 {
            dispatch(s1, 1)
        } else if p & 0x04 != 0 {
            dispatch(s1, 2)
        } else if p & 0x08 != 0 {
            dispatch(s1, 3)
        } else if p & 0x10 != 0 {
            dispatch(s1, 4)
        } else {
            s1
        }
    } else if s.state == State::Halted && p != 0 {
        CpuState { state: State::Running, ..s }
    } else {
        s
    }
}

/// One turn of the frame loop: a pending IME enable takes effect, one instruction runs (or one
/// idle M-cycle while halted), the timer runs as long, a TIMA overflow raises the timer
/// interrupt, and interrupts are sampled. Also gives the M-cycles spent.
#[verifier::opaque]
pub open spec fn tick_spec(s: CpuState) -> (CpuState, u32) {
    let s0 = if s.state == State::Ime {
        CpuState { state: State::Running, ime: true, ..s }
    } else {
        s
    };
    let (s1, d) = if s0.state == State::Halted {
        (s0, 1u32)
    } else {
        let (a, c) = step_spec(s0);
        (a, c as u32)
    };
    let (m2, ovf) = s1.mem.run_timer(s1.mem.io[0x07] & 4 != 0, (d * 4) as nat);
    let m3 = if ovf {
        m2.write(0xFF0F, m2.read(0xFF0F) | INT_TIMER)
    } else {
        m2
    };
    (service(CpuState { mem: m3, ..s1 }), d)
}

/// The part of a turn before interrupts are sampled, for a halted CPU: one idle M-cycle of the
/// timer leaves IE and IF bit 4 as they were.
proof fn lemma_halted_turn(s: CpuState)
    requires
        s.wf(),
        s.state == State::Halted,
    ensures
        tick_spec(s).1 == 1,
        ({
            let (m2, ovf) = s.mem.run_timer(s.mem.io[0x07] & 4 != 0, 4);
            let m3 = if ovf {
                m2.write(0xFF0F, m2.read(0xFF0F) | INT_TIMER)
            } else {
                m2
            };
            &&& tick_spec(s).0 == service(CpuState { mem: m3, ..s })
            &&& m3.wf()
            &&& m3.ie == s.mem.ie
            &&& m3.io[0x0F] & 0x10 == s.mem.io[0x0F] & 0x10
            &&& m3.io[0x50] == s.mem.io[0x50]
            &&& m3.mapper == s.mem.mapper
        }),
{
    reveal(tick_spec);
    lemma_run_timer_frame(s.mem, s.mem.io[0x07] & 4 != 0, 4);
    let (m2, ovf) = s.mem.run_timer(s.mem.io[0x07] & 4 != 0, 4);
    let x = m2.io[0x0F];
    assert(((x | INT_TIMER) | 0xE0) & 0x10 == x & 0x10) by (bit_vector);
}

/// A halted CPU with IME clear, the joypad enabled in IE and its IF bit set, wakes after one
/// idle M-cycle without servicing anything: PC, SP and IME stay, IF bit 4 stays set.
pub proof fn lemma_joypad_wakes_halt(s: CpuState)
    requires
        s.wf(),
        s.state == State::Halted,
        !s.ime,
        s.mem.ie == 0x10,
        s.mem.io[0x0F] & 0x10 != 0,
    ensures
        tick_spec(s).1 == 1,
        tick_spec(s).0.state == State::Running,
        tick_spec(s).0.pc == s.pc,
        tick_spec(s).0.sp == s.sp,
        !tick_spec(s).0.ime,
        tick_spec(s).0.mem.io[0x0F] & 0x10 != 0,
{
    lemma_halted_turn(s);
    let (m2, ovf) = s.mem.run_timer(s.mem.io[0x07] & 4 != 0, 4);
    let m3 = if ovf {
        m2.write(0xFF0F, m2.read(0xFF0F) | INT_TIMER)
    } else {
        m2
    };
    let y = m3.io[0x0F];
    assert(y & 0x10 != 0 ==> 0x10 & y != 0) by (bit_vector);
    assert(pending(m3) == 0x10 & y);
}

/// A halted CPU with IME set, the joypad enabled in IE and its IF bit set, services the joypad
/// after one idle M-cycle: IF bit 4 and IME cleared, the address after HALT pushed, PC at 0x60.
pub proof fn lemma_joypad_interrupt(s: CpuState)
    requires
        s.wf(),
        s.state == State::Halted,
        s.ime,
        s.mem.ie == 0x10,
        s.mem.io[0x0F] & 0x10 != 0,
        is_ram(w16(s.sp - 2)),
        is_ram(w16(s.sp - 1)),
    ensures
        tick_spec(s).1 == 1,
        tick_spec(s).0.state == State::Running,
        tick_spec(s).0.pc == 0x60,
        tick_spec(s).0.sp == w16(s.sp - 2),
        tick_spec(s).0.mem.read_word(w16(s.sp - 2)) == s.pc,
        !tick_spec(s).0.ime,
        tick_spec(s).0.mem.io[0x0F] & 0x10 == 0,
{
    lemma_halted_turn(s);
    let (m2, ovf) = s.mem.run_timer(s.mem.io[0x07] & 4 != 0, 4);
    let m3 = if ovf {
        m2.write(0xFF0F, m2.read(0xFF0F) | INT_TIMER)
    } else {
        m2
    };
    let y = m3.io[0x0F];
    assert(y & 0x10 != 0 ==> (0x10 & y != 0 && (0x10 & y) & 0x01 == 0 && (0x10 & y) & 0x02 == 0
        && (0x10 & y) & 0x04 == 0 && (0x10 & y) & 0x08 == 0 && (0x10 & y) & 0x10 != 0))
        by (bit_vector);
    assert(pending(m3) == 0x10 & y);
    let s1 = CpuState { state: State::Running, mem: m3, ..s };
    assert((1u8 << 4u8) as u8 == 0x10) by (bit_vector);
    assert(((y & !0x10u8) | 0xE0) & 0x10 == 0) by (bit_vector);
    let m4 = m3.write(0xFF0F, m3.read(0xFF0F) & !0x10u8);
    assert(m4.io[0x0F] & 0x10 == 0);
    let sp = w16(s.sp - 2);
    let m5 = m4.write_word(sp, s.pc);
    assert(crate::mmu::next_addr(sp) == w16(s.sp - 1));
    assert(m5.io[0x0F] == m4.io[0x0F]);
    assert(m5.read(sp) == crate::mmu::lo_of(s.pc));
    assert(m5.read(crate::mmu::next_addr(sp)) == crate::mmu::hi_of(s.pc));
}

pub open spec fn cycles_left(t: int) -> nat {
    if t >= LINE_CYCLES {
        0
    } else {
        (LINE_CYCLES - t) as nat
    }
}

/// Turns of the loop until the line's cycles are spent, from `t` already spent.
pub open spec fn run_line(s: CpuState, t: int) -> CpuState
    decreases cycles_left(t),
{
    if t >= LINE_CYCLES {
        s
    } else {
        let (s2, d) = tick_spec(s);
        if d == 0 {
            s2
        } else {
            run_line(s2, t + d)
        }
    }
}

/// The frame with `line` drawn from memory `m`.
pub open spec fn render(frame: Seq<u8>, m: MemState, line: int) -> Seq<u8> {
    let scx = m.read(0xFF43);
    let scy = m.read(0xFF42);
    Seq::new(
        frame.len(),
        |j: int|
            if line * LINE_BYTES <= j < line * LINE_BYTES + LINE_BYTES {
                rgba_of(m.pixel(line, (j - line * LINE_BYTES) / 4, scx, scy))[(j - line
                    * LINE_BYTES) % 4]
            } else {
                frame[j]
            },
    )
}

/// Drawing a line depends on the memory alone: drawing it a second time from the same memory
/// leaves the frame as the first drawing left it.
pub proof fn lemma_render_twice(frame: Seq<u8>, m: MemState, line: int)
    ensures
        render(render(frame, m, line), m, line) == render(frame, m, line),
{
    assert(render(render(frame, m, line), m, line) =~= render(frame, m, line));
}

/// The window line counter moves on after a line on which the window was shown.
pub open spec fn window_shown(m: MemState, line: int) -> bool {
    &&& m.lcdc() & 0x20 != 0
    &&& m.io[0x4A] <= line
    &&& m.io[0x4A] < SCREEN_HEIGHT
    &&& m.io[0x4B] < 167
}

/// LY, the LYC coincidence bit of STAT (with the STAT interrupt when STAT bit 6 enables it)
/// and, on line 144, the VBlank interrupt.
pub open spec fn line_registers(m: MemState, line: int) -> MemState {
    let m1 = if line + 1 == m.read(0xFF45) {
        let m2 = m.write(0xFF41, m.read(0xFF41) | 0x04);
        if m2.read(0xFF41) & 0x40 != 0 {
            m2.write(0xFF0F, m2.read(0xFF0F) | INT_STAT)
        } else {
            m2
        }
    } else {
        m.write(0xFF41, m.read(0xFF41) & !0x04u8)
    };
    let m3 = if line == 144 {
        m1.write(0xFF0F, m1.read(0xFF0F) | INT_VBLANK)
    } else {
        m1
    };
    m3.write(0xFF44, if line < 153 { line as u8 } else { 0 })
}

/// The end of a scanline: a visible line is drawn and the window counter moves on, then the
/// line registers are updated.
pub open spec fn end_line(s: CpuState, frame: Seq<u8>, line: int) -> (CpuState, Seq<u8>) {
    let (m, f) = if line < SCREEN_HEIGHT {
        let m0 = s.mem;
        let m1 = if window_shown(m0, line) {
            MemState { window_counter: ((m0.window_counter + 1) % 256) as u8, ..m0 }
        } else {
            m0
        };
        (m1, render(frame, m0, line))
    } else {
        (s.mem, frame)
    };
    (CpuState { mem: line_registers(m, line), ..s }, f)
}

/// Lines `line` to 153 of a frame.
pub open spec fn run_lines(s: CpuState, frame: Seq<u8>, line: int) -> (CpuState, Seq<u8>)
    decreases FRAME_LINES - line,
{
    if line >= FRAME_LINES {
        (s, frame)
    } else {
        let (s2, f2) = end_line(run_line(s, 0), frame, line);
        run_lines(s2, f2, line + 1)
    }
}

/// A whole frame: the buffer cleared, the window counter reset, 154 lines.
pub open spec fn run_frame(s: CpuState) -> (CpuState, Seq<u8>) {
    let s0 = CpuState { mem: MemState { window_counter: 0, ..s.mem }, ..s };
    run_lines(s0, Seq::new(FRAME_BYTES as nat, |j: int| 0u8), 0)
}

impl Cpu {
    fn dispatch(&mut self, k: u8)
        requires
            old(self).wf(),
            k < 5,
        ensures
            final(self).wf(),
            final(self)@ == dispatch(old(self)@, k),
    {
        let bitmask: u8 = 1u8 << k;
        let f = self.mmu.read_byte(0xFF0F);
        self.mmu.write_byte(0xFF0F, f & !bitmask);
        self.ime = false;
        let pc = self.pc;
        let sp = ((self.sp as u32 + 65534) % 65536) as u16;
        self.mmu.write_word(sp, pc);
        self.sp = sp;
        self.pc = 0x40 + 8 * k as u16;
    }

    /// Samples the interrupt lines after an instruction.
    pub fn service_interrupts(&mut self)
        requires
            old(self).wf(),
        ensures
            final(self).wf(),
            final(self)@ == service(old(self)@),
    {
        let p = self.mmu.read_byte(0xFFFF) & self.mmu.read_byte(0xFF0F);
        if self.ime {
            if p != 0 {
                self.state = State::Running;
            }
            if p & 0x01 != 0 {
                self.dispatch(0);
            } else if p & 0x02 != 0 {
                self.dispatch(1);
            } else if p & 0x04 != 0 {
                self.dispatch(2);
            } else if p & 0x08 != 0 {
                self.dispatch(3);
            } else if p & 0x10 != 0 {
                self.dispatch(4);
            }
        } else if self.state == State::Halted && p != 0 {
            self.state = State::Running;
        }
    }

    /// One turn of the frame loop; returns the M-cycles it took.
    pub fn tick(&mut self) -> (r: u32)
        requires
            old(self).wf(),
        ensures
            final(self).wf(),
            (final(self)@, r) == tick_spec(old(self)@),
            1 <= r <= 6,
    {
        proof {
            reveal(tick_spec);
        }
        if self.state == State::Ime {
            self.state = State::Running;
            self.ime = true;
        }
        let d: u32 = if self.state == State::Halted {
            1
        } else {
            self.step() as u32
        };
        let enabled = self.mmu.io_byte(0x07) & 4 != 0;
        if self.mmu.increment_timer(d, enabled) {
            let f = self.mmu.read_byte(0xFF0F);
            self.mmu.write_byte(0xFF0F, f | INT_TIMER);
        }
        self.service_interrupts();
        d
    }

    fn end_line(&mut self, frame: &mut Vec<u8>, line: u8)
        requires
            old(self).wf(),
            old(frame)@.len() == FRAME_BYTES,
        ensures
            final(self).wf(),
            final(frame)@.len() == FRAME_BYTES,
            (final(self)@, final(frame)@) == end_line(old(self)@, old(frame)@, line as int),
    {
        if line < SCREEN_HEIGHT as u8 {
            let scx = self.mmu.read_byte(0xFF43);
            let scy = self.mmu.read_byte(0xFF42);
            let ghost before = frame@;
            draw_scanline(&self.mmu, frame, scx, scy, line);
            proof {
                let m = self.mmu@;
                let base = line * LINE_BYTES;
                assert forall|j: int| 0 <= j < FRAME_BYTES implies frame@[j] == render(
                    before,
                    m,
                    line as int,
                )[j] by {
                    if base <= j < base + LINE_BYTES {
                        let c = (j - base) / 4;
                        let k = (j - base) % 4;
                        assert(j == base + 4 * c + k);
                        assert(frame_px(frame@, line as int, c, k) == rgba_of(
                            m.pixel(line as int, c, scx, scy),
                        )[k]);
                    }
                }
                assert(frame@ =~= render(before, m, line as int));
            }
            let wc = self.mmu.get_window_counter();
            let (wy, wx) = self.mmu.get_window_pos();
            if self.mmu.get_window_enable() && wy <= line && wy < SCREEN_HEIGHT as u8 && wx < 167 {
                self.mmu.set_window_counter(if wc == 255 {
                    0
                } else {
                    wc + 1
                });
            }
        }
        let lyc = self.mmu.read_byte(0xFF45);
        if line as u16 + 1 == lyc as u16 {
            let stat = self.mmu.read_byte(0xFF41);
            self.mmu.write_byte(0xFF41, stat | 0x04);
            if self.mmu.read_byte(0xFF41) & 0x40 != 0 {
                let f = self.mmu.read_byte(0xFF0F);
                self.mmu.write_byte(0xFF0F, f | INT_STAT);
            }
        } else {
            let stat = self.mmu.read_byte(0xFF41);
            self.mmu.write_byte(0xFF41, stat & !0x04u8);
        }
        if line == 144 {
            let f = self.mmu.read_byte(0xFF0F);
            self.mmu.write_byte(0xFF0F, f | INT_VBLANK);
        }
        self.mmu.write_byte(
            0xFF44,
            if line < 153 {
                line
            } else {
                0
            },
        );
    }

    /// Runs one frame of 154 scanlines into `frame`, a 160x144 RGBA buffer, and reports that a
    /// frame is ready.
    pub fn game_loop(&mut self, frame: &mut Vec<u8>) -> (r: bool)
        requires
            old(self).wf(),
            old(frame)@.len() == FRAME_BYTES,
        ensures
            final(self).wf(),
            (final(self)@, final(frame)@) == run_frame(old(self)@),
            r,
    {
        let mut j: usize = 0;
        while j < FRAME_BYTES
            invariant
                j <= FRAME_BYTES,
                frame@.len() == FRAME_BYTES,
                forall|i: int| 0 <= i < j ==> frame@[i] == 0,
            decreases FRAME_BYTES - j,
        {
            frame.set(j, 0);
            j = j + 1;
        }
        assert(frame@ =~= Seq::new(FRAME_BYTES as nat, |i: int| 0u8));
        self.mmu.set_window_counter(0);
        let mut line: u8 = 0;
        while line < FRAME_LINES
            invariant
                self.wf(),
                line <= FRAME_LINES,
                frame@.len() == FRAME_BYTES,
                run_frame(old(self)@) == run_lines(self@, frame@, line as int),
            decreases FRAME_LINES - line,
        {
            let ghost s_line = self@;
            let mut ticks: u32 = 0;
            while ticks < LINE_CYCLES
                invariant
                    self.wf(),
                    ticks < LINE_CYCLES + 6,
                    run_line(s_line, 0) == run_line(self@, ticks as int),
                decreases cycles_left(ticks as int),
            {
                let d = self.tick();
                ticks = ticks + d;
            }
            self.end_line(frame, line);
            line = line + 1;
        }
        true
    }
}

} // verus!
