//! Interrupt-driven scheduler that streams BCM line buffers to a HUB75E panel.
//!
//! The panel shows one row pair at a time. Each row pair is sent in ten BCM
//! phases; after each phase's line buffer has been clocked out, an
//! output-enable pulse whose width doubles with the phase index lights the
//! latched data.
//!
//! Two hardware events drive the engine: the end of a line-buffer transfer
//! and the end of an output-enable pulse. Each handler returns the commands
//! that the caller issues to the transfer engine, the pixel clock, the pulse
//! timer and the row-address lines. The next phase is always encoded while
//! the current one is on its way, into the idle one of two line buffers.
//! Loading the row cache for a new row pair costs more than one transfer, so
//! it is done during the long pulse of the final phase instead.
use vstd::prelude::*;
use crate::bcm::{
    BCM_PHASES, ROW_PAIRS, LINE_LEN, RowCache, LineBuf, cache_in_range, effective_phase,
    load_row_cache, loaded_cache, rendered_line, render_phase, lemma_loaded_cache_in_range,
};
use crate::framebuf::MainFrameBuf;

verus! {

/// A command for the hardware around the engine, issued in the order given.
#[derive(Clone, Copy, Debug, PartialEq, Eq, Structural)]
pub enum Command {
    /// Acknowledge the transfer-complete event.
    AckTransfer,
    /// Start a one-shot active-low output-enable pulse of the given number of ticks.
    StartPulse(u32),
    /// Stop the pixel clock.
    StopClock,
    /// Acknowledge the pulse-complete event.
    AckPulse,
    /// Drive the row-address lines to the given row pair.
    SetRow(u8),
    /// Start transferring the line buffer with the given index.
    StartTransfer(u8),
    /// Start the pixel clock, which paces the transfer.
    StartClock,
}

/// Where the engine stands: the row pair on the address lines, the BCM phase
/// most recently prepared, and the line buffer to be sent next.
#[derive(Clone, Copy, Debug, PartialEq, Eq, Structural)]
pub struct ScanPosition {
    pub row_pair: u8,
    pub phase: u8,
    pub active_buffer: u8,
}

impl ScanPosition {
    /// The fields are in their ranges.
    pub open spec fn valid(self) -> bool {
        self.row_pair < ROW_PAIRS && self.phase < BCM_PHASES && self.active_buffer < 2
    }
}

/// Position after `start` has primed the pipeline: phase 0 of row pair 0 is
/// on its way from buffer 0, and phase 1 waits in buffer 1.
pub open spec fn position_after_start() -> ScanPosition {
    ScanPosition { row_pair: 0, phase: 1, active_buffer: 1 }
}

/// The phase whose data has just been sent, when `phase` is prepared.
pub open spec fn previous_phase(phase: u8) -> u8 {
    if phase == 0 {
        (BCM_PHASES - 1) as u8
    } else {
        (phase - 1) as u8
    }
}

/// The output-enable pulse width for the phase just sent.
pub open spec fn pulse_width(bcm_base: u32, phase: u8) -> u32 {
    bcm_base << (previous_phase(phase) as u32)
}

/// A transfer-complete event reloads the row cache (and encodes phase 0 of
/// the next row pair) exactly when the pulse handler left that work over.
pub open spec fn reloads_on_transfer_complete(p: ScanPosition) -> bool {
    p.phase == 0
}

/// Position after moving on by one phase, to the next row pair after the final phase.
pub open spec fn advance(p: ScanPosition) -> ScanPosition {
    if p.phase + 1 == BCM_PHASES {
        ScanPosition {
            row_pair: if p.row_pair + 1 == ROW_PAIRS { 0 } else { (p.row_pair + 1) as u8 },
            phase: 0,
            active_buffer: p.active_buffer,
        }
    } else {
        ScanPosition { phase: (p.phase + 1) as u8, ..p }
    }
}

/// Position after a transfer-complete event.
pub open spec fn after_transfer_complete(p: ScanPosition) -> ScanPosition {
    if reloads_on_transfer_complete(p) {
        ScanPosition {
            row_pair: if p.row_pair + 1 == ROW_PAIRS { 0 } else { (p.row_pair + 1) as u8 },
            phase: 0,
            active_buffer: p.active_buffer,
        }
    } else {
        p
    }
}

/// A pulse-complete event encodes the next phase, unless the phase just sent
/// was the last of the row pair.
pub open spec fn renders_on_pulse_complete(p: ScanPosition) -> bool {
    p.phase < BCM_PHASES - 1
}

/// Position after a pulse-complete event.
pub open spec fn after_pulse_complete(p: ScanPosition) -> ScanPosition {
    ScanPosition {
        row_pair: p.row_pair,
        phase: if renders_on_pulse_complete(p) { (p.phase + 1) as u8 } else { 0 },
        active_buffer: (1 - p.active_buffer) as u8,
    }
}

/// Position after a transfer-complete event followed by a pulse-complete event.
pub open spec fn after_event_pair(p: ScanPosition) -> ScanPosition {
    after_pulse_complete(after_transfer_complete(p))
}

/// Row-cache loads in a transfer-complete event followed by a pulse-complete event.
pub open spec fn loads_in_event_pair(p: ScanPosition) -> nat {
    if reloads_on_transfer_complete(p) { 1 } else { 0 }
}

/// Phase encodings in a transfer-complete event followed by a pulse-complete event.
pub open spec fn renders_in_event_pair(p: ScanPosition) -> nat {
    loads_in_event_pair(p) + if renders_on_pulse_complete(after_transfer_complete(p)) { 1nat } else { 0nat }
}

/// Position, row-cache loads and phase encodings after `n` pairs of events,
/// each a transfer-complete followed by a pulse-complete, from position `p`.
pub open spec fn run_event_pairs(p: ScanPosition, n: nat) -> (ScanPosition, nat, nat)
    decreases n,
{
    if n == 0 {
        (p, 0, 0)
    } else {
        let rest = run_event_pairs(after_event_pair(p), (n - 1) as nat);
        (rest.0, loads_in_event_pair(p) + rest.1, renders_in_event_pair(p) + rest.2)
    }
}

proof fn lemma_run_split(p: ScanPosition, a: nat, b: nat)
    ensures
        ({
            let first = run_event_pairs(p, a);
            let second = run_event_pairs(first.0, b);
            run_event_pairs(p, a + b) == (second.0, first.1 + second.1, first.2 + second.2)
        }),
    decreases a,
{
    if a > 0 {
        lemma_run_split(after_event_pair(p), (a - 1) as nat, b);
        assert((a + b - 1) as nat == ((a - 1) as nat + b));
    }
}

/// Ten event pairs from phase 1 of a row pair lead to phase 1 of the next,
/// with one row-cache load and ten encodings.
proof fn lemma_row_dwell(row_pair: u8)
    requires
        row_pair < ROW_PAIRS,
    ensures
        run_event_pairs(ScanPosition { row_pair, phase: 1, active_buffer: 1 }, 10) == (
            ScanPosition { row_pair: if row_pair + 1 == ROW_PAIRS { 0 } else { (row_pair + 1) as u8 }, phase: 1, active_buffer: 1 },
            1nat,
            10nat,
        ),
{
    reveal_with_fuel(run_event_pairs, 11);
}

proof fn lemma_rows(k: nat)
    requires
        k <= ROW_PAIRS,
    ensures
        run_event_pairs(position_after_start(), 10 * k) == (
            ScanPosition { row_pair: (k % 32) as u8, phase: 1, active_buffer: 1 },
            k,
            10 * k,
        ),
    decreases k,
{
    if k > 0 {
        lemma_rows((k - 1) as nat);
        let mid = ScanPosition { row_pair: ((k - 1) % 32) as u8, phase: 1, active_buffer: 1 };
        lemma_run_split(position_after_start(), 10 * (k - 1) as nat, 10);
        assert(10 * (k - 1) as nat + 10 == 10 * k);
        lemma_row_dwell(mid.row_pair);
    }
}

/// From the position `start` leaves, one full frame of events (a
/// transfer-complete and a pulse-complete for each of the ten phases of each
/// of the 32 row pairs) returns the engine to that same position, having
/// loaded the row cache exactly 32 times and encoded exactly 320 phases.
///
/// The handlers' contracts count their work the same way: over a
/// transfer-complete followed by a pulse-complete from position `p`,
/// `loads_done()` grows by `loads_in_event_pair(p)` and `renders_done()` by
/// `renders_in_event_pair(p)`.
pub proof fn lemma_full_frame_cycle()
    ensures
        run_event_pairs(position_after_start(), 320) == (position_after_start(), 32nat, 320nat),
{
    lemma_rows(32);
}

/// Driver for HUB75E LED matrices.
pub struct Hub75E<'a> {
    /// RGB888 frame buffer to render from. Can be swapped out at runtime.
    fbuf: &'a MainFrameBuf,
    /// The two line buffers, read in turn by the transfer engine.
    lbuf0: LineBuf,
    lbuf1: LineBuf,
    /// Smallest pulse length in timer ticks for BCM.
    bcm_base: u32,
    /// Gamma-mapped values of the current row pair.
    gbuf: RowCache,
    /// Index of the line buffer to be sent next, 0..2.
    lbuf: u8,
    /// Current row pair, 0..32.
    line: u8,
    /// Current BCM phase, 0..10.
    bcm: u8,
    /// Number of BCM phases to skip, reducing output brightness, 0..=10.
    bcm_skip: u8,
    /// Row-cache loads performed so far.
    loads: Ghost<nat>,
    /// Phase encodings performed so far.
    renders: Ghost<nat>,
}

impl<'a> Hub75E<'a> {
    /// The engine's fields are in their ranges and the row cache holds 10-bit values.
    pub closed spec fn wf(&self) -> bool {
        &&& self.line < ROW_PAIRS
        &&& self.bcm < BCM_PHASES
        &&& self.lbuf < 2
        &&& self.bcm_skip <= BCM_PHASES
        &&& cache_in_range(self.gbuf@)
    }

    pub closed spec fn position_spec(&self) -> ScanPosition {
        ScanPosition { row_pair: self.line, phase: self.bcm, active_buffer: self.lbuf }
    }

    pub closed spec fn framebuffer(&self) -> MainFrameBuf {
        *self.fbuf
    }

    pub closed spec fn cache(&self) -> Seq<u16> {
        self.gbuf@
    }

    pub closed spec fn buffer(&self, i: int) -> Seq<u8> {
        if i == 0 {
            self.lbuf0@
        } else {
            self.lbuf1@
        }
    }

    pub closed spec fn base(&self) -> u32 {
        self.bcm_base
    }

    pub closed spec fn skip(&self) -> u8 {
        self.bcm_skip
    }

    /// How many times the row cache has been loaded.
    pub closed spec fn loads_done(&self) -> nat {
        self.loads@
    }

    /// How many phases have been encoded into a line buffer.
    pub closed spec fn renders_done(&self) -> nat {
        self.renders@
    }

    /// A well-formed engine stands at a valid position with a brightness
    /// skip of at most ten phases.
    pub proof fn lemma_wf_ranges(&self)
        requires
            self.wf(),
        ensures
            self.position_spec().valid(),
            self.skip() <= BCM_PHASES,
    {
    }

    /// `self` differs from `old` at most in the line buffer `i`.
    pub open spec fn same_but_buffer(self, old: Self, i: int) -> bool {
        &&& self.framebuffer() == old.framebuffer()
        &&& self.cache() == old.cache()
        &&& self.buffer(1 - i) == old.buffer(1 - i)
        &&& self.base() == old.base()
        &&& self.skip() == old.skip()
    }

    /// Create a new HUB75E driver rendering from `fbuf`, with a shortest
    /// output-enable pulse of `bcm_base` timer ticks.
    pub fn new(fbuf: &'a MainFrameBuf, bcm_base: u32) -> (r: Self)
        ensures
            r.wf(),
            r.position_spec() == (ScanPosition { row_pair: 0, phase: 0, active_buffer: 0 }),
            r.framebuffer() == *fbuf,
            r.base() == bcm_base,
            r.skip() == 0,
            r.loads_done() == 0,
            r.renders_done() == 0,
            r.cache() == Seq::new(384, |i: int| 0u16),
            r.buffer(0) == Seq::new(65, |i: int| 0u8),
            r.buffer(1) == Seq::new(65, |i: int| 0u8),
    {
        let r = Hub75E {
            fbuf,
            lbuf0: [0u8; 65],
            lbuf1: [0u8; 65],
            bcm_base,
            gbuf: [0u16; 384],
            lbuf: 0,
            line: 0,
            bcm: 0,
            bcm_skip: 0,
            loads: Ghost(0),
            renders: Ghost(0),
        };
        assert(r.gbuf@ =~= Seq::new(384, |i: int| 0u16));
        assert(r.lbuf0@ =~= Seq::new(65, |i: int| 0u8));
        assert(r.lbuf1@ =~= Seq::new(65, |i: int| 0u8));
        r
    }

    /// Call to begin rendering the framebuffer to the display.
    ///
    /// Loads row pair 0, encodes phase 0 into buffer 0 and starts sending it,
    /// then encodes phase 1 into buffer 1 so that one phase is always ready
    /// ahead of the hardware.
    pub fn start(&mut self) -> (cmds: Vec<Command>)
        requires
            old(self).wf(),
        ensures
            final(self).wf(),
            final(self).position_spec() == position_after_start(),
            cmds@ == seq![Command::SetRow(0), Command::StartTransfer(0), Command::StartClock],
            final(self).cache() == loaded_cache(old(self).framebuffer(), 0),
            final(self).buffer(0) == rendered_line(final(self).cache(), effective_phase(0, old(self).skip())),
            final(self).buffer(1) == rendered_line(final(self).cache(), effective_phase(1, old(self).skip())),
            final(self).framebuffer() == old(self).framebuffer(),
            final(self).base() == old(self).base(),
            final(self).skip() == old(self).skip(),
            final(self).loads_done() == old(self).loads_done() + 1,
            final(self).renders_done() == old(self).renders_done() + 2,
    {
        self.line = 0;
        self.bcm = 0;
        self.lbuf = 0;
        self.load_line();
        self.render_line();
        let mut cmds: Vec<Command> = Vec::new();
        self.start_dma(&mut cmds);
        self.process_next_line();
        cmds
    }

    /// Call when the transfer of the active line buffer has completed.
    ///
    /// Starts the output-enable pulse for the phase just sent and stops the
    /// pixel clock. When the pulse handler has left the next row pair's
    /// loading over, loads it now and encodes its phase 0, hidden behind the
    /// long pulse of the final phase.
    pub fn dma_isr(&mut self) -> (cmds: Vec<Command>)
        requires
            old(self).wf(),
        ensures
            final(self).wf(),
            final(self).position_spec() == after_transfer_complete(old(self).position_spec()),
            cmds@ == seq![
                Command::AckTransfer,
                Command::StartPulse(pulse_width(old(self).base(), old(self).position_spec().phase)),
                Command::StopClock,
            ],
            reloads_on_transfer_complete(old(self).position_spec()) ==> {
                &&& final(self).cache() == loaded_cache(old(self).framebuffer(), final(self).position_spec().row_pair as int)
                &&& final(self).buffer(old(self).position_spec().active_buffer as int)
                        == rendered_line(final(self).cache(), effective_phase(0, old(self).skip()))
                &&& final(self).buffer(1 - old(self).position_spec().active_buffer) == old(self).buffer(1 - old(self).position_spec().active_buffer)
            },
            !reloads_on_transfer_complete(old(self).position_spec()) ==> {
                &&& final(self).cache() == old(self).cache()
                &&& final(self).buffer(0) == old(self).buffer(0)
                &&& final(self).buffer(1) == old(self).buffer(1)
            },
            final(self).framebuffer() == old(self).framebuffer(),
            final(self).base() == old(self).base(),
            final(self).skip() == old(self).skip(),
            final(self).loads_done() == old(self).loads_done()
                + if reloads_on_transfer_complete(old(self).position_spec()) { 1nat } else { 0nat },
            final(self).renders_done() == old(self).renders_done()
                + if reloads_on_transfer_complete(old(self).position_spec()) { 1nat } else { 0nat },
    {
        let mut cmds: Vec<Command> = Vec::new();
        cmds.push(Command::AckTransfer);

        // The phase has already been advanced past the one just sent.
        let bcm = if self.bcm == 0 { BCM_PHASES - 1 } else { self.bcm - 1 };
        cmds.push(Command::StartPulse(self.bcm_base << (bcm as u32)));
        cmds.push(Command::StopClock);

        // Phase 0 means the pulse handler deferred the row change: restore
        // the final phase number so that advancing moves to the next row.
        if self.bcm == 0 {
            self.bcm = BCM_PHASES - 1;
            self.process_next_line();
        }
        cmds
    }

    /// Call when the output-enable pulse has completed.
    ///
    /// Starts sending the prepared line buffer and encodes the next phase
    /// into the other one, unless the phase just started is the last of the
    /// row pair: then the phase goes back to 0 and the row change waits for
    /// the next transfer-complete event.
    pub fn tim_oe_isr(&mut self) -> (cmds: Vec<Command>)
        requires
            old(self).wf(),
        ensures
            final(self).wf(),
            final(self).position_spec() == after_pulse_complete(old(self).position_spec()),
            cmds@ == seq![
                Command::AckPulse,
                Command::SetRow(old(self).position_spec().row_pair),
                Command::StartTransfer(old(self).position_spec().active_buffer),
                Command::StartClock,
            ],
            final(self).cache() == old(self).cache(),
            final(self).buffer(old(self).position_spec().active_buffer as int) == old(self).buffer(old(self).position_spec().active_buffer as int),
            renders_on_pulse_complete(old(self).position_spec()) ==> final(self).buffer(1 - old(self).position_spec().active_buffer)
                == rendered_line(old(self).cache(), effective_phase(final(self).position_spec().phase, old(self).skip())),
            !renders_on_pulse_complete(old(self).position_spec()) ==> final(self).buffer(1 - old(self).position_spec().active_buffer)
                == old(self).buffer(1 - old(self).position_spec().active_buffer),
            final(self).framebuffer() == old(self).framebuffer(),
            final(self).base() == old(self).base(),
            final(self).skip() == old(self).skip(),
            final(self).loads_done() == old(self).loads_done(),
            final(self).renders_done() == old(self).renders_done()
                + if renders_on_pulse_complete(old(self).position_spec()) { 1nat } else { 0nat },
    {
        let mut cmds: Vec<Command> = Vec::new();
        cmds.push(Command::AckPulse);
        self.start_dma(&mut cmds);
        if self.bcm < BCM_PHASES - 1 {
            self.process_next_line();
        } else {
            self.bcm = 0;
        }
        cmds
    }

    /// Set a new framebuf.
    ///
    /// The new frame buffer is read from the next row-cache load on; nothing
    /// already loaded or encoded changes, so a swap in mid-frame may show
    /// parts of both frames.
    pub fn set_fbuf(&mut self, fbuf: &'a MainFrameBuf)
        requires
            old(self).wf(),
        ensures
            final(self).wf(),
            final(self).framebuffer() == *fbuf,
            final(self).position_spec() == old(self).position_spec(),
            final(self).cache() == old(self).cache(),
            final(self).buffer(0) == old(self).buffer(0),
            final(self).buffer(1) == old(self).buffer(1),
            final(self).base() == old(self).base(),
            final(self).skip() == old(self).skip(),
            final(self).loads_done() == old(self).loads_done(),
            final(self).renders_done() == old(self).renders_done(),
    {
        self.fbuf = fbuf;
    }

    /// Change the number of BCM phases skipped on each line.
    ///
    /// This adjusts the overall brightness, from full brightness at 0 to
    /// completely off at 10, with approximately linear steps in between. It
    /// applies from the next phase encoded on.
    pub fn set_bcm_skip(&mut self, bcm_skip: u8)
        requires
            old(self).wf(),
            bcm_skip <= BCM_PHASES,
        ensures
            final(self).wf(),
            final(self).skip() == bcm_skip,
            final(self).framebuffer() == old(self).framebuffer(),
            final(self).position_spec() == old(self).position_spec(),
            final(self).cache() == old(self).cache(),
            final(self).buffer(0) == old(self).buffer(0),
            final(self).buffer(1) == old(self).buffer(1),
            final(self).base() == old(self).base(),
            final(self).loads_done() == old(self).loads_done(),
            final(self).renders_done() == old(self).renders_done(),
    {
        self.bcm_skip = bcm_skip;
    }

    /// Where the engine stands.
    pub fn position(&self) -> (r: ScanPosition)
        ensures
            r == self.position_spec(),
    {
        ScanPosition { row_pair: self.line, phase: self.bcm, active_buffer: self.lbuf }
    }

    /// The number of BCM phases skipped.
    pub fn bcm_skip(&self) -> (r: u8)
        ensures
            r == self.skip(),
    {
        self.bcm_skip
    }

    /// The line buffer with index `i`, for the transfer engine to read.
    pub fn line_buffer(&self, i: u8) -> (r: &LineBuf)
        requires
            i < 2,
        ensures
            r@ == self.buffer(i as int),
    {
        if i == 0 {
            &self.lbuf0
        } else {
            &self.lbuf1
        }
    }

    /// The gamma-mapped values of the current row pair.
    pub fn row_cache(&self) -> (r: &RowCache)
        ensures
            r@ == self.cache(),
    {
        &self.gbuf
    }

    /// Start sending the line buffer to be sent next.
    ///
    /// Drives the address lines to the current row pair, starts the transfer
    /// and the pixel clock which paces it, and makes the other buffer the
    /// next one.
    fn start_dma(&mut self, cmds: &mut Vec<Command>)
        requires
            old(self).wf(),
        ensures
            final(self).wf(),
            final(self).position_spec() == (ScanPosition {
                active_buffer: (1 - old(self).lbuf) as u8,
                ..old(self).position_spec()
            }),
            final(cmds)@ == old(cmds)@ + seq![
                Command::SetRow(old(self).line),
                Command::StartTransfer(old(self).lbuf),
                Command::StartClock,
            ],
            final(self).cache() == old(self).cache(),
            final(self).buffer(0) == old(self).buffer(0),
            final(self).buffer(1) == old(self).buffer(1),
            final(self).framebuffer() == old(self).framebuffer(),
            final(self).base() == old(self).base(),
            final(self).skip() == old(self).skip(),
            final(self).loads_done() == old(self).loads_done(),
            final(self).renders_done() == old(self).renders_done(),
    {
        cmds.push(Command::SetRow(self.line));
        cmds.push(Command::StartTransfer(self.lbuf));
        cmds.push(Command::StartClock);
        let cur = self.lbuf;
        assert(cur ^ 1u8 == 1u8 - cur) by (bit_vector)
            requires
                cur < 2u8,
        ;
        self.lbuf = cur ^ 1;
    }

    /// Advance to the next phase, moving to the next row pair and loading
    /// its row cache after the final phase, then encode the new phase.
    fn process_next_line(&mut self)
        requires
            old(self).wf(),
        ensures
            final(self).wf(),
            final(self).position_spec() == advance(old(self).position_spec()),
            old(self).bcm + 1 == BCM_PHASES ==> final(self).cache()
                == loaded_cache(old(self).framebuffer(), final(self).line as int),
            old(self).bcm + 1 < BCM_PHASES ==> final(self).cache() == old(self).cache(),
            final(self).buffer(old(self).lbuf as int)
                == rendered_line(final(self).cache(), effective_phase(final(self).bcm, old(self).bcm_skip)),
            final(self).buffer(1 - old(self).lbuf) == old(self).buffer(1 - old(self).lbuf),
            final(self).framebuffer() == old(self).framebuffer(),
            final(self).base() == old(self).base(),
            final(self).skip() == old(self).skip(),
            final(self).loads_done() == old(self).loads_done() + if old(self).bcm + 1 == BCM_PHASES { 1nat } else { 0nat },
            final(self).renders_done() == old(self).renders_done() + 1,
    {
        self.bcm = self.bcm + 1;
        if self.bcm == BCM_PHASES {
            self.bcm = 0;
            self.line = self.line + 1;
            if self.line == ROW_PAIRS {
                self.line = 0;
            }
            self.load_line();
        }
        self.render_line();
    }

    /// Load the row cache for the current row pair.
    fn load_line(&mut self)
        requires
            old(self).wf(),
        ensures
            final(self).wf(),
            final(self).position_spec() == old(self).position_spec(),
            final(self).cache() == loaded_cache(*old(self).fbuf, old(self).line as int),
            final(self).framebuffer() == old(self).framebuffer(),
            final(self).buffer(0) == old(self).buffer(0),
            final(self).buffer(1) == old(self).buffer(1),
            final(self).base() == old(self).base(),
            final(self).skip() == old(self).skip(),
            final(self).loads_done() == old(self).loads_done() + 1,
            final(self).renders_done() == old(self).renders_done(),
    {
        load_row_cache(self.fbuf, self.line, &mut self.gbuf);
        self.loads = Ghost(self.loads@ + 1);
        proof {
            lemma_loaded_cache_in_range(*self.fbuf, self.line as int);
        }
    }

    /// Encode the current phase into the line buffer to be sent next.
    fn render_line(&mut self)
        requires
            old(self).wf(),
        ensures
            final(self).wf(),
            final(self).position_spec() == old(self).position_spec(),
            final(self).same_but_buffer(*old(self), old(self).lbuf as int),
            final(self).buffer(old(self).lbuf as int)
                == rendered_line(old(self).gbuf@, effective_phase(old(self).bcm, old(self).bcm_skip)),
            final(self).loads_done() == old(self).loads_done(),
            final(self).renders_done() == old(self).renders_done() + 1,
    {
        if self.lbuf == 0 {
            render_phase(&self.gbuf, self.bcm, self.bcm_skip, &mut self.lbuf0);
        } else {
            render_phase(&self.gbuf, self.bcm, self.bcm_skip, &mut self.lbuf1);
        }
        self.renders = Ghost(self.renders@ + 1);
    }
}

} // verus!
