//! The renderer's scanline clock: four modes of fixed length, 154
//! scanlines to a frame, and what feeding it one cycle at a time yields.
use vstd::prelude::*;

verus! {

/// Numeric mode values, as mirrored in the low two bits of the status register.
pub const MODE_HBLANK: u8 = 0;
pub const MODE_VBLANK: u8 = 1;
pub const MODE_OAM_SCAN: u8 = 2;
pub const MODE_DRAWING: u8 = 3;

/// Number of the scanline on which vertical blanking starts.
pub const VBLANK_START_LINE: u8 = 144;
/// Number of the last scanline of a frame.
pub const LAST_LINE: u8 = 153;

/// The three components of the scanline clock: mode, cycles spent in the
/// mode, and scanline index.
pub type Timing = (u8, u32, u8);

/// How many cycles each mode lasts before the clock moves on.
pub open spec fn mode_length(mode: u8) -> int {
    if mode == MODE_OAM_SCAN {
        80
    } else if mode == MODE_DRAWING {
        172
    } else if mode == MODE_HBLANK {
        204
    } else {
        456
    }
}

/// Mode, scanline pairs that the clock can be in.
pub open spec fn timing_valid(mode: u8, line: u8) -> bool {
    &&& mode <= MODE_DRAWING
    &&& mode == MODE_VBLANK ==> VBLANK_START_LINE <= line <= LAST_LINE
    &&& mode != MODE_VBLANK ==> line < VBLANK_START_LINE
}

/// The clock after `cycles` more cycles: the cycles accumulate in the mode,
/// and once they reach the mode's length the mode clock restarts and the
/// next mode (and, after HBlank and VBlank, the next scanline) begins.
pub open spec fn next_timing(mode: u8, clock: u32, line: u8, cycles: u32) -> Timing {
    let total = clock + cycles;
    if total < mode_length(mode) {
        (mode, total as u32, line)
    } else if mode == MODE_OAM_SCAN {
        (MODE_DRAWING, 0, line)
    } else if mode == MODE_DRAWING {
        (MODE_HBLANK, 0, line)
    } else if mode == MODE_HBLANK {
        if line + 1 == VBLANK_START_LINE {
            (MODE_VBLANK, 0, VBLANK_START_LINE)
        } else {
            (MODE_OAM_SCAN, 0, (line + 1) as u8)
        }
    } else if line + 1 > LAST_LINE {
        (MODE_OAM_SCAN, 0, 0)
    } else {
        (MODE_VBLANK, 0, (line + 1) as u8)
    }
}

/// A step from `before` to `after` is the frame-complete event.
pub open spec fn enters_vblank(before: u8, after: u8) -> bool {
    before == MODE_HBLANK && after == MODE_VBLANK
}

/// Number of cycles in one frame: 154 scanlines of 456 cycles.
pub const FRAME_CYCLES: u32 = 70224;

/// The clock after `n` single-cycle advances.
pub open spec fn run_single_cycles(t: Timing, n: nat) -> Timing
    decreases n,
{
    if n == 0 {
        t
    } else {
        run_single_cycles(next_timing(t.0, t.1, t.2, 1), (n - 1) as nat)
    }
}

/// How many frame-complete events `n` single-cycle advances produce.
pub open spec fn vblank_entries(t: Timing, n: nat) -> nat
    decreases n,
{
    if n == 0 {
        0
    } else {
        let u = next_timing(t.0, t.1, t.2, 1);
        (if enters_vblank(t.0, u.0) {
            1nat
        } else {
            0nat
        }) + vblank_entries(u, (n - 1) as nat)
    }
}

proof fn lemma_run_add(t: Timing, a: nat, b: nat)
    ensures
        run_single_cycles(t, a + b) == run_single_cycles(run_single_cycles(t, a), b),
        vblank_entries(t, a + b) == vblank_entries(t, a) + vblank_entries(
            run_single_cycles(t, a),
            b,
        ),
    decreases a,
{
    if a > 0 {
        let u = next_timing(t.0, t.1, t.2, 1);
        lemma_run_add(u, (a - 1) as nat, b);
        assert((a + b - 1) as nat == (a - 1) as nat + b);
    }
}

proof fn lemma_run_one(t: Timing)
    ensures
        run_single_cycles(t, 1) == next_timing(t.0, t.1, t.2, 1),
        vblank_entries(t, 1) == if enters_vblank(t.0, next_timing(t.0, t.1, t.2, 1).0) {
            1nat
        } else {
            0nat
        },
{
    let u = next_timing(t.0, t.1, t.2, 1);
    assert(run_single_cycles(u, 0) == u);
    assert(vblank_entries(u, 0) == 0);
}

/// Before its length is up, a mode only accumulates cycles.
proof fn lemma_mode_holds(mode: u8, line: u8, k: nat)
    requires
        timing_valid(mode, line),
        k < mode_length(mode),
    ensures
        run_single_cycles((mode, 0u32, line), k) == (mode, k as u32, line),
        vblank_entries((mode, 0u32, line), k) == 0,
    decreases k,
{
    if k > 0 {
        lemma_mode_holds(mode, line, (k - 1) as nat);
        lemma_run_add((mode, 0u32, line), (k - 1) as nat, 1);
        lemma_run_one(run_single_cycles((mode, 0u32, line), (k - 1) as nat));
    }
}

/// After exactly its length, a mode hands over to the next one.
proof fn lemma_mode_ends(mode: u8, line: u8)
    requires
        timing_valid(mode, line),
    ensures
        run_single_cycles((mode, 0u32, line), mode_length(mode) as nat) == next_timing(
            mode,
            (mode_length(mode) - 1) as u32,
            line,
            1,
        ),
        vblank_entries((mode, 0u32, line), mode_length(mode) as nat) == if enters_vblank(
            mode,
            next_timing(mode, (mode_length(mode) - 1) as u32, line, 1).0,
        ) {
            1nat
        } else {
            0nat
        },
{
    let n = (mode_length(mode) - 1) as nat;
    lemma_mode_holds(mode, line, n);
    lemma_run_add((mode, 0u32, line), n, 1);
    lemma_run_one(run_single_cycles((mode, 0u32, line), n));
}

/// Fed one cycle at a time, the clock on a visible scanline spends exactly
/// 80 cycles in OAM scan, 172 in Drawing and 204 in HBlank; HBlank then
/// leads to VBlank when the next scanline is 144 and to OAM scan of the
/// next scanline otherwise. Each VBlank scanline lasts 456 cycles, and
/// after the ten of them the clock is back in OAM scan on scanline 0.
pub proof fn lemma_mode_cycle(line: u8, k: nat)
    requires
        line < VBLANK_START_LINE,
    ensures
        k < 80 ==> run_single_cycles((MODE_OAM_SCAN, 0u32, line), k).0 == MODE_OAM_SCAN,
        run_single_cycles((MODE_OAM_SCAN, 0u32, line), 80) == (MODE_DRAWING, 0u32, line),
        k < 172 ==> run_single_cycles((MODE_DRAWING, 0u32, line), k).0 == MODE_DRAWING,
        run_single_cycles((MODE_DRAWING, 0u32, line), 172) == (MODE_HBLANK, 0u32, line),
        k < 204 ==> run_single_cycles((MODE_HBLANK, 0u32, line), k).0 == MODE_HBLANK,
        run_single_cycles((MODE_HBLANK, 0u32, line), 204) == if line + 1 == VBLANK_START_LINE {
            (MODE_VBLANK, 0u32, VBLANK_START_LINE)
        } else {
            (MODE_OAM_SCAN, 0u32, (line + 1) as u8)
        },
        k < 4560 ==> run_single_cycles((MODE_VBLANK, 0u32, VBLANK_START_LINE), k).0
            == MODE_VBLANK,
        run_single_cycles((MODE_VBLANK, 0u32, VBLANK_START_LINE), 4560) == (
            MODE_OAM_SCAN,
            0u32,
            0u8,
        ),
{
    if k < 80 {
        lemma_mode_holds(MODE_OAM_SCAN, line, k);
    }
    if k < 172 {
        lemma_mode_holds(MODE_DRAWING, line, k);
    }
    if k < 204 {
        lemma_mode_holds(MODE_HBLANK, line, k);
    }
    lemma_mode_ends(MODE_OAM_SCAN, line);
    lemma_mode_ends(MODE_DRAWING, line);
    lemma_mode_ends(MODE_HBLANK, line);
    lemma_vblank_lines(10);
    if k < 4560 {
        lemma_vblank_mode_holds(k);
    }
}

/// One VBlank scanline: 456 cycles, no event, then the next scanline (or
/// the top of the next frame after scanline 153).
proof fn lemma_vblank_line(line: u8)
    requires
        VBLANK_START_LINE <= line <= LAST_LINE,
    ensures
        run_single_cycles((MODE_VBLANK, 0u32, line), 456) == if line == LAST_LINE {
            (MODE_OAM_SCAN, 0u32, 0u8)
        } else {
            (MODE_VBLANK, 0u32, (line + 1) as u8)
        },
        vblank_entries((MODE_VBLANK, 0u32, line), 456) == 0,
{
    lemma_mode_ends(MODE_VBLANK, line);
}

/// The first `j` VBlank scanlines take 456 cycles each and produce no event.
proof fn lemma_vblank_lines(j: nat)
    requires
        j <= 10,
    ensures
        run_single_cycles((MODE_VBLANK, 0u32, VBLANK_START_LINE), 456 * j) == if j == 10 {
            (MODE_OAM_SCAN, 0u32, 0u8)
        } else {
            (MODE_VBLANK, 0u32, (VBLANK_START_LINE + j) as u8)
        },
        vblank_entries((MODE_VBLANK, 0u32, VBLANK_START_LINE), 456 * j) == 0,
    decreases j,
{
    if j > 0 {
        lemma_vblank_lines((j - 1) as nat);
        let t = (MODE_VBLANK, 0u32, VBLANK_START_LINE);
        lemma_run_add(t, 456 * (j - 1) as nat, 456);
        assert(456 * (j - 1) as nat + 456 == 456 * j);
        lemma_vblank_line((VBLANK_START_LINE + j - 1) as u8);
    }
}

/// Within the ten VBlank scanlines the mode stays VBlank.
proof fn lemma_vblank_mode_holds(k: nat)
    requires
        k < 4560,
    ensures
        run_single_cycles((MODE_VBLANK, 0u32, VBLANK_START_LINE), k).0 == MODE_VBLANK,
{
    let j = k / 456;
    let r = k % 456;
    assert(k == 456 * j + r);
    lemma_vblank_lines(j);
    let t = (MODE_VBLANK, 0u32, VBLANK_START_LINE);
    lemma_run_add(t, 456 * j, r);
    lemma_mode_holds(MODE_VBLANK, (VBLANK_START_LINE + j) as u8, r);
}

/// One visible scanline: 456 cycles through OAM scan, Drawing and HBlank.
proof fn lemma_visible_line(line: u8)
    requires
        line < VBLANK_START_LINE,
    ensures
        run_single_cycles((MODE_OAM_SCAN, 0u32, line), 456) == if line + 1 == VBLANK_START_LINE {
            (MODE_VBLANK, 0u32, VBLANK_START_LINE)
        } else {
            (MODE_OAM_SCAN, 0u32, (line + 1) as u8)
        },
        vblank_entries((MODE_OAM_SCAN, 0u32, line), 456) == if line + 1 == VBLANK_START_LINE {
            1nat
        } else {
            0nat
        },
{
    lemma_mode_ends(MODE_OAM_SCAN, line);
    lemma_mode_ends(MODE_DRAWING, line);
    lemma_mode_ends(MODE_HBLANK, line);
    lemma_run_add((MODE_OAM_SCAN, 0u32, line), 80, 376);
    lemma_run_add((MODE_DRAWING, 0u32, line), 172, 204);
}

/// The first `n` visible scanlines take 456 cycles each and produce no event.
proof fn lemma_visible_lines(n: nat)
    requires
        n < VBLANK_START_LINE,
    ensures
        run_single_cycles((MODE_OAM_SCAN, 0u32, 0u8), 456 * n) == (
            MODE_OAM_SCAN,
            0u32,
            n as u8,
        ),
        vblank_entries((MODE_OAM_SCAN, 0u32, 0u8), 456 * n) == 0,
    decreases n,
{
    if n > 0 {
        lemma_visible_lines((n - 1) as nat);
        lemma_run_add((MODE_OAM_SCAN, 0u32, 0u8), 456 * (n - 1) as nat, 456);
        assert(456 * (n - 1) as nat + 456 == 456 * n);
        lemma_visible_line((n - 1) as u8);
    }
}

/// Fed one cycle at a time from the top of a frame, the clock produces
/// exactly one frame-complete event in the 154 scanlines of the frame, and
/// is then back at the top of the next frame.
pub proof fn lemma_one_vblank_per_frame()
    ensures
        run_single_cycles((MODE_OAM_SCAN, 0u32, 0u8), FRAME_CYCLES as nat) == (
            MODE_OAM_SCAN,
            0u32,
            0u8,
        ),
        vblank_entries((MODE_OAM_SCAN, 0u32, 0u8), FRAME_CYCLES as nat) == 1,
{
    let top = (MODE_OAM_SCAN, 0u32, 0u8);
    lemma_visible_lines(143);
    lemma_visible_line(143);
    lemma_run_add(top, 456 * 143, 456);
    let vb = (MODE_VBLANK, 0u32, VBLANK_START_LINE);
    lemma_vblank_lines(10);
    lemma_run_add(top, 456 * 144, 4560);
    assert(456 * 143 + 456 == 456 * 144);
    assert(456 * 144 + 4560 == FRAME_CYCLES);
}

} // verus!
