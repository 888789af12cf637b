use panel_clock::bcm::{load_row_cache, render_phase, LATCH_BIT};
use panel_clock::gamma::{gamma_lookup, GAMMA};
use panel_clock::{Command, FrameBuf, Hub75E, MainFrameBuf, ScanPosition};

fn patterned_frame() -> MainFrameBuf {
    let mut fb = FrameBuf([[[0u8; 3]; 64]; 64]);
    for y in 0..64 {
        for x in 0..64 {
            fb.0[y][x] = [
                (x * 4 + y) as u8,
                (255 - x * 3) as u8,
                ((x * 7 + y * 13) % 256) as u8,
            ];
        }
    }
    fb
}

fn white_frame() -> MainFrameBuf {
    FrameBuf([[[255u8; 3]; 64]; 64])
}

/// Runs one transfer-complete and one pulse-complete event.
fn event_pair(hub: &mut Hub75E) -> (Vec<Command>, Vec<Command>) {
    let a = hub.dma_isr();
    let b = hub.tim_oe_isr();
    (a, b)
}

#[test]
fn gamma_table_never_decreases() {
    for i in 0..256 {
        for j in i..256 {
            assert!(GAMMA[i] <= GAMMA[j]);
        }
    }
}

#[test]
fn gamma_table_known_entries() {
    assert_eq!(gamma_lookup(0), 0);
    assert_eq!(gamma_lookup(21), 1);
    assert_eq!(gamma_lookup(128), 129);
    assert_eq!(gamma_lookup(255), 1023);
}

#[test]
fn row_cache_maps_both_rows_through_gamma() {
    let fb = patterned_frame();
    let mut cache = [0u16; 384];
    load_row_cache(&fb, 5, &mut cache);
    for col in 0..64 {
        for ch in 0..3 {
            assert_eq!(cache[6 * col + ch], GAMMA[fb.0[5][col][ch] as usize]);
            assert_eq!(cache[6 * col + 3 + ch], GAMMA[fb.0[37][col][ch] as usize]);
        }
    }
}

#[test]
fn ten_phases_rebuild_the_gamma_values() {
    let fb = patterned_frame();
    for row_pair in [0u8, 17, 31] {
        let mut cache = [0u16; 384];
        load_row_cache(&fb, row_pair, &mut cache);
        let mut lines = [[0u8; 65]; 10];
        for phase in 0..10u8 {
            render_phase(&cache, phase, 0, &mut lines[phase as usize]);
        }
        for col in 0..64 {
            for ch in 0..6 {
                let mut v: u16 = 0;
                for phase in 0..10 {
                    v |= (((lines[phase][col] >> ch) & 1) as u16) << phase;
                }
                assert_eq!(v, cache[6 * col + ch]);
            }
        }
    }
}

#[test]
fn full_skip_renders_dark_lines() {
    let fb = white_frame();
    let mut cache = [0u16; 384];
    load_row_cache(&fb, 0, &mut cache);
    for phase in 0..10u8 {
        let mut line = [0xAAu8; 65];
        render_phase(&cache, phase, 10, &mut line);
        for i in 0..65 {
            assert_eq!(line[i], if i == 63 { LATCH_BIT } else { 0 });
        }
    }
}

#[test]
fn latch_bit_only_on_last_column_and_blank_final_byte() {
    let fb = white_frame();
    let mut cache = [0u16; 384];
    load_row_cache(&fb, 3, &mut cache);
    for phase in 0..10u8 {
        for skip in 0..=10u8 {
            let mut line = [0xFFu8; 65];
            render_phase(&cache, phase, skip, &mut line);
            for i in 0..65 {
                assert_eq!(line[i] & LATCH_BIT != 0, i == 63);
            }
            assert_eq!(line[64], 0);
        }
    }
}

#[test]
fn brightness_skip_moves_to_higher_bits() {
    // 130 = 0b0010000010: bits 1 and 7.
    let mut cache = [0u16; 384];
    cache[0] = 130;
    let mut line = [0u8; 65];
    render_phase(&cache, 1, 0, &mut line);
    assert_eq!(line[0], 1);
    render_phase(&cache, 2, 0, &mut line);
    assert_eq!(line[0], 0);
    render_phase(&cache, 1, 6, &mut line);
    assert_eq!(line[0], 1);
    render_phase(&cache, 5, 6, &mut line);
    assert_eq!(line[0], 0);
}

#[test]
fn black_frame_renders_dark_lines() {
    let fb = FrameBuf([[[0u8; 3]; 64]; 64]);
    for row_pair in [0u8, 9, 31] {
        let mut cache = [7u16; 384];
        load_row_cache(&fb, row_pair, &mut cache);
        for phase in 0..10u8 {
            for skip in [0u8, 4, 10] {
                let mut line = [0x55u8; 65];
                render_phase(&cache, phase, skip, &mut line);
                for i in 0..65 {
                    assert_eq!(line[i], if i == 63 { LATCH_BIT } else { 0 });
                }
            }
        }
    }
}

#[test]
fn clear_black_blanks_every_pixel() {
    let mut fb = white_frame();
    fb.clear_black();
    assert!(fb.0.iter().all(|row| row.iter().all(|px| *px == [0, 0, 0])));
}

#[test]
fn start_primes_two_phases() {
    let fb = white_frame();
    let mut hub = Hub75E::new(&fb, 3);
    let cmds = hub.start();
    assert_eq!(cmds, vec![Command::SetRow(0), Command::StartTransfer(0), Command::StartClock]);
    assert_eq!(hub.position(), ScanPosition { row_pair: 0, phase: 1, active_buffer: 1 });
    for b in 0..2u8 {
        let line = hub.line_buffer(b);
        for i in 0..63 {
            assert_eq!(line[i], 0x3F);
        }
        assert_eq!(line[63], 0x7F);
        assert_eq!(line[64], 0);
    }
}

#[test]
fn first_pulse_after_start_has_phase_zero_width() {
    let fb = white_frame();
    let mut hub = Hub75E::new(&fb, 5);
    hub.start();
    let cmds = hub.dma_isr();
    assert_eq!(cmds, vec![Command::AckTransfer, Command::StartPulse(5), Command::StopClock]);
}

#[test]
fn final_phase_pulse_is_longest() {
    let fb = white_frame();
    let mut hub = Hub75E::new(&fb, 5);
    hub.start();
    let mut widths = Vec::new();
    for _ in 0..10 {
        let (a, _) = event_pair(&mut hub);
        match a[1] {
            Command::StartPulse(w) => widths.push(w),
            _ => panic!("no pulse"),
        }
    }
    assert_eq!(widths, vec![5, 10, 20, 40, 80, 160, 320, 640, 1280, 5 << 9]);
}

#[test]
fn pulse_handler_starts_prepared_buffer() {
    let fb = white_frame();
    let mut hub = Hub75E::new(&fb, 1);
    hub.start();
    hub.dma_isr();
    let cmds = hub.tim_oe_isr();
    assert_eq!(
        cmds,
        vec![Command::AckPulse, Command::SetRow(0), Command::StartTransfer(1), Command::StartClock]
    );
    assert_eq!(hub.position(), ScanPosition { row_pair: 0, phase: 2, active_buffer: 0 });
}

#[test]
fn row_change_is_deferred_to_transfer_complete() {
    let fb = patterned_frame();
    let mut hub = Hub75E::new(&fb, 1);
    hub.start();
    for _ in 0..8 {
        event_pair(&mut hub);
    }
    assert_eq!(hub.position().phase, 9);
    hub.dma_isr();
    hub.tim_oe_isr();
    // The pulse handler leaves the reload over: phase 0, same row pair.
    assert_eq!(hub.position(), ScanPosition { row_pair: 0, phase: 0, active_buffer: 0 });
    let cmds = hub.dma_isr();
    assert_eq!(cmds[1], Command::StartPulse(1 << 9));
    assert_eq!(hub.position(), ScanPosition { row_pair: 1, phase: 0, active_buffer: 0 });
    let mut expected = [0u16; 384];
    load_row_cache(&fb, 1, &mut expected);
    assert_eq!(hub.row_cache(), &expected);
    let mut line = [0u8; 65];
    render_phase(&expected, 0, 0, &mut line);
    assert_eq!(hub.line_buffer(0), &line);
}

#[test]
fn full_frame_returns_to_start_position() {
    let fb = patterned_frame();
    let mut hub = Hub75E::new(&fb, 1);
    hub.start();
    let after_start = hub.position();
    let mut rows_seen = Vec::new();
    let mut transfers = 0;
    for _ in 0..320 {
        let (_, b) = event_pair(&mut hub);
        if let Command::SetRow(r) = b[1] {
            if rows_seen.last() != Some(&r) {
                rows_seen.push(r);
            }
        }
        transfers += b.iter().filter(|c| matches!(c, Command::StartTransfer(_))).count();
    }
    assert_eq!(hub.position(), after_start);
    assert_eq!(transfers, 320);
    assert_eq!(rows_seen, (0..32).chain(0..1).collect::<Vec<u8>>());
}

#[test]
fn swapping_frame_keeps_rendered_buffers() {
    let fb = patterned_frame();
    let other = white_frame();
    let mut hub = Hub75E::new(&fb, 1);
    hub.start();
    event_pair(&mut hub);
    let before0 = *hub.line_buffer(0);
    let before1 = *hub.line_buffer(1);
    let cache = *hub.row_cache();
    hub.set_fbuf(&other);
    assert_eq!(hub.line_buffer(0), &before0);
    assert_eq!(hub.line_buffer(1), &before1);
    // Phases rendered before the next row change still come from the old cache.
    event_pair(&mut hub);
    assert_eq!(hub.row_cache(), &cache);
    let mut line = [0u8; 65];
    render_phase(&cache, hub.position().phase, 0, &mut line);
    assert_eq!(hub.line_buffer(hub.position().active_buffer), &line);
}

#[test]
fn brightness_skip_applies_from_next_render() {
    let fb = white_frame();
    let mut hub = Hub75E::new(&fb, 1);
    hub.start();
    hub.set_bcm_skip(10);
    assert_eq!(hub.bcm_skip(), 10);
    assert_eq!(hub.line_buffer(1)[0], 0x3F);
    event_pair(&mut hub);
    assert_eq!(hub.line_buffer(0)[0], 0);
    assert_eq!(hub.line_buffer(0)[63], LATCH_BIT);
}
