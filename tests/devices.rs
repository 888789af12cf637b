use panel_clock::rtc::{Calibrator, DateTime};
use panel_clock::switches::{Switch, Switches};
use panel_clock::ublox::{checksum, PVTError, UBlox, PVT};

fn pvt_frame() -> [u8; 100] {
    let mut buf = [0u8; 100];
    buf[0] = 0xB5;
    buf[1] = 0x62;
    buf[2] = 0x01;
    buf[3] = 0x07;
    buf[4] = 92;
    buf[5] = 0;
    // iTOW 0x01020304
    buf[6] = 0x04;
    buf[7] = 0x03;
    buf[8] = 0x02;
    buf[9] = 0x01;
    // year 2024
    buf[10] = 0xE8;
    buf[11] = 0x07;
    buf[12] = 6;
    buf[13] = 21;
    buf[14] = 13;
    buf[15] = 45;
    buf[16] = 30;
    buf[17] = 0b0101;
    buf[26] = 3;
    buf[29] = 11;
    let ck = checksum(&buf[..98]);
    buf[98] = ck[0];
    buf[99] = ck[1];
    buf
}

#[test]
fn checksum_of_known_message() {
    // Fletcher sums over bytes after the two sync bytes.
    assert_eq!(checksum(&[0xB5, 0x62, 0x06, 0x01, 0x03, 0x00]), [0x0A, 0x21]);
    assert_eq!(checksum(&[0xB5, 0x62]), [0, 0]);
    assert_eq!(checksum(&[0, 0, 200, 100]), [44, 244]);
}

#[test]
fn parses_valid_frame() {
    let pvt = PVT::try_from(&pvt_frame()).unwrap();
    assert_eq!(pvt.itow, 0x01020304);
    assert_eq!(pvt.year, 2024);
    assert_eq!((pvt.month, pvt.day, pvt.hour, pvt.minute, pvt.second), (6, 21, 13, 45, 30));
    assert!(pvt.valid_date);
    assert!(!pvt.valid_time);
    assert!(pvt.fully_resolved);
    assert!(pvt.fix);
    assert_eq!(pvt.num_sv, 11);
}

#[test]
fn rejects_bad_frames() {
    let mut f = pvt_frame();
    f[1] = 0x63;
    assert_eq!(PVT::try_from(&f).unwrap_err(), PVTError::BadSync);
    let mut f = pvt_frame();
    f[3] = 0x08;
    assert_eq!(PVT::try_from(&f).unwrap_err(), PVTError::BadClassID);
    let mut f = pvt_frame();
    f[4] = 91;
    assert_eq!(PVT::try_from(&f).unwrap_err(), PVTError::BadLength);
    let mut f = pvt_frame();
    f[50] ^= 1;
    assert_eq!(PVT::try_from(&f).unwrap_err(), PVTError::BadChecksum);
}

#[test]
fn switch_repeats_after_delay() {
    let mut s = Switch::new(5, 3);
    let mut active = Vec::new();
    for _ in 0..12 {
        s.update(true);
        active.push(s.poll());
    }
    assert_eq!(
        active,
        vec![true, false, false, false, true, false, false, true, false, false, true, false]
    );
    s.update(false);
    assert!(!s.poll());
    s.update(true);
    assert!(s.poll());
}

#[test]
fn switch_counter_saturates() {
    let mut s = Switch::new(2, 1);
    for _ in 0..70000 {
        s.update(true);
    }
    assert!(s.poll());
}

#[test]
fn switches_track_each_button() {
    let mut sw = Switches::new(10, 4);
    sw.update(true, false, false, false, false, true);
    assert!(sw.enter());
    assert!(!sw.qr());
    assert!(!sw.display());
    assert!(!sw.back());
    assert!(!sw.left());
    assert!(sw.right());
    sw.update(true, true, false, true, false, false);
    assert!(!sw.enter());
    assert!(sw.qr());
    assert!(sw.back());
    assert!(!sw.right());
}

#[test]
fn calibrator_needs_both_readings() {
    let mut c = Calibrator::new();
    assert_eq!(c.cal(), None);
    c.lse_reading(75_000_000);
    assert_eq!(c.cal(), None);
    c.gps_reading(3_000_000);
    assert_eq!(c.cal(), Some((0, 0)));
    // Readings are used up.
    assert_eq!(c.cal(), None);
}

#[test]
fn calibrator_factors() {
    let mut c = Calibrator::new();
    // LSE slow by about 100 ppm: cal = 75e6*2^20/(2999700*25) - 2^20.
    c.lse_reading(75_000_000);
    c.gps_reading(2_999_700);
    assert_eq!(c.cal(), Some((1, 512 - 104)));
    c.lse_reading(74_990_000);
    c.gps_reading(3_000_000);
    assert_eq!(c.cal(), Some((0, 140)));
    c.lse_reading(70_000_000);
    c.gps_reading(3_000_000);
    assert_eq!(c.cal(), None);
    c.lse_reading(75_000_000);
    c.gps_reading(0);
    assert_eq!(c.cal(), None);
    c.lse_reading(1);
    c.gps_reading(1);
    c.clear();
    assert_eq!(c.cal(), None);
}

#[test]
fn receiver_keeps_new_solutions_and_drops_repeats() {
    let mut rx = UBlox::new();
    assert_eq!(rx.pvt().unwrap_err(), PVTError::NoPVT(0));
    assert_eq!(rx.pvt().unwrap_err(), PVTError::NoPVT(1));
    let frame = pvt_frame();
    rx.dma_isr(&frame);
    assert_eq!(rx.pvt().unwrap().itow, 0x01020304);
    assert_eq!(rx.pvt().unwrap_err(), PVTError::NoPVT(0));
    rx.dma_isr(&frame);
    assert_eq!(rx.pvt().unwrap_err(), PVTError::SameTOW);
    let mut bad = frame;
    bad[0] = 0;
    rx.dma_isr(&bad);
    assert_eq!(rx.pvt().unwrap_err(), PVTError::BadSync);
}

#[test]
fn missing_solution_counter_saturates() {
    let mut rx = UBlox::new();
    for _ in 0..300 {
        let _ = rx.pvt();
    }
    assert_eq!(rx.pvt().unwrap_err(), PVTError::NoPVT(255));
}

#[test]
fn datetime_from_solution() {
    let pvt = PVT::try_from(&pvt_frame()).unwrap();
    let dt = DateTime::from_pvt(&pvt);
    assert_eq!(dt, DateTime { year: 24, month: 6, day: 21, hour: 13, minute: 45, second: 30 });
}

#[test]
fn datetimes_compare_with_slack() {
    let a = DateTime { year: 24, month: 6, day: 21, hour: 13, minute: 45, second: 30 };
    let mut b = a;
    b.second = 32;
    assert!(!DateTime::different(&a, &b));
    b.second = 33;
    assert!(DateTime::different(&a, &b));
    b.second = 27;
    assert!(DateTime::different(&a, &b));
    b = a;
    b.hour = 14;
    assert!(DateTime::different(&a, &b));
    let mut c = a;
    c.second = 58;
    c.hour = 2;
    assert!(c.near_new_minute());
    assert!(!DateTime::different(&a, &c));
    c.second = 1;
    assert!(!DateTime::different(&c, &a));
    assert!(!a.near_new_minute());
}

#[test]
fn calibrator_small_positive_factor() {
    let mut c = Calibrator::new();
    c.lse_reading(26_214_425);
    c.gps_reading(1_048_576);
    // Factor exactly 1: CALP adds 512 pulses and CALM takes 511 back.
    assert_eq!(c.cal(), Some((1, 511)));
    c.lse_reading(75_000_000 + 36_622);
    c.gps_reading(3_000_000);
    assert_eq!(c.cal(), Some((1, 0)));
}
