use panel_clock::menu::{Category, Menu, Setting, Value};
use panel_clock::Name;

static MAPS: [Name; 3] = [Name::Scotland, Name::Shikoku, Name::NoMap];

fn display_category() -> Category<4> {
    Category::new(
        Name::Display,
        [
            Setting::new_numeric(Name::Brightness, true, 0, 10, 7),
            Setting::new_onoff(Name::DimAtNight, true, false),
            Setting::new_disabled(),
            Setting::new_choice(Name::Route, true, 1, &MAPS),
        ],
    )
}

fn time_category() -> Category<4> {
    Category::new(
        Name::DateTime,
        [
            Setting::new_onoff(Name::GPSTime, true, true),
            Setting::new_numeric(Name::UTCOffset, true, -12, 14, -5),
            Setting::new_disabled(),
            Setting::new_disabled(),
        ],
    )
}

fn menu() -> Menu<2, 4> {
    Menu::new([time_category(), display_category()])
}

#[test]
fn numeric_setting_wraps_both_ways() {
    let mut s = Setting::new_numeric(Name::Hour, true, 0, 23, 23);
    s.inc();
    assert_eq!(s.numeric(), Some(0));
    s.dec();
    assert_eq!(s.numeric(), Some(23));
    s.dec();
    assert_eq!(s.numeric(), Some(22));
    assert_eq!(s.onoff(), None);
    assert_eq!(s.choice(), None);
}

#[test]
fn numeric_setting_rejects_out_of_range() {
    let mut s = Setting::new_numeric(Name::Minute, true, 0, 59, 30);
    assert_eq!(s.set_numeric(60), None);
    assert_eq!(s.numeric(), Some(30));
    assert_eq!(s.set_numeric(59), Some(()));
    assert_eq!(s.numeric(), Some(59));
    assert_eq!(s.set_onoff(true), None);
}

#[test]
fn set_max_lowers_value() {
    let mut s = Setting::new_numeric(Name::Day, true, 1, 31, 31);
    assert_eq!(s.set_max(28), Some(()));
    assert_eq!(s.numeric(), Some(28));
    s.inc();
    assert_eq!(s.numeric(), Some(1));
    assert_eq!(s.set_max(0), Some(()));
    assert_eq!(s.numeric(), Some(0));
    let mut b = Setting::new_onoff(Name::DimAtNight, true, true);
    assert_eq!(b.set_max(3), None);
    assert_eq!(b.onoff(), Some(true));
}

#[test]
fn onoff_setting_toggles() {
    let mut s = Setting::new_onoff(Name::AutomaticDST, true, false);
    s.inc();
    assert_eq!(s.onoff(), Some(true));
    s.dec();
    assert_eq!(s.onoff(), Some(false));
    assert_eq!(s.set_onoff(true), Some(()));
    assert_eq!(s.onoff(), Some(true));
    assert_eq!(s.numeric(), None);
}

#[test]
fn choice_setting_cycles_and_sets() {
    let mut s = Setting::new_choice(Name::MapCategory, true, 2, &MAPS);
    assert_eq!(s.choice(), Some(Name::NoMap));
    s.inc();
    assert_eq!(s.choice(), Some(Name::Scotland));
    s.dec();
    assert_eq!(s.choice(), Some(Name::NoMap));
    assert_eq!(s.set_choice(Name::Shikoku), Some(()));
    assert_eq!(s.choice(), Some(Name::Shikoku));
    assert_eq!(s.set_choice(Name::HolyIsland), None);
    assert_eq!(s.choice(), Some(Name::Shikoku));
}

#[test]
fn settings_render_as_text() {
    assert_eq!(Setting::new_onoff(Name::GPSTime, true, true).render(), "On");
    assert_eq!(Setting::new_onoff(Name::GPSTime, true, false).render(), "Off");
    assert_eq!(Setting::new_numeric(Name::UTCOffset, true, -12, 14, -5).render(), "-5");
    assert_eq!(Setting::new_numeric(Name::Year, true, 2000, 2099, 2024).render(), "2024");
    assert_eq!(Setting::new_numeric(Name::Year, true, -32768, 0, -32768).render(), "-32768");
    assert_eq!(Setting::new_numeric(Name::Second, true, 0, 59, 0).render(), "0");
    assert_eq!(Setting::new_choice(Name::Route, true, 0, &MAPS).render(), "Scotland");
}

#[test]
fn setting_words_round_trip() {
    let mut s = Setting::new_numeric(Name::UTCOffset, true, -12, 14, -5);
    assert_eq!(s.serialise(), 0xFFFB);
    s.deserialise(3);
    assert_eq!(s.numeric(), Some(3));
    s.deserialise(100);
    assert_eq!(s.numeric(), Some(100));
    let mut c = Setting::new_choice(Name::Route, true, 0, &MAPS);
    c.deserialise(2);
    assert_eq!(c.serialise(), 2);
    c.deserialise(3);
    assert_eq!(c.choice(), Some(Name::NoMap));
    let mut b = Setting::new_onoff(Name::GPSTime, true, false);
    b.deserialise(9);
    assert_eq!(b.serialise(), 1);
}

#[test]
fn setting_enable_flag() {
    let mut s = Setting::new_onoff(Name::GPSTime, true, false);
    assert!(s.enabled());
    s.set_enabled(false);
    assert!(!s.enabled());
    assert_eq!(s.name(), Name::GPSTime);
    assert!(matches!(s.value(), Value::OnOff(false)));
}

#[test]
fn category_lookup_by_name() {
    let mut c = display_category();
    assert_eq!(c.name(), Name::Display);
    assert_eq!(c.setting_numeric(Name::Brightness), Some(7));
    assert_eq!(c.setting_onoff(Name::DimAtNight), Some(false));
    assert_eq!(c.setting_choice(Name::Route), Some(Name::Shikoku));
    assert_eq!(c.setting_onoff(Name::Brightness), None);
    assert_eq!(c.setting_numeric(Name::Year), None);
    assert_eq!(c.setting_set_numeric(Name::Brightness, 3), Some(()));
    assert_eq!(c.setting_numeric(Name::Brightness), Some(3));
    assert_eq!(c.setting_set_numeric(Name::Brightness, 11), None);
    assert_eq!(c.setting_set_onoff(Name::DimAtNight, true), Some(()));
    assert_eq!(c.setting_onoff(Name::DimAtNight), Some(true));
    assert_eq!(c.setting_set_choice(Name::Route, Name::Scotland), Some(()));
    assert_eq!(c.setting_choice(Name::Route), Some(Name::Scotland));
    assert_eq!(c.setting_set_max(Name::Brightness, 2), Some(()));
    assert_eq!(c.setting_numeric(Name::Brightness), Some(2));
    assert_eq!(c.setting_set_enabled(Name::Year, false), None);
    assert_eq!(c.setting_set_enabled(Name::DimAtNight, false), Some(()));
    assert!(!c.setting(Name::DimAtNight).unwrap().enabled());
    if let Some(s) = c.setting_mut(Name::Brightness) {
        s.inc();
    }
    assert_eq!(c.setting_numeric(Name::Brightness), Some(0));
}

#[test]
fn category_navigation_skips_disabled() {
    let mut c = display_category();
    assert_eq!(c.setting_name(), Name::Brightness);
    assert!(!c.inc());
    assert_eq!(c.setting_name(), Name::DimAtNight);
    assert!(!c.inc());
    assert_eq!(c.setting_name(), Name::Route);
    assert!(!c.inc());
    assert_eq!(c.setting_name(), Name::Brightness);
    assert!(!c.dec());
    assert_eq!(c.setting_name(), Name::Route);
    assert!(!c.dec());
    assert_eq!(c.setting_name(), Name::DimAtNight);
    c.enter();
    assert!(c.setting_selected());
    assert!(c.inc());
    assert_eq!(c.setting_onoff(Name::DimAtNight), Some(true));
    assert_eq!(c.render_value(), "On");
    c.back();
    assert!(!c.setting_selected());
}

#[test]
fn category_with_nothing_enabled_keeps_place() {
    let mut c = Category::new(Name::Display, [Setting::new_disabled(), Setting::new_disabled()]);
    assert!(!c.inc());
    assert_eq!(c.setting_name(), Name::Unused);
    assert!(!c.dec());
    assert_eq!(c.setting_name(), Name::Unused);
}

#[test]
fn category_words_skip_unused_slots() {
    let c = display_category();
    let mut data = [0xEEEEu16; 5];
    assert_eq!(c.serialise(&mut data), 3);
    assert_eq!(data, [7, 0, 1, 0xEEEE, 0xEEEE]);
    let mut short = [0u16; 2];
    assert_eq!(c.serialise(&mut short), 2);
    assert_eq!(short, [7, 0]);
    let mut d = display_category();
    assert_eq!(d.deserialise(&[4, 1]), 2);
    assert_eq!(d.setting_numeric(Name::Brightness), Some(4));
    assert_eq!(d.setting_onoff(Name::DimAtNight), Some(true));
    assert_eq!(d.setting_choice(Name::Route), Some(Name::Shikoku));
}

#[test]
fn menu_navigation() {
    let mut m = menu();
    assert!(!m.active());
    m.enter();
    assert!(m.active());
    assert!(!m.category_selected());
    assert_eq!(m.category_name(), Name::DateTime);
    assert!(!m.inc());
    assert_eq!(m.category_name(), Name::Display);
    assert!(!m.inc());
    assert_eq!(m.category_name(), Name::DateTime);
    assert!(!m.dec());
    assert_eq!(m.category_name(), Name::Display);
    m.enter();
    assert!(m.category_selected());
    assert_eq!(m.setting_name(), Name::Brightness);
    m.enter();
    assert!(m.setting_selected());
    assert!(m.inc());
    assert_eq!(m.render_value(), "8");
    m.back();
    assert!(!m.setting_selected());
    assert!(m.category_selected());
    m.back();
    assert!(!m.category_selected());
    assert!(m.active());
    m.back();
    assert!(!m.active());
}

#[test]
fn menu_lookup_and_edit_by_name() {
    let mut m = menu();
    assert_eq!(m.category(Name::Display).unwrap().setting_numeric(Name::Brightness), Some(7));
    assert!(m.category(Name::MapCategory).is_none());
    m.category_mut(Name::DateTime).unwrap().setting_set_numeric(Name::UTCOffset, 9);
    assert_eq!(m.category(Name::DateTime).unwrap().setting_numeric(Name::UTCOffset), Some(9));
}

#[test]
fn menu_words_round_trip() {
    let mut m = menu();
    let mut data = [0u16; 8];
    m.serialise(&mut data);
    assert_eq!(data, [1, 0xFFFB, 7, 0, 1, 0, 0, 0]);
    m.category_mut(Name::Display).unwrap().setting_set_numeric(Name::Brightness, 2);
    m.category_mut(Name::DateTime).unwrap().setting_set_onoff(Name::GPSTime, false);
    m.deserialise(&data);
    assert_eq!(m.category(Name::Display).unwrap().setting_numeric(Name::Brightness), Some(7));
    assert_eq!(m.category(Name::DateTime).unwrap().setting_onoff(Name::GPSTime), Some(true));
    let mut short = [0xAAAAu16; 3];
    m.serialise(&mut short);
    assert_eq!(short, [1, 0xFFFB, 7]);
}

#[test]
fn names_display_as_text() {
    assert_eq!(Name::Unused.into_str(), "");
    assert_eq!(Name::DateTime.into_str(), "Date/Time");
    assert_eq!(Name::MapCategory.into_str(), "Map");
    assert_eq!(Name::NoMap.into_str(), "None");
    assert_eq!(Name::DimBrightness.into_str(), "Dim brightness");
}

#[test]
fn set_max_below_minimum_is_accepted() {
    let mut s = Setting::new_numeric(Name::Brightness, true, 0, 10, 5);
    assert_eq!(s.set_max(-1), Some(()));
    assert_eq!(s.numeric(), Some(-1));
    let mut c = display_category();
    assert_eq!(c.setting_set_max(Name::Brightness, -3), Some(()));
    assert_eq!(c.setting_numeric(Name::Brightness), Some(-3));
}

#[test]
fn words_restore_into_other_bounds() {
    let src = display_category();
    let mut data = [0u16; 3];
    assert_eq!(src.serialise(&mut data), 3);
    let mut dst = Category::new(
        Name::Display,
        [
            Setting::new_numeric(Name::Brightness, true, 0, 5, 1),
            Setting::new_onoff(Name::DimAtNight, true, true),
            Setting::new_disabled(),
            Setting::new_choice(Name::Route, true, 0, &MAPS),
        ],
    );
    assert_eq!(dst.deserialise(&data), 3);
    assert_eq!(dst.setting_numeric(Name::Brightness), Some(7));
    assert_eq!(dst.setting_onoff(Name::DimAtNight), Some(false));
    assert_eq!(dst.setting_choice(Name::Route), Some(Name::Shikoku));
}
