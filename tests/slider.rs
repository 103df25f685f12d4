use dbar::{
    clamp_fill, colour_from_checked, decimal_text, parse_colour, substitute, whole_text,
    window_title, ColourError, Controller, Frame, Input, Mapping, MappingError, Reaction, Rgb,
    Value, ValueCache,
};

fn mapping(start: i32, end: i32, width: u32, floating: bool) -> Mapping {
    Mapping::new(start, end, 1, width, floating).unwrap()
}

fn text_of(v: Value) -> String {
    whole_text(v).unwrap()
}

#[test]
fn integer_mode_midpoint() {
    let m = mapping(0, 100, 101, false);
    let v = m.interpolate(50);
    assert_eq!(v, Value { num: 50, den: 1 });
    assert_eq!(text_of(v), "50");
}

#[test]
fn floating_mode_ends() {
    let m = mapping(-10, 10, 21, true);
    let first = m.interpolate(0);
    let last = m.interpolate(20);
    assert_eq!(first.num * 1, -10 * first.den);
    assert_eq!(last.num * 1, 10 * last.den);
    assert_eq!(text_of(first), "-10");
    assert_eq!(text_of(last), "10");
}

#[test]
fn floating_mode_fraction() {
    let m = mapping(0, 1, 5, true);
    let v = m.interpolate(1);
    assert_eq!(v.num * 4, v.den);
    assert_eq!(whole_text(v), None);
}

#[test]
fn command_gets_value() {
    assert_eq!(substitute("echo %v", "42"), "echo 42");
    assert_eq!(substitute("echo %v", &text_of(Value { num: 42, den: 1 })), "echo 42");
}

#[test]
fn command_with_several_placeholders() {
    assert_eq!(substitute("%v-%v %%vv %", "7"), "7-7 %7v %");
    assert_eq!(substitute("", "7"), "");
    assert_eq!(substitute("no placeholder", "7"), "no placeholder");
}

#[test]
fn escape_before_click_cancels() {
    let mut c = Controller::new(mapping(0, 100, 101, false), 50, true, false, false);
    assert_eq!(c.handle(Input::Escape), Reaction::Cancel);
    assert_eq!(c.handle(Input::Quit), Reaction::Cancel);
}

#[test]
fn every_pixel_in_range() {
    for (start, end, width) in [(0, 100, 7), (-10, 10, 21), (-5, -2, 4), (3, 1000, 600)] {
        let exact = mapping(start, end, width, true);
        let rounded = mapping(start, end, width, false);
        for x in 0..width as i32 {
            let v = exact.interpolate(x);
            assert!(v.den > 0);
            assert!(start as i128 * v.den <= v.num && v.num <= end as i128 * v.den);
            let r = rounded.interpolate(x);
            assert_eq!(r.den, 1);
            assert!(start as i128 <= r.num && r.num <= end as i128);
        }
    }
}

#[test]
fn first_and_last_pixel_are_the_ends() {
    let m = mapping(-3, 17, 600, false);
    assert_eq!(m.interpolate(0), Value { num: -3, den: 1 });
    assert_eq!(m.interpolate(599), Value { num: 17, den: 1 });
    let scaled = Mapping::new(5, 25, 10, 50, false).unwrap();
    assert_eq!(scaled.interpolate(0), Value { num: 1, den: 1 });
    assert_eq!(scaled.interpolate(49), Value { num: 3, den: 1 });
}

#[test]
fn rounding_goes_to_nearest() {
    let m = mapping(0, 10, 4, false);
    assert_eq!(m.interpolate(1).num, 3);
    assert_eq!(m.interpolate(2).num, 7);
}

#[test]
fn rounding_halves_away_from_zero() {
    assert_eq!(mapping(0, 1, 3, false).interpolate(1).num, 1);
    assert_eq!(mapping(-1, 0, 3, false).interpolate(1).num, -1);
    let halves = Mapping::new(1, 5, 2, 3, false).unwrap();
    assert_eq!(halves.interpolate(0).num, 1);
    assert_eq!(halves.interpolate(1).num, 2);
    assert_eq!(halves.interpolate(2).num, 3);
}

#[test]
fn cache_computes_once() {
    let mut cache = ValueCache::new(mapping(0, 100, 101, false));
    assert_eq!(cache.computations(), 0);
    let a = cache.value(5);
    assert_eq!(cache.computations(), 1);
    let b = cache.value(5);
    assert_eq!(a, b);
    assert_eq!(cache.computations(), 1);
    assert_eq!(cache.value(6), Value { num: 6, den: 1 });
    assert_eq!(cache.computations(), 2);
}

#[test]
fn fill_is_clamped() {
    assert_eq!(clamp_fill(5, -100, 10), 0);
    assert_eq!(clamp_fill(5, 100, 10), 10);
    assert_eq!(clamp_fill(5, 3, 10), 8);
    assert_eq!(clamp_fill(i32::MAX, i32::MAX, 10), 10);
    assert_eq!(clamp_fill(i32::MIN, i32::MIN, 10), 0);
    assert_eq!(clamp_fill(10, 0, 10), 10);
}

#[test]
fn mapping_errors() {
    assert_eq!(Mapping::new(5, 5, 1, 10, false).unwrap_err(), MappingError::EmptyRange);
    assert_eq!(Mapping::new(6, 5, 1, 10, false).unwrap_err(), MappingError::EmptyRange);
    assert_eq!(Mapping::new(0, 5, 0, 10, false).unwrap_err(), MappingError::ZeroUnit);
    assert_eq!(Mapping::new(0, 5, 1, 1, false).unwrap_err(), MappingError::BadWidth);
    assert_eq!(Mapping::new(0, 5, 1, 0, false).unwrap_err(), MappingError::BadWidth);
    assert_eq!(Mapping::new(0, 5, 1, u32::MAX, false).unwrap_err(), MappingError::BadWidth);
    assert!(Mapping::new(0, 5, 1, 2, false).is_ok());
}

#[test]
fn first_frame_uses_initial_fill() {
    let mut c = Controller::new(mapping(0, 100, 101, false), 40, true, false, true);
    assert_eq!(c.fill_position(), 0);
    let f = c.frame(0, 0);
    assert_eq!(f, Frame { redraw: true, fill: 40, changed: Some(Value { num: 40, den: 1 }) });
    let still = c.frame(0, 0);
    assert_eq!(still, Frame { redraw: false, fill: 40, changed: None });
}

#[test]
fn initial_fill_is_clamped() {
    let mut c = Controller::new(mapping(0, 100, 101, false), 500, true, false, false);
    assert_eq!(c.frame(0, 0).fill, 101);
    let mut d = Controller::new(mapping(0, 100, 101, false), -3, true, false, false);
    assert_eq!(d.frame(0, 0).fill, 0);
}

#[test]
fn relative_motion_moves_fill() {
    let mut c = Controller::new(mapping(0, 100, 101, false), 50, true, false, true);
    c.frame(0, 0);
    let f = c.frame(-20, 0);
    assert_eq!(f.fill, 30);
    assert_eq!(f.changed, Some(Value { num: 30, den: 1 }));
    assert_eq!(c.frame(-1000, 0).fill, 0);
    assert_eq!(c.frame(1000, 0).fill, 101);
}

#[test]
fn unchanged_value_is_not_reported() {
    let mut c = Controller::new(mapping(0, 1, 101, false), 10, true, false, true);
    let f = c.frame(0, 0);
    assert_eq!(f.changed, Some(Value { num: 0, den: 1 }));
    let g = c.frame(1, 0);
    assert!(g.redraw);
    assert_eq!(g.fill, 11);
    assert_eq!(g.changed, None);
    assert_eq!(c.frame(60, 0).changed, Some(Value { num: 1, den: 1 }));
}

#[test]
fn untracked_changes_are_not_reported() {
    let mut c = Controller::new(mapping(0, 100, 101, false), 10, true, false, false);
    assert_eq!(c.frame(0, 0).changed, None);
    assert_eq!(c.frame(5, 0).changed, None);
}

#[test]
fn absolute_pointer_sets_fill() {
    let mut c = Controller::new(mapping(0, 100, 101, false), 10, false, false, false);
    c.frame(0, 0);
    let f = c.frame(0, 70);
    assert!(f.redraw);
    assert_eq!(f.fill, 70);
    assert!(!c.frame(0, 70).redraw);
    assert_eq!(c.frame(0, 5000).fill, 101);
    assert_eq!(c.frame(0, -5).fill, 0);
}

#[test]
fn click_prints_or_runs_command() {
    let mut c = Controller::new(mapping(0, 100, 101, false), 25, true, false, false);
    c.frame(0, 0);
    assert_eq!(c.handle(Input::LeftClick), Reaction::Print(Value { num: 25, den: 1 }));
    let mut d = Controller::new(mapping(0, 100, 101, false), 25, true, true, false);
    d.frame(0, 0);
    assert_eq!(d.handle(Input::LeftClick), Reaction::RunClickCommand(Value { num: 25, den: 1 }));
    assert_eq!(d.handle(Input::Confirm), Reaction::Print(Value { num: 25, den: 1 }));
    assert_eq!(d.handle(Input::Other), Reaction::Continue);
}

#[test]
fn click_before_first_frame_reads_zero_fill() {
    let mut c = Controller::new(mapping(0, 100, 101, false), 25, true, false, false);
    assert_eq!(c.handle(Input::Confirm), Reaction::Print(Value { num: 0, den: 1 }));
}

#[test]
fn decimal_text_values() {
    assert_eq!(decimal_text(0), "0");
    assert_eq!(decimal_text(-7), "-7");
    assert_eq!(decimal_text(1234567890), "1234567890");
    assert_eq!(decimal_text(i128::MIN), i128::MIN.to_string());
    assert_eq!(decimal_text(i128::MAX), i128::MAX.to_string());
}

#[test]
fn whole_text_values() {
    assert_eq!(whole_text(Value { num: -200, den: 20 }), Some("-10".to_string()));
    assert_eq!(whole_text(Value { num: 7, den: 2 }), None);
    assert_eq!(whole_text(Value { num: -7, den: 2 }), None);
    assert_eq!(whole_text(Value { num: 0, den: 3 }), Some("0".to_string()));
    assert_eq!(whole_text(Value { num: 4, den: 0 }), None);
    assert_eq!(whole_text(Value { num: i128::MIN, den: 1 }), Some(i128::MIN.to_string()));
}

#[test]
fn title_shows_value() {
    assert_eq!(window_title("dbar", "42"), "dbar - 42");
}

#[test]
fn colours_parse() {
    assert_eq!(parse_colour("#222244"), Ok(Rgb { r: 0x22, g: 0x22, b: 0x44 }));
    assert_eq!(parse_colour("#9c99c3"), Ok(Rgb { r: 0x9c, g: 0x99, b: 0xc3 }));
    assert_eq!(parse_colour("#FFa0B1trailing"), Ok(Rgb { r: 0xff, g: 0xa0, b: 0xb1 }));
}

#[test]
fn colours_refused() {
    assert_eq!(parse_colour("222244"), Err(ColourError::NoMatch));
    assert_eq!(parse_colour("#12"), Err(ColourError::NoMatch));
    assert_eq!(parse_colour("#12345g"), Err(ColourError::NoMatch));
    assert_eq!(parse_colour(" #123456"), Err(ColourError::NoMatch));
    assert_eq!(parse_colour("#12,456"), Err(ColourError::BadDigit));
}

#[test]
fn colour_from_match_result() {
    assert_eq!(colour_from_checked("#010203", true), Ok(Rgb { r: 1, g: 2, b: 3 }));
    assert_eq!(colour_from_checked("#010203", false), Err(ColourError::NoMatch));
    assert_eq!(colour_from_checked("#0102", true), Err(ColourError::BadDigit));
}
