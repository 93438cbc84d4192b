use nuedc::vision::filter::{get_vision, set_vision, VisionState, OFFSET_X, OFFSET_Y};
use nuedc::vision::parse::vision_parse;

#[test]
fn parses_a_plain_point() {
    assert_eq!(vision_parse(b"[12,34]"), Some((12, 34)));
    assert_eq!(vision_parse(b"[12,34]\n"), Some((12, 34)));
}

#[test]
fn trims_whitespace_around_line_and_numbers() {
    assert_eq!(vision_parse(b"  [ -5 , +7 ]\r\n"), Some((-5, 7)));
    assert_eq!(vision_parse(b"\t[\t3\t,\t4\t]\t"), Some((3, 4)));
}

#[test]
fn numbers_may_be_wrapped_in_unicode_whitespace() {
    let line = "[\u{a0}1\u{3000},\u{2009}2\u{85}]";
    assert_eq!(vision_parse(line.as_bytes()), Some((1, 2)));
    let line = "[\u{b}1,2\u{b}]";
    assert_eq!(vision_parse(line.as_bytes()), Some((1, 2)));
}

#[test]
fn vertical_tab_is_not_trimmed_around_the_line() {
    assert_eq!(vision_parse(b"\x0b[1,2]"), None);
}

#[test]
fn skips_lines_without_a_point() {
    assert_eq!(vision_parse(b"hello\n\n[1,2]\n[3,4]"), Some((1, 2)));
    assert_eq!(vision_parse(b"[1,x]\n[5,6]\n"), Some((5, 6)));
}

#[test]
fn rejects_malformed_lines() {
    assert_eq!(vision_parse(b""), None);
    assert_eq!(vision_parse(b"\n"), None);
    assert_eq!(vision_parse(b"[1,2"), None);
    assert_eq!(vision_parse(b"1,2]"), None);
    assert_eq!(vision_parse(b"[12]"), None);
    assert_eq!(vision_parse(b"[,]"), None);
    assert_eq!(vision_parse(b"[1,2,3]"), None);
    assert_eq!(vision_parse(b"[1 2,3]"), None);
    assert_eq!(vision_parse(b"[+,1]"), None);
    assert_eq!(vision_parse(b"[-,1]"), None);
    assert_eq!(vision_parse(b"[1,2]x"), None);
    assert_eq!(vision_parse(b"[1\xff,2]"), None);
}

#[test]
fn numbers_must_fit_i16() {
    assert_eq!(vision_parse(b"[-32768,32767]"), Some((-32768, 32767)));
    assert_eq!(vision_parse(b"[32768,1]"), None);
    assert_eq!(vision_parse(b"[1,-32769]"), None);
    assert_eq!(vision_parse(b"[1,99999999999]"), None);
    assert_eq!(vision_parse(b"[0000000000000000000012,-0]"), Some((12, 0)));
}

#[test]
fn vision_starts_at_the_offset() {
    let s = VisionState::new();
    assert_eq!(get_vision(&s), (OFFSET_X, OFFSET_Y));
    assert_eq!((OFFSET_X, OFFSET_Y), (400, 250));
}

fn ema(op: i16, op_last: i16) -> i16 {
    let alpha = 0.28f32;
    (op as f32 * alpha + op_last as f32 * (1.0 - alpha)) as i16
}

#[test]
fn set_vision_smooths_towards_the_reading() {
    let mut s = VisionState::new();
    set_vision(&mut s, (100, 100), ema);
    assert_eq!(get_vision(&s), (316, 208));
}

#[test]
fn zero_reading_repeats_the_last_point() {
    let mut s = VisionState::new();
    set_vision(&mut s, (0, 0), |new: i16, last: i16| new / 2 + last);
    assert_eq!(get_vision(&s), (600, 375));
}

#[test]
fn set_vision_feeds_new_then_last() {
    let mut s = VisionState::new();
    set_vision(&mut s, (0, 7), |new: i16, _last: i16| new);
    assert_eq!(get_vision(&s), (0, 7));
    set_vision(&mut s, (3, 0), |_new: i16, last: i16| last);
    assert_eq!(get_vision(&s), (0, 7));
}

#[test]
fn written_points_read_back() {
    for &(x, y) in &[(0i16, 0i16), (400, 250), (-1, 7), (i16::MIN, i16::MAX), (-32767, 10), (9, -9)] {
        let line = format!("[{},{}]", x, y);
        assert_eq!(vision_parse(line.as_bytes()), Some((x, y)));
        let line = format!("[{},{}]\n", x, y);
        assert_eq!(vision_parse(line.as_bytes()), Some((x, y)));
    }
}

#[test]
fn first_line_decides() {
    assert_eq!(vision_parse(b"[1,2]\n[3,4]\n"), Some((1, 2)));
    assert_eq!(vision_parse(b"[1;2]\n[3,4]\n"), Some((3, 4)));
}
