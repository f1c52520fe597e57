use berg_compiler::char_data::{ByteRange, CharData, LineColumn, LineColumnRange};

/// Character data of "ab\ncd\n\nef": lines start at 0, 3, 6 and 7.
fn four_lines() -> CharData {
    let mut data = CharData::new();
    data.byte_length = 9;
    data.append_line(3);
    data.append_line(6);
    data.append_line(7);
    data
}

#[test]
fn empty_source_has_one_line() {
    let data = CharData::default();
    assert_eq!(data.byte_length, 0);
    assert_eq!(data.line_starts, vec![0]);
    assert_eq!(data.location(0), LineColumn::new(1, 1));
}

#[test]
fn append_line_records_the_start() {
    let mut data = CharData::new();
    data.append_line(5);
    assert_eq!(data.line_starts, vec![0, 5]);
    assert_eq!(data.byte_length, 0);
}

#[test]
fn locations_are_one_based() {
    let data = four_lines();
    assert_eq!(data.location(0), LineColumn { line: 1, column: 1 });
    assert_eq!(data.location(1), LineColumn { line: 1, column: 2 });
    assert_eq!(data.location(2), LineColumn { line: 1, column: 3 });
    assert_eq!(data.location(3), LineColumn { line: 2, column: 1 });
    assert_eq!(data.location(5), LineColumn { line: 2, column: 3 });
    assert_eq!(data.location(6), LineColumn { line: 3, column: 1 });
    assert_eq!(data.location(7), LineColumn { line: 4, column: 1 });
    assert_eq!(data.location(8), LineColumn { line: 4, column: 2 });
    assert_eq!(data.location(100), LineColumn { line: 4, column: 94 });
}

#[test]
fn ranges_are_inclusive() {
    let data = four_lines();
    let one = data.range(&ByteRange { start: 1, end: 2 });
    assert_eq!(one, LineColumnRange::new(LineColumn::new(1, 2), LineColumn::new(1, 2)));
    let within = data.range(&ByteRange { start: 0, end: 2 });
    assert_eq!(within, LineColumnRange::new(LineColumn::new(1, 1), LineColumn::new(1, 2)));
    let across = data.range(&ByteRange { start: 1, end: 5 });
    assert_eq!(across, LineColumnRange::new(LineColumn::new(1, 2), LineColumn::new(2, 2)));
    let empty = data.range(&ByteRange { start: 4, end: 4 });
    assert_eq!(empty, LineColumnRange::zero_width(LineColumn::new(2, 2)));
    assert_eq!(empty.end, None);
}

#[test]
fn positions_print_as_line_and_column() {
    assert_eq!(LineColumn::new(3, 14).to_string(), "3:14");
    assert_eq!(LineColumn::new(1, 1).to_string(), "1:1");
}

#[test]
fn ranges_print_as_the_compiler_prints_them() {
    let a = LineColumn::new(1, 2);
    let b = LineColumn::new(1, 5);
    let c = LineColumn::new(2, 3);
    assert_eq!(LineColumnRange::new(a, a).to_string(), "1:2");
    assert_eq!(LineColumnRange::new(a, b).to_string(), "1:2-5");
    assert_eq!(LineColumnRange::new(a, c).to_string(), "1:2-2:3");
    assert_eq!(LineColumnRange::zero_width(c).to_string(), "2:3<0>");
    assert_eq!(LineColumnRange::new(LineColumn::new(10, 200), LineColumn::new(12, 7)).to_string(), "10:200-12:7");
}

#[test]
fn positions_order_by_line_then_column() {
    let a = LineColumn::new(1, 9);
    let b = LineColumn::new(2, 1);
    let c = LineColumn::new(2, 4);
    assert!(a < b);
    assert!(b < c);
    assert!(a < c);
    assert!(!(c < a));
    assert!(b <= b);
    assert_eq!(b.partial_cmp(&b), Some(std::cmp::Ordering::Equal));
    assert_eq!(c.partial_cmp(&b), Some(std::cmp::Ordering::Greater));
}
