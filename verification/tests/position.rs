use tremor_language_server::position::{Location, Position, in_protocol_range, to_engine, to_protocol};

#[test]
fn engine_to_protocol_drops_one() {
    let l = Location { line: 2, column: 5 };
    let p = to_protocol(&l);
    assert_eq!(p.line, 1);
    assert_eq!(p.character, 4);
}

#[test]
fn protocol_to_engine_adds_one() {
    let p = Position { line: 0, character: 0 };
    let l = to_engine(&p);
    assert_eq!(l.line, 1);
    assert_eq!(l.column, 1);
}

#[test]
fn round_trip_from_engine() {
    let l = Location { line: 1, column: 1 };
    let back = to_engine(&to_protocol(&l));
    assert_eq!(back, l);
    let l2 = Location { line: 314, column: 42 };
    let back2 = to_engine(&to_protocol(&l2));
    assert_eq!(back2, l2);
}

#[test]
fn round_trip_from_protocol() {
    let p = Position { line: 7, character: 0 };
    let back = to_protocol(&to_engine(&p));
    assert_eq!(back, p);
    let p2 = Position { line: 0, character: 99 };
    let back2 = to_protocol(&to_engine(&p2));
    assert_eq!(back2, p2);
}

#[test]
fn protocol_range_check() {
    assert!(in_protocol_range(&Location { line: 1, column: 1 }));
    assert!(!in_protocol_range(&Location { line: 0, column: 1 }));
    assert!(!in_protocol_range(&Location { line: 3, column: 0 }));
}
