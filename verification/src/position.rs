use vstd::prelude::*;

verus! {

/// A source location as the language engine reports it: one-based line and column.
#[derive(Clone, Copy, PartialEq, Eq, Structural, Debug)]
pub struct Location {
    pub line: usize,
    pub column: usize,
}

/// A cursor position as the editor protocol carries it: zero-based line and column.
#[derive(Clone, Copy, PartialEq, Eq, Structural, Debug)]
pub struct Position {
    pub line: u32,
    pub character: u32,
}

/// Engine locations that the protocol can represent: one-based, with the
/// zero-based equivalent small enough to fit in 32 bits.
pub open spec fn location_in_protocol_range(l: Location) -> bool {
    &&& 1 <= l.line <= u32::MAX + 1
    &&& 1 <= l.column <= u32::MAX + 1
}

/// Protocol positions whose one-based equivalent fits in the engine's type.
pub open spec fn position_in_engine_range(p: Position) -> bool {
    &&& p.line + 1 <= usize::MAX
    &&& p.character + 1 <= usize::MAX
}

pub open spec fn spec_to_protocol(l: Location) -> Position {
    Position { line: (l.line - 1) as u32, character: (l.column - 1) as u32 }
}

pub open spec fn spec_to_engine(p: Position) -> Location {
    Location { line: (p.line + 1) as usize, column: (p.character + 1) as usize }
}

/// Convert an engine location to a protocol position: both coordinates drop by one.
pub fn to_protocol(l: &Location) -> (r: Position)
    requires
        location_in_protocol_range(*l),
    ensures
        r == spec_to_protocol(*l),
        r.line == l.line - 1,
        r.character == l.column - 1,
{
    Position { line: (l.line - 1) as u32, character: (l.column - 1) as u32 }
}

/// Convert a protocol position to an engine location: both coordinates grow by one.
pub fn to_engine(p: &Position) -> (r: Location)
    requires
        position_in_engine_range(*p),
    ensures
        r == spec_to_engine(*p),
        r.line == p.line + 1,
        r.column == p.character + 1,
{
    Location { line: p.line as usize + 1, column: p.character as usize + 1 }
}

/// Decide whether a protocol position has an engine representation.
pub fn in_engine_range(p: &Position) -> (r: bool)
    ensures
        r == position_in_engine_range(*p),
{
    (p.line as u64) < usize::MAX as u64 && (p.character as u64) < usize::MAX as u64
}

/// Decide whether an engine location has a protocol representation.
pub fn in_protocol_range(l: &Location) -> (r: bool)
    ensures
        r == location_in_protocol_range(*l),
{
    l.line >= 1 && l.column >= 1 && l.line - 1 <= u32::MAX as usize
        && l.column - 1 <= u32::MAX as usize
}

/// Converting an engine location to the protocol and back returns the
/// original location, for any location the protocol can represent.
pub proof fn lemma_engine_round_trip(l: Location)
    requires
        location_in_protocol_range(l),
    ensures
        spec_to_engine(spec_to_protocol(l)) == l,
{
}

/// Converting a protocol position to the engine and back returns the
/// original position, for any position the engine can represent.
pub proof fn lemma_protocol_round_trip(p: Position)
    requires
        position_in_engine_range(p),
    ensures
        spec_to_protocol(spec_to_engine(p)) == p,
{
}

} // verus!
