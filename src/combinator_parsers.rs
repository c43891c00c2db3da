//! Sequence and choice over any number of parsers, and the derived
//! two- and three-part sequences.
use crate::parser::ParserId;
use vstd::prelude::*;

verus! {

/// Runs its parsers in order and yields all their outputs.  The first
/// failure is the failure of the whole, with the cursor where it left it.
pub struct AndParser {
    pub parsers: Vec<ParserId>,
}

impl AndParser {
    pub fn new(parsers: Vec<ParserId>) -> (r: Self)
        ensures
            r.parsers == parsers,
    {
        AndParser { parsers }
    }

    pub fn new2(p1: ParserId, p2: ParserId) -> (r: Self)
        ensures
            r.parsers@ == seq![p1, p2],
    {
        AndParser { parsers: vec![p1, p2] }
    }

    pub fn new3(p1: ParserId, p2: ParserId, p3: ParserId) -> (r: Self)
        ensures
            r.parsers@ == seq![p1, p2, p3],
    {
        AndParser { parsers: vec![p1, p2, p3] }
    }
}

/// Tries its parsers in order from the same place; yields the first success
/// tagged with the index of its branch.  When every branch fails, the cursor
/// goes back to where it started and the failures are merged left to right.
pub struct OrParser {
    pub parsers: Vec<ParserId>,
}

impl OrParser {
    pub fn new(parsers: Vec<ParserId>) -> (r: Self)
        ensures
            r.parsers == parsers,
    {
        OrParser { parsers }
    }

    pub fn new2(p1: ParserId, p2: ParserId) -> (r: Self)
        ensures
            r.parsers@ == seq![p1, p2],
    {
        OrParser { parsers: vec![p1, p2] }
    }
}

/// Tries its parsers in order from the same place; yields the first success
/// as it is.
pub struct SameOrParser {
    pub parsers: Vec<ParserId>,
}

impl SameOrParser {
    pub fn new(parsers: Vec<ParserId>) -> (r: Self)
        ensures
            r.parsers == parsers,
    {
        SameOrParser { parsers }
    }

    pub fn new2(p1: ParserId, p2: ParserId) -> (r: Self)
        ensures
            r.parsers@ == seq![p1, p2],
    {
        SameOrParser { parsers: vec![p1, p2] }
    }
}

/// Runs two parsers in order and keeps the first one's output.
pub struct SkipParser {
    pub parser1: ParserId,
    pub parser2: ParserId,
}

impl SkipParser {
    pub fn new(parser1: ParserId, parser2: ParserId) -> (r: Self)
        ensures
            r.parser1 == parser1,
            r.parser2 == parser2,
    {
        SkipParser { parser1, parser2 }
    }
}

/// Runs two parsers in order and keeps the second one's output.
pub struct ThenParser {
    pub parser1: ParserId,
    pub parser2: ParserId,
}

impl ThenParser {
    pub fn new(parser1: ParserId, parser2: ParserId) -> (r: Self)
        ensures
            r.parser1 == parser1,
            r.parser2 == parser2,
    {
        ThenParser { parser1, parser2 }
    }
}

/// One or more matches of `parser`, with `separator` between each two.  A
/// failure of the first match is the failure of the whole.  A later round
/// (`separator`, then `parser`) that fails or consumes nothing ends the list
/// and is undone, so a dangling separator is left in the input.
pub struct SeparatedByParser {
    pub parser: ParserId,
    pub separator: ParserId,
}

impl SeparatedByParser {
    pub fn new(parser: ParserId, separator: ParserId) -> (r: Self)
        ensures
            r.parser == parser,
            r.separator == separator,
    {
        SeparatedByParser { parser, separator }
    }
}

/// `left`, then `parser`, then `right`; keeps the output of `parser`.
pub struct SurroundParser {
    pub parser: ParserId,
    pub left: ParserId,
    pub right: ParserId,
}

impl SurroundParser {
    pub fn new(parser: ParserId, left: ParserId, right: ParserId) -> (r: Self)
        ensures
            r.parser == parser,
            r.left == left,
            r.right == right,
    {
        SurroundParser { parser, left, right }
    }
}

} // verus!
