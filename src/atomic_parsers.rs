//! Leaf parsers: a literal element, a literal run, the end of input and a
//! fixed value.
use crate::parsable::Parsable;
use crate::value::Value;
use vstd::prelude::*;

verus! {

/// Matches a fixed run of elements and yields it.
pub struct LiteralListParser<P: Parsable> {
    pub list: P::List,
    pub slice: Vec<P::T>,
    pub label: String,
}

impl<P: Parsable> LiteralListParser<P> {
    pub fn new(list: P::List) -> (r: Self)
        ensures
            r.slice@ == P::list_view(list),
            P::list_view(r.list) == P::list_view(list),
            P::is_list_label(P::list_view(list), r.label@),
    {
        let label = P::list_to_string(&list);
        let slice = P::list_ref_to_owned_slice(&list);
        LiteralListParser { list, slice, label }
    }
}

/// Matches a fixed run of elements and yields nothing.
pub struct LiteralListParserNoOutput<P: Parsable> {
    pub slice: Vec<P::T>,
    pub label: String,
}

impl<P: Parsable> LiteralListParserNoOutput<P> {
    pub fn new(list: P::List) -> (r: Self)
        ensures
            r.slice@ == P::list_view(list),
            P::is_list_label(P::list_view(list), r.label@),
    {
        let label = P::list_to_string(&list);
        let slice = P::list_to_owned_slice(list);
        LiteralListParserNoOutput { slice, label }
    }
}

/// Matches a fixed run of elements and yields a fixed value.
pub struct LiteralListMapParser<P: Parsable> {
    pub out: Value<P>,
    pub slice: Vec<P::T>,
    pub label: String,
}

impl<P: Parsable> LiteralListMapParser<P> {
    pub fn new(list: P::List, out: Value<P>) -> (r: Self)
        ensures
            r.slice@ == P::list_view(list),
            r.out == out,
            P::is_list_label(P::list_view(list), r.label@),
    {
        let label = P::list_to_string(&list);
        let slice = P::list_to_owned_slice(list);
        LiteralListMapParser { out, slice, label }
    }
}

/// Matches one element equal to a fixed one and yields it.
pub struct LiteralParser<P: Parsable> {
    pub literal: P::T,
    pub label: String,
}

impl<P: Parsable> LiteralParser<P> {
    pub fn new(t: P::T) -> (r: Self)
        ensures
            r.literal == t,
            P::is_t_label(t, r.label@),
    {
        let label = P::t_to_string(&t);
        LiteralParser { literal: t, label }
    }
}

/// Matches one element equal to a fixed one and yields nothing.
pub struct LiteralParserNoOutput<P: Parsable> {
    pub literal: P::T,
    pub label: String,
}

impl<P: Parsable> LiteralParserNoOutput<P> {
    pub fn new(t: P::T) -> (r: Self)
        ensures
            r.literal == t,
            P::is_t_label(t, r.label@),
    {
        let label = P::t_to_string(&t);
        LiteralParserNoOutput { literal: t, label }
    }
}

/// Succeeds only at the end of the input.
pub struct EofParser;

impl EofParser {
    pub fn new() -> (r: EofParser) {
        EofParser
    }
}

/// Succeeds without consuming anything, yielding a fixed value.
pub struct SuccessParser<P: Parsable> {
    pub result: Value<P>,
}

impl<P: Parsable> SuccessParser<P> {
    pub fn new(result: Value<P>) -> (r: Self)
        ensures
            r.result == result,
    {
        SuccessParser { result }
    }
}

} // verus!
