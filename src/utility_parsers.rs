//! Position capture, any element, the rest of the input, element classes,
//! maximal runs with a fold, and the numeric and whitespace parsers.
use crate::parsable::Parsable;
use vstd::prelude::*;

verus! {

/// A class of elements that a test parser accepts.
pub enum ElemClass<P: Parsable> {
    /// Decimal digits.
    Digit,
    /// Letters.
    Letter,
    /// Whitespace.
    Whitespace,
    /// Elements equal to this one.
    Is(P::T),
    /// Elements other than this one.
    IsNot(P::T),
    /// Elements equal to one of these.
    OneOf(Vec<P::T>),
    /// Elements equal to none of these.
    NoneOf(Vec<P::T>),
    /// Every element.
    AnyElem,
}

pub open spec fn in_class<P: Parsable>(c: ElemClass<P>, t: P::T) -> bool {
    match c {
        ElemClass::Digit => P::digit(t) is Some,
        ElemClass::Letter => P::is_letter(t),
        ElemClass::Whitespace => P::is_whitespace(t),
        ElemClass::Is(x) => t == x,
        ElemClass::IsNot(x) => t != x,
        ElemClass::OneOf(v) => v@.contains(t),
        ElemClass::NoneOf(v) => !v@.contains(t),
        ElemClass::AnyElem => true,
    }
}

fn contains_elem<P: Parsable>(v: &Vec<P::T>, t: &P::T) -> (r: bool)
    requires
        P::eq_is_exact(),
    ensures
        r == v@.contains(*t),
{
    let mut i: usize = 0;
    while i < v.len()
        invariant
            i <= v@.len(),
            P::eq_is_exact(),
            forall|j: int| 0 <= j < i ==> v@[j] != *t,
        decreases v@.len() - i,
    {
        if P::t_eq(&v[i], t) {
            return true;
        }
        i = i + 1;
    }
    false
}

impl<P: Parsable> ElemClass<P> {
    /// Whether `t` belongs to the class.
    pub fn accepts(&self, t: &P::T) -> (r: bool)
        requires
            P::eq_is_exact(),
        ensures
            r == in_class(*self, *t),
    {
        match self {
            ElemClass::Digit => P::to_digit(t).is_some(),
            ElemClass::Letter => P::test_letter(t),
            ElemClass::Whitespace => P::test_whitespace(t),
            ElemClass::Is(x) => P::t_eq(t, x),
            ElemClass::IsNot(x) => !P::t_eq(t, x),
            ElemClass::OneOf(v) => contains_elem::<P>(v, t),
            ElemClass::NoneOf(v) => !contains_elem::<P>(v, t),
            ElemClass::AnyElem => true,
        }
    }
}

/// Where the maximal run of class members that starts at `pos` ends.
pub open spec fn run_end<P: Parsable>(c: ElemClass<P>, s: Seq<P::T>, pos: int) -> int
    decreases s.len() - pos,
{
    if 0 <= pos < s.len() && in_class(c, s[pos]) {
        run_end(c, s, pos + 1)
    } else {
        pos
    }
}

pub proof fn lemma_run_end<P: Parsable>(c: ElemClass<P>, s: Seq<P::T>, pos: int)
    requires
        0 <= pos <= s.len(),
    ensures
        pos <= run_end(c, s, pos) <= s.len(),
        forall|i: int| pos <= i < run_end(c, s, pos) ==> in_class(c, #[trigger] s[i]),
        run_end(c, s, pos) < s.len() ==> !in_class(c, s[run_end(c, s, pos)]),
    decreases s.len() - pos,
{
    if pos < s.len() && in_class(c, s[pos]) {
        lemma_run_end(c, s, pos + 1);
    }
}

/// Scans the maximal run of class members from `pos`.
pub fn scan_run<P: Parsable>(c: &ElemClass<P>, s: &[P::T], pos: usize) -> (r: usize)
    requires
        P::eq_is_exact(),
        pos <= s@.len(),
    ensures
        r == run_end(*c, s@, pos as int),
{
    let mut i = pos;
    while i < s.len() && c.accepts(&s[i])
        invariant
            pos <= i <= s@.len(),
            P::eq_is_exact(),
            run_end(*c, s@, i as int) == run_end(*c, s@, pos as int),
        decreases s@.len() - i,
    {
        i = i + 1;
    }
    i
}

/// How a run of elements is folded into an accumulator.
pub enum Reduce {
    /// Adds one for each element (wrapping).
    Count,
    /// `acc * 10 + digit` for each element (wrapping); an element without a
    /// digit value counts as 0.
    Decimal,
}

pub open spec fn reduce_step<P: Parsable>(r: Reduce, acc: u64, t: P::T) -> u64 {
    match r {
        Reduce::Count => vstd::wrapping::u64_specs::wrapping_add(acc, 1),
        Reduce::Decimal => vstd::wrapping::u64_specs::wrapping_add(
            vstd::wrapping::u64_specs::wrapping_mul(acc, 10),
            match P::digit(t) {
                Some(d) => d as u64,
                None => 0,
            },
        ),
    }
}

/// The fold of a run, from an initial accumulator, element by element.
pub open spec fn fold_run<P: Parsable>(r: Reduce, init: u64, run: Seq<P::T>) -> u64
    decreases run.len(),
{
    if run.len() == 0 {
        init
    } else {
        reduce_step::<P>(r, fold_run::<P>(r, init, run.drop_last()), run.last())
    }
}

/// The digit values of a run of digits.
pub open spec fn digits_of<P: Parsable>(run: Seq<P::T>) -> Seq<u32> {
    run.map_values(
        |t: P::T|
            match P::digit(t) {
                Some(d) => d,
                None => 0,
            },
    )
}

/// Folds the elements of `s` from `from` up to `to`.
pub fn fold_range<P: Parsable>(reduce: &Reduce, init: u64, s: &[P::T], from: usize, to: usize) -> (r:
    u64)
    requires
        from <= to <= s@.len(),
    ensures
        r == fold_run::<P>(*reduce, init, s@.subrange(from as int, to as int)),
{
    let mut acc = init;
    let mut i = from;
    while i < to
        invariant
            from <= i <= to,
            to <= s@.len(),
            acc == fold_run::<P>(*reduce, init, s@.subrange(from as int, i as int)),
        decreases to - i,
    {
        proof {
            assert(s@.subrange(from as int, i + 1).drop_last() =~= s@.subrange(from as int, i as int));
        }
        acc =
        match reduce {
            Reduce::Count => acc.wrapping_add(1),
            Reduce::Decimal => {
                let d: u64 = match P::to_digit(&s[i]) {
                    Some(d) => d as u64,
                    None => 0,
                };
                acc.wrapping_mul(10).wrapping_add(d)
            },
        };
        i = i + 1;
    }
    acc
}

/// The digit values of the elements of `s` from `from` up to `to`.
pub fn digit_values<P: Parsable>(s: &[P::T], from: usize, to: usize) -> (r: Vec<u32>)
    requires
        from <= to <= s@.len(),
    ensures
        r@ == digits_of::<P>(s@.subrange(from as int, to as int)),
{
    let mut out: Vec<u32> = Vec::new();
    let mut i = from;
    while i < to
        invariant
            from <= i <= to,
            to <= s@.len(),
            out@ == digits_of::<P>(s@.subrange(from as int, i as int)),
        decreases to - i,
    {
        let d: u32 = match P::to_digit(&s[i]) {
            Some(d) => d,
            None => 0,
        };
        out.push(d);
        i = i + 1;
        assert(out@ =~= digits_of::<P>(s@.subrange(from as int, i as int)));
    }
    out
}

/// Yields the current position without consuming anything.
pub struct PositionParser;

pub fn position() -> (r: PositionParser) {
    PositionParser
}

/// Consumes and yields any one element.
pub struct AnyParser;

pub fn any() -> (r: AnyParser) {
    AnyParser
}

/// Consumes and yields the rest of the input.
pub struct RemainingParser;

pub fn remaining() -> (r: RemainingParser) {
    RemainingParser
}

/// Consumes and yields one element of a class.
pub struct TestParser<P: Parsable> {
    pub class: ElemClass<P>,
    pub error_str: String,
}

pub fn test<P: Parsable>(class: ElemClass<P>, error_str: String) -> (r: TestParser<P>)
    ensures
        r.class == class,
        r.error_str == error_str,
{
    TestParser { class, error_str }
}

/// Consumes and yields a non-empty maximal run of elements of a class.
pub struct MultiTestParser<P: Parsable> {
    pub class: ElemClass<P>,
    pub error_str: String,
}

pub fn multi_test<P: Parsable>(class: ElemClass<P>, error_str: String) -> (r: MultiTestParser<P>)
    ensures
        r.class == class,
        r.error_str == error_str,
{
    MultiTestParser { class, error_str }
}

/// Consumes a non-empty maximal run of elements of a class and yields its
/// fold together with its length.
pub struct MultiTestWithReduceParser<P: Parsable> {
    pub class: ElemClass<P>,
    pub reduce: Reduce,
    pub initial: u64,
    pub error_str: String,
}

pub fn multi_test_with_reduce<P: Parsable>(
    class: ElemClass<P>,
    reduce: Reduce,
    initial: u64,
    error_str: String,
) -> (r: MultiTestWithReduceParser<P>)
    ensures
        r.class == class,
        r.reduce == reduce,
        r.initial == initial,
        r.error_str == error_str,
{
    MultiTestWithReduceParser { class, reduce, initial, error_str }
}

/// One decimal digit.
pub fn digit<P: Parsable>() -> (r: TestParser<P>)
    ensures
        r.class is Digit,
        r.error_str@ == "a digit"@,
{
    let error_str = String::from_str("a digit");
    proof {
        reveal_strlit("a digit");
    }
    TestParser { class: ElemClass::Digit, error_str }
}

/// A run of decimal digits.
pub fn digits<P: Parsable>() -> (r: MultiTestParser<P>)
    ensures
        r.class is Digit,
        r.error_str@ == "multiple digits"@,
{
    let error_str = String::from_str("multiple digits");
    proof {
        reveal_strlit("multiple digits");
    }
    MultiTestParser { class: ElemClass::Digit, error_str }
}

/// One letter.
pub fn letter<P: Parsable>() -> (r: TestParser<P>)
    ensures
        r.class is Letter,
        r.error_str@ == "a letter"@,
{
    let error_str = String::from_str("a letter");
    proof {
        reveal_strlit("a letter");
    }
    TestParser { class: ElemClass::Letter, error_str }
}

/// A run of letters.
pub fn letters<P: Parsable>() -> (r: MultiTestParser<P>)
    ensures
        r.class is Letter,
        r.error_str@ == "multiple letters"@,
{
    let error_str = String::from_str("multiple letters");
    proof {
        reveal_strlit("multiple letters");
    }
    MultiTestParser { class: ElemClass::Letter, error_str }
}

/// An unsigned decimal integer, accumulated as `acc * 10 + digit` with
/// wrapping `u64` arithmetic.
pub struct UIntParser;

pub fn uint() -> (r: UIntParser) {
    UIntParser
}

/// A decimal number: digits, then optionally a point and more digits.  It
/// yields the two digit runs; turning them into a floating-point number is
/// left to the caller.
pub struct UFloatParser;

pub fn float() -> (r: UFloatParser) {
    UFloatParser
}

/// A run of whitespace; when `optional` is false it must not be empty.
pub struct WhiteSpaceParser {
    pub optional: bool,
}

pub fn whitespace() -> (r: WhiteSpaceParser)
    ensures
        !r.optional,
{
    WhiteSpaceParser { optional: false }
}

pub fn optional_whitespace() -> (r: WhiteSpaceParser)
    ensures
        r.optional,
{
    WhiteSpaceParser { optional: true }
}

} // verus!
