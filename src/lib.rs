//! A parser-combinator engine.
//!
//! Grammars are assembled once into a [`parser::Grammar`], a table of parser
//! descriptors that refer to each other by [`parser::ParserId`], and run many
//! times against different inputs.  Every run threads a cursor
//! ([`ParsingPosition`]) through the input and yields either a value or a
//! [`ParseFailure`] that records the furthest point reached and what was
//! expected there.  The behaviour of every descriptor is given by the spec
//! function [`semantics::spec_parse`], and the interpreter is proved to follow it.
use vstd::prelude::*;

pub mod atomic_parsers;
pub mod combinator_parsers;
pub mod laws;
pub mod parsable;
pub mod parser;
pub mod semantics;
pub mod text;
pub mod transformation_parsers;
pub mod utility_parsers;
pub mod value;

verus! {

/// An index into the input: how much of it the current parse has consumed.
#[derive(Debug, Clone, Copy, PartialEq, Eq, PartialOrd, Ord)]
pub struct ParsingPosition(pub usize);

impl View for ParsingPosition {
    type V = nat;

    open spec fn view(&self) -> nat {
        self.0 as nat
    }
}

/// What a failure says: the furthest index reached, and the labels of what
/// was expected there (absent when diagnostics are switched off).
pub struct FailureView {
    pub furthest: nat,
    pub expected: Option<Seq<Seq<char>>>,
}

/// The labels of a list of strings.
pub open spec fn labels_view(v: Vec<String>) -> Seq<Seq<char>> {
    v@.map_values(|s: String| s@)
}

pub open spec fn expected_view(e: Option<Vec<String>>) -> Option<Seq<Seq<char>>> {
    match e {
        Some(v) => Some(labels_view(v)),
        None => None,
    }
}

/// Joins two optional label lists, keeping the order of `a` before `b`.
pub open spec fn concat_expected(
    a: Option<Seq<Seq<char>>>,
    b: Option<Seq<Seq<char>>>,
) -> Option<Seq<Seq<char>>> {
    match (a, b) {
        (Some(x), Some(y)) => Some(x + y),
        (None, Some(y)) => Some(y),
        (Some(x), None) => Some(x),
        (None, None) => None,
    }
}

/// The failure with the strictly greater `furthest` wins; on a tie the label
/// lists are concatenated, `a`'s first.
pub open spec fn merge_spec(a: FailureView, b: FailureView) -> FailureView {
    if a.furthest < b.furthest {
        b
    } else if a.furthest > b.furthest {
        a
    } else {
        FailureView { furthest: a.furthest, expected: concat_expected(a.expected, b.expected) }
    }
}

impl ParsingPosition {
    pub fn new(index: usize) -> (r: ParsingPosition)
        ensures
            r@ == index,
    {
        ParsingPosition(index)
    }

    pub fn index(&self) -> (r: usize)
        ensures
            r == self@,
    {
        self.0
    }

    pub fn advance_by(&mut self, offset: usize)
        requires
            old(self)@ + offset <= usize::MAX,
        ensures
            final(self)@ == old(self)@ + offset,
    {
        self.0 = self.0 + offset;
    }

    pub fn advance_to(&mut self, position: ParsingPosition)
        ensures
            final(self)@ == position@,
    {
        self.0 = position.0;
    }

    pub fn advance_to_index(&mut self, index: usize)
        ensures
            final(self)@ == index,
    {
        self.0 = index;
    }

    pub fn current<'a, T>(&self, slice: &'a [T]) -> (r: &'a T)
        requires
            self@ < slice@.len(),
        ensures
            *r == slice@[self@ as int],
    {
        &slice[self.0]
    }

    pub fn at_eof<T>(&self, slice: &[T]) -> (r: bool)
        ensures
            r == (self@ >= slice@.len()),
    {
        self.0 >= slice.len()
    }

    /// The input from the cursor on.
    pub fn slice<'a, T>(&self, slice: &'a [T]) -> (r: &'a [T])
        requires
            self@ <= slice@.len(),
        ensures
            r@ == slice@.subrange(self@ as int, slice@.len() as int),
    {
        &slice[self.0..slice.len()]
    }

    /// The input from the cursor up to `index`.
    pub fn slice_to<'a, T>(&self, slice: &'a [T], index: usize) -> (r: &'a [T])
        requires
            self@ <= index <= slice@.len(),
        ensures
            r@ == slice@.subrange(self@ as int, index as int),
    {
        &slice[self.0..index]
    }

    /// The `length` elements of the input from the cursor on.
    pub fn slice_with_length<'a, T>(&self, slice: &'a [T], length: usize) -> (r: &'a [T])
        requires
            self@ + length <= slice@.len(),
        ensures
            r@ == slice@.subrange(self@ as int, self@ + length),
    {
        let n = slice.len();
        assert(self@ + length <= n);
        &slice[self.0..self.0 + length]
    }

    /// Whether the element at the cursor equals `c`.
    pub fn current_eq<T: PartialEq>(&self, slice: &[T], c: &T) -> (r: bool)
        requires
            vstd::laws_eq::obeys_concrete_eq::<T>(),
        ensures
            r == (self@ < slice@.len() && slice@[self@ as int] == *c),
    {
        proof {
            reveal(vstd::laws_eq::obeys_concrete_eq);
        }
        if self.at_eof(slice) {
            false
        } else {
            slice[self.0] == *c
        }
    }

    /// Whether there is an element at the cursor and `test_fn` holds of it.
    pub fn test_current<T, F: Fn(&T) -> bool>(&self, slice: &[T], test_fn: F) -> (r: bool)
        requires
            forall|t: &T| #[trigger] test_fn.requires((t,)),
        ensures
            self@ >= slice@.len() ==> !r,
            self@ < slice@.len() ==> test_fn.ensures((&slice@[self@ as int],), r),
    {
        if self.at_eof(slice) {
            false
        } else {
            test_fn(&slice[self.0])
        }
    }

    /// Whether the cursor is before the end of the input and the remaining
    /// input starts with `other`.
    pub fn current_eq_slice<T: PartialEq>(&self, slice: &[T], other: &[T]) -> (r: bool)
        requires
            vstd::laws_eq::obeys_concrete_eq::<T>(),
        ensures
            r == (self@ < slice@.len() && self@ + other@.len() <= slice@.len() && slice@.subrange(
                self@ as int,
                (self@ + other@.len()) as int,
            ) == other@),
    {
        proof {
            reveal(vstd::laws_eq::obeys_concrete_eq);
        }
        if self.at_eof(slice) {
            return false;
        }
        let n = slice.len();
        let m = other.len();
        if n < m || self.0 > n - m {
            return false;
        }
        let start = self.0;
        let mut i: usize = 0;
        while i < m
            invariant
                i <= m,
                m == other@.len(),
                n == slice@.len(),
                start == self@,
                start < n,
                start + m <= n,
                forall|j: int| 0 <= j < i ==> slice@[start + j] == other@[j],
                vstd::laws_eq::obeys_concrete_eq::<T>(),
            decreases m - i,
        {
            proof {
                reveal(vstd::laws_eq::obeys_concrete_eq);
            }
            let same = slice[start + i] == other[i];
            if !same {
                assert(slice@.subrange(start as int, (start + m) as int)[i as int]
                    != other@[i as int]);
                return false;
            }
            i = i + 1;
        }
        assert(slice@.subrange(start as int, (start + m) as int) =~= other@);
        true
    }

    /// Moves the cursor `offset` forward and reports success.
    pub fn succeed_offset<T>(&mut self, offset: usize, result: T) -> (r: ParseResult<T>)
        requires
            old(self)@ + offset <= usize::MAX,
        ensures
            final(self)@ == old(self)@ + offset,
            r == ParseResult::<T>::Success(result),
    {
        self.advance_by(offset);
        GenericParseResult::Success(result)
    }

    /// Moves the cursor `offset` forward and reports a failure there.
    pub fn fail_offset<T>(&mut self, offset: usize, expected: Option<Vec<String>>) -> (r:
        ParseResult<T>)
        requires
            old(self)@ + offset <= usize::MAX,
        ensures
            final(self)@ == old(self)@ + offset,
            r == ParseResult::<T>::Failure(
                ParseFailure { furthest: *final(self), expected: expected },
            ),
    {
        self.advance_by(offset);
        GenericParseResult::Failure(ParseFailure::new(*self, expected))
    }

    /// Moves the cursor to `position` and reports success.
    pub fn succeed_at<T>(&mut self, position: ParsingPosition, result: T) -> (r: ParseResult<T>)
        ensures
            final(self)@ == position@,
            r == ParseResult::<T>::Success(result),
    {
        self.advance_to(position);
        GenericParseResult::Success(result)
    }

    /// Moves the cursor to `position` and reports a failure there.
    pub fn fail_at<T>(&mut self, position: ParsingPosition, expected: Option<Vec<String>>) -> (r:
        ParseResult<T>)
        ensures
            final(self)@ == position@,
            r == ParseResult::<T>::Failure(ParseFailure { furthest: position, expected: expected }),
    {
        self.advance_to(position);
        GenericParseResult::Failure(ParseFailure::new(position, expected))
    }

    /// Keeps the deeper of two failures, or both label lists on a tie.
    pub fn merge_failures(&self, a: ParseFailure, b: ParseFailure) -> (r: ParseFailure)
        ensures
            r@ == merge_spec(a@, b@),
    {
        if a.furthest.0 < b.furthest.0 {
            b
        } else if a.furthest.0 > b.furthest.0 {
            a
        } else {
            let furthest = a.furthest;
            let expected = match (a.expected, b.expected) {
                (Some(mut x), Some(mut y)) => {
                    let ghost x0 = x;
                    let ghost y0 = y;
                    x.append(&mut y);
                    assert(labels_view(x) =~= labels_view(x0) + labels_view(y0));
                    Some(x)
                },
                (None, Some(y)) => Some(y),
                (Some(x), None) => Some(x),
                (None, None) => None,
            };
            ParseFailure { furthest, expected }
        }
    }
}

impl Default for ParsingPosition {
    fn default() -> (r: ParsingPosition)
        ensures
            r@ == 0,
    {
        ParsingPosition(0)
    }
}

impl From<usize> for ParsingPosition {
    fn from(index: usize) -> (r: ParsingPosition) {
        ParsingPosition(index)
    }
}

impl vstd::std_specs::convert::FromSpecImpl<usize> for ParsingPosition {
    open spec fn obeys_from_spec() -> bool {
        true
    }

    open spec fn from_spec(index: usize) -> ParsingPosition {
        ParsingPosition(index)
    }
}

/// A stretch of the input, from one position up to another.
#[derive(Debug, Clone, PartialEq)]
pub struct ParsingRange {
    pub from: ParsingPosition,
    pub to: ParsingPosition,
}

/// Why a parse failed: the furthest index reached and, when diagnostics are
/// on, the labels of what was expected there.
#[derive(Debug, Clone, PartialEq)]
pub struct ParseFailure {
    pub furthest: ParsingPosition,
    pub expected: Option<Vec<String>>,
}

impl View for ParseFailure {
    type V = FailureView;

    open spec fn view(&self) -> FailureView {
        FailureView { furthest: self.furthest@, expected: expected_view(self.expected) }
    }
}

impl ParseFailure {
    pub fn new(furthest: ParsingPosition, expected: Option<Vec<String>>) -> (r: ParseFailure)
        ensures
            r == (ParseFailure { furthest, expected }),
    {
        ParseFailure { furthest, expected }
    }
}

/// The outcome of a parse: a value, or a failure.
#[derive(Debug, Clone, PartialEq)]
pub enum GenericParseResult<T, F> {
    Success(T),
    Failure(F),
}

pub type ParseResult<T> = GenericParseResult<T, ParseFailure>;

impl<T, F> GenericParseResult<T, F> {
    pub fn is_success(&self) -> (r: bool)
        ensures
            r == (self is Success),
    {
        match self {
            GenericParseResult::Success(_) => true,
            GenericParseResult::Failure(_) => false,
        }
    }

    pub fn is_failure(&self) -> (r: bool)
        ensures
            r == (self is Failure),
    {
        !self.is_success()
    }

    pub fn unwrap_success(self) -> (r: T)
        requires
            self is Success,
        ensures
            self == GenericParseResult::<T, F>::Success(r),
    {
        match self {
            GenericParseResult::Success(t) => t,
            GenericParseResult::Failure(_) => vstd::pervasive::unreached(),
        }
    }

    pub fn unwrap_failure(self) -> (r: F)
        requires
            self is Failure,
        ensures
            self == GenericParseResult::<T, F>::Failure(r),
    {
        match self {
            GenericParseResult::Failure(f) => f,
            GenericParseResult::Success(_) => vstd::pervasive::unreached(),
        }
    }
}

} // verus!
