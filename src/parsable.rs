//! The input abstraction: what an element and a run of elements are, so that
//! the same parsers work on text and on any token sequence.
use crate::text::{
    chars_of_string, debug_string, digit_of, digit_spec, is_letter, is_letter_spec,
    is_white_space, is_white_space_spec, join_with, string_of_char, string_of_chars,
};
use vstd::prelude::*;

verus! {

/// A domain of input: its element type `T` and its run type `List`.
pub trait Parsable: Sized {
    type T;

    type List;

    /// The elements of a run.
    spec fn list_view(l: Self::List) -> Seq<Self::T>;

    /// Whether `==` on elements is plain equality of values.
    spec fn eq_is_exact() -> bool;

    /// Whether `s` is the label of element `t` in diagnostics.
    spec fn is_t_label(t: Self::T, s: Seq<char>) -> bool;

    /// Whether `s` is the label of run `l` in diagnostics.
    spec fn is_list_label(l: Seq<Self::T>, s: Seq<char>) -> bool;

    /// The decimal digit an element stands for, if any.
    spec fn digit(t: Self::T) -> Option<u32>;

    spec fn is_letter(t: Self::T) -> bool;

    spec fn is_whitespace(t: Self::T) -> bool;

    /// Whether the element is a decimal point.
    spec fn is_point(t: Self::T) -> bool;

    fn t_eq(a: &Self::T, b: &Self::T) -> (r: bool)
        requires
            Self::eq_is_exact(),
        ensures
            r == (*a == *b),
    ;

    fn t_clone(t: &Self::T) -> (r: Self::T)
        ensures
            r == *t,
    ;

    fn list_clone(l: &Self::List) -> (r: Self::List)
        ensures
            Self::list_view(r) == Self::list_view(*l),
    ;

    fn t_to_string(t: &Self::T) -> (r: String)
        ensures
            Self::is_t_label(*t, r@),
    ;

    fn list_to_string(list: &Self::List) -> (r: String)
        ensures
            Self::is_list_label(Self::list_view(*list), r@),
    ;

    fn list_to_owned_slice(list: Self::List) -> (r: Vec<Self::T>)
        ensures
            r@ == Self::list_view(list),
    ;

    fn list_ref_to_owned_slice(list: &Self::List) -> (r: Vec<Self::T>)
        ensures
            r@ == Self::list_view(*list),
    ;

    fn slice_to_list(slice: &[Self::T]) -> (r: Self::List)
        ensures
            Self::list_view(r) == slice@,
    ;

    fn to_digit(t: &Self::T) -> (r: Option<u32>)
        ensures
            r == Self::digit(*t),
    ;

    fn test_letter(t: &Self::T) -> (r: bool)
        ensures
            r == Self::is_letter(*t),
    ;

    fn test_whitespace(t: &Self::T) -> (r: bool)
        ensures
            r == Self::is_whitespace(*t),
    ;

    fn test_point(t: &Self::T) -> (r: bool)
        ensures
            r == Self::is_point(*t),
    ;
}

/// Text: an element is a character, a run is a `String`.
impl Parsable for char {
    type T = char;

    type List = String;

    open spec fn list_view(l: String) -> Seq<char> {
        l@
    }

    open spec fn eq_is_exact() -> bool {
        true
    }

    open spec fn is_t_label(t: char, s: Seq<char>) -> bool {
        s == seq![t]
    }

    open spec fn is_list_label(l: Seq<char>, s: Seq<char>) -> bool {
        s == l
    }

    open spec fn digit(t: char) -> Option<u32> {
        digit_spec(t)
    }

    open spec fn is_letter(t: char) -> bool {
        is_letter_spec(t)
    }

    open spec fn is_whitespace(t: char) -> bool {
        is_white_space_spec(t)
    }

    open spec fn is_point(t: char) -> bool {
        t == '.'
    }

    fn t_eq(a: &char, b: &char) -> (r: bool) {
        *a == *b
    }

    fn t_clone(t: &char) -> (r: char) {
        *t
    }

    fn list_clone(l: &String) -> (r: String) {
        l.clone()
    }

    fn t_to_string(t: &char) -> (r: String) {
        string_of_char(*t)
    }

    fn list_to_string(list: &String) -> (r: String) {
        list.clone()
    }

    fn list_to_owned_slice(list: String) -> (r: Vec<char>) {
        chars_of_string(list.as_str())
    }

    fn list_ref_to_owned_slice(list: &String) -> (r: Vec<char>) {
        chars_of_string(list.as_str())
    }

    fn slice_to_list(slice: &[char]) -> (r: String) {
        string_of_chars(slice)
    }

    fn to_digit(t: &char) -> (r: Option<u32>) {
        digit_of(*t)
    }

    fn test_letter(t: &char) -> (r: bool) {
        is_letter(*t)
    }

    fn test_whitespace(t: &char) -> (r: bool) {
        is_white_space(*t)
    }

    fn test_point(t: &char) -> (r: bool) {
        *t == '.'
    }
}

/// Tokens of any copyable type: a run is a `Vec` of them.  Token labels are
/// their `Debug` renderings; tokens are never digits, letters, whitespace or
/// decimal points.
pub struct ParsableSlice<T> {
    _marker: std::marker::PhantomData<T>,
}

impl<T: PartialEq + Copy + std::fmt::Debug> Parsable for ParsableSlice<T> {
    type T = T;

    type List = Vec<T>;

    open spec fn list_view(l: Vec<T>) -> Seq<T> {
        l@
    }

    open spec fn eq_is_exact() -> bool {
        vstd::laws_eq::obeys_concrete_eq::<T>()
    }

    open spec fn is_t_label(t: T, s: Seq<char>) -> bool {
        true
    }

    open spec fn is_list_label(l: Seq<T>, s: Seq<char>) -> bool {
        true
    }

    open spec fn digit(t: T) -> Option<u32> {
        None
    }

    open spec fn is_letter(t: T) -> bool {
        false
    }

    open spec fn is_whitespace(t: T) -> bool {
        false
    }

    open spec fn is_point(t: T) -> bool {
        false
    }

    fn t_eq(a: &T, b: &T) -> (r: bool) {
        proof {
            reveal(vstd::laws_eq::obeys_concrete_eq);
        }
        *a == *b
    }

    fn t_clone(t: &T) -> (r: T) {
        *t
    }

    fn list_clone(l: &Vec<T>) -> (r: Vec<T>) {
        copy_tokens(l.as_slice())
    }

    fn t_to_string(t: &T) -> (r: String) {
        debug_string(t)
    }

    fn list_to_string(list: &Vec<T>) -> (r: String) {
        let mut parts: Vec<String> = Vec::new();
        let mut i: usize = 0;
        while i < list.len()
            invariant
                i <= list@.len(),
            decreases list@.len() - i,
        {
            parts.push(debug_string(&list[i]));
            i = i + 1;
        }
        debug_string(&join_with(&parts, ", "))
    }

    fn list_to_owned_slice(list: Vec<T>) -> (r: Vec<T>) {
        list
    }

    fn list_ref_to_owned_slice(list: &Vec<T>) -> (r: Vec<T>) {
        copy_tokens(list.as_slice())
    }

    fn slice_to_list(slice: &[T]) -> (r: Vec<T>) {
        copy_tokens(slice)
    }

    fn to_digit(t: &T) -> (r: Option<u32>) {
        None
    }

    fn test_letter(t: &T) -> (r: bool) {
        false
    }

    fn test_whitespace(t: &T) -> (r: bool) {
        false
    }

    fn test_point(t: &T) -> (r: bool) {
        false
    }
}

/// A fresh vector holding the tokens of `s` in order.
fn copy_tokens<T: Copy>(s: &[T]) -> (r: Vec<T>)
    ensures
        r@ == s@,
{
    let mut out: Vec<T> = Vec::new();
    let mut i: usize = 0;
    while i < s.len()
        invariant
            i <= s@.len(),
            out@ == s@.subrange(0, i as int),
        decreases s@.len() - i,
    {
        out.push(s[i]);
        i = i + 1;
        assert(out@ =~= s@.subrange(0, i as int));
    }
    assert(out@ =~= s@);
    out
}

} // verus!
