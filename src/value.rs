//! The values that parsers produce, their mathematical model, and the fixed
//! set of transformations that `map` can apply to them.
use crate::parsable::Parsable;
use vstd::prelude::*;

verus! {

broadcast use vstd::std_specs::vec::axiom_vec_index_decreases, vstd::std_specs::vec::axiom_vec_decreases_to_view, vstd::seq::axiom_seq_index_decreases, vstd::seq::axiom_seq_subrange_decreases;

/// A parsed value.
#[derive(Debug, PartialEq)]
pub enum Value<P: Parsable> {
    /// Nothing worth keeping (a delimiter, the end of input).
    Unit,
    /// One element of the input.
    Elem(P::T),
    /// A run of elements of the input.
    Run(P::List),
    /// The outputs of a sequence, in order.
    Tuple(Vec<Value<P>>),
    /// The output of the branch of a choice with that index.
    Variant(usize, Box<Value<P>>),
    /// The outputs of a repetition, in order.
    List(Vec<Value<P>>),
    /// The output of an optional parser.
    Optional(Option<Box<Value<P>>>),
    /// A position in the input.
    Position(usize),
    /// An unsigned integer.
    UInt(u64),
    /// An accumulator and the number of elements folded into it.
    Fold(u64, usize),
    /// A decimal number: the digits before and after its point.
    Decimal(Vec<u32>, Vec<u32>),
}

/// The model of a [`Value`].
pub enum SpecValue<T> {
    Unit,
    Elem(T),
    Run(Seq<T>),
    Tuple(Seq<SpecValue<T>>),
    Variant(nat, Box<SpecValue<T>>),
    List(Seq<SpecValue<T>>),
    Optional(Option<Box<SpecValue<T>>>),
    Position(nat),
    UInt(u64),
    Fold(u64, nat),
    Decimal(Seq<u32>, Seq<u32>),
}

pub open spec fn value_view<P: Parsable>(v: Value<P>) -> SpecValue<P::T>
    decreases v,
{
    match v {
        Value::Unit => SpecValue::Unit,
        Value::Elem(t) => SpecValue::Elem(t),
        Value::Run(l) => SpecValue::Run(P::list_view(l)),
        Value::Tuple(vs) => SpecValue::Tuple(values_view(vs@)),
        Value::Variant(k, b) => SpecValue::Variant(k as nat, Box::new(value_view(*b))),
        Value::List(vs) => SpecValue::List(values_view(vs@)),
        Value::Optional(o) => match o {
            Some(b) => SpecValue::Optional(Some(Box::new(value_view(*b)))),
            None => SpecValue::Optional(None),
        },
        Value::Position(p) => SpecValue::Position(p as nat),
        Value::UInt(n) => SpecValue::UInt(n),
        Value::Fold(a, n) => SpecValue::Fold(a, n as nat),
        Value::Decimal(i, f) => SpecValue::Decimal(i@, f@),
    }
}

pub open spec fn values_view<P: Parsable>(vs: Seq<Value<P>>) -> Seq<SpecValue<P::T>>
    decreases vs,
{
    if vs.len() == 0 {
        Seq::empty()
    } else {
        values_view(vs.subrange(0, vs.len() - 1)).push(value_view(vs[vs.len() - 1]))
    }
}

impl<P: Parsable> View for Value<P> {
    type V = SpecValue<P::T>;

    open spec fn view(&self) -> SpecValue<P::T> {
        value_view(*self)
    }
}

pub proof fn lemma_values_view_len<P: Parsable>(vs: Seq<Value<P>>)
    ensures
        values_view(vs).len() == vs.len(),
    decreases vs.len(),
{
    if vs.len() > 0 {
        lemma_values_view_len(vs.subrange(0, vs.len() - 1));
    }
}

pub proof fn lemma_values_view_index<P: Parsable>(vs: Seq<Value<P>>, i: int)
    requires
        0 <= i < vs.len(),
    ensures
        values_view(vs).len() == vs.len(),
        values_view(vs)[i] == value_view(vs[i]),
    decreases vs.len(),
{
    lemma_values_view_len(vs);
    if i < vs.len() - 1 {
        lemma_values_view_index(vs.subrange(0, vs.len() - 1), i);
    }
}

/// The model of a sequence of values, element by element.
pub proof fn lemma_values_view<P: Parsable>(vs: Seq<Value<P>>)
    ensures
        values_view(vs) =~= Seq::new(vs.len(), |i: int| value_view(vs[i])),
{
    lemma_values_view_len(vs);
    assert forall|i: int| 0 <= i < vs.len() implies values_view(vs)[i] == value_view(vs[i]) by {
        lemma_values_view_index(vs, i);
    }
}

pub proof fn lemma_values_view_push<P: Parsable>(vs: Seq<Value<P>>, v: Value<P>)
    ensures
        values_view(vs.push(v)) == values_view(vs).push(value_view(v)),
{
    assert(vs.push(v).subrange(0, vs.len() as int) =~= vs);
}

impl<P: Parsable> Value<P> {
    /// A copy with the same model.
    pub fn deep_clone(&self) -> (r: Value<P>)
        ensures
            r@ == self@,
        decreases self,
    {
        match self {
            Value::Unit => Value::Unit,
            Value::Elem(t) => Value::Elem(P::t_clone(t)),
            Value::Run(l) => Value::Run(P::list_clone(l)),
            Value::Tuple(vs) => Value::Tuple(clone_values(vs)),
            Value::Variant(k, b) => Value::Variant(*k, Box::new((**b).deep_clone())),
            Value::List(vs) => Value::List(clone_values(vs)),
            Value::Optional(o) => match o {
                Some(b) => Value::Optional(Some(Box::new((**b).deep_clone()))),
                None => Value::Optional(None),
            },
            Value::Position(p) => Value::Position(*p),
            Value::UInt(n) => Value::UInt(*n),
            Value::Fold(a, n) => Value::Fold(*a, *n),
            Value::Decimal(i, f) => Value::Decimal(i.clone(), f.clone()),
        }
    }
}

fn clone_values<P: Parsable>(vs: &Vec<Value<P>>) -> (r: Vec<Value<P>>)
    ensures
        values_view(r@) == values_view(vs@),
    decreases vs, 0nat,
{
    let mut out: Vec<Value<P>> = Vec::new();
    let mut i: usize = 0;
    while i < vs.len()
        invariant
            i <= vs@.len(),
            out@.len() == i,
            forall|j: int| 0 <= j < i ==> value_view(#[trigger] out@[j]) == value_view(vs@[j]),
        decreases vs@.len() - i,
    {
        out.push(vs[i].deep_clone());
        i = i + 1;
    }
    proof {
        lemma_values_view(out@);
        lemma_values_view(vs@);
        assert(values_view(out@) =~= values_view(vs@));
    }
    out
}

} // verus!
