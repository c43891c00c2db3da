//! Recursive binding, `map` with its transformations, repetition, optional
//! parsing and diagnostic labels.
use crate::parsable::Parsable;
use crate::parser::ParserId;
use crate::value::{lemma_values_view, value_view, values_view, SpecValue, Value};
use vstd::prelude::*;

verus! {

/// A single-assignment cell through which a grammar refers to itself.
/// It is created empty and filled once, after the grammar that uses it has
/// been described (see [`crate::parser::Grammar::set`]).  A cell reached
/// again at the position where it is already being expanded, without any
/// input consumed in between, fails with the label "progress before
/// recursion" instead of recursing forever.
pub struct RecRefParser {
    pub target: Option<ParserId>,
}

impl RecRefParser {
    pub fn new() -> (r: Self)
        ensures
            r.target is None,
    {
        RecRefParser { target: None }
    }

    /// Fills the cell.
    pub fn set(&mut self, parser: ParserId)
        ensures
            final(self).target == Some(parser),
    {
        self.target = Some(parser);
    }
}

/// A parser that runs the parser held by a recursive cell.
pub struct RecParser {
    pub parser: ParserId,
}

impl RecParser {
    pub fn new(parser: ParserId) -> (r: Self)
        ensures
            r.parser == parser,
    {
        RecParser { parser }
    }
}

/// The transformations that `map` can apply to a value.
pub enum Transform<P: Parsable> {
    /// Keeps the value.
    Identity,
    /// Replaces the value by a fixed one.
    Constant(Value<P>),
    /// Picks one component of a tuple or a list.
    Field(usize),
    /// Picks some components of a tuple, in the given order.
    Select(Vec<usize>),
    /// Wraps the value as the variant with that index.
    Tag(usize),
    /// Turns a pair of a value and a list into the list with the value in front.
    Prepend,
    /// Applies the first transformation, then the second.
    Compose(Box<Transform<P>>, Box<Transform<P>>),
}

/// What a transformation makes of a value.  Where the value does not have
/// the shape the transformation looks for, it is kept as it is.
pub open spec fn apply_spec<P: Parsable>(tr: Transform<P>, v: SpecValue<P::T>) -> SpecValue<P::T>
    decreases tr,
{
    match tr {
        Transform::Identity => v,
        Transform::Constant(c) => value_view(c),
        Transform::Field(i) => match v {
            SpecValue::Tuple(vs) => if i < vs.len() {
                vs[i as int]
            } else {
                v
            },
            SpecValue::List(vs) => if i < vs.len() {
                vs[i as int]
            } else {
                v
            },
            _ => v,
        },
        Transform::Select(ix) => match v {
            SpecValue::Tuple(vs) => if forall|k: int| 0 <= k < ix@.len() ==> ix@[k] < vs.len() {
                SpecValue::Tuple(ix@.map_values(|i: usize| vs[i as int]))
            } else {
                v
            },
            _ => v,
        },
        Transform::Tag(k) => SpecValue::Variant(k as nat, Box::new(v)),
        Transform::Prepend => match v {
            SpecValue::Tuple(vs) => if vs.len() == 2 && vs[1] is List {
                SpecValue::List(seq![vs[0]] + vs[1]->List_0)
            } else {
                v
            },
            _ => v,
        },
        Transform::Compose(f, g) => apply_spec(*g, apply_spec(*f, v)),
    }
}

impl<P: Parsable> Transform<P> {
    /// Applies the transformation.
    pub fn apply(&self, v: Value<P>) -> (r: Value<P>)
        ensures
            r@ == apply_spec(*self, v@),
        decreases self,
    {
        match self {
            Transform::Identity => v,
            Transform::Constant(c) => c.deep_clone(),
            Transform::Field(i) => match v {
                Value::Tuple(vs) => {
                    proof {
                        lemma_values_view(vs@);
                    }
                    if *i < vs.len() {
                        let mut vs = vs;
                        vs.swap_remove(*i)
                    } else {
                        Value::Tuple(vs)
                    }
                },
                Value::List(vs) => {
                    proof {
                        lemma_values_view(vs@);
                    }
                    if *i < vs.len() {
                        let mut vs = vs;
                        vs.swap_remove(*i)
                    } else {
                        Value::List(vs)
                    }
                },
                other => other,
            },
            Transform::Select(ix) => match v {
                Value::Tuple(vs) => select(ix, vs),
                other => other,
            },
            Transform::Tag(k) => Value::Variant(*k, Box::new(v)),
            Transform::Prepend => match v {
                Value::Tuple(vs) => prepend(vs),
                other => other,
            },
            Transform::Compose(f, g) => {
                let w = f.apply(v);
                g.apply(w)
            },
        }
    }
}

fn select<P: Parsable>(ix: &Vec<usize>, vs: Vec<Value<P>>) -> (r: Value<P>)
    ensures
        r@ == apply_spec(Transform::<P>::Select(*ix), value_view(Value::<P>::Tuple(vs))),
{
    proof {
        lemma_values_view(vs@);
    }
    let mut k: usize = 0;
    while k < ix.len()
        invariant
            k <= ix@.len(),
            forall|j: int| 0 <= j < k ==> ix@[j] < vs@.len(),
            values_view(vs@).len() == vs@.len(),
        decreases ix@.len() - k,
    {
        if ix[k] >= vs.len() {
            assert(values_view(vs@).len() == vs@.len());
            assert(!(ix@[k as int] < values_view(vs@).len()));
            return Value::Tuple(vs);
        }
        k = k + 1;
    }
    let ghost vsv = values_view(vs@);
    let mut out: Vec<Value<P>> = Vec::new();
    let mut k: usize = 0;
    while k < ix.len()
        invariant
            k <= ix@.len(),
            out@.len() == k,
            forall|j: int| 0 <= j < ix@.len() ==> ix@[j] < vs@.len(),
            vsv == values_view(vs@),
            vsv.len() == vs@.len(),
            forall|i: int| 0 <= i < vs@.len() ==> vsv[i] == value_view(vs@[i]),
            forall|j: int| 0 <= j < k ==> value_view(#[trigger] out@[j]) == vsv[ix@[j] as int],
        decreases ix@.len() - k,
    {
        out.push(vs[ix[k]].deep_clone());
        k = k + 1;
    }
    proof {
        lemma_values_view(out@);
        assert(values_view(out@) =~= ix@.map_values(|i: usize| vsv[i as int]));
    }
    Value::Tuple(out)
}

fn prepend<P: Parsable>(vs: Vec<Value<P>>) -> (r: Value<P>)
    ensures
        r@ == apply_spec(Transform::<P>::Prepend, value_view(Value::<P>::Tuple(vs))),
{
    proof {
        lemma_values_view(vs@);
    }
    if vs.len() != 2 {
        return Value::Tuple(vs);
    }
    let ghost vs0 = vs@;
    let mut vs = vs;
    let second = vs.pop().unwrap();
    let first = vs.pop().unwrap();
    assert(first == vs0[0] && second == vs0[1]);
    match second {
        Value::List(mut xs) => {
            let ghost xs0 = xs@;
            let mut out: Vec<Value<P>> = Vec::new();
            out.push(first);
            out.append(&mut xs);
            proof {
                lemma_values_view(out@);
                lemma_values_view(xs0);
                assert(values_view(out@) =~= seq![value_view(vs0[0])] + values_view(xs0));
            }
            Value::List(out)
        },
        other => {
            let mut out: Vec<Value<P>> = Vec::new();
            out.push(first);
            out.push(other);
            proof {
                lemma_values_view(out@);
                assert(out@ =~= vs0);
            }
            Value::Tuple(out)
        },
    }
}

/// Runs a parser and transforms its output.
pub struct MapParser<P: Parsable> {
    pub parser: ParserId,
    pub transform: Transform<P>,
}

impl<P: Parsable> MapParser<P> {
    pub fn new(parser: ParserId, transform: Transform<P>) -> (r: Self)
        ensures
            r.parser == parser,
            r.transform == transform,
    {
        MapParser { parser, transform }
    }
}

/// Zero or more matches of a parser; it never fails.  The attempt that
/// ends the repetition (one that fails, or one that succeeds without
/// consuming anything) is undone: the cursor is left after the last match.
pub struct ManyParser {
    pub parser: ParserId,
}

impl ManyParser {
    pub fn new(parser: ParserId) -> (r: Self)
        ensures
            r.parser == parser,
    {
        ManyParser { parser }
    }
}

/// One or more matches of a parser: a failure of the first match is the
/// failure of the whole; after it, as [`ManyParser`].
pub struct ManyNonEmptyParser {
    pub parser: ParserId,
}

impl ManyNonEmptyParser {
    pub fn new(parser: ParserId) -> (r: Self)
        ensures
            r.parser == parser,
    {
        ManyNonEmptyParser { parser }
    }
}

/// A parser's output if it matches, nothing if it does not.  A failed
/// attempt is undone: the cursor goes back to where the attempt began.
pub struct OptionalParser {
    pub parser: ParserId,
}

impl OptionalParser {
    pub fn new(parser: ParserId) -> (r: Self)
        ensures
            r.parser == parser,
    {
        OptionalParser { parser }
    }
}

/// On failure, replaces what was expected by one label.
pub struct DescribeParser {
    pub parser: ParserId,
    pub label: String,
}

impl DescribeParser {
    pub fn new(parser: ParserId, label: String) -> (r: Self)
        ensures
            r.parser == parser,
            r.label == label,
    {
        DescribeParser { parser, label }
    }
}

/// On failure, folds what was expected into one label that names the
/// enclosing construct.
pub struct BoxDescribeParser {
    pub parser: ParserId,
    pub label: String,
}

impl BoxDescribeParser {
    pub fn new(parser: ParserId, label: String) -> (r: Self)
        ensures
            r.parser == parser,
            r.label == label,
    {
        BoxDescribeParser { parser, label }
    }
}

} // verus!
