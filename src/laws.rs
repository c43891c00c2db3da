//! Laws of the combinator algebra, stated over the meaning of parsers.
use crate::atomic_parsers::{LiteralListParser, LiteralParser};
use crate::parsable::Parsable;
use crate::combinator_parsers::{AndParser, OrParser};
use crate::semantics::{
    and_loop, branches, digit_class, many_loop, or_loop, pair, repeated, run_child, sep_loop,
    spec_parse, Node, Outcome, ParserId,
};
use crate::utility_parsers::{lemma_run_end, run_end, ElemClass};
use crate::transformation_parsers::{MapParser, OptionalParser, Transform};
use crate::value::SpecValue;
use crate::{merge_spec, FailureView};
use vstd::prelude::*;

verus! {

/// A literal element parser that meets its element at `pos` consumes it and
/// yields it; anywhere else it fails right there, expecting its label.
pub proof fn lemma_literal_element<P: Parsable>(
    g: Seq<Node<P>>,
    diag: bool,
    id: int,
    lp: LiteralParser<P>,
    s: Seq<P::T>,
    pos: int,
    fl: Seq<usize>,
    fuel: nat,
)
    requires
        0 <= id < g.len(),
        g[id] == Node::Literal(lp),
        0 <= pos <= s.len(),
        fl.len() == g.len(),
    ensures
        pos < s.len() && s[pos] == lp.literal ==> spec_parse(g, diag, id, s, pos, fl, fuel) == (
            pos + 1,
            Outcome::<P::T>::Parsed(SpecValue::Elem(lp.literal)),
        ),
        !(pos < s.len() && s[pos] == lp.literal) ==> spec_parse(g, diag, id, s, pos, fl, fuel) == (
            pos,
            Outcome::<P::T>::Failed(
                FailureView {
                    furthest: pos as nat,
                    expected: if diag {
                        Some(seq![lp.label@])
                    } else {
                        None
                    },
                },
            ),
        ),
{
}

/// A literal run parser that finds its run at `pos` consumes as many
/// elements as the run has and yields the run; anywhere else it fails right
/// there, expecting its label.
pub proof fn lemma_literal_run<P: Parsable>(
    g: Seq<Node<P>>,
    diag: bool,
    id: int,
    lp: LiteralListParser<P>,
    s: Seq<P::T>,
    pos: int,
    fl: Seq<usize>,
    fuel: nat,
)
    requires
        0 <= id < g.len(),
        g[id] == Node::LiteralList(lp),
        lp.slice@ == P::list_view(lp.list),
        0 <= pos <= s.len(),
        fl.len() == g.len(),
    ensures
        pos + lp.slice@.len() <= s.len() && s.subrange(pos, pos + lp.slice@.len()) == lp.slice@
            ==> spec_parse(g, diag, id, s, pos, fl, fuel) == (
            pos + lp.slice@.len(),
            Outcome::<P::T>::Parsed(SpecValue::Run(lp.slice@)),
        ),
        !(pos + lp.slice@.len() <= s.len() && s.subrange(pos, pos + lp.slice@.len()) == lp.slice@)
            ==> spec_parse(g, diag, id, s, pos, fl, fuel) == (
            pos,
            Outcome::<P::T>::Failed(
                FailureView {
                    furthest: pos as nat,
                    expected: if diag {
                        Some(seq![lp.label@])
                    } else {
                        None
                    },
                },
            ),
        ),
{
}

/// Mapping twice is mapping once with the composed transformation: the two
/// parsers leave the cursor at the same place and yield the same outcome.
pub proof fn lemma_map_composition<P: Parsable>(
    g: Seq<Node<P>>,
    diag: bool,
    p: usize,
    inner: usize,
    outer: usize,
    fused: usize,
    f: Transform<P>,
    h: Transform<P>,
    s: Seq<P::T>,
    pos: int,
    fl: Seq<usize>,
    fuel: nat,
)
    requires
        p < inner < outer < g.len(),
        p < fused < g.len(),
        g[inner as int] == Node::Mapped(MapParser { parser: ParserId(p), transform: f }),
        g[outer as int] == Node::Mapped(MapParser { parser: ParserId(inner), transform: h }),
        g[fused as int] == Node::Mapped(
            MapParser { parser: ParserId(p), transform: Transform::Compose(Box::new(f), Box::new(h)) },
        ),
        0 <= pos <= s.len(),
        fl.len() == g.len(),
    ensures
        spec_parse(g, diag, outer as int, s, pos, fl, fuel) == spec_parse(
            g,
            diag,
            fused as int,
            s,
            pos,
            fl,
            fuel,
        ),
        spec_parse(g, diag, outer as int, s, pos, fl, fuel).0 == spec_parse(
            g,
            diag,
            p as int,
            s,
            pos,
            fl,
            fuel,
        ).0,
{
    let base = spec_parse(g, diag, p as int, s, pos, fl, fuel);
    assert(run_child(g, diag, p as int, fused as int, s, pos, fl, fuel) == base);
    assert(run_child(g, diag, p as int, inner as int, s, pos, fl, fuel) == base);
    assert(run_child(g, diag, inner as int, outer as int, s, pos, fl, fuel) == spec_parse(
        g,
        diag,
        inner as int,
        s,
        pos,
        fl,
        fuel,
    ));
}

/// A sequence of two parsers: the first failure is the failure of the
/// whole, with the cursor where it left it; otherwise the outputs of both, in
/// order, with the cursor where the second left it.
pub proof fn lemma_sequence_of_two<P: Parsable>(
    g: Seq<Node<P>>,
    diag: bool,
    id: int,
    a: AndParser,
    s: Seq<P::T>,
    pos: int,
    fl: Seq<usize>,
    fuel: nat,
)
    requires
        0 <= id < g.len(),
        g[id] == Node::<P>::And(a),
        a.parsers@.len() == 2,
        a.parsers@[0].0 < id,
        a.parsers@[1].0 < id,
        0 <= pos <= s.len(),
        fl.len() == g.len(),
    ensures
        ({
            let (e1, r1) = spec_parse(g, diag, a.parsers@[0].0 as int, s, pos, fl, fuel);
            let (e2, r2) = spec_parse(g, diag, a.parsers@[1].0 as int, s, e1, fl, fuel);
            spec_parse(g, diag, id, s, pos, fl, fuel) == match r1 {
                Outcome::Failed(f) => (e1, Outcome::Failed(f)),
                Outcome::Parsed(v1) => match r2 {
                    Outcome::Failed(f) => (e2, Outcome::Failed(f)),
                    Outcome::Parsed(v2) => (e2, Outcome::Parsed(SpecValue::Tuple(seq![v1, v2]))),
                },
            }
        }),
{
    let (e1, r1) = spec_parse(g, diag, a.parsers@[0].0 as int, s, pos, fl, fuel);
    assert(run_child(g, diag, a.parsers@[0].0 as int, id, s, pos, fl, fuel) == (e1, r1));
    assert(spec_parse(g, diag, id, s, pos, fl, fuel) == and_loop(
        g,
        diag,
        id,
        0,
        s,
        pos,
        fl,
        fuel,
        Seq::empty(),
    ));
    assert(and_loop(g, diag, id, 0, s, pos, fl, fuel, Seq::empty()) == match r1 {
        Outcome::Failed(f) => (e1, Outcome::<P::T>::Failed(f)),
        Outcome::Parsed(v) => and_loop(g, diag, id, 1, s, e1, fl, fuel, Seq::empty().push(v)),
    });
    if let Outcome::Parsed(v1) = r1 {
        let (e2, r2) = spec_parse(g, diag, a.parsers@[1].0 as int, s, e1, fl, fuel);
        assert(run_child(g, diag, a.parsers@[1].0 as int, id, s, e1, fl, fuel) == (e2, r2));
        assert(and_loop(g, diag, id, 1, s, e1, fl, fuel, seq![v1]) == match r2 {
            Outcome::Failed(f) => (e2, Outcome::<P::T>::Failed(f)),
            Outcome::Parsed(v2) => and_loop(g, diag, id, 2, s, e2, fl, fuel, seq![v1].push(v2)),
        });
        assert(Seq::<SpecValue<P::T>>::empty().push(v1) =~= seq![v1]);
        if let Outcome::Parsed(v2) = r2 {
            assert(seq![v1].push(v2) =~= seq![v1, v2]);
            assert(and_loop(g, diag, id, 2, s, e2, fl, fuel, seq![v1, v2]) == (
                e2,
                Outcome::<P::T>::Parsed(SpecValue::Tuple(seq![v1, v2])),
            ));
        }
    }
}

/// A tagged choice between two parsers: the first branch that succeeds
/// wins, tagged with its index; when both fail, the cursor is back where it
/// started and the failure is the merge of the two, the first's labels first.
pub proof fn lemma_choice_of_two<P: Parsable>(
    g: Seq<Node<P>>,
    diag: bool,
    id: int,
    o: OrParser,
    s: Seq<P::T>,
    pos: int,
    fl: Seq<usize>,
    fuel: nat,
)
    requires
        0 <= id < g.len(),
        g[id] == Node::<P>::Or(o),
        o.parsers@.len() == 2,
        o.parsers@[0].0 < id,
        o.parsers@[1].0 < id,
        0 <= pos <= s.len(),
        fl.len() == g.len(),
    ensures
        ({
            let (e1, r1) = spec_parse(g, diag, o.parsers@[0].0 as int, s, pos, fl, fuel);
            let (e2, r2) = spec_parse(g, diag, o.parsers@[1].0 as int, s, pos, fl, fuel);
            spec_parse(g, diag, id, s, pos, fl, fuel) == match r1 {
                Outcome::Parsed(v1) => (e1, Outcome::Parsed(SpecValue::Variant(0, Box::new(v1)))),
                Outcome::Failed(f1) => match r2 {
                    Outcome::Parsed(v2) => (
                        e2,
                        Outcome::Parsed(SpecValue::Variant(1, Box::new(v2))),
                    ),
                    Outcome::Failed(f2) => (pos, Outcome::Failed(merge_spec(f1, f2))),
                },
            }
        }),
{
    let (e1, r1) = spec_parse(g, diag, o.parsers@[0].0 as int, s, pos, fl, fuel);
    let (e2, r2) = spec_parse(g, diag, o.parsers@[1].0 as int, s, pos, fl, fuel);
    assert(run_child(g, diag, o.parsers@[0].0 as int, id, s, pos, fl, fuel) == (e1, r1));
    assert(run_child(g, diag, o.parsers@[1].0 as int, id, s, pos, fl, fuel) == (e2, r2));
    assert(spec_parse(g, diag, id, s, pos, fl, fuel) == or_loop(
        g,
        diag,
        id,
        0,
        true,
        s,
        pos,
        fl,
        fuel,
        None,
    ));
    assert(or_loop(g, diag, id, 0, true, s, pos, fl, fuel, None) == match r1 {
        Outcome::Parsed(v1) => (e1, Outcome::<P::T>::Parsed(SpecValue::Variant(0, Box::new(v1)))),
        Outcome::Failed(f1) => or_loop(g, diag, id, 1, true, s, pos, fl, fuel, Some(f1)),
    });
    if let Outcome::Failed(f1) = r1 {
        assert(or_loop(g, diag, id, 1, true, s, pos, fl, fuel, Some(f1)) == match r2 {
            Outcome::Parsed(v2) => (
                e2,
                Outcome::<P::T>::Parsed(SpecValue::Variant(1, Box::new(v2))),
            ),
            Outcome::Failed(f2) => or_loop(
                g,
                diag,
                id,
                2,
                true,
                s,
                pos,
                fl,
                fuel,
                Some(merge_spec(f1, f2)),
            ),
        });
        if let Outcome::Failed(f2) = r2 {
            assert(or_loop(g, diag, id, 2, true, s, pos, fl, fuel, Some(merge_spec(f1, f2))) == (
                pos,
                Outcome::<P::T>::Failed(merge_spec(f1, f2)),
            ));
        }
    }
}

/// An optional parser yields the inner parser's output where it matches;
/// where it fails, the attempt is undone: nothing is consumed and nothing is
/// yielded.
pub proof fn lemma_optional<P: Parsable>(
    g: Seq<Node<P>>,
    diag: bool,
    id: int,
    o: OptionalParser,
    s: Seq<P::T>,
    pos: int,
    fl: Seq<usize>,
    fuel: nat,
)
    requires
        0 <= id < g.len(),
        g[id] == Node::<P>::Optional(o),
        o.parser.0 < id,
        0 <= pos <= s.len(),
        fl.len() == g.len(),
    ensures
        ({
            let (e, r) = spec_parse(g, diag, o.parser.0 as int, s, pos, fl, fuel);
            spec_parse(g, diag, id, s, pos, fl, fuel) == match r {
                Outcome::Parsed(v) => (e, Outcome::Parsed(SpecValue::Optional(Some(Box::new(v))))),
                Outcome::Failed(_) => (pos, Outcome::<P::T>::Parsed(SpecValue::Optional(None))),
            }
        }),
{
    let (e, r) = spec_parse(g, diag, o.parser.0 as int, s, pos, fl, fuel);
    assert(run_child(g, diag, o.parser.0 as int, id, s, pos, fl, fuel) == (e, r));
}

/// A parser never moves the cursor back, nor past the end of the input,
/// whether it succeeds or fails.
pub proof fn lemma_cursor_bounds<P: Parsable>(
    g: Seq<Node<P>>,
    diag: bool,
    id: int,
    s: Seq<P::T>,
    pos: int,
    fl: Seq<usize>,
    fuel: nat,
)
    requires
        0 <= pos <= s.len(),
    ensures
        pos <= spec_parse(g, diag, id, s, pos, fl, fuel).0 <= s.len(),
    decreases fuel, id, 1int, 0int,
{
    reveal_with_fuel(spec_parse, 2);
    if 0 <= id < g.len() && fl.len() == g.len() {
        match g[id] {
            Node::And(_) => {
                lemma_and_bounds(g, diag, id, 0, s, pos, fl, fuel, Seq::empty());
            },
            Node::Or(_) => {
                lemma_or_bounds(g, diag, id, 0, true, s, pos, fl, fuel, None);
            },
            Node::SameOr(_) => {
                lemma_or_bounds(g, diag, id, 0, false, s, pos, fl, fuel, None);
            },
            Node::Skip(p) => {
                lemma_pair_bounds(g, diag, id, p.parser1.0 as int, p.parser2.0 as int, true, s, pos, fl, fuel);
            },
            Node::Then(p) => {
                lemma_pair_bounds(g, diag, id, p.parser1.0 as int, p.parser2.0 as int, false, s, pos, fl, fuel);
            },
            Node::Surround(p) => {
                lemma_child_bounds(g, diag, p.left.0 as int, id, s, pos, fl, fuel);
                let (e1, r1) = run_child(g, diag, p.left.0 as int, id, s, pos, fl, fuel);
                lemma_pair_bounds(g, diag, id, p.parser.0 as int, p.right.0 as int, true, s, e1, fl, fuel);
            },
            Node::SeparatedBy(p) => {
                lemma_child_bounds(g, diag, p.parser.0 as int, id, s, pos, fl, fuel);
                let (e, r) = run_child(g, diag, p.parser.0 as int, id, s, pos, fl, fuel);
                if let Outcome::Parsed(v) = r {
                    lemma_sep_bounds(g, diag, id, s, e, fl, fuel, seq![v]);
                }
            },
            Node::Many(_) => {
                lemma_many_bounds(g, diag, id, s, pos, fl, fuel, Seq::empty());
            },
            Node::ManyNonEmpty(p) => {
                lemma_child_bounds(g, diag, p.parser.0 as int, id, s, pos, fl, fuel);
                let (e, r) = run_child(g, diag, p.parser.0 as int, id, s, pos, fl, fuel);
                if let Outcome::Parsed(v) = r {
                    lemma_many_bounds(g, diag, id, s, e, fl, fuel, seq![v]);
                }
            },
            Node::Optional(p) => {
                lemma_child_bounds(g, diag, p.parser.0 as int, id, s, pos, fl, fuel);
            },
            Node::Mapped(p) => {
                lemma_child_bounds(g, diag, p.parser.0 as int, id, s, pos, fl, fuel);
            },
            Node::Describe(p) => {
                lemma_child_bounds(g, diag, p.parser.0 as int, id, s, pos, fl, fuel);
            },
            Node::BoxDescribe(p) => {
                lemma_child_bounds(g, diag, p.parser.0 as int, id, s, pos, fl, fuel);
            },
            Node::Rec(p) => {
                lemma_child_bounds(g, diag, p.parser.0 as int, id, s, pos, fl, fuel);
            },
            Node::RecRef(r) => {
                if let Some(t) = r.target {
                    if fl[id] <= pos && fuel > 0 && 0 <= t.0 < g.len() {
                        lemma_cursor_bounds(
                            g,
                            diag,
                            t.0 as int,
                            s,
                            pos,
                            fl.update(id, (pos + 1) as usize),
                            (fuel - 1) as nat,
                        );
                    }
                }
            },
            Node::MultiTest(mp) => {
                lemma_run_end(mp.class, s, pos);
            },
            Node::MultiTestWithReduce(mp) => {
                lemma_run_end(mp.class, s, pos);
            },
            Node::UInt(_) => {
                lemma_run_end(digit_class::<P>(), s, pos);
            },
            Node::UFloat(_) => {
                lemma_run_end(digit_class::<P>(), s, pos);
                let e = run_end(digit_class::<P>(), s, pos);
                if e < s.len() {
                    lemma_run_end(digit_class::<P>(), s, e + 1);
                }
            },
            Node::WhiteSpace(_) => {
                lemma_run_end(ElemClass::<P>::Whitespace, s, pos);
            },
            _ => {},
        }
    }
}

proof fn lemma_child_bounds<P: Parsable>(
    g: Seq<Node<P>>,
    diag: bool,
    c: int,
    id: int,
    s: Seq<P::T>,
    pos: int,
    fl: Seq<usize>,
    fuel: nat,
)
    requires
        0 <= pos <= s.len(),
    ensures
        pos <= run_child(g, diag, c, id, s, pos, fl, fuel).0 <= s.len(),
    decreases fuel, id, 0int, 0int,
{
    if 0 <= c < id {
        lemma_cursor_bounds(g, diag, c, s, pos, fl, fuel);
    }
}

proof fn lemma_pair_bounds<P: Parsable>(
    g: Seq<Node<P>>,
    diag: bool,
    id: int,
    a: int,
    b: int,
    keep_first: bool,
    s: Seq<P::T>,
    pos: int,
    fl: Seq<usize>,
    fuel: nat,
)
    requires
        0 <= pos <= s.len(),
    ensures
        pos <= pair(g, diag, id, a, b, keep_first, s, pos, fl, fuel).0 <= s.len(),
    decreases fuel, id, 0int, 1int,
{
    lemma_child_bounds(g, diag, a, id, s, pos, fl, fuel);
    let (e1, r1) = run_child(g, diag, a, id, s, pos, fl, fuel);
    lemma_child_bounds(g, diag, b, id, s, e1, fl, fuel);
}

proof fn lemma_and_bounds<P: Parsable>(
    g: Seq<Node<P>>,
    diag: bool,
    id: int,
    k: int,
    s: Seq<P::T>,
    pos: int,
    fl: Seq<usize>,
    fuel: nat,
    acc: Seq<SpecValue<P::T>>,
)
    requires
        0 <= pos <= s.len(),
    ensures
        pos <= and_loop(g, diag, id, k, s, pos, fl, fuel, acc).0 <= s.len(),
    decreases fuel, id, 0int, branches(g[id]).len() - k + 1,
{
    let ids = branches(g[id]);
    if 0 <= id < g.len() && 0 <= k < ids.len() {
        lemma_child_bounds(g, diag, ids[k].0 as int, id, s, pos, fl, fuel);
        let (e, r) = run_child(g, diag, ids[k].0 as int, id, s, pos, fl, fuel);
        if let Outcome::Parsed(v) = r {
            lemma_and_bounds(g, diag, id, k + 1, s, e, fl, fuel, acc.push(v));
        }
    }
}

proof fn lemma_or_bounds<P: Parsable>(
    g: Seq<Node<P>>,
    diag: bool,
    id: int,
    k: int,
    tagged: bool,
    s: Seq<P::T>,
    pos: int,
    fl: Seq<usize>,
    fuel: nat,
    acc: Option<FailureView>,
)
    requires
        0 <= pos <= s.len(),
    ensures
        pos <= or_loop(g, diag, id, k, tagged, s, pos, fl, fuel, acc).0 <= s.len(),
    decreases fuel, id, 0int, branches(g[id]).len() - k + 1,
{
    let ids = branches(g[id]);
    if 0 <= id < g.len() && 0 <= k < ids.len() {
        lemma_child_bounds(g, diag, ids[k].0 as int, id, s, pos, fl, fuel);
        let (e, r) = run_child(g, diag, ids[k].0 as int, id, s, pos, fl, fuel);
        if let Outcome::Failed(f) = r {
            let merged = match acc {
                Some(a) => merge_spec(a, f),
                None => f,
            };
            lemma_or_bounds(g, diag, id, k + 1, tagged, s, pos, fl, fuel, Some(merged));
        }
    }
}

proof fn lemma_sep_bounds<P: Parsable>(
    g: Seq<Node<P>>,
    diag: bool,
    id: int,
    s: Seq<P::T>,
    pos: int,
    fl: Seq<usize>,
    fuel: nat,
    acc: Seq<SpecValue<P::T>>,
)
    requires
        0 <= pos <= s.len(),
    ensures
        pos <= sep_loop(g, diag, id, s, pos, fl, fuel, acc).0 <= s.len(),
    decreases fuel, id, 0int, s.len() - pos + 1,
{
    if 0 <= id < g.len() && g[id] is SeparatedBy {
        let sp = g[id]->SeparatedBy_0;
        lemma_child_bounds(g, diag, sp.separator.0 as int, id, s, pos, fl, fuel);
        let (es, rs) = run_child(g, diag, sp.separator.0 as int, id, s, pos, fl, fuel);
        lemma_child_bounds(g, diag, sp.parser.0 as int, id, s, es, fl, fuel);
        let (ep, rp) = run_child(g, diag, sp.parser.0 as int, id, s, es, fl, fuel);
        if let Outcome::Parsed(v) = rp {
            if pos < ep <= s.len() {
                lemma_sep_bounds(g, diag, id, s, ep, fl, fuel, acc.push(v));
            }
        }
    }
}

proof fn lemma_many_bounds<P: Parsable>(
    g: Seq<Node<P>>,
    diag: bool,
    id: int,
    s: Seq<P::T>,
    pos: int,
    fl: Seq<usize>,
    fuel: nat,
    acc: Seq<SpecValue<P::T>>,
)
    requires
        0 <= pos <= s.len(),
    ensures
        pos <= many_loop(g, diag, id, s, pos, fl, fuel, acc).0 <= s.len(),
    decreases fuel, id, 0int, s.len() - pos + 1,
{
    if 0 <= id < g.len() {
        let (e, r) = run_child(g, diag, repeated(g[id]), id, s, pos, fl, fuel);
        if let Outcome::Parsed(v) = r {
            if pos < e <= s.len() {
                lemma_many_bounds(g, diag, id, s, e, fl, fuel, acc.push(v));
            }
        }
    }
}

/// A repetition runs its parser from the cursor: a success that consumes
/// input is collected and the repetition goes on from where it ended; a
/// failure, or a success that consumes nothing, ends it with the outputs
/// collected so far and the cursor where the attempt began.
pub proof fn lemma_many_step<P: Parsable>(
    g: Seq<Node<P>>,
    diag: bool,
    id: int,
    s: Seq<P::T>,
    pos: int,
    fl: Seq<usize>,
    fuel: nat,
    acc: Seq<SpecValue<P::T>>,
)
    requires
        0 <= id < g.len(),
        g[id] is Many,
        0 <= repeated(g[id]) < id,
        0 <= pos <= s.len(),
        fl.len() == g.len(),
    ensures
        spec_parse(g, diag, id, s, pos, fl, fuel) == many_loop(
            g,
            diag,
            id,
            s,
            pos,
            fl,
            fuel,
            Seq::empty(),
        ),
        ({
            let (e, r) = spec_parse(g, diag, repeated(g[id]), s, pos, fl, fuel);
            many_loop(g, diag, id, s, pos, fl, fuel, acc) == match r {
                Outcome::Parsed(v) => if pos < e {
                    many_loop(g, diag, id, s, e, fl, fuel, acc.push(v))
                } else {
                    (pos, Outcome::Parsed(SpecValue::List(acc)))
                },
                Outcome::Failed(_) => (pos, Outcome::<P::T>::Parsed(SpecValue::List(acc))),
            }
        }),
{
    lemma_cursor_bounds(g, diag, repeated(g[id]), s, pos, fl, fuel);
    let (e, r) = spec_parse(g, diag, repeated(g[id]), s, pos, fl, fuel);
    assert(run_child(g, diag, repeated(g[id]), id, s, pos, fl, fuel) == (e, r));
}

/// A repetition never fails.
pub proof fn lemma_many_never_fails<P: Parsable>(
    g: Seq<Node<P>>,
    diag: bool,
    id: int,
    s: Seq<P::T>,
    pos: int,
    fl: Seq<usize>,
    fuel: nat,
)
    requires
        0 <= id < g.len(),
        g[id] is Many,
        0 <= pos <= s.len(),
        fl.len() == g.len(),
    ensures
        spec_parse(g, diag, id, s, pos, fl, fuel).1 is Parsed,
        spec_parse(g, diag, id, s, pos, fl, fuel).1->Parsed_0 is List,
{
    lemma_many_loop_succeeds(g, diag, id, s, pos, fl, fuel, Seq::empty());
}

proof fn lemma_many_loop_succeeds<P: Parsable>(
    g: Seq<Node<P>>,
    diag: bool,
    id: int,
    s: Seq<P::T>,
    pos: int,
    fl: Seq<usize>,
    fuel: nat,
    acc: Seq<SpecValue<P::T>>,
)
    requires
        0 <= id < g.len(),
        0 <= pos <= s.len(),
    ensures
        many_loop(g, diag, id, s, pos, fl, fuel, acc).1 is Parsed,
        many_loop(g, diag, id, s, pos, fl, fuel, acc).1->Parsed_0 is List,
    decreases s.len() - pos,
{
    let (e, r) = run_child(g, diag, repeated(g[id]), id, s, pos, fl, fuel);
    if r is Parsed && pos < e <= s.len() {
        lemma_many_loop_succeeds(g, diag, id, s, e, fl, fuel, acc.push(r->Parsed_0));
    }
}

} // verus!
