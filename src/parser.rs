//! Grammars: tables of parser descriptors that refer to each other by index,
//! and the interpreter that runs them.
pub use crate::semantics::{Node, Outcome, ParserId};
use crate::atomic_parsers::EofParser;
use crate::combinator_parsers::{
    AndParser, OrParser, SameOrParser, SeparatedByParser, SkipParser, SurroundParser, ThenParser,
};
use crate::parsable::Parsable;
use crate::semantics::{
    and_loop, boxed_label, branches, budget, fail_with, failure_opt_view, floors_ok, is_leaf,
    is_scan, lemma_budget_nonneg, lemma_budget_update, many_loop, node_wf, nodes_wf, or_loop, pair,
    repeated, result_view, run_child, sep_loop, spec_parse, start_floors,
};
use crate::text::{chars_of_string, join_with};
use crate::transformation_parsers::{
    BoxDescribeParser, DescribeParser, ManyNonEmptyParser, ManyParser, MapParser, OptionalParser,
    RecParser, RecRefParser, Transform,
};
use crate::utility_parsers::{
    digit_values, fold_range, lemma_run_end, scan_run, ElemClass, Reduce,
};
use crate::value::{lemma_values_view_push, values_view, SpecValue, Value};
use crate::{
    expected_view, merge_spec, GenericParseResult, ParseFailure, ParseResult, ParsingPosition,
};
use vstd::prelude::*;

verus! {

/// A grammar: a table of parser descriptors.  `ERROR` says whether failures
/// carry labels of what was expected.
pub struct Grammar<P: Parsable, const ERROR: bool> {
    pub nodes: Vec<Node<P>>,
}

impl<P: Parsable, const ERROR: bool> Grammar<P, ERROR> {
    /// Every descriptor refers only to those before it, but for recursive
    /// cells, which are all filled.
    pub open spec fn wf(&self) -> bool {
        nodes_wf(self.nodes@)
    }

    /// What running the parser `root` on `input` from its start yields.
    pub open spec fn spec_run(&self, root: int, input: Seq<P::T>, pos: int) -> (int, Outcome<P::T>) {
        let fl = start_floors(self.nodes@.len());
        spec_parse(self.nodes@, ERROR, root, input, pos, fl, budget(fl, input.len() as int) as nat)
    }

    pub open spec fn can_run(&self, input: Seq<P::T>, pos: int, fl: Seq<usize>, fuel: nat) -> bool {
        &&& self.wf()
        &&& input.len() < usize::MAX
        &&& P::eq_is_exact()
        &&& 0 <= pos <= input.len()
        &&& floors_ok(fl, input.len() as int, self.nodes@.len() as int)
        &&& fuel >= budget(fl, input.len() as int)
    }

    pub fn new() -> (r: Self)
        ensures
            r.nodes@.len() == 0,
    {
        Grammar { nodes: Vec::new() }
    }

    /// Adds a descriptor and returns its index.
    pub fn add(&mut self, node: Node<P>) -> (id: ParserId)
        ensures
            final(self).nodes@ == old(self).nodes@.push(node),
            id.0 == old(self).nodes@.len(),
    {
        let id = self.nodes.len();
        self.nodes.push(node);
        ParserId(id)
    }

    /// Adds an empty recursive cell, to be filled with [`Grammar::set`].
    /// A cell reached again at the position where it is already being
    /// expanded, without any input consumed in between, fails with the label
    /// "progress before recursion" instead of recursing forever: a grammar
    /// that is left-recursive there has no finite parse.
    pub fn rec_ref(&mut self) -> (id: ParserId)
        ensures
            final(self).nodes@ == old(self).nodes@.push(Node::RecRef(RecRefParser { target: None })),
            id.0 == old(self).nodes@.len(),
    {
        self.add(Node::RecRef(RecRefParser::new()))
    }

    /// Adds a parser that runs the parser held by `cell`.
    pub fn rec(&mut self, cell: ParserId) -> (id: ParserId)
        ensures
            final(self).nodes@ == old(self).nodes@.push(Node::Rec(RecParser { parser: cell })),
            id.0 == old(self).nodes@.len(),
    {
        self.add(Node::Rec(RecParser::new(cell)))
    }

    /// `a` then `b`, keeping both outputs.
    pub fn and(&mut self, a: ParserId, b: ParserId) -> (id: ParserId)
        ensures
            final(self).nodes@.len() == old(self).nodes@.len() + 1,
            final(self).nodes@.drop_last() == old(self).nodes@,
            final(self).nodes@.last() is And,
            final(self).nodes@.last()->And_0.parsers@ == seq![a, b],
            id.0 == old(self).nodes@.len(),
    {
        self.add(Node::And(AndParser::new2(a, b)))
    }

    /// `a` or else `b`, with the branch tagged.
    pub fn or(&mut self, a: ParserId, b: ParserId) -> (id: ParserId)
        ensures
            final(self).nodes@.len() == old(self).nodes@.len() + 1,
            final(self).nodes@.drop_last() == old(self).nodes@,
            final(self).nodes@.last() is Or,
            final(self).nodes@.last()->Or_0.parsers@ == seq![a, b],
            id.0 == old(self).nodes@.len(),
    {
        self.add(Node::Or(OrParser::new2(a, b)))
    }

    /// `a` or else `b`, untagged.
    pub fn or_same(&mut self, a: ParserId, b: ParserId) -> (id: ParserId)
        ensures
            final(self).nodes@.len() == old(self).nodes@.len() + 1,
            final(self).nodes@.drop_last() == old(self).nodes@,
            final(self).nodes@.last() is SameOr,
            final(self).nodes@.last()->SameOr_0.parsers@ == seq![a, b],
            id.0 == old(self).nodes@.len(),
    {
        self.add(Node::SameOr(SameOrParser::new2(a, b)))
    }

    /// `p` with its output transformed.
    pub fn map(&mut self, p: ParserId, transform: Transform<P>) -> (id: ParserId)
        ensures
            final(self).nodes@ == old(self).nodes@.push(
                Node::Mapped(MapParser { parser: p, transform }),
            ),
            id.0 == old(self).nodes@.len(),
    {
        self.add(Node::Mapped(MapParser::new(p, transform)))
    }

    /// `a` then `b`, keeping the output of `a`.
    pub fn skip(&mut self, a: ParserId, b: ParserId) -> (id: ParserId)
        ensures
            final(self).nodes@ == old(self).nodes@.push(
                Node::Skip(SkipParser { parser1: a, parser2: b }),
            ),
            id.0 == old(self).nodes@.len(),
    {
        self.add(Node::Skip(SkipParser::new(a, b)))
    }

    /// `a` then `b`, keeping the output of `b`.
    pub fn then(&mut self, a: ParserId, b: ParserId) -> (id: ParserId)
        ensures
            final(self).nodes@ == old(self).nodes@.push(
                Node::Then(ThenParser { parser1: a, parser2: b }),
            ),
            id.0 == old(self).nodes@.len(),
    {
        self.add(Node::Then(ThenParser::new(a, b)))
    }

    /// `p`, which must then reach the end of the input.
    pub fn then_eof(&mut self, p: ParserId) -> (id: ParserId)
        ensures
            final(self).nodes@ == old(self).nodes@.push(Node::Eof(EofParser)).push(
                Node::Skip(SkipParser { parser1: p, parser2: ParserId(old(self).nodes@.len() as usize) }),
            ),
            id.0 == old(self).nodes@.len() + 1,
    {
        let eof = self.add(Node::Eof(EofParser::new()));
        self.add(Node::Skip(SkipParser::new(p, eof)))
    }

    /// Zero or more matches of `p`.
    pub fn many(&mut self, p: ParserId) -> (id: ParserId)
        ensures
            final(self).nodes@ == old(self).nodes@.push(Node::Many(ManyParser { parser: p })),
            id.0 == old(self).nodes@.len(),
    {
        self.add(Node::Many(ManyParser::new(p)))
    }

    /// One or more matches of `p`.
    pub fn many_non_empty(&mut self, p: ParserId) -> (id: ParserId)
        ensures
            final(self).nodes@ == old(self).nodes@.push(
                Node::ManyNonEmpty(ManyNonEmptyParser { parser: p }),
            ),
            id.0 == old(self).nodes@.len(),
    {
        self.add(Node::ManyNonEmpty(ManyNonEmptyParser::new(p)))
    }

    /// One or more matches of `p` with `separator` between them.
    pub fn separated_by(&mut self, p: ParserId, separator: ParserId) -> (id: ParserId)
        ensures
            final(self).nodes@ == old(self).nodes@.push(
                Node::SeparatedBy(SeparatedByParser { parser: p, separator }),
            ),
            id.0 == old(self).nodes@.len(),
    {
        self.add(Node::SeparatedBy(SeparatedByParser::new(p, separator)))
    }

    /// `p` if it matches.
    pub fn optional(&mut self, p: ParserId) -> (id: ParserId)
        ensures
            final(self).nodes@ == old(self).nodes@.push(Node::Optional(OptionalParser { parser: p })),
            id.0 == old(self).nodes@.len(),
    {
        self.add(Node::Optional(OptionalParser::new(p)))
    }

    /// `p` with `other` on both sides.
    pub fn trim(&mut self, p: ParserId, other: ParserId) -> (id: ParserId)
        ensures
            final(self).nodes@ == old(self).nodes@.push(
                Node::Surround(SurroundParser { parser: p, left: other, right: other }),
            ),
            id.0 == old(self).nodes@.len(),
    {
        self.add(Node::Surround(SurroundParser::new(p, other, other)))
    }

    /// `p` between `l` and `r`.
    pub fn surround(&mut self, p: ParserId, l: ParserId, r: ParserId) -> (id: ParserId)
        ensures
            final(self).nodes@ == old(self).nodes@.push(
                Node::Surround(SurroundParser { parser: p, left: l, right: r }),
            ),
            id.0 == old(self).nodes@.len(),
    {
        self.add(Node::Surround(SurroundParser::new(p, l, r)))
    }

    /// `p`, failing with the single label `label`.
    pub fn describe(&mut self, p: ParserId, label: String) -> (id: ParserId)
        ensures
            final(self).nodes@ == old(self).nodes@.push(
                Node::Describe(DescribeParser { parser: p, label }),
            ),
            id.0 == old(self).nodes@.len(),
    {
        self.add(Node::Describe(DescribeParser::new(p, label)))
    }

    /// `p`, failing with its labels folded into one that names `label`.
    pub fn box_describe(&mut self, p: ParserId, label: String) -> (id: ParserId)
        ensures
            final(self).nodes@ == old(self).nodes@.push(
                Node::BoxDescribe(BoxDescribeParser { parser: p, label }),
            ),
            id.0 == old(self).nodes@.len(),
    {
        self.add(Node::BoxDescribe(BoxDescribeParser::new(p, label)))
    }

    /// Fills the recursive cell `cell` with `parser`.  Only an empty cell
    /// can be filled; otherwise nothing changes and the result is false.
    pub fn set(&mut self, cell: ParserId, parser: ParserId) -> (r: bool)
        ensures
            r == (cell.0 < old(self).nodes@.len() && old(self).nodes@[cell.0 as int] is RecRef
                && old(self).nodes@[cell.0 as int]->RecRef_0.target is None),
            r ==> final(self).nodes@ == old(self).nodes@.update(
                cell.0 as int,
                Node::RecRef(RecRefParser { target: Some(parser) }),
            ),
            !r ==> final(self).nodes@ == old(self).nodes@,
    {
        if cell.0 >= self.nodes.len() {
            return false;
        }
        let empty = match &self.nodes[cell.0] {
            Node::RecRef(c) => c.target.is_none(),
            _ => false,
        };
        if !empty {
            return false;
        }
        let mut filled = RecRefParser::new();
        filled.set(parser);
        self.nodes.set(cell.0, Node::RecRef(filled));
        true
    }

    /// Whether the grammar is well formed.
    pub fn check(&self) -> (r: bool)
        ensures
            r == self.wf(),
    {
        let len = self.nodes.len();
        let mut i: usize = 0;
        while i < len
            invariant
                len == self.nodes@.len(),
                i <= len,
                forall|j: int| 0 <= j < i ==> node_wf(#[trigger] self.nodes@[j], j, len as int),
            decreases len - i,
        {
            if !check_node(&self.nodes[i], i, len) {
                return false;
            }
            i = i + 1;
        }
        true
    }

    /// A failure at the cursor that expected `label`; the label is only
    /// allocated when diagnostics are on.
    fn fail_at_str(&self, position: &ParsingPosition, label: &str) -> (r: ParseResult<Value<P>>)
        ensures
            (position@ as int, result_view(r)) == fail_with::<P::T>(
                position@ as int,
                ERROR,
                label@,
            ),
    {
        let expected = if ERROR {
            let v = vec![String::from_str(label)];
            assert(crate::labels_view(v) =~= seq![label@]);
            Some(v)
        } else {
            None
        };
        GenericParseResult::Failure(ParseFailure { furthest: *position, expected })
    }

    /// Runs the parser `root` on `input` from its start.
    pub fn parse(&self, root: ParserId, input: &[P::T]) -> (r: ParseResult<Value<P>>)
        requires
            self.wf(),
            root.0 < self.nodes@.len(),
            input@.len() < usize::MAX,
            P::eq_is_exact(),
        ensures
            result_view(r) == self.spec_run(root.0 as int, input@, 0).1,
    {
        let mut position = ParsingPosition::new(0);
        self.parse_from(root, input, &mut position)
    }

    /// Runs the parser `root` on `input` from the cursor, and advances the
    /// cursor to where the parser left it.
    pub fn parse_from(&self, root: ParserId, input: &[P::T], position: &mut ParsingPosition) -> (r:
        ParseResult<Value<P>>)
        requires
            self.wf(),
            root.0 < self.nodes@.len(),
            input@.len() < usize::MAX,
            old(position)@ <= input@.len(),
            P::eq_is_exact(),
        ensures
            (final(position)@ as int, result_view(r)) == self.spec_run(
                root.0 as int,
                input@,
                old(position)@ as int,
            ),
            old(position)@ <= final(position)@ <= input@.len(),
    {
        let mut floors: Vec<usize> = Vec::new();
        let mut i: usize = 0;
        while i < self.nodes.len()
            invariant
                i <= self.nodes@.len(),
                floors@ =~= start_floors(i as nat),
            decreases self.nodes@.len() - i,
        {
            floors.push(0);
            i = i + 1;
        }
        let ghost fuel = budget(floors@, input@.len() as int);
        proof {
            lemma_budget_nonneg(floors@, input@.len() as int);
        }
        self.parse_node(root.0, input, position, &mut floors, Ghost(fuel as nat))
    }

    fn expected_of(&self, label: &String) -> (r: Option<Vec<String>>)
        ensures
            expected_view(r) == if ERROR {
                Some(seq![label@])
            } else {
                None
            },
    {
        if ERROR {
            let v = vec![label.clone()];
            assert(crate::labels_view(v) =~= seq![label@]);
            Some(v)
        } else {
            None
        }
    }

    fn fail_at(&self, position: &ParsingPosition, label: &String) -> (r: ParseResult<Value<P>>)
        ensures
            (position@ as int, result_view(r)) == fail_with::<P::T>(
                position@ as int,
                ERROR,
                label@,
            ),
    {
        GenericParseResult::Failure(ParseFailure { furthest: *position, expected: self.expected_of(label) })
    }

    /// Runs the parser at `id` from the cursor.
    fn parse_node(
        &self,
        id: usize,
        input: &[P::T],
        position: &mut ParsingPosition,
        floors: &mut Vec<usize>,
        Ghost(fuel): Ghost<nat>,
    ) -> (r: ParseResult<Value<P>>)
        requires
            self.can_run(input@, old(position)@ as int, old(floors)@, fuel),
            id < self.nodes@.len(),
        ensures
            (final(position)@ as int, result_view(r)) == spec_parse(
                self.nodes@,
                ERROR,
                id as int,
                input@,
                old(position)@ as int,
                old(floors)@,
                fuel,
            ),
            old(position)@ <= final(position)@ <= input@.len(),
            final(floors)@ == old(floors)@,
        decreases fuel, id, 1int, 0int,
    {
        let ghost g = self.nodes@;
        let n = input.len();
        let pos = position.0;
        let node = &self.nodes[id];
        assert(node_wf(g[id as int], id as int, g.len() as int));
        match node {
            Node::Literal(lp) => {
                if pos < n && P::t_eq(&input[pos], &lp.literal) {
                    let t = P::t_clone(&input[pos]);
                    position.0 = pos + 1;
                    GenericParseResult::Success(Value::Elem(t))
                } else {
                    self.fail_at(position, &lp.label)
                }
            },
            Node::LiteralNoOutput(lp) => {
                if pos < n && P::t_eq(&input[pos], &lp.literal) {
                    position.0 = pos + 1;
                    GenericParseResult::Success(Value::Unit)
                } else {
                    self.fail_at(position, &lp.label)
                }
            },
            Node::LiteralList(lp) => {
                if starts_with::<P>(input, pos, lp.slice.as_slice()) {
                    position.0 = pos + lp.slice.len();
                    GenericParseResult::Success(Value::Run(P::list_clone(&lp.list)))
                } else {
                    self.fail_at(position, &lp.label)
                }
            },
            Node::LiteralListNoOutput(lp) => {
                if starts_with::<P>(input, pos, lp.slice.as_slice()) {
                    position.0 = pos + lp.slice.len();
                    GenericParseResult::Success(Value::Unit)
                } else {
                    self.fail_at(position, &lp.label)
                }
            },
            Node::LiteralListMap(lp) => {
                if starts_with::<P>(input, pos, lp.slice.as_slice()) {
                    position.0 = pos + lp.slice.len();
                    GenericParseResult::Success(lp.out.deep_clone())
                } else {
                    self.fail_at(position, &lp.label)
                }
            },
            Node::Eof(_) => {
                if pos >= n {
                    GenericParseResult::Success(Value::Unit)
                } else {
                    self.fail_at_str(position, "EOF")
                }
            },
            Node::Success(sp) => GenericParseResult::Success(sp.result.deep_clone()),
            _ => self.parse_compound(id, input, position, floors, Ghost(fuel)),
        }
    }

    fn parse_compound(
        &self,
        id: usize,
        input: &[P::T],
        position: &mut ParsingPosition,
        floors: &mut Vec<usize>,
        Ghost(fuel): Ghost<nat>,
    ) -> (r: ParseResult<Value<P>>)
        requires
            self.can_run(input@, old(position)@ as int, old(floors)@, fuel),
            id < self.nodes@.len(),
            !is_leaf(self.nodes@[id as int]),
        ensures
            (final(position)@ as int, result_view(r)) == spec_parse(
                self.nodes@,
                ERROR,
                id as int,
                input@,
                old(position)@ as int,
                old(floors)@,
                fuel,
            ),
            old(position)@ <= final(position)@ <= input@.len(),
            final(floors)@ == old(floors)@,
        decreases fuel, id, 0int, 3int,
    {
        let ghost g = self.nodes@;
        let ghost fl = floors@;
        let pos = position.0;
        let node = &self.nodes[id];
        assert(node_wf(g[id as int], id as int, g.len() as int));
        match node {
            Node::And(_) => {
                assert(spec_parse(g, ERROR, id as int, input@, pos as int, fl, fuel) == and_loop(
                    g,
                    ERROR,
                    id as int,
                    0,
                    input@,
                    pos as int,
                    fl,
                    fuel,
                    Seq::empty(),
                ));
                self.parse_and(id, input, position, floors, Ghost(fuel))
            },
            Node::Or(_) => self.parse_or(id, true, input, position, floors, Ghost(fuel)),
            Node::SameOr(_) => self.parse_or(id, false, input, position, floors, Ghost(fuel)),
            Node::Skip(_) | Node::Then(_) | Node::Surround(_) => self.parse_chain(id, input, position, floors, Ghost(fuel)),
            Node::SeparatedBy(_) | Node::Many(_) | Node::ManyNonEmpty(_) => self.parse_repeat(id, input, position, floors, Ghost(fuel)),
            Node::Optional(_) | Node::Mapped(_) | Node::Describe(_) | Node::BoxDescribe(_) | Node::Rec(_) => self.parse_wrapped(id, input, position, floors, Ghost(fuel)),
            Node::RecRef(_) => self.parse_rec_ref(id, input, position, floors, Ghost(fuel)),
            Node::Position(_)
            | Node::Any(_)
            | Node::Remaining(_)
            | Node::Test(_)
            | Node::MultiTest(_)
            | Node::MultiTestWithReduce(_)
            | Node::UInt(_)
            | Node::UFloat(_)
            | Node::WhiteSpace(_) => self.parse_scan(id, input, position, floors, Ghost(fuel)),
            Node::Literal(_)
            | Node::LiteralNoOutput(_)
            | Node::LiteralList(_)
            | Node::LiteralListNoOutput(_)
            | Node::LiteralListMap(_)
            | Node::Eof(_)
            | Node::Success(_) => vstd::pervasive::unreached(),
        }
    }

    fn parse_chain(
        &self,
        id: usize,
        input: &[P::T],
        position: &mut ParsingPosition,
        floors: &mut Vec<usize>,
        Ghost(fuel): Ghost<nat>,
    ) -> (r: ParseResult<Value<P>>)
        requires
            self.can_run(input@, old(position)@ as int, old(floors)@, fuel),
            id < self.nodes@.len(),
            self.nodes@[id as int] is Skip || self.nodes@[id as int] is Then || self.nodes@[id as int] is Surround,
        ensures
            (final(position)@ as int, result_view(r)) == spec_parse(
                self.nodes@,
                ERROR,
                id as int,
                input@,
                old(position)@ as int,
                old(floors)@,
                fuel,
            ),
            old(position)@ <= final(position)@ <= input@.len(),
            final(floors)@ == old(floors)@,
        decreases fuel, id, 0int, 2int,
    {
        proof {
            reveal_with_fuel(spec_parse, 2);
        }
        let ghost g = self.nodes@;
        let node = &self.nodes[id];
        assert(node_wf(g[id as int], id as int, g.len() as int));
        match node {
            Node::Skip(p) => self.parse_pair(
                id,
                p.parser1.0,
                p.parser2.0,
                true,
                input,
                position,
                floors,
                Ghost(fuel),
            ),
            Node::Then(p) => self.parse_pair(
                id,
                p.parser1.0,
                p.parser2.0,
                false,
                input,
                position,
                floors,
                Ghost(fuel),
            ),
            Node::Surround(p) => {
                let r1 = self.parse_node(p.left.0, input, position, floors, Ghost(fuel));
                match r1 {
                    GenericParseResult::Failure(f) => GenericParseResult::Failure(f),
                    GenericParseResult::Success(_) => self.parse_pair(
                        id,
                        p.parser.0,
                        p.right.0,
                        true,
                        input,
                        position,
                        floors,
                        Ghost(fuel),
                    ),
                }
            },
            _ => vstd::pervasive::unreached(),
        }
    }

    fn parse_repeat(
        &self,
        id: usize,
        input: &[P::T],
        position: &mut ParsingPosition,
        floors: &mut Vec<usize>,
        Ghost(fuel): Ghost<nat>,
    ) -> (r: ParseResult<Value<P>>)
        requires
            self.can_run(input@, old(position)@ as int, old(floors)@, fuel),
            id < self.nodes@.len(),
            self.nodes@[id as int] is SeparatedBy || self.nodes@[id as int] is Many || self.nodes@[id as int] is ManyNonEmpty,
        ensures
            (final(position)@ as int, result_view(r)) == spec_parse(
                self.nodes@,
                ERROR,
                id as int,
                input@,
                old(position)@ as int,
                old(floors)@,
                fuel,
            ),
            old(position)@ <= final(position)@ <= input@.len(),
            final(floors)@ == old(floors)@,
        decreases fuel, id, 0int, 2int,
    {
        proof {
            reveal_with_fuel(spec_parse, 2);
        }
        let ghost g = self.nodes@;
        let node = &self.nodes[id];
        assert(node_wf(g[id as int], id as int, g.len() as int));
        match node {
            Node::SeparatedBy(p) => {
                let r1 = self.parse_node(p.parser.0, input, position, floors, Ghost(fuel));
                match r1 {
                    GenericParseResult::Failure(f) => GenericParseResult::Failure(f),
                    GenericParseResult::Success(v) => {
                        let mut acc: Vec<Value<P>> = Vec::new();
                        proof {
                            lemma_values_view_push(acc@, v);
                        }
                        acc.push(v);
                        self.sep_from(id, acc, input, position, floors, Ghost(fuel))
                    },
                }
            },
            Node::Many(_) => {
                let acc: Vec<Value<P>> = Vec::new();
                assert(values_view(acc@) =~= Seq::<SpecValue<P::T>>::empty());
                self.many_from(id, acc, input, position, floors, Ghost(fuel))
            },
            Node::ManyNonEmpty(p) => {
                let r1 = self.parse_node(p.parser.0, input, position, floors, Ghost(fuel));
                match r1 {
                    GenericParseResult::Failure(f) => GenericParseResult::Failure(f),
                    GenericParseResult::Success(v) => {
                        let mut acc: Vec<Value<P>> = Vec::new();
                        proof {
                            lemma_values_view_push(acc@, v);
                        }
                        acc.push(v);
                        self.many_from(id, acc, input, position, floors, Ghost(fuel))
                    },
                }
            },
            _ => vstd::pervasive::unreached(),
        }
    }

    fn parse_wrapped(
        &self,
        id: usize,
        input: &[P::T],
        position: &mut ParsingPosition,
        floors: &mut Vec<usize>,
        Ghost(fuel): Ghost<nat>,
    ) -> (r: ParseResult<Value<P>>)
        requires
            self.can_run(input@, old(position)@ as int, old(floors)@, fuel),
            id < self.nodes@.len(),
            self.nodes@[id as int] is Optional || self.nodes@[id as int] is Mapped || self.nodes@[id as int] is Describe || self.nodes@[id as int] is BoxDescribe || self.nodes@[id as int] is Rec,
        ensures
            (final(position)@ as int, result_view(r)) == spec_parse(
                self.nodes@,
                ERROR,
                id as int,
                input@,
                old(position)@ as int,
                old(floors)@,
                fuel,
            ),
            old(position)@ <= final(position)@ <= input@.len(),
            final(floors)@ == old(floors)@,
        decreases fuel, id, 0int, 2int,
    {
        proof {
            reveal_with_fuel(spec_parse, 2);
        }
        let ghost g = self.nodes@;
        let pos = position.0;
        let node = &self.nodes[id];
        assert(node_wf(g[id as int], id as int, g.len() as int));
        match node {
            Node::Optional(p) => {
                let r1 = self.parse_node(p.parser.0, input, position, floors, Ghost(fuel));
                match r1 {
                    GenericParseResult::Success(v) => GenericParseResult::Success(
                        Value::Optional(Some(Box::new(v))),
                    ),
                    GenericParseResult::Failure(_) => {
                        position.0 = pos;
                        GenericParseResult::Success(Value::Optional(None))
                    },
                }
            },
            Node::Mapped(p) => {
                let r1 = self.parse_node(p.parser.0, input, position, floors, Ghost(fuel));
                match r1 {
                    GenericParseResult::Success(v) => GenericParseResult::Success(
                        p.transform.apply(v),
                    ),
                    GenericParseResult::Failure(f) => GenericParseResult::Failure(f),
                }
            },
            Node::Describe(p) => {
                let r1 = self.parse_node(p.parser.0, input, position, floors, Ghost(fuel));
                match r1 {
                    GenericParseResult::Success(v) => GenericParseResult::Success(v),
                    GenericParseResult::Failure(f) => GenericParseResult::Failure(
                        ParseFailure { furthest: f.furthest, expected: self.expected_of(&p.label) },
                    ),
                }
            },
            Node::BoxDescribe(p) => {
                let r1 = self.parse_node(p.parser.0, input, position, floors, Ghost(fuel));
                match r1 {
                    GenericParseResult::Success(v) => GenericParseResult::Success(v),
                    GenericParseResult::Failure(f) => {
                        let expected = match f.expected {
                            Some(ls) => {
                                let v = vec![boxed(&ls, &p.label)];
                                assert(crate::labels_view(v) =~= seq![
                                    boxed_label(crate::labels_view(ls), p.label@),
                                ]);
                                Some(v)
                            },
                            None => None,
                        };
                        GenericParseResult::Failure(ParseFailure { furthest: f.furthest, expected })
                    },
                }
            },
            Node::Rec(p) => self.parse_node(p.parser.0, input, position, floors, Ghost(fuel)),
            _ => vstd::pervasive::unreached(),
        }
    }

    fn parse_rec_ref(
        &self,
        id: usize,
        input: &[P::T],
        position: &mut ParsingPosition,
        floors: &mut Vec<usize>,
        Ghost(fuel): Ghost<nat>,
    ) -> (r: ParseResult<Value<P>>)
        requires
            self.can_run(input@, old(position)@ as int, old(floors)@, fuel),
            id < self.nodes@.len(),
            self.nodes@[id as int] is RecRef,
        ensures
            (final(position)@ as int, result_view(r)) == spec_parse(
                self.nodes@,
                ERROR,
                id as int,
                input@,
                old(position)@ as int,
                old(floors)@,
                fuel,
            ),
            old(position)@ <= final(position)@ <= input@.len(),
            final(floors)@ == old(floors)@,
        decreases fuel, id, 0int, 2int,
    {
        proof {
            reveal_with_fuel(spec_parse, 2);
        }
        let ghost g = self.nodes@;
        let ghost fl = floors@;
        let pos = position.0;
        let n = input.len();
        let node = &self.nodes[id];
        assert(node_wf(g[id as int], id as int, g.len() as int));
        match node {
            Node::RecRef(c) => {
                let t = match c.target {
                    Some(t) => t.0,
                    None => {
                        return vstd::pervasive::unreached();
                    },
                };
                let floor = floors[id];
                if floor <= pos {
                    proof {
                        lemma_budget_update(fl, id as int, (pos + 1) as usize, n as int);
                        lemma_budget_nonneg(fl.update(id as int, (pos + 1) as usize), n as int);
                    }
                    floors.set(id, pos + 1);
                    let r = self.parse_node(t, input, position, floors, Ghost((fuel - 1) as nat));
                    floors.set(id, floor);
                    assert(floors@ =~= fl);
                    r
                } else {
                    self.fail_at_str(position, "progress before recursion")
                }
            },
            _ => vstd::pervasive::unreached(),
        }
    }

    fn parse_and(
        &self,
        id: usize,
        input: &[P::T],
        position: &mut ParsingPosition,
        floors: &mut Vec<usize>,
        Ghost(fuel): Ghost<nat>,
    ) -> (r: ParseResult<Value<P>>)
        requires
            self.can_run(input@, old(position)@ as int, old(floors)@, fuel),
            id < self.nodes@.len(),
            self.nodes@[id as int] is And,
        ensures
            (final(position)@ as int, result_view(r)) == and_loop(
                self.nodes@,
                ERROR,
                id as int,
                0,
                input@,
                old(position)@ as int,
                old(floors)@,
                fuel,
                Seq::empty(),
            ),
            old(position)@ <= final(position)@ <= input@.len(),
            final(floors)@ == old(floors)@,
        decreases fuel, id, 0int, 1int,
    {
        let ghost g = self.nodes@;
        let ghost pos0 = position@ as int;
        let ghost fl = floors@;
        assert(node_wf(g[id as int], id as int, g.len() as int));
        let ids = match &self.nodes[id] {
            Node::And(a) => &a.parsers,
            _ => {
                return vstd::pervasive::unreached();
            },
        };
        let mut vals: Vec<Value<P>> = Vec::new();
        assert(values_view(vals@) =~= Seq::<SpecValue<P::T>>::empty());
        let mut k: usize = 0;
        while k < ids.len()
            invariant
                g == self.nodes@,
                id < g.len(),
                ids@ == branches(g[id as int]),
                g[id as int] is And,
                node_wf(g[id as int], id as int, g.len() as int),
                k <= ids@.len(),
                self.can_run(input@, position@ as int, fl, fuel),
                floors@ == fl,
                fl == old(floors)@,
                pos0 == old(position)@,
                pos0 <= position@ <= input@.len(),
                and_loop(g, ERROR, id as int, k as int, input@, position@ as int, fl, fuel, values_view(vals@))
                    == and_loop(g, ERROR, id as int, 0, input@, pos0, fl, fuel, Seq::empty()),
            decreases ids@.len() - k,
        {
            let c = ids[k].0;
            assert(c < id);
            let ghost before = position@ as int;
            let ghost vals_before = values_view(vals@);
            let r = self.parse_node(c, input, position, floors, Ghost(fuel));
            proof {
                assert(run_child(g, ERROR, c as int, id as int, input@, before, fl, fuel) == (
                position@ as int,
                result_view(r),
                ));
                assert(ids@[k as int].0 == c);
                assert(and_loop(g, ERROR, id as int, k as int, input@, before, fl, fuel, vals_before)
                    == match result_view(r) {
                    Outcome::Failed(f) => (position@ as int, Outcome::Failed(f)),
                    Outcome::Parsed(v) => and_loop(
                        g,
                        ERROR,
                        id as int,
                        k + 1,
                        input@,
                        position@ as int,
                        fl,
                        fuel,
                        vals_before.push(v),
                    ),
                });
            }
            match r {
                GenericParseResult::Failure(f) => {
                    return GenericParseResult::Failure(f);
                },
                GenericParseResult::Success(v) => {
                    proof {
                        lemma_values_view_push(vals@, v);
                    }
                    vals.push(v);
                    k = k + 1;
                },
            }
        }
        GenericParseResult::Success(Value::Tuple(vals))
    }

    fn parse_or(
        &self,
        id: usize,
        tagged: bool,
        input: &[P::T],
        position: &mut ParsingPosition,
        floors: &mut Vec<usize>,
        Ghost(fuel): Ghost<nat>,
    ) -> (r: ParseResult<Value<P>>)
        requires
            self.can_run(input@, old(position)@ as int, old(floors)@, fuel),
            id < self.nodes@.len(),
            self.nodes@[id as int] is Or || self.nodes@[id as int] is SameOr,
        ensures
            (final(position)@ as int, result_view(r)) == or_loop(
                self.nodes@,
                ERROR,
                id as int,
                0,
                tagged,
                input@,
                old(position)@ as int,
                old(floors)@,
                fuel,
                None,
            ),
            old(position)@ <= final(position)@ <= input@.len(),
            final(floors)@ == old(floors)@,
        decreases fuel, id, 0int, 1int,
    {
        let ghost g = self.nodes@;
        let ghost pos0 = position@ as int;
        let ghost fl = floors@;
        assert(node_wf(g[id as int], id as int, g.len() as int));
        let ids = match &self.nodes[id] {
            Node::Or(o) => &o.parsers,
            Node::SameOr(o) => &o.parsers,
            _ => {
                return vstd::pervasive::unreached();
            },
        };
        let start = position.0;
        let mut acc: Option<ParseFailure> = None;
        let mut k: usize = 0;
        while k < ids.len()
            invariant
                g == self.nodes@,
                id < g.len(),
                ids@ == branches(g[id as int]),
                g[id as int] is Or || g[id as int] is SameOr,
                node_wf(g[id as int], id as int, g.len() as int),
                k <= ids@.len(),
                self.can_run(input@, pos0, fl, fuel),
                floors@ == fl,
                fl == old(floors)@,
                pos0 == old(position)@,
                position@ == pos0,
                start == pos0,
                k > 0 ==> acc is Some,
                or_loop(
                    g,
                    ERROR,
                    id as int,
                    k as int,
                    tagged,
                    input@,
                    pos0,
                    fl,
                    fuel,
                    failure_opt_view(acc),
                ) == or_loop(g, ERROR, id as int, 0, tagged, input@, pos0, fl, fuel, None),
            decreases ids@.len() - k,
        {
            let c = ids[k].0;
            assert(c < id);
            let ghost acc_before = failure_opt_view(acc);
            let r = self.parse_node(c, input, position, floors, Ghost(fuel));
            proof {
                let e = position@ as int;
                assert(run_child(g, ERROR, c as int, id as int, input@, pos0, fl, fuel) == (
                e,
                result_view(r),
                ));
                assert(ids@[k as int].0 == c);
                assert(or_loop(g, ERROR, id as int, k as int, tagged, input@, pos0, fl, fuel, acc_before)
                    == match result_view(r) {
                    Outcome::Parsed(v) => (
                        e,
                        Outcome::Parsed(
                            if tagged {
                                SpecValue::Variant(k as nat, Box::new(v))
                            } else {
                                v
                            },
                        ),
                    ),
                    Outcome::Failed(f) => or_loop(
                        g,
                        ERROR,
                        id as int,
                        k + 1,
                        tagged,
                        input@,
                        pos0,
                        fl,
                        fuel,
                        Some(
                            match acc_before {
                                Some(a) => merge_spec(a, f),
                                None => f,
                            },
                        ),
                    ),
                });
            }
            match r {
                GenericParseResult::Success(v) => {
                    if tagged {
                        return GenericParseResult::Success(Value::Variant(k, Box::new(v)));
                    } else {
                        return GenericParseResult::Success(v);
                    }
                },
                GenericParseResult::Failure(f) => {
                    position.0 = start;
                    acc =
                    match acc {
                        Some(a) => Some(position.merge_failures(a, f)),
                        None => Some(f),
                    };
                    k = k + 1;
                },
            }
        }
        match acc {
            Some(f) => GenericParseResult::Failure(f),
            None => vstd::pervasive::unreached(),
        }
    }

    fn parse_pair(
        &self,
        id: usize,
        a: usize,
        b: usize,
        keep_first: bool,
        input: &[P::T],
        position: &mut ParsingPosition,
        floors: &mut Vec<usize>,
        Ghost(fuel): Ghost<nat>,
    ) -> (r: ParseResult<Value<P>>)
        requires
            self.can_run(input@, old(position)@ as int, old(floors)@, fuel),
            id < self.nodes@.len(),
            a < id,
            b < id,
        ensures
            (final(position)@ as int, result_view(r)) == pair(
                self.nodes@,
                ERROR,
                id as int,
                a as int,
                b as int,
                keep_first,
                input@,
                old(position)@ as int,
                old(floors)@,
                fuel,
            ),
            old(position)@ <= final(position)@ <= input@.len(),
            final(floors)@ == old(floors)@,
        decreases fuel, id, 0int, 1int,
    {
        let r1 = self.parse_node(a, input, position, floors, Ghost(fuel));
        match r1 {
            GenericParseResult::Failure(f) => GenericParseResult::Failure(f),
            GenericParseResult::Success(v1) => {
                let r2 = self.parse_node(b, input, position, floors, Ghost(fuel));
                match r2 {
                    GenericParseResult::Failure(f) => GenericParseResult::Failure(f),
                    GenericParseResult::Success(v2) => if keep_first {
                        GenericParseResult::Success(v1)
                    } else {
                        GenericParseResult::Success(v2)
                    },
                }
            },
        }
    }

    fn sep_from(
        &self,
        id: usize,
        init: Vec<Value<P>>,
        input: &[P::T],
        position: &mut ParsingPosition,
        floors: &mut Vec<usize>,
        Ghost(fuel): Ghost<nat>,
    ) -> (r: ParseResult<Value<P>>)
        requires
            self.can_run(input@, old(position)@ as int, old(floors)@, fuel),
            id < self.nodes@.len(),
            self.nodes@[id as int] is SeparatedBy,
        ensures
            (final(position)@ as int, result_view(r)) == sep_loop(
                self.nodes@,
                ERROR,
                id as int,
                input@,
                old(position)@ as int,
                old(floors)@,
                fuel,
                values_view(init@),
            ),
            old(position)@ <= final(position)@ <= input@.len(),
            final(floors)@ == old(floors)@,
        decreases fuel, id, 0int, 1int,
    {
        let ghost g = self.nodes@;
        let ghost pos0 = position@ as int;
        let ghost fl = floors@;
        let ghost acc0 = values_view(init@);
        let ghost total = sep_loop(g, ERROR, id as int, input@, pos0, fl, fuel, acc0);
        assert(node_wf(g[id as int], id as int, g.len() as int));
        let (p, sep) = match &self.nodes[id] {
            Node::SeparatedBy(sp) => (sp.parser.0, sp.separator.0),
            _ => {
                return vstd::pervasive::unreached();
            },
        };
        let mut acc = init;
        loop
            invariant
                g == self.nodes@,
                id < g.len(),
                g[id as int] is SeparatedBy,
                p == g[id as int]->SeparatedBy_0.parser.0,
                sep == g[id as int]->SeparatedBy_0.separator.0,
                p < id,
                sep < id,
                self.can_run(input@, position@ as int, fl, fuel),
                floors@ == fl,
                fl == old(floors)@,
                acc0 == values_view(init@),
                pos0 == old(position)@,
                pos0 <= position@ <= input@.len(),
                sep_loop(g, ERROR, id as int, input@, position@ as int, fl, fuel, values_view(acc@))
                    == total,
                total == sep_loop(g, ERROR, id as int, input@, pos0, fl, fuel, acc0),
            decreases input@.len() - position@,
        {
            let save = position.0;
            let ghost acc_before = values_view(acc@);
            let rs = self.parse_node(sep, input, position, floors, Ghost(fuel));
            let ghost es = position@ as int;
            proof {
                assert(run_child(g, ERROR, sep as int, id as int, input@, save as int, fl, fuel) == (
                es,
                result_view(rs),
                ));
            }
            if rs.is_failure() {
                position.0 = save;
                return GenericParseResult::Success(Value::List(acc));
            }
            let rp = self.parse_node(p, input, position, floors, Ghost(fuel));
            proof {
                let ep = position@ as int;
                assert(run_child(g, ERROR, p as int, id as int, input@, es, fl, fuel) == (
                ep,
                result_view(rp),
                ));
                assert(sep_loop(g, ERROR, id as int, input@, save as int, fl, fuel, acc_before)
                    == match result_view(rp) {
                    Outcome::Parsed(v) => if save < ep <= input@.len() {
                        sep_loop(g, ERROR, id as int, input@, ep, fl, fuel, acc_before.push(v))
                    } else {
                        (save as int, Outcome::Parsed(SpecValue::List(acc_before)))
                    },
                    Outcome::Failed(_) => (save as int, Outcome::Parsed(SpecValue::List(acc_before))),
                });
            }
            match rp {
                GenericParseResult::Success(v) => {
                    if position.0 > save {
                        proof {
                            lemma_values_view_push(acc@, v);
                        }
                        acc.push(v);
                    } else {
                        position.0 = save;
                        return GenericParseResult::Success(Value::List(acc));
                    }
                },
                GenericParseResult::Failure(_) => {
                    position.0 = save;
                    return GenericParseResult::Success(Value::List(acc));
                },
            }
        }
    }

    fn many_from(
        &self,
        id: usize,
        init: Vec<Value<P>>,
        input: &[P::T],
        position: &mut ParsingPosition,
        floors: &mut Vec<usize>,
        Ghost(fuel): Ghost<nat>,
    ) -> (r: ParseResult<Value<P>>)
        requires
            self.can_run(input@, old(position)@ as int, old(floors)@, fuel),
            id < self.nodes@.len(),
            self.nodes@[id as int] is Many || self.nodes@[id as int] is ManyNonEmpty,
        ensures
            (final(position)@ as int, result_view(r)) == many_loop(
                self.nodes@,
                ERROR,
                id as int,
                input@,
                old(position)@ as int,
                old(floors)@,
                fuel,
                values_view(init@),
            ),
            old(position)@ <= final(position)@ <= input@.len(),
            final(floors)@ == old(floors)@,
        decreases fuel, id, 0int, 1int,
    {
        let ghost g = self.nodes@;
        let ghost pos0 = position@ as int;
        let ghost fl = floors@;
        let ghost acc0 = values_view(init@);
        let ghost total = many_loop(g, ERROR, id as int, input@, pos0, fl, fuel, acc0);
        assert(node_wf(g[id as int], id as int, g.len() as int));
        let p = match &self.nodes[id] {
            Node::Many(m) => m.parser.0,
            Node::ManyNonEmpty(m) => m.parser.0,
            _ => {
                return vstd::pervasive::unreached();
            },
        };
        let mut acc = init;
        loop
            invariant
                g == self.nodes@,
                id < g.len(),
                p == repeated(g[id as int]),
                p < id,
                self.can_run(input@, position@ as int, fl, fuel),
                floors@ == fl,
                fl == old(floors)@,
                acc0 == values_view(init@),
                pos0 == old(position)@,
                pos0 <= position@ <= input@.len(),
                many_loop(g, ERROR, id as int, input@, position@ as int, fl, fuel, values_view(acc@))
                    == total,
                total == many_loop(g, ERROR, id as int, input@, pos0, fl, fuel, acc0),
            decreases input@.len() - position@,
        {
            let save = position.0;
            let ghost acc_before = values_view(acc@);
            let r = self.parse_node(p, input, position, floors, Ghost(fuel));
            proof {
                let e = position@ as int;
                assert(run_child(g, ERROR, p as int, id as int, input@, save as int, fl, fuel) == (
                e,
                result_view(r),
                ));
                assert(many_loop(g, ERROR, id as int, input@, save as int, fl, fuel, acc_before)
                    == match result_view(r) {
                    Outcome::Parsed(v) => if save < e <= input@.len() {
                        many_loop(g, ERROR, id as int, input@, e, fl, fuel, acc_before.push(v))
                    } else {
                        (save as int, Outcome::Parsed(SpecValue::List(acc_before)))
                    },
                    Outcome::Failed(_) => (save as int, Outcome::Parsed(SpecValue::List(acc_before))),
                });
            }
            match r {
                GenericParseResult::Success(v) => {
                    if position.0 > save {
                        proof {
                            lemma_values_view_push(acc@, v);
                        }
                        acc.push(v);
                    } else {
                        position.0 = save;
                        return GenericParseResult::Success(Value::List(acc));
                    }
                },
                GenericParseResult::Failure(_) => {
                    position.0 = save;
                    return GenericParseResult::Success(Value::List(acc));
                },
            }
        }
    }

    fn parse_scan(
        &self,
        id: usize,
        input: &[P::T],
        position: &mut ParsingPosition,
        floors: &Vec<usize>,
        Ghost(fuel): Ghost<nat>,
    ) -> (r: ParseResult<Value<P>>)
        requires
            self.wf(),
            input@.len() < usize::MAX,
            P::eq_is_exact(),
            old(position)@ <= input@.len(),
            floors@.len() == self.nodes@.len(),
            id < self.nodes@.len(),
            is_scan(self.nodes@[id as int]),
        ensures
            (final(position)@ as int, result_view(r)) == spec_parse(
                self.nodes@,
                ERROR,
                id as int,
                input@,
                old(position)@ as int,
                floors@,
                fuel,
            ),
            old(position)@ <= final(position)@ <= input@.len(),
    {
        let ghost s = input@;
        let pos = position.0;
        let n = input.len();
        match &self.nodes[id] {
            Node::Position(_) => GenericParseResult::Success(Value::Position(pos)),
            Node::Any(_) => {
                if pos < n {
                    let t = P::t_clone(&input[pos]);
                    position.0 = pos + 1;
                    GenericParseResult::Success(Value::Elem(t))
                } else {
                    self.fail_at_str(position, "any character")
                }
            },
            Node::Remaining(_) => {
                let l = P::slice_to_list(&input[pos..n]);
                position.0 = n;
                GenericParseResult::Success(Value::Run(l))
            },
            Node::Test(tp) => {
                if pos < n && tp.class.accepts(&input[pos]) {
                    let t = P::t_clone(&input[pos]);
                    position.0 = pos + 1;
                    GenericParseResult::Success(Value::Elem(t))
                } else {
                    self.fail_at(position, &tp.error_str)
                }
            },
            Node::MultiTest(mp) => {
                let e = scan_run(&mp.class, input, pos);
                proof {
                    lemma_run_end(mp.class, s, pos as int);
                }
                if e == pos {
                    self.fail_at(position, &mp.error_str)
                } else {
                    let l = P::slice_to_list(&input[pos..e]);
                    position.0 = e;
                    GenericParseResult::Success(Value::Run(l))
                }
            },
            Node::MultiTestWithReduce(mp) => {
                let e = scan_run(&mp.class, input, pos);
                proof {
                    lemma_run_end(mp.class, s, pos as int);
                }
                if e == pos {
                    self.fail_at(position, &mp.error_str)
                } else {
                    let acc = fold_range::<P>(&mp.reduce, mp.initial, input, pos, e);
                    position.0 = e;
                    GenericParseResult::Success(Value::Fold(acc, e - pos))
                }
            },
            Node::UInt(_) => {
                let digit = ElemClass::<P>::Digit;
                let e = scan_run(&digit, input, pos);
                proof {
                    lemma_run_end(digit, s, pos as int);
                }
                if e == pos {
                    self.fail_at_str(position, "a digit")
                } else {
                    let num = fold_range::<P>(&Reduce::Decimal, 0, input, pos, e);
                    position.0 = e;
                    GenericParseResult::Success(Value::UInt(num))
                }
            },
            Node::UFloat(_) => {
                let digit = ElemClass::<P>::Digit;
                let e = scan_run(&digit, input, pos);
                proof {
                    lemma_run_end(digit, s, pos as int);
                }
                if e == pos {
                    self.fail_at_str(position, "a digit")
                } else if e < n && P::test_point(&input[e]) {
                    let f = scan_run(&digit, input, e + 1);
                    proof {
                        lemma_run_end(digit, s, e + 1);
                    }
                    let int_part = digit_values::<P>(input, pos, e);
                    let frac_part = digit_values::<P>(input, e + 1, f);
                    position.0 = f;
                    GenericParseResult::Success(Value::Decimal(int_part, frac_part))
                } else {
                    let int_part = digit_values::<P>(input, pos, e);
                    position.0 = e;
                    GenericParseResult::Success(Value::Decimal(int_part, Vec::new()))
                }
            },
            Node::WhiteSpace(wp) => {
                let ws = ElemClass::<P>::Whitespace;
                let e = scan_run(&ws, input, pos);
                proof {
                    lemma_run_end(ws, s, pos as int);
                }
                if e == pos && !wp.optional {
                    self.fail_at_str(position, "whitespace")
                } else {
                    position.0 = e;
                    GenericParseResult::Success(Value::Unit)
                }
            },
            _ => vstd::pervasive::unreached(),
        }
    }
}

/// The label of a boxed description.
fn boxed(ls: &Vec<String>, label: &String) -> (r: String)
    ensures
        r@ == boxed_label(crate::labels_view(*ls), label@),
{
    let j = join_with(ls, ", ");
    proof {
        reveal_strlit(", ");
        reveal_strlit("[");
        reveal_strlit("] as part of ");
    }
    let a = String::from_str("[");
    let b = a.concat(j.as_str());
    let c = b.concat("] as part of ");
    c.concat(label.as_str())
}

/// A grammar together with the parser to start from, ready to be run.
pub struct ParserWrapper<P: Parsable, const ERROR: bool> {
    grammar: Grammar<P, ERROR>,
    root: ParserId,
}

impl<P: Parsable, const ERROR: bool> ParserWrapper<P, ERROR> {
    pub closed spec fn nodes(&self) -> Seq<Node<P>> {
        self.grammar.nodes@
    }

    pub closed spec fn root(&self) -> int {
        self.root.0 as int
    }

    pub closed spec fn wf(&self) -> bool {
        self.grammar.wf() && self.root.0 < self.grammar.nodes@.len()
    }

    /// What running the wrapped parser on `input` yields.
    pub open spec fn spec_result(&self, input: Seq<P::T>) -> Outcome<P::T> {
        let fl = start_floors(self.nodes().len());
        spec_parse(self.nodes(), ERROR, self.root(), input, 0, fl, budget(fl, input.len() as int) as nat).1
    }

    /// Wraps `grammar` with `root` as the parser to start from.  There is
    /// none when the grammar is not well formed (a recursive cell left
    /// empty, a reference forward) or `root` is not one of its parsers.
    pub fn new(grammar: Grammar<P, ERROR>, root: ParserId) -> (r: Option<Self>)
        ensures
            r is Some <==> (grammar.wf() && root.0 < grammar.nodes@.len()),
            r matches Some(w) ==> w.wf() && w.nodes() == grammar.nodes@ && w.root() == root.0,
    {
        if grammar.check() && root.0 < grammar.nodes.len() {
            Some(ParserWrapper { grammar, root })
        } else {
            None
        }
    }

    /// Wraps `grammar` with its last parser as the one to start from.
    pub fn from_parser(grammar: Grammar<P, ERROR>) -> (r: Option<Self>)
        ensures
            r is Some <==> (grammar.wf() && grammar.nodes@.len() > 0),
            r matches Some(w) ==> w.wf() && w.nodes() == grammar.nodes@ && w.root()
                == grammar.nodes@.len() - 1,
    {
        let len = grammar.nodes.len();
        if len == 0 {
            return None;
        }
        Self::new(grammar, ParserId(len - 1))
    }

    /// Runs the wrapped parser on `slice` from its start.
    pub fn parse_slice(&self, slice: &[P::T]) -> (r: ParseResult<Value<P>>)
        requires
            self.wf(),
            slice@.len() < usize::MAX,
            P::eq_is_exact(),
        ensures
            result_view(r) == self.spec_result(slice@),
    {
        self.grammar.parse(self.root, slice)
    }
}

impl<const ERROR: bool> ParserWrapper<char, ERROR> {
    /// Runs the wrapped parser on the characters of `s`.
    pub fn parse_str(&self, s: &str) -> (r: ParseResult<Value<char>>)
        requires
            self.wf(),
            s@.len() < usize::MAX,
        ensures
            result_view(r) == self.spec_result(s@),
    {
        let chars = chars_of_string(s);
        self.parse_slice(chars.as_slice())
    }
}

/// Checks `node_wf` of one descriptor.
fn check_node<P: Parsable>(node: &Node<P>, i: usize, len: usize) -> (r: bool)
    ensures
        r == node_wf(*node, i as int, len as int),
{
    match node {
        Node::And(a) => all_below(&a.parsers, i),
        Node::Or(o) => o.parsers.len() > 0 && all_below(&o.parsers, i),
        Node::SameOr(o) => o.parsers.len() > 0 && all_below(&o.parsers, i),
        Node::Skip(p) => p.parser1.0 < i && p.parser2.0 < i,
        Node::Then(p) => p.parser1.0 < i && p.parser2.0 < i,
        Node::SeparatedBy(p) => p.parser.0 < i && p.separator.0 < i,
        Node::Surround(p) => p.parser.0 < i && p.left.0 < i && p.right.0 < i,
        Node::RecRef(r) => match r.target {
            Some(t) => t.0 < len,
            None => false,
        },
        Node::Rec(p) => p.parser.0 < i,
        Node::Mapped(p) => p.parser.0 < i,
        Node::Many(p) => p.parser.0 < i,
        Node::ManyNonEmpty(p) => p.parser.0 < i,
        Node::Optional(p) => p.parser.0 < i,
        Node::Describe(p) => p.parser.0 < i,
        Node::BoxDescribe(p) => p.parser.0 < i,
        _ => true,
    }
}

fn all_below(ids: &Vec<ParserId>, i: usize) -> (r: bool)
    ensures
        r == forall|k: int| 0 <= k < ids@.len() ==> ids@[k].0 < i,
{
    let mut k: usize = 0;
    while k < ids.len()
        invariant
            k <= ids@.len(),
            forall|j: int| 0 <= j < k ==> ids@[j].0 < i,
        decreases ids@.len() - k,
    {
        if ids[k].0 >= i {
            return false;
        }
        k = k + 1;
    }
    true
}

/// Whether `input` holds `lit` from `pos` on.
fn starts_with<P: Parsable>(input: &[P::T], pos: usize, lit: &[P::T]) -> (r: bool)
    requires
        P::eq_is_exact(),
        pos <= input@.len(),
    ensures
        r == (pos + lit@.len() <= input@.len() && input@.subrange(
            pos as int,
            pos + lit@.len(),
        ) == lit@),
{
    let n = input.len();
    let m = lit.len();
    if m > n - pos {
        return false;
    }
    let mut i: usize = 0;
    while i < m
        invariant
            i <= m,
            m == lit@.len(),
            n == input@.len(),
            pos + m <= n,
            P::eq_is_exact(),
            forall|j: int| 0 <= j < i ==> input@[pos + j] == lit@[j],
        decreases m - i,
    {
        if !P::t_eq(&input[pos + i], &lit[i]) {
            assert(input@.subrange(pos as int, pos + m)[i as int] != lit@[i as int]);
            return false;
        }
        i = i + 1;
    }
    assert(input@.subrange(pos as int, pos + m) =~= lit@);
    true
}

} // verus!
