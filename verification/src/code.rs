//! The morphism lattice and the commutative-square solver.

use vstd::prelude::*;

use crate::{Expr, ExprV, Morphism};

verus! {

/// Whether a morphism kind belongs to the right-to-left family.
pub open spec fn spec_is_reversed(code: Morphism) -> bool {
    match code {
        Morphism::RevDir | Morphism::RevMono | Morphism::RevEpi | Morphism::RevEpiMono
            | Morphism::RevLeftInv | Morphism::RevRightInv | Morphism::RevIso
            | Morphism::RevZero => true,
        _ => false,
    }
}

/// Flags the morphism kinds that point right to left.
#[verifier::when_used_as_spec(spec_is_reversed)]
pub fn is_reversed(code: Morphism) -> (r: bool)
    ensures
        r == spec_is_reversed(code),
{
    match code {
        Morphism::RevDir | Morphism::RevMono | Morphism::RevEpi | Morphism::RevEpiMono
            | Morphism::RevLeftInv | Morphism::RevRightInv | Morphism::RevIso
            | Morphism::RevZero => true,
        _ => false,
    }
}

/// The reversed twin of a morphism kind; `Unknown` is its own twin.
pub open spec fn spec_reverse(code: Morphism) -> Morphism {
    match code {
        Morphism::Unknown => Morphism::Unknown,
        Morphism::Dir => Morphism::RevDir,
        Morphism::RevDir => Morphism::Dir,
        Morphism::Mono => Morphism::RevMono,
        Morphism::RevMono => Morphism::Mono,
        Morphism::Epi => Morphism::RevEpi,
        Morphism::RevEpi => Morphism::Epi,
        Morphism::EpiMono => Morphism::RevEpiMono,
        Morphism::RevEpiMono => Morphism::EpiMono,
        Morphism::LeftInv => Morphism::RevLeftInv,
        Morphism::RevLeftInv => Morphism::LeftInv,
        Morphism::RightInv => Morphism::RevRightInv,
        Morphism::RevRightInv => Morphism::RightInv,
        Morphism::Iso => Morphism::RevIso,
        Morphism::RevIso => Morphism::Iso,
        Morphism::Zero => Morphism::RevZero,
        Morphism::RevZero => Morphism::Zero,
    }
}

/// Pairs each kind with its reversed twin.
#[verifier::when_used_as_spec(spec_reverse)]
pub fn reverse(code: Morphism) -> (r: Morphism)
    ensures
        r == spec_reverse(code),
{
    match code {
        Morphism::Unknown => Morphism::Unknown,
        Morphism::Dir => Morphism::RevDir,
        Morphism::RevDir => Morphism::Dir,
        Morphism::Mono => Morphism::RevMono,
        Morphism::RevMono => Morphism::Mono,
        Morphism::Epi => Morphism::RevEpi,
        Morphism::RevEpi => Morphism::Epi,
        Morphism::EpiMono => Morphism::RevEpiMono,
        Morphism::RevEpiMono => Morphism::EpiMono,
        Morphism::LeftInv => Morphism::RevLeftInv,
        Morphism::RevLeftInv => Morphism::LeftInv,
        Morphism::RightInv => Morphism::RevRightInv,
        Morphism::RevRightInv => Morphism::RightInv,
        Morphism::Iso => Morphism::RevIso,
        Morphism::RevIso => Morphism::Iso,
        Morphism::Zero => Morphism::RevZero,
        Morphism::RevZero => Morphism::Zero,
    }
}

/// Reversal is an involution: reversing any kind twice gives the kind back.
pub proof fn lemma_reverse_involution(code: Morphism)
    ensures
        spec_reverse(spec_reverse(code)) == code,
{
}

/// A reversed twin flips the orientation flag, except on `Unknown`,
/// which is the sole fixed point of `reverse`.
pub proof fn lemma_reverse_flips_orientation(code: Morphism)
    ensures
        code != Morphism::Unknown ==> spec_is_reversed(spec_reverse(code))
            != spec_is_reversed(code),
        spec_reverse(code) == code <==> code == Morphism::Unknown,
{
}

/// A plain directional kind, one way or the other.
pub open spec fn is_dir_like(code: Morphism) -> bool {
    code == Morphism::Dir || code == Morphism::RevDir
}

/// The fully isomorphic chain: starting from the first edge that is
/// directional, every later edge is either an iso or the directional
/// kind that closes the square in the right orientation; edges before
/// it are isos.
pub open spec fn norm_matches(c0: Morphism, c1: Morphism, c2: Morphism, c3: Morphism) -> bool {
    (is_dir_like(c0) && (c1 == spec_reverse(c0) || c1 == Morphism::Iso) && (c2 == c0 || c2
        == Morphism::Iso) && (c3 == spec_reverse(c0) || c3 == Morphism::Iso)) || (c0
        == Morphism::Iso && ((is_dir_like(c1) && (c2 == spec_reverse(c1) || c2 == Morphism::Iso)
        && (c3 == c1 || c3 == Morphism::Iso)) || (c1 == Morphism::Iso && ((is_dir_like(c2) && (c3
        == spec_reverse(c2) || c3 == Morphism::Iso)) || (c2 == Morphism::Iso && is_dir_like(
        c3,
    ))))))
}

/// What the square normalizer returns: all isos when the chain
/// matches, the input unchanged otherwise.
pub open spec fn norm_v(code: Seq<Morphism>) -> Seq<Morphism> {
    if code.len() == 4 && norm_matches(code[0], code[1], code[2], code[3]) {
        seq![Morphism::Iso, Morphism::Iso, Morphism::Iso, Morphism::Iso]
    } else {
        code
    }
}

/// Normalize square: a total, pure check for the fully isomorphic
/// square; any other input comes back unchanged.
pub fn eval(code: [Morphism; 4]) -> (r: [Morphism; 4])
    ensures
        r@ == norm_v(code@),
{
    let c0 = code[0];
    let c1 = code[1];
    let c2 = code[2];
    let c3 = code[3];
    let matched: bool = ((c0 == Morphism::Dir || c0 == Morphism::RevDir) && (c1 == reverse(c0)
        || c1 == Morphism::Iso) && (c2 == c0 || c2 == Morphism::Iso) && (c3 == reverse(c0) || c3
        == Morphism::Iso)) || (c0 == Morphism::Iso && (((c1 == Morphism::Dir || c1
        == Morphism::RevDir) && (c2 == reverse(c1) || c2 == Morphism::Iso) && (c3 == c1 || c3
        == Morphism::Iso)) || (c1 == Morphism::Iso && (((c2 == Morphism::Dir || c2
        == Morphism::RevDir) && (c3 == reverse(c2) || c3 == Morphism::Iso)) || (c2
        == Morphism::Iso && (c3 == Morphism::Dir || c3 == Morphism::RevDir))))));
    if matched {
        let r = [Morphism::Iso, Morphism::Iso, Morphism::Iso, Morphism::Iso];
        assert(r@ =~= norm_v(code@));
        r
    } else {
        assert(code@ =~= norm_v(code@));
        code
    }
}

/// The normalizer is total and idempotent: running it twice returns
/// what one run returns, on every 4-tuple of morphism kinds.
pub proof fn lemma_normalizer_idempotent(code: Seq<Morphism>)
    ensures
        norm_v(norm_v(code)) == norm_v(code),
{
    if code.len() == 4 && norm_matches(code[0], code[1], code[2], code[3]) {
        let r = norm_v(code);
        assert(r[0] == Morphism::Iso && r[1] == Morphism::Iso && r[2] == Morphism::Iso && r[3]
            == Morphism::Iso);
        assert(!norm_matches(r[0], r[1], r[2], r[3]));
    }
}

/// The values held by a sequence of expressions.
pub open spec fn bind_v(bind: Seq<Expr>) -> Seq<ExprV> {
    bind.map_values(|e: Expr| e@)
}

/// The one-based position of a value in the bound list, scanning from
/// `i`; zero when it is absent.
pub open spec fn find_in(bind: Seq<ExprV>, a: ExprV, i: int) -> int
    decreases bind.len() - i,
{
    if 0 <= i && i < bind.len() {
        if bind[i] == a {
            i + 1
        } else {
            find_in(bind, a, i + 1)
        }
    } else {
        0
    }
}

/// Resolves a value against the bound list: its one-based index,
/// appending the value when it is new.
pub open spec fn find_v(bind: Seq<ExprV>, a: ExprV) -> (Seq<ExprV>, int) {
    let i = find_in(bind, a, 0);
    if i != 0 {
        (bind, i)
    } else {
        (bind.push(a), bind.len() as int + 1)
    }
}

/// The label of an edge: a morphism resolves its two endpoints and is
/// stored as `(0, from, to)`; any other value is stored as an object
/// `(index, 0, 0)`.
pub open spec fn label_v(bind: Seq<ExprV>, a: ExprV) -> (Seq<ExprV>, (int, int, int)) {
    match a {
        ExprV::Mor(_, _, x, y) => {
            let (b1, n) = find_v(bind, *x);
            let (b2, m) = find_v(b1, *y);
            (b2, (0, n, m))
        }
        _ => {
            let (b1, n) = find_v(bind, a);
            (b1, (n, 0, 0))
        }
    }
}

/// The fixed per-edge adjacency test: when it holds, the edge is
/// stored with swapped endpoints and a reversed code.  The first edge
/// is never swapped.
pub open spec fn swap_cond(
    edge: int,
    lab: (int, int, int),
    l0: (int, int, int),
    l1: (int, int, int),
    l2: (int, int, int),
) -> bool {
    (edge == 1 && l0.1 != 0 && lab.2 == l0.1) || (edge == 2 && l0.2 != 0 && lab.2 == l0.2) || (
    edge == 3 && l1.2 != 0 && lab.2 == l1.2) || (edge == 3 && l2.2 != 0 && lab.1 == l2.2)
}

/// The stored label and code of one edge: `Unknown` for anything that
/// is not a morphism, a forced `Iso` for a directional, mono or epi
/// self-loop, and otherwise the raw kind, reversed together with the
/// label when the adjacency test asks for it.
pub open spec fn edge_code(
    a: ExprV,
    edge: int,
    lab: (int, int, int),
    l0: (int, int, int),
    l1: (int, int, int),
    l2: (int, int, int),
) -> ((int, int, int), Morphism) {
    match a {
        ExprV::Mor(mor, _, x, y) => {
            if mor == Morphism::Unknown {
                (lab, Morphism::Unknown)
            } else if (mor == Morphism::Dir || mor == Morphism::Mono || mor == Morphism::Epi)
                && *x == *y {
                (lab, Morphism::Iso)
            } else if edge == 0 {
                (lab, mor)
            } else if swap_cond(edge, lab, l0, l1, l2) {
                ((lab.0, lab.2, lab.1), spec_reverse(mor))
            } else {
                (lab, mor)
            }
        }
        _ => (lab, Morphism::Unknown),
    }
}

/// The value of a square.
pub struct SquareV {
    /// The values of the bound expressions.
    pub bind: Seq<ExprV>,
    /// The four edge labels.
    pub labels: Seq<(int, int, int)>,
    /// The four edge codes.
    pub code: Seq<Morphism>,
}

/// The square built from the four edges, in the fixed order left leg,
/// top leg, bottom leg, diagonal.
pub open spec fn build_square(l: ExprV, t: ExprV, b: ExprV, d: ExprV) -> SquareV {
    let (bind1, lab0) = label_v(Seq::empty(), l);
    let (bind2, lab1) = label_v(bind1, t);
    let (bind3, lab2) = label_v(bind2, b);
    let (bind4, lab3) = label_v(bind3, d);
    let (f0, c0) = edge_code(l, 0, lab0, lab0, lab1, lab2);
    let (f1, c1) = edge_code(t, 1, lab1, f0, lab1, lab2);
    let (f2, c2) = edge_code(b, 2, lab2, f0, f1, lab2);
    let (f3, c3) = edge_code(d, 3, lab3, f0, f1, f2);
    SquareV {
        bind: bind4,
        labels: seq![f0, f1, f2, f3],
        code: seq![c0, c1, c2, c3],
    }
}

/// The four edge values of an expression of the square shape: an iso
/// of degree two between a path, whose second element is a morphism,
/// and a diagonal.
pub open spec fn edges_of(m: ExprV) -> Option<(ExprV, ExprV, ExprV, ExprV)> {
    match m {
        ExprV::Mor(kind, degree, a0, a1) => {
            if kind == Morphism::Iso && degree == 2 {
                match *a0 {
                    ExprV::Path(l, tb) => match *tb {
                        ExprV::Mor(_, _, t, b) => Some((*l, *t, *b, *a1)),
                        _ => None,
                    },
                    _ => None,
                }
            } else {
                None
            }
        }
        _ => None,
    }
}

/// The square extracted from an expression, when it has the square
/// shape.
pub open spec fn square_of(m: ExprV) -> Option<SquareV> {
    match edges_of(m) {
        Some((l, t, b, d)) => Some(build_square(l, t, b, d)),
        None => None,
    }
}

/// A square is well formed when it has four labels and codes, at most
/// eight bound values, and every label index stays inside the bound
/// list: an object label holds one nonzero index, an edge label two.
pub open spec fn wf_square(sq: SquareV) -> bool {
    &&& sq.bind.len() <= 8
    &&& sq.labels.len() == 4
    &&& sq.code.len() == 4
    &&& forall|i: int|
        0 <= i < 4 ==> {
            let lab = #[trigger] sq.labels[i];
            if lab.0 == 0 {
                1 <= lab.1 <= sq.bind.len() && 1 <= lab.2 <= sq.bind.len()
            } else {
                1 <= lab.0 <= sq.bind.len() && lab.1 == 0 && lab.2 == 0
            }
        }
}

/// Scanning never returns a position outside the list.
proof fn lemma_find_in_bounds(bind: Seq<ExprV>, a: ExprV, i: int)
    requires
        0 <= i <= bind.len(),
    ensures
        0 <= find_in(bind, a, i) <= bind.len(),
    decreases bind.len() - i,
{
    if i < bind.len() && bind[i] != a {
        lemma_find_in_bounds(bind, a, i + 1);
    }
}

/// Resolving a value grows the bound list by at most one and returns
/// an index inside it.
proof fn lemma_find_v_props(bind: Seq<ExprV>, a: ExprV)
    ensures
        bind.len() <= find_v(bind, a).0.len() <= bind.len() + 1,
        1 <= find_v(bind, a).1 <= find_v(bind, a).0.len(),
    {
    lemma_find_in_bounds(bind, a, 0);
}

/// Labelling an edge grows the bound list by at most two and keeps
/// every index of the label inside it.
proof fn lemma_label_v_props(bind: Seq<ExprV>, a: ExprV)
    ensures
        bind.len() <= label_v(bind, a).0.len() <= bind.len() + 2,
        ({
            let (nb, lab) = label_v(bind, a);
            if lab.0 == 0 {
                1 <= lab.1 <= nb.len() && 1 <= lab.2 <= nb.len()
            } else {
                1 <= lab.0 <= nb.len() && lab.1 == 0 && lab.2 == 0
            }
        }),
{
    match a {
        ExprV::Mor(_, _, x, y) => {
            lemma_find_v_props(bind, *x);
            lemma_find_v_props(find_v(bind, *x).0, *y);
        }
        _ => {
            lemma_find_v_props(bind, a);
        }
    }
}

/// Represents a commutative square.
#[derive(Debug)]
pub struct Square {
    /// Bound expressions, in first-seen order, without duplicates.
    pub bind: Vec<Expr>,
    /// Labels of edges.
    ///
    /// Stores an object `[<obj>, 0, 0]`
    /// or an edge `[0, <from>, <to>]`.
    pub labels: [[u8; 3]; 4],
    /// Morphism codes of the edges.
    pub code: [Morphism; 4],
}

/// The value of a stored label.
pub open spec fn lab_view(l: [u8; 3]) -> (int, int, int) {
    (l@[0] as int, l@[1] as int, l@[2] as int)
}

impl View for Square {
    type V = SquareV;

    open spec fn view(&self) -> SquareV {
        SquareV {
            bind: bind_v(self.bind@),
            labels: seq![
                lab_view(self.labels@[0]),
                lab_view(self.labels@[1]),
                lab_view(self.labels@[2]),
                lab_view(self.labels@[3]),
            ],
            code: self.code@,
        }
    }
}

impl PartialEq for Square {
    /// Two squares are equal when their bound values, labels and
    /// codes all agree.
    fn eq(&self, other: &Square) -> (r: bool) {
        if self.bind.len() != other.bind.len() {
            assert(bind_v(self.bind@).len() != bind_v(other.bind@).len());
            return false;
        }
        let n = self.bind.len();
        let mut j: usize = 0;
        while j < n
            invariant
                n == self.bind@.len(),
                n == other.bind@.len(),
                0 <= j <= n,
                forall|i: int| 0 <= i < j ==> bind_v(self.bind@)[i] == bind_v(other.bind@)[i],
            decreases n - j,
        {
            if !self.bind[j].eq_expr(&other.bind[j]) {
                assert(bind_v(self.bind@)[j as int] != bind_v(other.bind@)[j as int]);
                return false;
            }
            j = j + 1;
        }
        assert(bind_v(self.bind@) =~= bind_v(other.bind@));
        let mut e: usize = 0;
        while e < 4
            invariant
                0 <= e <= 4,
                forall|i: int| 0 <= i < e ==> lab_view(self.labels@[i]) == lab_view(
                    other.labels@[i],
                ),
                forall|i: int| 0 <= i < e ==> self.code@[i] == other.code@[i],
            decreases 4 - e,
        {
            let a = self.labels[e];
            let b = other.labels[e];
            if a[0] != b[0] || a[1] != b[1] || a[2] != b[2] {
                assert(lab_view(self.labels@[e as int]) != lab_view(other.labels@[e as int]));
                assert(self@.labels[e as int] != other@.labels[e as int]);
                return false;
            }
            if self.code[e] != other.code[e] {
                assert(self@.code[e as int] != other@.code[e as int]);
                return false;
            }
            e = e + 1;
        }
        assert(self@.labels =~= other@.labels);
        assert(self@.code =~= other@.code);
        true
    }
}

impl vstd::std_specs::cmp::PartialEqSpecImpl for Square {
    open spec fn obeys_eq_spec() -> bool {
        true
    }

    open spec fn eq_spec(&self, other: &Square) -> bool {
        self@.bind == other@.bind && self@.labels == other@.labels && self@.code == other@.code
    }
}

impl Eq for Square {

}

/// Resolves an expression against the bound list, appending it when
/// new, and returns its one-based index.
fn find(bind: &mut Vec<Expr>, a: &Expr) -> (r: u8)
    requires
        old(bind)@.len() <= 250,
    ensures
        find_v(bind_v(old(bind)@), a@) == (bind_v(final(bind)@), r as int),
        old(bind)@.len() <= final(bind)@.len() <= old(bind)@.len() + 1,
{
    let ghost bv = bind_v(bind@);
    let ghost av = a@;
    let n = bind.len();
    let mut j: usize = 0;
    while j < n
        invariant
            n == bind@.len(),
            n <= 250,
            bv == bind_v(bind@),
            av == a@,
            0 <= j <= n,
            find_in(bv, av, 0) == find_in(bv, av, j as int),
        decreases n - j,
    {
        if bind[j].eq_expr(a) {
            assert(find_in(bv, av, j as int) == j + 1);
            proof {
                lemma_find_in_bounds(bv, av, 0);
            }
            return (j + 1) as u8;
        }
        j = j + 1;
    }
    assert(find_in(bv, av, 0) == 0);
    bind.push(a.duplicate());
    assert(bind_v(bind@) =~= bv.push(av));
    bind.len() as u8
}

/// Builds the stored label of one edge.
fn mk_label(bind: &mut Vec<Expr>, a: &Expr) -> (r: [u8; 3])
    requires
        old(bind)@.len() <= 248,
    ensures
        label_v(bind_v(old(bind)@), a@) == (bind_v(final(bind)@), lab_view(r)),
        old(bind)@.len() <= final(bind)@.len() <= old(bind)@.len() + 2,
{
    match a {
        Expr::Mor(_, _, ends) => {
            let n = find(bind, &ends.0);
            let m = find(bind, &ends.1);
            let r = [0u8, n, m];
            assert(lab_view(r) == (0int, n as int, m as int));
            r
        }
        _ => {
            let n = find(bind, a);
            let r = [n, 0u8, 0u8];
            assert(lab_view(r) == (n as int, 0int, 0int));
            r
        }
    }
}

/// Computes the stored label and code of one edge, applying the
/// self-loop override and the orientation normalization.
fn mk_code(a: &Expr, edge: u8, lab: [u8; 3], l0: [u8; 3], l1: [u8; 3], l2: [u8; 3]) -> (r: (
    [u8; 3],
    Morphism,
))
    ensures
        (lab_view(r.0), r.1) == edge_code(
            a@,
            edge as int,
            lab_view(lab),
            lab_view(l0),
            lab_view(l1),
            lab_view(l2),
        ),
{
    match a {
        Expr::Mor(mor, _, ends) => {
            if *mor == Morphism::Unknown {
                (lab, Morphism::Unknown)
            } else if (*mor == Morphism::Dir || *mor == Morphism::Mono || *mor == Morphism::Epi)
                && ends.0.eq_expr(&ends.1) {
                (lab, Morphism::Iso)
            } else if edge == 0 {
                (lab, *mor)
            } else {
                let f = (edge == 1 && l0[1] != 0 && lab[2] == l0[1]) || (edge == 2 && l0[2] != 0
                    && lab[2] == l0[2]) || (edge == 3 && l1[2] != 0 && lab[2] == l1[2]) || (edge
                    == 3 && l2[2] != 0 && lab[1] == l2[2]);
                if f {
                    let swapped = [lab[0], lab[2], lab[1]];
                    assert(lab_view(swapped) == (
                        lab_view(lab).0,
                        lab_view(lab).2,
                        lab_view(lab).1,
                    ));
                    (swapped, reverse(*mor))
                } else {
                    (lab, *mor)
                }
            }
        }
        _ => (lab, Morphism::Unknown),
    }
}

impl Square {
    /// Creates a new square from an expression of the shape
    /// `P[Q] <=> D`: an iso of degree two between a path and a
    /// diagonal edge.  Any other shape gives no square.
    #[verifier::rlimit(100)]
    pub fn new(expr: &Expr) -> (r: Option<Square>)
        ensures
            match r {
                Some(sq) => Some(sq@) == square_of(expr@) && wf_square(sq@),
                None => square_of(expr@) is None,
            },
    {
        proof {
            reveal_with_fuel(crate::view_of, 3);
        }
        match expr {
            Expr::Mor(kind, degree, a) => {
                if *kind != Morphism::Iso || *degree != 2 {
                    return None;
                }
                match &a.0 {
                    Expr::Path(ltb) => match &ltb.1 {
                        Expr::Mor(_, _, tb) => {
                            let l = &ltb.0;
                            let t = &tb.0;
                            let b = &tb.1;
                            let d = &a.1;
                            proof {
                                reveal_with_fuel(crate::view_of, 3);
                            }
                            assert(edges_of(expr@) == Some((l@, t@, b@, d@)));
                            let mut bind: Vec<Expr> = Vec::new();
                            assert(bind_v(bind@) =~= Seq::<ExprV>::empty());
                            proof {
                                lemma_label_v_props(Seq::empty(), l@);
                            }
                            let lab0 = mk_label(&mut bind, l);
                            proof {
                                lemma_label_v_props(bind_v(bind@), t@);
                            }
                            let lab1 = mk_label(&mut bind, t);
                            proof {
                                lemma_label_v_props(bind_v(bind@), b@);
                            }
                            let lab2 = mk_label(&mut bind, b);
                            proof {
                                lemma_label_v_props(bind_v(bind@), d@);
                            }
                            let lab3 = mk_label(&mut bind, d);
                            let (f0, c0) = mk_code(l, 0, lab0, lab0, lab1, lab2);
                            let (f1, c1) = mk_code(t, 1, lab1, f0, lab1, lab2);
                            let (f2, c2) = mk_code(b, 2, lab2, f0, f1, lab2);
                            let (f3, c3) = mk_code(d, 3, lab3, f0, f1, f2);
                            let sq = Square {
                                bind,
                                labels: [f0, f1, f2, f3],
                                code: [c0, c1, c2, c3],
                            };
                            assert(sq@.labels =~= build_square(l@, t@, b@, d@).labels);
                            assert(sq@.code =~= build_square(l@, t@, b@, d@).code);
                            assert(sq@.bind =~= build_square(l@, t@, b@, d@).bind);
                            assert(sq@ == build_square(l@, t@, b@, d@));
                            assert(square_of(expr@) == Some(build_square(l@, t@, b@, d@)));
                            assert(sq@.labels[0] == lab_view(f0) && sq@.labels[1] == lab_view(f1)
                                && sq@.labels[2] == lab_view(f2) && sq@.labels[3] == lab_view(
                                f3,
                            ));
                            assert(wf_square(sq@));
                            Some(sq)
                        }
                        _ => None,
                    },
                    _ => None,
                }
            }
            _ => None,
        }
    }
}

/// A morphism value with a new code: the endpoints are swapped when
/// the new code's orientation differs from the stored one, so the
/// rendered arrow keeps pointing the right way.  Anything else is
/// left untouched.
pub open spec fn fix_v(e: ExprV, code: Morphism) -> ExprV {
    match e {
        ExprV::Mor(mor, n, x, y) => if spec_is_reversed(code) != spec_is_reversed(mor) {
            ExprV::Mor(code, n, y, x)
        } else {
            ExprV::Mor(code, n, x, y)
        },
        _ => e,
    }
}

/// A morphism value with a new code and unchanged endpoints; anything
/// else is left untouched.
pub open spec fn set_kind_v(e: ExprV, code: Morphism) -> ExprV {
    match e {
        ExprV::Mor(_, n, x, y) => ExprV::Mor(code, n, x, y),
        _ => e,
    }
}

/// The expression after the four derived codes are written into the
/// fixed positions left, top, bottom and diagonal.  The left leg is
/// never swapped; the other three are swapped where their orientation
/// changed.  Only the four edge positions are touched.
pub open spec fn rewrite_v(codes: Seq<Morphism>, m: ExprV) -> ExprV {
    match m {
        ExprV::Mor(kind, degree, a0, a1) => if kind == Morphism::Iso && degree == 2 {
            let d2 = fix_v(*a1, codes[3]);
            let p2 = match *a0 {
                ExprV::Path(l, tb) => {
                    let l2 = set_kind_v(*l, codes[0]);
                    let tb2 = match *tb {
                        ExprV::Mor(mk, mn, t, b) => ExprV::Mor(
                            mk,
                            mn,
                            Box::new(fix_v(*t, codes[1])),
                            Box::new(fix_v(*b, codes[2])),
                        ),
                        other => other,
                    };
                    ExprV::Path(Box::new(l2), Box::new(tb2))
                }
                other => other,
            };
            ExprV::Mor(kind, degree, Box::new(p2), Box::new(d2))
        } else {
            m
        },
        _ => m,
    }
}

/// Writes a new code into a morphism, swapping its endpoints when the
/// orientation changed.
fn fix_ex(e: &Expr, code: Morphism) -> (r: Expr)
    ensures
        r@ == fix_v(e@, code),
{
    match e {
        Expr::Mor(mor, n, ends) => {
            if is_reversed(code) != is_reversed(*mor) {
                Expr::Mor(code, *n, std::sync::Arc::new((ends.1.duplicate(), ends.0.duplicate())))
            } else {
                Expr::Mor(code, *n, ends.clone())
            }
        }
        _ => e.duplicate(),
    }
}

/// Writes a new code into a morphism without touching its endpoints.
fn set_kind_ex(e: &Expr, code: Morphism) -> (r: Expr)
    ensures
        r@ == set_kind_v(e@, code),
{
    match e {
        Expr::Mor(_, n, ends) => Expr::Mor(code, *n, ends.clone()),
        _ => e.duplicate(),
    }
}

impl Square {
    /// Updates an expression of the square shape with the codes this
    /// square's evaluation derives: each of the four edge positions
    /// receives its derived code, with endpoints swapped where the
    /// orientation changed.  Shared nodes are copied only along the
    /// rewritten path.
    pub fn update(&self, e: &mut Expr)
        requires
            wf_square(self@),
        ensures
            final(e)@ == rewrite_v(crate::infer::infer_codes(self@), old(e)@),
    {
        proof {
            reveal_with_fuel(crate::view_of, 3);
        }
        let new_code = self.eval();
        let replacement: Expr = match &*e {
            Expr::Mor(kind, degree, a) => {
                if *kind == Morphism::Iso && *degree == 2 {
                    let d2 = fix_ex(&a.1, new_code[3]);
                    let p2: Expr = match &a.0 {
                        Expr::Path(ltb) => {
                            let l2 = set_kind_ex(&ltb.0, new_code[0]);
                            let tb2: Expr = match &ltb.1 {
                                Expr::Mor(mk, mn, tb) => Expr::Mor(
                                    *mk,
                                    *mn,
                                    std::sync::Arc::new(
                                        (fix_ex(&tb.0, new_code[1]), fix_ex(&tb.1, new_code[2])),
                                    ),
                                ),
                                other => other.duplicate(),
                            };
                            Expr::Path(std::sync::Arc::new((l2, tb2)))
                        }
                        other => other.duplicate(),
                    };
                    Expr::Mor(*kind, *degree, std::sync::Arc::new((p2, d2)))
                } else {
                    e.duplicate()
                }
            }
            _ => e.duplicate(),
        };
        *e = replacement;
    }
}

/// An edge whose two endpoints are the same value and whose raw kind
/// is directional, mono or epi.
pub open spec fn is_self_loop(e: ExprV) -> bool {
    match e {
        ExprV::Mor(kind, _, x, y) => (kind == Morphism::Dir || kind == Morphism::Mono || kind
            == Morphism::Epi) && *x == *y,
        _ => false,
    }
}

/// Self-loop reflexivity: in an extracted square, an edge whose two
/// endpoints are identical and whose raw kind is directional, mono or
/// epi is recoded to an iso, in whichever of the four positions it
/// stands.
pub proof fn lemma_self_loop_reflexivity(m: ExprV)
    requires
        square_of(m) is Some,
    ensures
        ({
            let (l, t, b, d) = edges_of(m).unwrap();
            let sq = square_of(m).unwrap();
            &&& is_self_loop(l) ==> sq.code[0] == Morphism::Iso
            &&& is_self_loop(t) ==> sq.code[1] == Morphism::Iso
            &&& is_self_loop(b) ==> sq.code[2] == Morphism::Iso
            &&& is_self_loop(d) ==> sq.code[3] == Morphism::Iso
        }),
{
}

} // verus!
