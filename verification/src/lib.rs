//! Category-theory solver for commutative-square diagrams.
//!
//! An expression such as `(A <-> B)[(A <-> C) -> (B <-> D)] <=> (C -> D)`
//! describes a square of four morphisms: a left leg, a top leg, a bottom
//! leg and a diagonal.  From the known categorical properties of three
//! edges the solver derives the strongest property provable for the
//! remaining edges and rewrites the diagram accordingly.
//!
//! | Morphism | Notation |
//! | --- | --- |
//! | Directional | `->` |
//! | Reverse directional | `<-` |
//! | Epi | `->>` |
//! | Reverse epi | `<<-` |
//! | Mono | `!->` |
//! | Reverse mono | `<-!` |
//! | Left inverse | `<!->` |
//! | Reverse left inverse | `<-!>` |
//! | Right inverse | `<->>` |
//! | Reverse right inverse | `<<->` |
//! | Epi-mono | `!->>` |
//! | Reverse epi-mono | `<<-!` |
//! | Iso | `<->` |
//! | Zero | `<>` |

use std::sync::Arc;

use vstd::prelude::*;
use vstd::string::StringExecFns;

pub mod code;
pub mod infer;
pub mod parsing;
pub mod render;
pub mod roundtrip;

verus! {

/// The closed set of morphism kinds: one base kind for each categorical
/// property, a reversed twin pointing the other way, and `Unknown`.
#[derive(Clone, Copy, Debug, PartialEq, Eq, Hash, Structural)]
pub enum Morphism {
    /// Unknown morphism.
    Unknown,
    /// Directional.
    Dir,
    /// Reverse directional.
    RevDir,
    /// Mono.
    Mono,
    /// Reverse mono.
    RevMono,
    /// Epi.
    Epi,
    /// Reverse epi.
    RevEpi,
    /// Epi-mono.
    EpiMono,
    /// Reverse epi-mono.
    RevEpiMono,
    /// Left inverse.
    LeftInv,
    /// Reverse left inverse.
    RevLeftInv,
    /// Right inverse.
    RightInv,
    /// Reverse right inverse.
    RevRightInv,
    /// Iso.
    Iso,
    /// Reverse iso.
    RevIso,
    /// Zero.
    Zero,
    /// Reverse zero.
    RevZero,
}

/// A diagram expression.
///
/// Sub-expressions are shared through reference-counted immutable
/// ownership; the rewriter copies only the nodes along the path it
/// changes, never a whole tree.
#[derive(Clone, Debug)]
pub enum Expr {
    /// A zero object.
    _0,
    /// An object.
    Obj(Arc<String>),
    /// A morphism between two sub-expressions, with a rendering degree.
    Mor(Morphism, usize, Arc<(Expr, Expr)>),
    /// A path: a composite edge paired with its decomposition.
    Path(Arc<(Expr, Expr)>),
}

/// The mathematical value of an expression: the same tree with object
/// names as character sequences and without the shared ownership.
pub enum ExprV {
    /// A zero object.
    ZeroObj,
    /// An object with its name.
    Obj(Seq<char>),
    /// A morphism of the given kind and degree between two values.
    Mor(Morphism, nat, Box<ExprV>, Box<ExprV>),
    /// A path value.
    Path(Box<ExprV>, Box<ExprV>),
}

/// The value of an expression tree.
pub open spec fn view_of(e: Expr) -> ExprV
    decreases e,
{
    match e {
        Expr::_0 => ExprV::ZeroObj,
        Expr::Obj(name) => ExprV::Obj(name@),
        Expr::Mor(kind, degree, ends) => ExprV::Mor(
            kind,
            degree as nat,
            Box::new(view_of(ends.0)),
            Box::new(view_of(ends.1)),
        ),
        Expr::Path(ends) => ExprV::Path(Box::new(view_of(ends.0)), Box::new(view_of(ends.1))),
    }
}

impl View for Expr {
    type V = ExprV;

    open spec fn view(&self) -> ExprV {
        view_of(*self)
    }
}

impl Expr {
    /// Structural equality of two expression trees; object names are
    /// compared by their characters.
    pub fn eq_expr(&self, other: &Expr) -> (r: bool)
        ensures
            r == (self@ == other@),
        decreases self,
    {
        match (self, other) {
            (Expr::_0, Expr::_0) => true,
            (Expr::Obj(a), Expr::Obj(b)) => {
                let r = **a == **b;
                r
            }
            (Expr::Mor(ka, na, ea), Expr::Mor(kb, nb, eb)) => {
                *ka == *kb && *na == *nb && ea.0.eq_expr(&eb.0) && ea.1.eq_expr(&eb.1)
            }
            (Expr::Path(ea), Expr::Path(eb)) => {
                ea.0.eq_expr(&eb.0) && ea.1.eq_expr(&eb.1)
            }
            _ => false,
        }
    }

    /// An exact copy of the expression; shared sub-trees are shared, not
    /// deep-cloned.
    pub fn duplicate(&self) -> (r: Expr)
        ensures
            r@ == self@,
    {
        match self {
            Expr::_0 => Expr::_0,
            Expr::Obj(name) => Expr::Obj(name.clone()),
            Expr::Mor(kind, degree, ends) => Expr::Mor(*kind, *degree, ends.clone()),
            Expr::Path(ends) => Expr::Path(ends.clone()),
        }
    }

    /// Returns the left edge of a path, if any.
    pub fn left(&self) -> (r: Option<Expr>)
        ensures
            match self@ {
                ExprV::Path(a, _) => r matches Some(e) && e@ == *a,
                _ => r is None,
            },
    {
        match self {
            Expr::Path(a) => Some(a.0.duplicate()),
            _ => None,
        }
    }

    /// Returns the top edge of a path whose second element is a
    /// morphism, if any.
    pub fn top(&self) -> (r: Option<Expr>)
        ensures
            match self@ {
                ExprV::Path(_, b) => match *b {
                    ExprV::Mor(_, _, t, _) => r matches Some(e) && e@ == *t,
                    _ => r is None,
                },
                _ => r is None,
            },
    {
        proof {
            reveal_with_fuel(view_of, 2);
        }
        match self {
            Expr::Path(a) => match &a.1 {
                Expr::Mor(_, _, b) => Some(b.0.duplicate()),
                _ => None,
            },
            _ => None,
        }
    }

    /// Returns the bottom edge of a path whose second element is a
    /// morphism, if any.
    pub fn bottom(&self) -> (r: Option<Expr>)
        ensures
            match self@ {
                ExprV::Path(_, b) => match *b {
                    ExprV::Mor(_, _, _, bot) => r matches Some(e) && e@ == *bot,
                    _ => r is None,
                },
                _ => r is None,
            },
    {
        proof {
            reveal_with_fuel(view_of, 2);
        }
        match self {
            Expr::Path(a) => match &a.1 {
                Expr::Mor(_, _, b) => Some(b.1.duplicate()),
                _ => None,
            },
            _ => None,
        }
    }
}

impl PartialEq for Expr {
    /// Structural equality, as `eq_expr`.
    fn eq(&self, other: &Expr) -> (r: bool) {
        self.eq_expr(other)
    }
}

impl vstd::std_specs::cmp::PartialEqSpecImpl for Expr {
    open spec fn obeys_eq_spec() -> bool {
        true
    }

    open spec fn eq_spec(&self, other: &Expr) -> bool {
        self@ == other@
    }
}

impl Eq for Expr {

}

/// The value of a morphism node built from two endpoint values.
pub open spec fn mor_v(kind: Morphism, degree: nat, a: ExprV, b: ExprV) -> ExprV {
    ExprV::Mor(kind, degree, Box::new(a), Box::new(b))
}

/// Higher iso e.g. `A <=> B`.
pub fn iso_n(n: usize, a: Expr, b: Expr) -> (r: Expr)
    ensures
        r@ == mor_v(Morphism::Iso, n as nat, a@, b@),
{
    Expr::Mor(Morphism::Iso, n, Arc::new((a, b)))
}

/// Iso e.g. `A <-> B`.
pub fn iso(a: Expr, b: Expr) -> (r: Expr)
    ensures
        r@ == mor_v(Morphism::Iso, 1, a@, b@),
{
    iso_n(1, a, b)
}

/// Higher directional e.g. `A => B`.
pub fn dir_n(n: usize, a: Expr, b: Expr) -> (r: Expr)
    ensures
        r@ == mor_v(Morphism::Dir, n as nat, a@, b@),
{
    Expr::Mor(Morphism::Dir, n, Arc::new((a, b)))
}

/// Directional e.g. `A -> B`.
pub fn dir(a: Expr, b: Expr) -> (r: Expr)
    ensures
        r@ == mor_v(Morphism::Dir, 1, a@, b@),
{
    dir_n(1, a, b)
}

/// Higher zero.
pub fn zero_n(n: usize, a: Expr, b: Expr) -> (r: Expr)
    ensures
        r@ == mor_v(Morphism::Zero, n as nat, a@, b@),
{
    Expr::Mor(Morphism::Zero, n, Arc::new((a, b)))
}

/// Zero e.g. `A <> B`.
pub fn zero(a: Expr, b: Expr) -> (r: Expr)
    ensures
        r@ == mor_v(Morphism::Zero, 1, a@, b@),
{
    zero_n(1, a, b)
}

/// Higher mono e.g. `A !=> B`.
pub fn mono_n(n: usize, a: Expr, b: Expr) -> (r: Expr)
    ensures
        r@ == mor_v(Morphism::Mono, n as nat, a@, b@),
{
    Expr::Mor(Morphism::Mono, n, Arc::new((a, b)))
}

/// Mono e.g. `A !-> B`.
pub fn mono(a: Expr, b: Expr) -> (r: Expr)
    ensures
        r@ == mor_v(Morphism::Mono, 1, a@, b@),
{
    mono_n(1, a, b)
}

/// Higher reverse mono e.g. `A <=! B`.
pub fn rev_mono_n(n: usize, a: Expr, b: Expr) -> (r: Expr)
    ensures
        r@ == mor_v(Morphism::RevMono, n as nat, a@, b@),
{
    Expr::Mor(Morphism::RevMono, n, Arc::new((a, b)))
}

/// Reverse mono e.g. `A <-! B`.
pub fn rev_mono(a: Expr, b: Expr) -> (r: Expr)
    ensures
        r@ == mor_v(Morphism::RevMono, 1, a@, b@),
{
    rev_mono_n(1, a, b)
}

/// Higher epi e.g. `A =>> B`.
pub fn epi_n(n: usize, a: Expr, b: Expr) -> (r: Expr)
    ensures
        r@ == mor_v(Morphism::Epi, n as nat, a@, b@),
{
    Expr::Mor(Morphism::Epi, n, Arc::new((a, b)))
}

/// Epi e.g. `A ->> B`.
pub fn epi(a: Expr, b: Expr) -> (r: Expr)
    ensures
        r@ == mor_v(Morphism::Epi, 1, a@, b@),
{
    epi_n(1, a, b)
}

/// Higher reverse epi e.g. `A <<= B`.
pub fn rev_epi_n(n: usize, a: Expr, b: Expr) -> (r: Expr)
    ensures
        r@ == mor_v(Morphism::RevEpi, n as nat, a@, b@),
{
    Expr::Mor(Morphism::RevEpi, n, Arc::new((a, b)))
}

/// Reverse epi e.g. `A <<- B`.
pub fn rev_epi(a: Expr, b: Expr) -> (r: Expr)
    ensures
        r@ == mor_v(Morphism::RevEpi, 1, a@, b@),
{
    rev_epi_n(1, a, b)
}

/// Higher epi-mono e.g. `A !=>> B`.
pub fn epi_mono_n(n: usize, a: Expr, b: Expr) -> (r: Expr)
    ensures
        r@ == mor_v(Morphism::EpiMono, n as nat, a@, b@),
{
    Expr::Mor(Morphism::EpiMono, n, Arc::new((a, b)))
}

/// Epi-mono e.g. `A !->> B`.
pub fn epi_mono(a: Expr, b: Expr) -> (r: Expr)
    ensures
        r@ == mor_v(Morphism::EpiMono, 1, a@, b@),
{
    epi_mono_n(1, a, b)
}

/// Higher left inverse e.g. `A <!=> B`.
pub fn left_inv_n(n: usize, a: Expr, b: Expr) -> (r: Expr)
    ensures
        r@ == mor_v(Morphism::LeftInv, n as nat, a@, b@),
{
    Expr::Mor(Morphism::LeftInv, n, Arc::new((a, b)))
}

/// Left inverse e.g. `A <!-> B`.
pub fn left_inv(a: Expr, b: Expr) -> (r: Expr)
    ensures
        r@ == mor_v(Morphism::LeftInv, 1, a@, b@),
{
    left_inv_n(1, a, b)
}

/// Higher reverse left inverse e.g. `A <=!> B`.
pub fn rev_left_inv_n(n: usize, a: Expr, b: Expr) -> (r: Expr)
    ensures
        r@ == mor_v(Morphism::RevLeftInv, n as nat, a@, b@),
{
    Expr::Mor(Morphism::RevLeftInv, n, Arc::new((a, b)))
}

/// Reverse left inverse e.g. `A <-!> B`.
pub fn rev_left_inv(a: Expr, b: Expr) -> (r: Expr)
    ensures
        r@ == mor_v(Morphism::RevLeftInv, 1, a@, b@),
{
    rev_left_inv_n(1, a, b)
}

/// Higher right inverse e.g. `A <=>> B`.
pub fn right_inv_n(n: usize, a: Expr, b: Expr) -> (r: Expr)
    ensures
        r@ == mor_v(Morphism::RightInv, n as nat, a@, b@),
{
    Expr::Mor(Morphism::RightInv, n, Arc::new((a, b)))
}

/// Right inverse e.g. `A <->> B`.
pub fn right_inv(a: Expr, b: Expr) -> (r: Expr)
    ensures
        r@ == mor_v(Morphism::RightInv, 1, a@, b@),
{
    right_inv_n(1, a, b)
}

/// Higher reverse right inverse e.g. `A <<=> B`.
pub fn rev_right_inv_n(n: usize, a: Expr, b: Expr) -> (r: Expr)
    ensures
        r@ == mor_v(Morphism::RevRightInv, n as nat, a@, b@),
{
    Expr::Mor(Morphism::RevRightInv, n, Arc::new((a, b)))
}

/// Reverse right inverse e.g. `A <<-> B`.
pub fn rev_right_inv(a: Expr, b: Expr) -> (r: Expr)
    ensures
        r@ == mor_v(Morphism::RevRightInv, 1, a@, b@),
{
    rev_right_inv_n(1, a, b)
}

/// A path e.g. `X[Y]`.
pub fn path(a: Expr, b: Expr) -> (r: Expr)
    ensures
        r@ == ExprV::Path(Box::new(a@), Box::new(b@)),
{
    Expr::Path(Arc::new((a, b)))
}

/// Solve a string.
///
/// Parses the text, extracts the square, runs inference and writes
/// the derived codes back, returning the rewritten text.  A text the
/// grammar rejects and a well-formed expression that is not of the
/// square shape give two distinct errors.
pub fn solve_str(a: &str) -> (r: Result<String, String>)
    ensures
        match parsing::parse_text(a@) {
            Some(m) => match code::square_of(m) {
                Some(sq) => r matches Ok(out) && out@ == render::render_v(
                    code::rewrite_v(infer::infer_codes(sq), m),
                ),
                None => r matches Err(msg) && msg@ == "Could not convert into square"@,
            },
            None => r matches Err(msg) && msg@ == "the text does not fit the notation grammar"@,
        },
{
    let mut expr: Expr = match parsing::parse_str(a) {
        Ok(x) => x,
        Err(msg) => {
            return Err(msg);
        }
    };
    let sq = match code::Square::new(&expr) {
        Some(sq) => sq,
        None => {
            return Err(String::from_str("Could not convert into square"));
        }
    };
    sq.update(&mut expr);
    Ok(expr.to_text())
}

/// Converts a string into an expression; the text must fit the
/// notation grammar.
pub fn conv(a: &str) -> (r: Expr)
    requires
        parsing::parse_text(a@) is Some,
    ensures
        Some(r@) == parsing::parse_text(a@),
{
    match parsing::parse_str(a) {
        Ok(x) => x,
        Err(_) => vstd::pervasive::unreached(),
    }
}

} // verus!

