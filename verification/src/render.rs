//! Canonical text rendering of expressions.
//!
//! The renderer is the inverse of the parser: every well-formed
//! expression value renders to a text that parses back to the same
//! value.

use vstd::prelude::*;
use vstd::string::StringExecFns;

use crate::{Expr, ExprV, Morphism};

verus! {

/// A sequence of `n` copies of one character.
pub open spec fn char_repeat(c: char, n: nat) -> Seq<char> {
    Seq::new(n, |i: int| c)
}

/// Whether a value is a morphism node; only such sub-expressions are
/// parenthesized by the renderer.
pub open spec fn is_mor_v(m: ExprV) -> bool {
    m matches ExprV::Mor(_, _, _, _)
}

/// The characters written before the arrow body of a morphism kind.
pub open spec fn glyph_prefix(kind: Morphism) -> Seq<char> {
    match kind {
        Morphism::Zero | Morphism::RevZero | Morphism::Iso | Morphism::RevIso
            | Morphism::RevDir | Morphism::RevMono | Morphism::RevLeftInv
            | Morphism::RightInv => seq!['<'],
        Morphism::Mono | Morphism::EpiMono => seq!['!'],
        Morphism::LeftInv => seq!['<', '!'],
        Morphism::RevEpi | Morphism::RevEpiMono | Morphism::RevRightInv => seq!['<', '<'],
        Morphism::Unknown | Morphism::Dir | Morphism::Epi => Seq::empty(),
    }
}

/// The characters written after the arrow body of a morphism kind.
pub open spec fn glyph_suffix(kind: Morphism) -> Seq<char> {
    match kind {
        Morphism::Dir | Morphism::Zero | Morphism::RevZero | Morphism::Iso | Morphism::RevIso
            | Morphism::Mono | Morphism::LeftInv | Morphism::RevRightInv => seq!['>'],
        Morphism::Epi | Morphism::RightInv | Morphism::EpiMono => seq!['>', '>'],
        Morphism::RevMono | Morphism::RevEpiMono => seq!['!'],
        Morphism::RevLeftInv => seq!['!', '>'],
        Morphism::Unknown | Morphism::RevDir | Morphism::RevEpi => Seq::empty(),
    }
}

/// The arrow body: one `=` for each two of the degree and one `-` for
/// the remainder; the zero arrow has no body.
pub open spec fn arrow_body(kind: Morphism, degree: nat) -> Seq<char> {
    if kind == Morphism::Zero {
        Seq::empty()
    } else {
        char_repeat('=', degree / 2) + char_repeat('-', degree % 2)
    }
}

/// The full arrow token of a morphism kind at a degree.
pub open spec fn arrow_text(kind: Morphism, degree: nat) -> Seq<char> {
    glyph_prefix(kind) + arrow_body(kind, degree) + glyph_suffix(kind)
}

/// The canonical text of an expression value.
pub open spec fn render_v(m: ExprV) -> Seq<char>
    decreases m, 0int,
{
    match m {
        ExprV::ZeroObj => seq!['0'],
        ExprV::Obj(name) => name,
        ExprV::Mor(kind, degree, a, b) => wrap_v(*a) + seq![' '] + arrow_text(kind, degree)
            + seq![' '] + wrap_v(*b),
        ExprV::Path(a, b) => wrap_v(*a) + seq!['['] + render_v(*b) + seq![']'],
    }
}

/// The text of a value in operand position: parenthesized when the
/// value is a morphism, bare otherwise.
pub open spec fn wrap_v(m: ExprV) -> Seq<char>
    decreases m, 1int,
{
    if is_mor_v(m) {
        seq!['('] + render_v(m) + seq![')']
    } else {
        render_v(m)
    }
}

/// Writes `"("` or `")"` or another single-character token.
fn write_char_token(out: &mut String, tok: &str, c: char)
    requires
        tok@ == seq![c],
    ensures
        final(out)@ == old(out)@ + seq![c],
{
    out.append(tok);
}

/// Writes the arrow glyphs that precede the body.
fn write_prefix(kind: Morphism, out: &mut String)
    ensures
        final(out)@ == old(out)@ + glyph_prefix(kind),
{
    proof {
        reveal_strlit("<");
        reveal_strlit("!");
        assert("<"@ =~= seq!['<']);
        assert("!"@ =~= seq!['!']);
    }
    match kind {
        Morphism::Zero | Morphism::RevZero | Morphism::Iso | Morphism::RevIso
            | Morphism::RevDir | Morphism::RevMono | Morphism::RevLeftInv
            | Morphism::RightInv => {
            out.append("<");
            assert(out@ =~= old(out)@ + glyph_prefix(kind));
        }
        Morphism::Mono | Morphism::EpiMono => {
            out.append("!");
            assert(out@ =~= old(out)@ + glyph_prefix(kind));
        }
        Morphism::LeftInv => {
            out.append("<");
            out.append("!");
            assert(out@ =~= old(out)@ + glyph_prefix(kind));
        }
        Morphism::RevEpi | Morphism::RevEpiMono | Morphism::RevRightInv => {
            out.append("<");
            out.append("<");
            assert(out@ =~= old(out)@ + glyph_prefix(kind));
        }
        Morphism::Unknown | Morphism::Dir | Morphism::Epi => {
            assert(out@ =~= old(out)@ + glyph_prefix(kind));
        }
    }
}

/// Writes the arrow glyphs that follow the body.
fn write_suffix(kind: Morphism, out: &mut String)
    ensures
        final(out)@ == old(out)@ + glyph_suffix(kind),
{
    proof {
        reveal_strlit(">");
        reveal_strlit("!");
        assert(">"@ =~= seq!['>']);
        assert("!"@ =~= seq!['!']);
    }
    match kind {
        Morphism::Dir | Morphism::Zero | Morphism::RevZero | Morphism::Iso | Morphism::RevIso
            | Morphism::Mono | Morphism::LeftInv | Morphism::RevRightInv => {
            out.append(">");
            assert(out@ =~= old(out)@ + glyph_suffix(kind));
        }
        Morphism::Epi | Morphism::RightInv | Morphism::EpiMono => {
            out.append(">");
            out.append(">");
            assert(out@ =~= old(out)@ + glyph_suffix(kind));
        }
        Morphism::RevMono | Morphism::RevEpiMono => {
            out.append("!");
            assert(out@ =~= old(out)@ + glyph_suffix(kind));
        }
        Morphism::RevLeftInv => {
            out.append("!");
            out.append(">");
            assert(out@ =~= old(out)@ + glyph_suffix(kind));
        }
        Morphism::Unknown | Morphism::RevDir | Morphism::RevEpi => {
            assert(out@ =~= old(out)@ + glyph_suffix(kind));
        }
    }
}

/// Writes the arrow body for a kind and degree.
fn write_body(kind: Morphism, degree: usize, out: &mut String)
    ensures
        final(out)@ == old(out)@ + arrow_body(kind, degree as nat),
{
    proof {
        reveal_strlit("=");
        reveal_strlit("-");
        assert("="@ =~= seq!['=']);
        assert("-"@ =~= seq!['-']);
    }
    if kind == Morphism::Zero {
        assert(out@ =~= old(out)@ + arrow_body(kind, degree as nat));
        return ;
    }
    let halves: usize = degree / 2;
    let mut i: usize = 0;
    while i < halves
        invariant
            i <= halves,
            halves == degree / 2,
            out@ == old(out)@ + char_repeat('=', i as nat),
        decreases halves - i,
    {
        out.append("=");
        proof {
            reveal_strlit("=");
            assert("="@ =~= seq!['=']);
            assert(out@ =~= old(out)@ + char_repeat('=', (i + 1) as nat));
        }
        i = i + 1;
    }
    if degree % 2 == 1 {
        out.append("-");
    }
    assert(out@ =~= old(out)@ + arrow_body(kind, degree as nat));
}

/// Writes the canonical text of an expression.
fn write_expr(e: &Expr, out: &mut String)
    ensures
        final(out)@ == old(out)@ + render_v(e@),
    decreases e, 0int,
{
    proof {
        reveal_strlit("0");
        reveal_strlit("[");
        reveal_strlit("]");
        reveal_strlit(" ");
        assert("0"@ =~= seq!['0']);
        assert("["@ =~= seq!['[']);
        assert("]"@ =~= seq![']']);
        assert(" "@ =~= seq![' ']);
    }
    match e {
        Expr::_0 => {
            out.append("0");
            assert(out@ =~= old(out)@ + render_v(e@));
        }
        Expr::Obj(name) => {
            out.append(name.as_str());
            assert(out@ =~= old(out)@ + render_v(e@));
        }
        Expr::Mor(kind, degree, ends) => {
            write_operand(&ends.0, out);
            out.append(" ");
            write_prefix(*kind, out);
            write_body(*kind, *degree, out);
            write_suffix(*kind, out);
            out.append(" ");
            write_operand(&ends.1, out);
            assert(out@ =~= old(out)@ + render_v(e@));
        }
        Expr::Path(ends) => {
            write_operand(&ends.0, out);
            out.append("[");
            write_expr(&ends.1, out);
            out.append("]");
            assert(out@ =~= old(out)@ + render_v(e@));
        }
    }
}

/// Writes an expression in operand position, parenthesizing morphisms.
fn write_operand(e: &Expr, out: &mut String)
    ensures
        final(out)@ == old(out)@ + wrap_v(e@),
    decreases e, 1int,
{
    proof {
        reveal_strlit("(");
        reveal_strlit(")");
        assert("("@ =~= seq!['(']);
        assert(")"@ =~= seq![')']);
    }
    match e {
        Expr::Mor(_, _, _) => {
            out.append("(");
            write_expr(e, out);
            out.append(")");
            assert(out@ =~= old(out)@ + wrap_v(e@));
        }
        _ => {
            write_expr(e, out);
            assert(out@ =~= old(out)@ + wrap_v(e@));
        }
    }
}

impl Expr {
    /// The canonical notation text of this expression.
    pub fn to_text(&self) -> (r: String)
        ensures
            r@ == render_v(self@),
    {
        let mut out = String::new();
        write_expr(self, &mut out);
        assert(out@ =~= render_v(self@));
        out
    }
}

} // verus!
