//! The notation parser.
//!
//! The grammar of the notation, as consumed here:
//!
//! ```text
//! text    :=  ws expr ws
//! expr    :=  operand (ws arrow ws operand)?
//! operand :=  atom ("[" expr "]")*
//! atom    :=  "(" expr ")" | name
//! name    :=  one or more of [A-Za-z0-9_]; the name "0" is the zero object
//! arrow   :=  prefix body suffix, where prefix is one of "", "<", "!",
//!             "<!", "<<"; body is "=" (counting two) and "-" (counting
//!             one) characters; suffix is one of "", ">", "!", "!>", ">>"
//! ```
//!
//! The prefix and suffix pair picks the morphism kind; the body gives
//! the degree.  The pair `<` and `>` with an empty body is the zero
//! arrow, which always has degree one; with a body it is an iso.

use std::sync::Arc;

use vstd::prelude::*;
use vstd::string::StrSliceExecFns;
use vstd::string::StringExecFns;

use crate::{mor_v, Expr, ExprV, Morphism};

verus! {

/// The characters an object name may hold.
pub open spec fn is_obj_char(c: char) -> bool {
    ('0' <= c && c <= '9') || ('A' <= c && c <= 'Z') || ('a' <= c && c <= 'z') || c == '_'
}

/// The characters an arrow token may start with.
pub open spec fn is_arrow_start(c: char) -> bool {
    c == '<' || c == '!' || c == '-' || c == '='
}

/// The first position at or after `pos` that does not hold a space.
pub open spec fn skip_ws(s: Seq<char>, pos: int) -> int
    decreases s.len() - pos,
{
    if 0 <= pos && pos < s.len() && s[pos] == ' ' {
        skip_ws(s, pos + 1)
    } else {
        pos
    }
}

/// The first position at or after `pos` that does not hold an object
/// name character.
pub open spec fn scan_obj(s: Seq<char>, pos: int) -> int
    decreases s.len() - pos,
{
    if 0 <= pos && pos < s.len() && is_obj_char(s[pos]) {
        scan_obj(s, pos + 1)
    } else {
        pos
    }
}

/// The position after the arrow body starting at `pos`.
pub open spec fn body_end(s: Seq<char>, pos: int) -> int
    decreases s.len() - pos,
{
    if 0 <= pos && pos < s.len() && (s[pos] == '=' || s[pos] == '-') {
        body_end(s, pos + 1)
    } else {
        pos
    }
}

/// The degree carried by the arrow body starting at `pos`: two for
/// each `=` and one for each `-`.
pub open spec fn body_n(s: Seq<char>, pos: int) -> int
    decreases s.len() - pos,
{
    if 0 <= pos && pos < s.len() && s[pos] == '=' {
        2 + body_n(s, pos + 1)
    } else if 0 <= pos && pos < s.len() && s[pos] == '-' {
        1 + body_n(s, pos + 1)
    } else {
        0
    }
}

/// The arrow prefix at `pos`, as a code, and the position after it:
/// 0 for none, 1 for `<`, 2 for `!`, 3 for `<!`, 4 for `<<`.
pub open spec fn pre_code(s: Seq<char>, pos: int) -> (u8, int) {
    if 0 <= pos && pos < s.len() && s[pos] == '<' {
        if pos + 1 < s.len() && s[pos + 1] == '<' {
            (4u8, pos + 2)
        } else if pos + 1 < s.len() && s[pos + 1] == '!' {
            (3u8, pos + 2)
        } else {
            (1u8, pos + 1)
        }
    } else if 0 <= pos && pos < s.len() && s[pos] == '!' {
        (2u8, pos + 1)
    } else {
        (0u8, pos)
    }
}

/// The arrow suffix at `pos`, as a code, and the position after it:
/// 0 for none, 1 for `>`, 2 for `!`, 3 for `!>`, 4 for `>>`.
pub open spec fn suf_code(s: Seq<char>, pos: int) -> (u8, int) {
    if 0 <= pos && pos < s.len() && s[pos] == '!' {
        if pos + 1 < s.len() && s[pos + 1] == '>' {
            (3u8, pos + 2)
        } else {
            (2u8, pos + 1)
        }
    } else if 0 <= pos && pos < s.len() && s[pos] == '>' {
        if pos + 1 < s.len() && s[pos + 1] == '>' {
            (4u8, pos + 2)
        } else {
            (1u8, pos + 1)
        }
    } else {
        (0u8, pos)
    }
}

/// The morphism kind named by a prefix and suffix pair; the degree
/// only tells the `<`/`>` pair apart: empty body is the zero arrow.
pub open spec fn arrow_kind(pre: u8, suf: u8, n: int) -> Option<Morphism> {
    if pre == 0 && suf == 1 {
        Some(Morphism::Dir)
    } else if pre == 1 && suf == 0 {
        Some(Morphism::RevDir)
    } else if pre == 2 && suf == 1 {
        Some(Morphism::Mono)
    } else if pre == 1 && suf == 2 {
        Some(Morphism::RevMono)
    } else if pre == 0 && suf == 4 {
        Some(Morphism::Epi)
    } else if pre == 4 && suf == 0 {
        Some(Morphism::RevEpi)
    } else if pre == 2 && suf == 4 {
        Some(Morphism::EpiMono)
    } else if pre == 4 && suf == 2 {
        Some(Morphism::RevEpiMono)
    } else if pre == 3 && suf == 1 {
        Some(Morphism::LeftInv)
    } else if pre == 1 && suf == 3 {
        Some(Morphism::RevLeftInv)
    } else if pre == 1 && suf == 4 {
        Some(Morphism::RightInv)
    } else if pre == 4 && suf == 1 {
        Some(Morphism::RevRightInv)
    } else if pre == 1 && suf == 1 {
        if n == 0 {
            Some(Morphism::Zero)
        } else {
            Some(Morphism::Iso)
        }
    } else {
        None
    }
}

/// Parses the arrow token at `pos`: its kind, its degree and the
/// position after it.  A degree that cannot be held in a machine word
/// is rejected.
pub open spec fn parse_arrow_v(s: Seq<char>, pos: int) -> Option<(Morphism, int, int)> {
    let (pc, p1) = pre_code(s, pos);
    let p2 = body_end(s, p1);
    let n = body_n(s, p1);
    let (sc, p3) = suf_code(s, p2);
    match arrow_kind(pc, sc, n) {
        Some(kind) => if kind == Morphism::Zero {
            Some((kind, 1, p3))
        } else if 1 <= n && n <= usize::MAX {
            Some((kind, n, p3))
        } else {
            None
        },
        None => None,
    }
}

/// Parses an expression at `pos`: an operand, optionally followed by
/// an arrow and a second operand.
pub open spec fn parse_expr_v(s: Seq<char>, pos: int) -> Option<(ExprV, int)>
    decreases s.len() - pos, 3int,
{
    if !(0 <= pos && pos <= s.len()) {
        None
    } else {
        match parse_operand_v(s, pos) {
            Some((a, p1)) => {
                let q = skip_ws(s, p1);
                if pos <= p1 && p1 <= q && q < s.len() && is_arrow_start(s[q]) {
                    match parse_arrow_v(s, q) {
                        Some((kind, n, p2)) => {
                            let r = skip_ws(s, p2);
                            if q < p2 && p2 <= r && r <= s.len() {
                                match parse_operand_v(s, r) {
                                    Some((b, p3)) => Some(
                                        (mor_v(kind, n as nat, a, b), p3),
                                    ),
                                    None => None,
                                }
                            } else {
                                None
                            }
                        }
                        None => None,
                    }
                } else {
                    Some((a, p1))
                }
            }
            None => None,
        }
    }
}

/// Parses an operand at `pos`: an atom with any number of path tails.
pub open spec fn parse_operand_v(s: Seq<char>, pos: int) -> Option<(ExprV, int)>
    decreases s.len() - pos, 2int,
{
    if !(0 <= pos && pos <= s.len()) {
        None
    } else {
        match parse_atom_v(s, pos) {
            Some((a, p)) => if pos <= p && p <= s.len() {
                parse_tails_v(s, p, a)
            } else {
                None
            },
            None => None,
        }
    }
}

/// Parses the path tails at `pos`, folding each `[...]` onto `acc`
/// from the left.
pub open spec fn parse_tails_v(s: Seq<char>, pos: int, acc: ExprV) -> Option<(ExprV, int)>
    decreases s.len() - pos, 1int,
{
    if 0 <= pos && pos < s.len() && s[pos] == '[' {
        match parse_expr_v(s, pos + 1) {
            Some((inner, p1)) => if pos + 1 <= p1 && p1 < s.len() && s[p1] == ']' {
                parse_tails_v(s, p1 + 1, ExprV::Path(Box::new(acc), Box::new(inner)))
            } else {
                None
            },
            None => None,
        }
    } else {
        Some((acc, pos))
    }
}

/// Parses an atom at `pos`: a parenthesized expression or a name.
pub open spec fn parse_atom_v(s: Seq<char>, pos: int) -> Option<(ExprV, int)>
    decreases s.len() - pos, 0int,
{
    if !(0 <= pos && pos < s.len()) {
        None
    } else if s[pos] == '(' {
        match parse_expr_v(s, pos + 1) {
            Some((e, p)) => if pos + 1 <= p && p < s.len() && s[p] == ')' {
                Some((e, p + 1))
            } else {
                None
            },
            None => None,
        }
    } else if is_obj_char(s[pos]) {
        let end = scan_obj(s, pos);
        let name = s.subrange(pos, end);
        if name == seq!['0'] {
            Some((ExprV::ZeroObj, end))
        } else {
            Some((ExprV::Obj(name), end))
        }
    } else {
        None
    }
}

/// Parses a whole text: one expression with nothing but spaces around
/// it.
pub open spec fn parse_text(s: Seq<char>) -> Option<ExprV> {
    match parse_expr_v(s, skip_ws(s, 0)) {
        Some((e, p)) => if skip_ws(s, p) == s.len() {
            Some(e)
        } else {
            None
        },
        None => None,
    }
}

/// The scanned name region stays inside the text.
pub proof fn lemma_scan_obj_bounds(s: Seq<char>, pos: int)
    requires
        0 <= pos <= s.len(),
    ensures
        pos <= scan_obj(s, pos) <= s.len(),
    decreases s.len() - pos,
{
    if pos < s.len() && is_obj_char(s[pos]) {
        lemma_scan_obj_bounds(s, pos + 1);
    }
}

/// The body region stays inside the text and carries a degree no
/// larger than twice its width.
pub proof fn lemma_body_bounds(s: Seq<char>, pos: int)
    requires
        0 <= pos <= s.len(),
    ensures
        pos <= body_end(s, pos) <= s.len(),
        0 <= body_n(s, pos) <= 2 * (body_end(s, pos) - pos),
    decreases s.len() - pos,
{
    if pos < s.len() && (s[pos] == '=' || s[pos] == '-') {
        lemma_body_bounds(s, pos + 1);
    }
}

/// Whether a character may stand in an object name.
fn obj_char(c: char) -> (r: bool)
    ensures
        r == is_obj_char(c),
{
    ('0' <= c && c <= '9') || ('A' <= c && c <= 'Z') || ('a' <= c && c <= 'z') || c == '_'
}

/// Whether a character can open an arrow token.
fn arrow_start(c: char) -> (r: bool)
    ensures
        r == is_arrow_start(c),
{
    c == '<' || c == '!' || c == '-' || c == '='
}

/// Moves past spaces.
fn ex_skip_ws(s: &str, len: usize, pos: usize) -> (r: usize)
    requires
        len == s@.len(),
        pos <= len,
    ensures
        r == skip_ws(s@, pos as int),
        pos <= r <= len,
    decreases len - pos,
{
    if pos < len && s.get_char(pos) == ' ' {
        ex_skip_ws(s, len, pos + 1)
    } else {
        pos
    }
}

/// Moves past object name characters.
fn ex_scan_obj(s: &str, len: usize, pos: usize) -> (r: usize)
    requires
        len == s@.len(),
        pos <= len,
    ensures
        r == scan_obj(s@, pos as int),
        pos <= r <= len,
    decreases len - pos,
{
    if pos < len && obj_char(s.get_char(pos)) {
        ex_scan_obj(s, len, pos + 1)
    } else {
        pos
    }
}

/// Parses the arrow token at `pos`.
fn ex_arrow(s: &str, len: usize, pos: usize) -> (r: Option<(Morphism, usize, usize)>)
    requires
        len == s@.len(),
        pos <= len,
    ensures
        match r {
            Some((kind, n, p)) => parse_arrow_v(s@, pos as int) == Some(
                (kind, n as int, p as int),
            ) && pos < p <= len,
            None => parse_arrow_v(s@, pos as int) is None,
        },
{
    let ghost spec_pre = pre_code(s@, pos as int);
    let (pc, p1): (u8, usize) = if pos < len && s.get_char(pos) == '<' {
        if pos + 1 < len && s.get_char(pos + 1) == '<' {
            (4u8, pos + 2)
        } else if pos + 1 < len && s.get_char(pos + 1) == '!' {
            (3u8, pos + 2)
        } else {
            (1u8, pos + 1)
        }
    } else if pos < len && s.get_char(pos) == '!' {
        (2u8, pos + 1)
    } else {
        (0u8, pos)
    };
    assert((pc, p1 as int) == spec_pre);

    proof {
        lemma_body_bounds(s@, p1 as int);
    }
    let mut i: usize = p1;
    let mut n: usize = 0;
    let mut overflow: bool = false;
    while i < len && (s.get_char(i) == '=' || s.get_char(i) == '-')
        invariant
            len == s@.len(),
            p1 <= i <= len,
            body_end(s@, p1 as int) == body_end(s@, i as int),
            !overflow ==> body_n(s@, p1 as int) == n + body_n(s@, i as int),
            overflow ==> body_n(s@, p1 as int) > usize::MAX,
        decreases len - i,
    {
        proof {
            lemma_body_bounds(s@, i as int + 1);
        }
        let step: usize = if s.get_char(i) == '=' {
            2
        } else {
            1
        };
        if !overflow {
            if n <= usize::MAX - step {
                n = n + step;
            } else {
                overflow = true;
            }
        }
        i = i + 1;
    }
    let p2 = i;
    assert(body_end(s@, p1 as int) == p2 as int);
    assert(body_n(s@, p2 as int) == 0);

    let ghost spec_suf = suf_code(s@, p2 as int);
    let (sc, p3): (u8, usize) = if p2 < len && s.get_char(p2) == '!' {
        if p2 + 1 < len && s.get_char(p2 + 1) == '>' {
            (3u8, p2 + 2)
        } else {
            (2u8, p2 + 1)
        }
    } else if p2 < len && s.get_char(p2) == '>' {
        if p2 + 1 < len && s.get_char(p2 + 1) == '>' {
            (4u8, p2 + 2)
        } else {
            (1u8, p2 + 1)
        }
    } else {
        (0u8, p2)
    };
    assert((sc, p3 as int) == spec_suf);

    let kind: Option<Morphism> = if pc == 0 && sc == 1 {
        Some(Morphism::Dir)
    } else if pc == 1 && sc == 0 {
        Some(Morphism::RevDir)
    } else if pc == 2 && sc == 1 {
        Some(Morphism::Mono)
    } else if pc == 1 && sc == 2 {
        Some(Morphism::RevMono)
    } else if pc == 0 && sc == 4 {
        Some(Morphism::Epi)
    } else if pc == 4 && sc == 0 {
        Some(Morphism::RevEpi)
    } else if pc == 2 && sc == 4 {
        Some(Morphism::EpiMono)
    } else if pc == 4 && sc == 2 {
        Some(Morphism::RevEpiMono)
    } else if pc == 3 && sc == 1 {
        Some(Morphism::LeftInv)
    } else if pc == 1 && sc == 3 {
        Some(Morphism::RevLeftInv)
    } else if pc == 1 && sc == 4 {
        Some(Morphism::RightInv)
    } else if pc == 4 && sc == 1 {
        Some(Morphism::RevRightInv)
    } else if pc == 1 && sc == 1 {
        if overflow || n > 0 {
            Some(Morphism::Iso)
        } else {
            Some(Morphism::Zero)
        }
    } else {
        None
    };
    assert(kind == arrow_kind(pc, sc, body_n(s@, p1 as int)));

    match kind {
        Some(k) => {
            if k == Morphism::Zero {
                Some((k, 1, p3))
            } else if !overflow && n >= 1 {
                Some((k, n, p3))
            } else {
                None
            }
        }
        None => None,
    }
}

/// Parses an expression.
fn p_expr(s: &str, len: usize, pos: usize) -> (r: Option<(Expr, usize)>)
    requires
        len == s@.len(),
        pos <= len,
    ensures
        match r {
            Some((e, p)) => parse_expr_v(s@, pos as int) == Some((e@, p as int)) && pos <= p
                <= len,
            None => parse_expr_v(s@, pos as int) is None,
        },
    decreases len - pos, 3int,
{
    match p_operand(s, len, pos) {
        Some((a, p1)) => {
            let q = ex_skip_ws(s, len, p1);
            if q < len && arrow_start(s.get_char(q)) {
                match ex_arrow(s, len, q) {
                    Some((kind, n, p2)) => {
                        let r = ex_skip_ws(s, len, p2);
                        match p_operand(s, len, r) {
                            Some((b, p3)) => Some(
                                (Expr::Mor(kind, n, Arc::new((a, b))), p3),
                            ),
                            None => None,
                        }
                    }
                    None => None,
                }
            } else {
                Some((a, p1))
            }
        }
        None => None,
    }
}

/// Parses an operand.
fn p_operand(s: &str, len: usize, pos: usize) -> (r: Option<(Expr, usize)>)
    requires
        len == s@.len(),
        pos <= len,
    ensures
        match r {
            Some((e, p)) => parse_operand_v(s@, pos as int) == Some((e@, p as int)) && pos <= p
                <= len,
            None => parse_operand_v(s@, pos as int) is None,
        },
    decreases len - pos, 2int,
{
    match p_atom(s, len, pos) {
        Some((a, p)) => p_tails(s, len, p, a),
        None => None,
    }
}

/// Parses the path tails that follow an operand.
fn p_tails(s: &str, len: usize, pos: usize, acc: Expr) -> (r: Option<(Expr, usize)>)
    requires
        len == s@.len(),
        pos <= len,
    ensures
        match r {
            Some((e, p)) => parse_tails_v(s@, pos as int, acc@) == Some((e@, p as int)) && pos
                <= p <= len,
            None => parse_tails_v(s@, pos as int, acc@) is None,
        },
    decreases len - pos, 1int,
{
    if pos < len && s.get_char(pos) == '[' {
        match p_expr(s, len, pos + 1) {
            Some((inner, p1)) => {
                if p1 < len && s.get_char(p1) == ']' {
                    p_tails(s, len, p1 + 1, Expr::Path(Arc::new((acc, inner))))
                } else {
                    None
                }
            }
            None => None,
        }
    } else {
        Some((acc, pos))
    }
}

/// Parses an atom.
fn p_atom(s: &str, len: usize, pos: usize) -> (r: Option<(Expr, usize)>)
    requires
        len == s@.len(),
        pos <= len,
    ensures
        match r {
            Some((e, p)) => parse_atom_v(s@, pos as int) == Some((e@, p as int)) && pos <= p
                <= len,
            None => parse_atom_v(s@, pos as int) is None,
        },
    decreases len - pos, 0int,
{
    if pos >= len {
        None
    } else if s.get_char(pos) == '(' {
        match p_expr(s, len, pos + 1) {
            Some((e, p)) => {
                if p < len && s.get_char(p) == ')' {
                    Some((e, p + 1))
                } else {
                    None
                }
            }
            None => None,
        }
    } else if obj_char(s.get_char(pos)) {
        proof {
            lemma_scan_obj_bounds(s@, pos as int);
        }
        let end = ex_scan_obj(s, len, pos);
        let piece = s.substring_char(pos, end);
        if end == pos + 1 && s.get_char(pos) == '0' {
            assert(s@.subrange(pos as int, end as int) =~= seq!['0']);
            Some((Expr::_0, end))
        } else {
            assert(s@.subrange(pos as int, end as int) != seq!['0']) by {
                if s@.subrange(pos as int, end as int) == seq!['0'] {
                    assert(s@.subrange(pos as int, end as int).len() == 1);
                    assert(s@.subrange(pos as int, end as int)[0] == s@[pos as int]);
                }
            }
            let name = String::from_str(piece);
            Some((Expr::Obj(Arc::new(name)), end))
        }
    } else {
        None
    }
}

/// Parses an expression string.
///
/// Returns the expression on success; a text that the grammar rejects
/// gives an error with a diagnostic.
pub fn parse_str(data: &str) -> (r: Result<Expr, String>)
    ensures
        r matches Ok(e) ==> parse_text(data@) == Some(e@),
        r is Err ==> parse_text(data@) is None,
        r matches Err(msg) ==> msg@ == "the text does not fit the notation grammar"@,
{
    let len = data.unicode_len();
    let start = ex_skip_ws(data, len, 0);
    let fail: &str = "the text does not fit the notation grammar";
    match p_expr(data, len, start) {
        Some((e, p)) => {
            let q = ex_skip_ws(data, len, p);
            if q == len {
                Ok(e)
            } else {
                Err(String::from_str(fail))
            }
        }
        None => Err(String::from_str(fail)),
    }
}

} // verus!
