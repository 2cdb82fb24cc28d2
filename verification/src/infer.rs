//! Property inference over a square.
//!
//! Each edge with a known code asserts a binary relation between its
//! oriented endpoints.  A bounded fixed-point closure applies the
//! built-in category-theory rules: an iso is symmetric and composes;
//! an iso weakens to every one-sided property; a four-cycle of epis
//! splits each of its epis into a mono; an object isomorphic to the
//! zero object is itself a zero object, as is the source of a mono or
//! the target of an epi whose other end is one; and every arrow into
//! or out of a zero object is a zero arrow.  The entailed relations
//! are then written back onto the edges through the composition
//! table.
//!
//! The relation kinds are numbered in the order in which they are
//! decoded: 0 plain arrow, 1 left inverse, 2 right inverse, 3 iso,
//! 4 epi, 5 mono, 6 zero.

use vstd::prelude::*;

use crate::code::{bind_v, lab_view, spec_is_reversed, wf_square, Square, SquareV};
use crate::{Expr, ExprV, Morphism};

verus! {

/// The number of relation and zero-object bits: seven relation kinds
/// over ordered pairs from eight objects, then one bit per object.
pub open spec fn bits_len() -> int {
    456
}

/// The bit holding relation `k` between objects `a` and `b`, both
/// one-based.
pub open spec fn rel_idx(k: int, a: int, b: int) -> int {
    k * 64 + (a - 1) * 8 + (b - 1)
}

/// The bit flagging object `a` as a zero object.
pub open spec fn zl_idx(a: int) -> int {
    448 + (a - 1)
}

/// Whether relation `k` holds between `a` and `b`.
pub open spec fn has(s: Seq<bool>, k: int, a: int, b: int) -> bool {
    0 <= k < 7 && 1 <= a <= 8 && 1 <= b <= 8 && s[rel_idx(k, a, b)]
}

/// Whether object `a` is known to be a zero object.
pub open spec fn zl(s: Seq<bool>, a: int) -> bool {
    1 <= a <= 8 && s[zl_idx(a)]
}

/// Whether one derivation step adds bit `i`: the built-in rules.
pub open spec fn derived(s: Seq<bool>, i: int) -> bool {
    if 448 <= i < 456 {
        // a zero object spreads across isos, backward across monos
        // and forward across epis
        let a = i - 448 + 1;
        exists|b: int|
            1 <= b <= 8 && #[trigger] zl(s, b) && (has(s, 3, a, b) || has(s, 3, b, a) || has(
                s,
                5,
                a,
                b,
            ) || has(s, 4, b, a))
    } else if 0 <= i < 448 {
        let k = i / 64;
        let a = (i % 64) / 8 + 1;
        let b = (i % 64) % 8 + 1;
        if k == 3 {
            // an iso is symmetric and composes
            has(s, 3, b, a) || exists|c: int|
                1 <= c <= 8 && #[trigger] has(s, 3, a, c) && has(s, 3, c, b)
        } else if k == 6 {
            // arrows touching a zero object are zero arrows
            zl(s, a) || zl(s, b)
        } else if k == 5 {
            // an iso weakens to a mono; an epi in a four-cycle of
            // epis is split, so it is a mono as well
            has(s, 3, a, b) || (has(s, 4, a, b) && exists|c: int, d: int|
                1 <= c <= 8 && 1 <= d <= 8 && #[trigger] has(s, 4, b, c) && #[trigger] has(
                    s,
                    4,
                    c,
                    d,
                ) && has(s, 4, d, a))
        } else {
            // an iso weakens to a plain arrow, to both one-sided
            // inverses and to an epi
            has(s, 3, a, b)
        }
    } else {
        false
    }
}

/// One closure step: every held bit stays, every derivable bit is
/// added.
pub open spec fn step(s: Seq<bool>) -> Seq<bool> {
    Seq::new(456, |i: int| s[i] || derived(s, i))
}

/// The closure step applied `n` times.
pub open spec fn iter_steps(s: Seq<bool>, n: nat) -> Seq<bool>
    decreases n,
{
    if n == 0 {
        s
    } else {
        iter_steps(step(s), (n - 1) as nat)
    }
}

/// The entailed relation set: more steps than there are bits, so the
/// iteration has reached its fixed point.
pub open spec fn closure(s: Seq<bool>) -> Seq<bool> {
    iter_steps(s, 464)
}

/// No bits set.
pub open spec fn empty_bits() -> Seq<bool> {
    Seq::new(456, |i: int| false)
}

/// Flags each bound value that is the zero object, scanning from `j`.
pub open spec fn zl_seed(s: Seq<bool>, bind: Seq<ExprV>, j: int) -> Seq<bool>
    decreases bind.len() - j,
{
    if 0 <= j && j < bind.len() {
        let s1 = if bind[j] == ExprV::ZeroObj {
            s.update(zl_idx(j + 1), true)
        } else {
            s
        };
        zl_seed(s1, bind, j + 1)
    } else {
        s
    }
}

/// The relation bits one edge code asserts about its oriented
/// endpoints; an epi-mono asserts both an epi and a mono.
pub open spec fn emit_code_bits(s: Seq<bool>, code: Morphism, f: int, t: int) -> Seq<bool> {
    match code {
        Morphism::Unknown => s,
        Morphism::Dir | Morphism::RevDir => s.update(rel_idx(0, f, t), true),
        Morphism::LeftInv | Morphism::RevLeftInv => s.update(rel_idx(1, f, t), true),
        Morphism::RightInv | Morphism::RevRightInv => s.update(rel_idx(2, f, t), true),
        Morphism::Iso | Morphism::RevIso => s.update(rel_idx(3, f, t), true),
        Morphism::Epi | Morphism::RevEpi => s.update(rel_idx(4, f, t), true),
        Morphism::Mono | Morphism::RevMono => s.update(rel_idx(5, f, t), true),
        Morphism::EpiMono | Morphism::RevEpiMono => s.update(rel_idx(4, f, t), true).update(
            rel_idx(5, f, t),
            true,
        ),
        Morphism::Zero | Morphism::RevZero => s.update(rel_idx(6, f, t), true),
    }
}

/// The facts one edge asserts: nothing for an object label; otherwise
/// its code's relations between the endpoints, oriented by the code's
/// direction.
pub open spec fn emit_edge(s: Seq<bool>, lab: (int, int, int), code: Morphism) -> Seq<bool> {
    if lab.0 == 0 {
        let f = if spec_is_reversed(code) {
            lab.2
        } else {
            lab.1
        };
        let t = if spec_is_reversed(code) {
            lab.1
        } else {
            lab.2
        };
        emit_code_bits(s, code, f, t)
    } else {
        s
    }
}

/// All the facts a square asserts: its zero objects and its four
/// edges, in order.
pub open spec fn facts_of(sq: SquareV) -> Seq<bool> {
    let s0 = zl_seed(empty_bits(), sq.bind, 0);
    let s1 = emit_edge(s0, sq.labels[0], sq.code[0]);
    let s2 = emit_edge(s1, sq.labels[1], sq.code[1]);
    let s3 = emit_edge(s2, sq.labels[2], sq.code[2]);
    emit_edge(s3, sq.labels[3], sq.code[3])
}

/// The composition table: how an edge's current code absorbs an
/// entailed relation kind.  A kind that a code's family does not
/// list leaves the code unchanged.
pub open spec fn compose_code(code: Morphism, k: int) -> Morphism {
    match code {
        Morphism::Unknown => Morphism::Unknown,
        Morphism::Dir => if k == 2 {
            Morphism::RightInv
        } else if k == 5 {
            Morphism::Mono
        } else if k == 6 {
            Morphism::Zero
        } else {
            code
        },
        Morphism::RevDir => if k == 1 {
            Morphism::RevLeftInv
        } else if k == 3 {
            Morphism::RevIso
        } else if k == 5 {
            Morphism::RevMono
        } else if k == 6 {
            Morphism::RevZero
        } else {
            code
        },
        Morphism::Mono => if k == 4 {
            Morphism::EpiMono
        } else if k == 6 {
            Morphism::Zero
        } else {
            code
        },
        Morphism::RevMono => if k == 4 {
            Morphism::RevEpiMono
        } else if k == 6 {
            Morphism::RevZero
        } else {
            code
        },
        Morphism::Epi => if k == 5 {
            Morphism::EpiMono
        } else if k == 3 {
            Morphism::Iso
        } else {
            code
        },
        Morphism::RevEpi => if k == 5 {
            Morphism::RevEpiMono
        } else if k == 3 {
            Morphism::RevIso
        } else {
            code
        },
        Morphism::EpiMono => if k == 3 {
            Morphism::Iso
        } else {
            code
        },
        Morphism::RevEpiMono => if k == 3 {
            Morphism::RevIso
        } else {
            code
        },
        Morphism::LeftInv => if k == 2 {
            Morphism::Iso
        } else {
            code
        },
        Morphism::RevLeftInv => if k == 2 {
            Morphism::RevIso
        } else {
            code
        },
        Morphism::RightInv => if k == 1 || k == 3 {
            Morphism::Iso
        } else {
            code
        },
        Morphism::RevRightInv => if k == 1 {
            Morphism::RevIso
        } else {
            code
        },
        Morphism::Iso => if k == 6 {
            Morphism::Zero
        } else {
            code
        },
        Morphism::RevIso => if k == 6 {
            Morphism::RevZero
        } else {
            code
        },
        Morphism::Zero => code,
        Morphism::RevZero => code,
    }
}

/// Decodes one edge: the relation kinds entailed between its stored
/// endpoints, in either order, are absorbed in the fixed kind order.
pub open spec fn decode_from(s: Seq<bool>, lab: (int, int, int), code: Morphism, k: int)
    -> Morphism
    decreases 7 - k,
{
    if 0 <= k < 7 {
        let c2 = if has(s, k, lab.1, lab.2) || has(s, k, lab.2, lab.1) {
            compose_code(code, k)
        } else {
            code
        };
        decode_from(s, lab, c2, k + 1)
    } else {
        code
    }
}

/// The decoded code of one edge.
pub open spec fn decode_edge(s: Seq<bool>, lab: (int, int, int), code: Morphism) -> Morphism {
    decode_from(s, lab, code, 0)
}

/// What inference returns for a square: each edge's code after the
/// entailed relations are decoded onto it.
pub open spec fn infer_codes(sq: SquareV) -> Seq<Morphism> {
    let cl = closure(facts_of(sq));
    seq![
        decode_edge(cl, sq.labels[0], sq.code[0]),
        decode_edge(cl, sq.labels[1], sq.code[1]),
        decode_edge(cl, sq.labels[2], sq.code[2]),
        decode_edge(cl, sq.labels[3], sq.code[3]),
    ]
}

/// Reads the bit for relation `k` between `a` and `b`.
fn bit_rel(s: &Vec<bool>, k: usize, a: usize, b: usize) -> (r: bool)
    requires
        s@.len() == 456,
    ensures
        r == has(s@, k as int, a as int, b as int),
{
    if k < 7 && 1 <= a && a <= 8 && 1 <= b && b <= 8 {
        s[k * 64 + (a - 1) * 8 + (b - 1)]
    } else {
        false
    }
}

/// Reads the zero-object bit of `a`.
fn bit_zl(s: &Vec<bool>, a: usize) -> (r: bool)
    requires
        s@.len() == 456,
    ensures
        r == zl(s@, a as int),
{
    if 1 <= a && a <= 8 {
        s[448 + (a - 1)]
    } else {
        false
    }
}

/// Whether some object completes an iso composition from `a` to `b`.
fn find_iso_mid(s: &Vec<bool>, a: usize, b: usize) -> (r: bool)
    requires
        s@.len() == 456,
    ensures
        r == exists|c: int|
            1 <= c <= 8 && #[trigger] has(s@, 3, a as int, c) && has(s@, 3, c, b as int),
{
    let mut c: usize = 1;
    let mut r = false;
    while c <= 8
        invariant
            s@.len() == 456,
            1 <= c <= 9,
            r == exists|x: int|
                1 <= x < c && #[trigger] has(s@, 3, a as int, x) && has(s@, 3, x, b as int),
        decreases 9 - c,
    {
        if bit_rel(s, 3, a, c) && bit_rel(s, 3, c, b) {
            r = true;
        }
        c = c + 1;
    }
    r
}

/// Whether some object `d` closes an epi chain `c -> d -> a`.
fn find_epi_last(s: &Vec<bool>, c: usize, a: usize) -> (r: bool)
    requires
        s@.len() == 456,
    ensures
        r == exists|d: int|
            1 <= d <= 8 && #[trigger] has(s@, 4, c as int, d) && has(s@, 4, d, a as int),
{
    let mut d: usize = 1;
    let mut r = false;
    while d <= 8
        invariant
            s@.len() == 456,
            1 <= d <= 9,
            r == exists|x: int|
                1 <= x < d && #[trigger] has(s@, 4, c as int, x) && has(s@, 4, x, a as int),
        decreases 9 - d,
    {
        if bit_rel(s, 4, c, d) && bit_rel(s, 4, d, a) {
            r = true;
        }
        d = d + 1;
    }
    r
}

/// Whether a four-cycle of epis runs from `a` through `b` back to
/// `a`.
fn find_epi_cycle(s: &Vec<bool>, a: usize, b: usize) -> (r: bool)
    requires
        s@.len() == 456,
    ensures
        r == exists|c: int, d: int|
            1 <= c <= 8 && 1 <= d <= 8 && #[trigger] has(s@, 4, b as int, c) && #[trigger] has(
                s@,
                4,
                c,
                d,
            ) && has(s@, 4, d, a as int),
{
    let mut c: usize = 1;
    let mut r = false;
    while c <= 8
        invariant
            s@.len() == 456,
            1 <= c <= 9,
            r == exists|x: int, d: int|
                1 <= x < c && 1 <= d <= 8 && #[trigger] has(s@, 4, b as int, x) && #[trigger] has(
                    s@,
                    4,
                    x,
                    d,
                ) && has(s@, 4, d, a as int),
        decreases 9 - c,
    {
        if bit_rel(s, 4, b, c) && find_epi_last(s, c, a) {
            r = true;
        }
        c = c + 1;
    }
    r
}

/// Whether the derivation rules add bit `i` given the bits in `s`.
fn derived_ex(s: &Vec<bool>, i: usize) -> (r: bool)
    requires
        s@.len() == 456,
        i < 456,
    ensures
        r == derived(s@, i as int),
{
    if i >= 448 {
        let a = i - 448 + 1;
        let mut b: usize = 1;
        let mut r = false;
        while b <= 8
            invariant
                s@.len() == 456,
                1 <= b <= 9,
                1 <= a <= 8,
                a == i as int - 448 + 1,
                r == exists|x: int|
                    1 <= x < b && #[trigger] zl(s@, x) && (has(s@, 3, a as int, x) || has(
                        s@,
                        3,
                        x,
                        a as int,
                    ) || has(s@, 5, a as int, x) || has(s@, 4, x, a as int)),
            decreases 9 - b,
        {
            if bit_zl(s, b) && (bit_rel(s, 3, a, b) || bit_rel(s, 3, b, a) || bit_rel(s, 5, a, b)
                || bit_rel(s, 4, b, a)) {
                r = true;
            }
            b = b + 1;
        }
        r
    } else {
        let k = i / 64;
        let a = (i % 64) / 8 + 1;
        let b = (i % 64) % 8 + 1;
        if k == 3 {
            bit_rel(s, 3, b, a) || find_iso_mid(s, a, b)
        } else if k == 6 {
            bit_zl(s, a) || bit_zl(s, b)
        } else if k == 5 {
            bit_rel(s, 3, a, b) || (bit_rel(s, 4, a, b) && find_epi_cycle(s, a, b))
        } else {
            bit_rel(s, 3, a, b)
        }
    }
}

/// One closure step over fresh storage.
fn step_ex(s: &Vec<bool>) -> (r: Vec<bool>)
    requires
        s@.len() == 456,
    ensures
        r@ == step(s@),
{
    let mut out: Vec<bool> = Vec::new();
    let mut i: usize = 0;
    while i < 456
        invariant
            s@.len() == 456,
            i <= 456,
            out@.len() == i,
            forall|j: int| 0 <= j < i ==> out@[j] == (s@[j] || derived(s@, j)),
        decreases 456 - i,
    {
        let bit = s[i] || derived_ex(s, i);
        out.push(bit);
        i = i + 1;
    }
    assert(out@ =~= step(s@));
    out
}

impl Square {
    /// Evaluates the square: asserts each known edge as a relation,
    /// closes the relation set under the built-in category-theory
    /// rules, and decodes the entailed relations back onto the four
    /// edges.  The square itself is not changed.
    pub fn eval(&self) -> (r: [Morphism; 4])
        requires
            wf_square(self@),
        ensures
            r@ == infer_codes(self@),
    {
        let ghost sqv = self@;
        // no facts yet
        let mut bits: Vec<bool> = Vec::new();
        let mut i: usize = 0;
        while i < 456
            invariant
                i <= 456,
                bits@.len() == i,
                forall|j: int| 0 <= j < i ==> !bits@[j],
            decreases 456 - i,
        {
            bits.push(false);
            i = i + 1;
        }
        assert(bits@ =~= empty_bits());

        // the zero objects among the bound values
        let n = self.bind.len();
        let ghost bv = bind_v(self.bind@);
        let mut j: usize = 0;
        while j < n
            invariant
                n == self.bind@.len(),
                n <= 8,
                j <= n,
                bv == bind_v(self.bind@),
                bits@.len() == 456,
                zl_seed(empty_bits(), bv, 0) == zl_seed(bits@, bv, j as int),
            decreases n - j,
        {
            let is_zero = match &self.bind[j] {
                Expr::_0 => true,
                _ => false,
            };
            if is_zero {
                assert(bv[j as int] == ExprV::ZeroObj);
                bits.set(448 + j, true);
            } else {
                assert(bv[j as int] != ExprV::ZeroObj);
            }
            j = j + 1;
        }
        assert(zl_seed(empty_bits(), bv, 0) == bits@);

        // the facts of the four edges
        emit_edge_ex(&mut bits, self.labels[0], self.code[0]);
        emit_edge_ex(&mut bits, self.labels[1], self.code[1]);
        emit_edge_ex(&mut bits, self.labels[2], self.code[2]);
        emit_edge_ex(&mut bits, self.labels[3], self.code[3]);
        assert(bits@ == facts_of(sqv));
        let ghost facts = bits@;

        // the bounded fixed-point closure
        let mut p: usize = 0;
        while p < 464
            invariant
                p <= 464,
                bits@.len() == 456,
                iter_steps(facts, 464) == iter_steps(bits@, (464 - p) as nat),
            decreases 464 - p,
        {
            bits = step_ex(&bits);
            p = p + 1;
        }
        assert(bits@ == closure(facts));

        // write the entailed relations back onto the edges
        let c0 = decode_edge_ex(&bits, self.labels[0], self.code[0]);
        let c1 = decode_edge_ex(&bits, self.labels[1], self.code[1]);
        let c2 = decode_edge_ex(&bits, self.labels[2], self.code[2]);
        let c3 = decode_edge_ex(&bits, self.labels[3], self.code[3]);
        let r = [c0, c1, c2, c3];
        assert(r@ =~= infer_codes(sqv));
        r
    }
}

/// The composition table as executable code.
fn compose_ex(code: Morphism, k: usize) -> (r: Morphism)
    ensures
        r == compose_code(code, k as int),
{
    match code {
        Morphism::Unknown => Morphism::Unknown,
        Morphism::Dir => if k == 2 {
            Morphism::RightInv
        } else if k == 5 {
            Morphism::Mono
        } else if k == 6 {
            Morphism::Zero
        } else {
            code
        },
        Morphism::RevDir => if k == 1 {
            Morphism::RevLeftInv
        } else if k == 3 {
            Morphism::RevIso
        } else if k == 5 {
            Morphism::RevMono
        } else if k == 6 {
            Morphism::RevZero
        } else {
            code
        },
        Morphism::Mono => if k == 4 {
            Morphism::EpiMono
        } else if k == 6 {
            Morphism::Zero
        } else {
            code
        },
        Morphism::RevMono => if k == 4 {
            Morphism::RevEpiMono
        } else if k == 6 {
            Morphism::RevZero
        } else {
            code
        },
        Morphism::Epi => if k == 5 {
            Morphism::EpiMono
        } else if k == 3 {
            Morphism::Iso
        } else {
            code
        },
        Morphism::RevEpi => if k == 5 {
            Morphism::RevEpiMono
        } else if k == 3 {
            Morphism::RevIso
        } else {
            code
        },
        Morphism::EpiMono => if k == 3 {
            Morphism::Iso
        } else {
            code
        },
        Morphism::RevEpiMono => if k == 3 {
            Morphism::RevIso
        } else {
            code
        },
        Morphism::LeftInv => if k == 2 {
            Morphism::Iso
        } else {
            code
        },
        Morphism::RevLeftInv => if k == 2 {
            Morphism::RevIso
        } else {
            code
        },
        Morphism::RightInv => if k == 1 || k == 3 {
            Morphism::Iso
        } else {
            code
        },
        Morphism::RevRightInv => if k == 1 {
            Morphism::RevIso
        } else {
            code
        },
        Morphism::Iso => if k == 6 {
            Morphism::Zero
        } else {
            code
        },
        Morphism::RevIso => if k == 6 {
            Morphism::RevZero
        } else {
            code
        },
        Morphism::Zero => code,
        Morphism::RevZero => code,
    }
}

/// Decodes one edge against the closed relation set.
fn decode_edge_ex(s: &Vec<bool>, lab: [u8; 3], code: Morphism) -> (r: Morphism)
    requires
        s@.len() == 456,
    ensures
        r == decode_edge(s@, lab_view(lab), code),
{
    let a = lab[1] as usize;
    let b = lab[2] as usize;
    let mut cur = code;
    let mut k: usize = 0;
    while k < 7
        invariant
            s@.len() == 456,
            k <= 7,
            a == lab_view(lab).1,
            b == lab_view(lab).2,
            decode_edge(s@, lab_view(lab), code) == decode_from(s@, lab_view(lab), cur, k as int),
        decreases 7 - k,
    {
        if bit_rel(s, k, a, b) || bit_rel(s, k, b, a) {
            cur = compose_ex(cur, k);
        }
        k = k + 1;
    }
    cur
}

/// Sets the relation bits one edge asserts.
fn emit_edge_ex(bits: &mut Vec<bool>, lab: [u8; 3], code: Morphism)
    requires
        old(bits)@.len() == 456,
        lab_view(lab).0 == 0 ==> 1 <= lab_view(lab).1 <= 8 && 1 <= lab_view(lab).2 <= 8,
    ensures
        final(bits)@ == emit_edge(old(bits)@, lab_view(lab), code),
        final(bits)@.len() == 456,
{
    if lab[0] != 0 {
        return ;
    }
    let (f, t): (usize, usize) = if crate::code::is_reversed(code) {
        (lab[2] as usize, lab[1] as usize)
    } else {
        (lab[1] as usize, lab[2] as usize)
    };
    match code {
        Morphism::Unknown => {}
        Morphism::Dir | Morphism::RevDir => {
            bits.set(0 * 64 + (f - 1) * 8 + (t - 1), true);
        }
        Morphism::LeftInv | Morphism::RevLeftInv => {
            bits.set(1 * 64 + (f - 1) * 8 + (t - 1), true);
        }
        Morphism::RightInv | Morphism::RevRightInv => {
            bits.set(2 * 64 + (f - 1) * 8 + (t - 1), true);
        }
        Morphism::Iso | Morphism::RevIso => {
            bits.set(3 * 64 + (f - 1) * 8 + (t - 1), true);
        }
        Morphism::Epi | Morphism::RevEpi => {
            bits.set(4 * 64 + (f - 1) * 8 + (t - 1), true);
        }
        Morphism::Mono | Morphism::RevMono => {
            bits.set(5 * 64 + (f - 1) * 8 + (t - 1), true);
        }
        Morphism::EpiMono | Morphism::RevEpiMono => {
            bits.set(4 * 64 + (f - 1) * 8 + (t - 1), true);
            bits.set(5 * 64 + (f - 1) * 8 + (t - 1), true);
        }
        Morphism::Zero | Morphism::RevZero => {
            bits.set(6 * 64 + (f - 1) * 8 + (t - 1), true);
        }
    }
}

} // verus!
