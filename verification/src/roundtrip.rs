//! The round-trip law: rendering a well-formed expression value and
//! parsing the text gives the value back.
//!
//! Well-formed means what the notation can say: object names hold
//! name characters and are not the bare `0`; degrees are at least
//! one, the zero arrow's exactly one; and the three kinds the
//! notation cannot spell (`Unknown`, and the reversed iso and zero,
//! which render like their forward twins) do not occur.

use vstd::prelude::*;

use crate::parsing::{
    body_end, body_n, is_arrow_start, is_obj_char, parse_arrow_v, parse_atom_v, parse_expr_v,
    parse_operand_v, parse_tails_v, parse_text, pre_code, scan_obj, skip_ws, suf_code,
};
use crate::render::{
    arrow_body, arrow_text, char_repeat, glyph_prefix, glyph_suffix, render_v, wrap_v,
};
use crate::{ExprV, Morphism};

verus! {

/// A valid object name: nonempty, name characters only, and not the
/// zero-object spelling.
pub open spec fn wf_name(name: Seq<char>) -> bool {
    name.len() >= 1 && name != seq!['0'] && forall|i: int|
        0 <= i < name.len() ==> is_obj_char(#[trigger] name[i])
}

/// A value the notation can write and read back.
pub open spec fn wf_v(m: ExprV) -> bool
    decreases m,
{
    match m {
        ExprV::ZeroObj => true,
        ExprV::Obj(name) => wf_name(name),
        ExprV::Mor(kind, degree, a, b) => kind != Morphism::Unknown && kind != Morphism::RevIso
            && kind != Morphism::RevZero && 1 <= degree <= usize::MAX && (kind == Morphism::Zero
            ==> degree == 1) && wf_v(*a) && wf_v(*b),
        ExprV::Path(a, b) => wf_v(*a) && wf_v(*b),
    }
}

/// The text `r` stands in `s` at position `pos`.
pub open spec fn region_at(s: Seq<char>, pos: int, r: Seq<char>) -> bool {
    0 <= pos && pos + r.len() <= s.len() && s.subrange(pos, pos + r.len()) == r
}

/// Each character of a region is the region's character.
proof fn lemma_region_index(s: Seq<char>, pos: int, r: Seq<char>, i: int)
    requires
        region_at(s, pos, r),
        0 <= i < r.len(),
    ensures
        s[pos + i] == r[i],
{
    assert(s.subrange(pos, pos + r.len())[i] == s[pos + i]);
}

/// A region made of two pieces is the two pieces in place.
proof fn lemma_region_split(s: Seq<char>, pos: int, x: Seq<char>, y: Seq<char>)
    requires
        region_at(s, pos, x + y),
    ensures
        region_at(s, pos, x),
        region_at(s, pos + x.len(), y),
{
    assert(s.subrange(pos, pos + x.len()) =~= x) by {
        assert forall|i: int| 0 <= i < x.len() implies s.subrange(pos, pos + x.len())[i] == x[i]
        by {
            lemma_region_index(s, pos, x + y, i);
            assert((x + y)[i] == x[i]);
        }
    }
    assert(s.subrange(pos + x.len(), pos + x.len() + y.len()) =~= y) by {
        assert forall|i: int|
            0 <= i < y.len() implies s.subrange(pos + x.len(), pos + x.len() + y.len())[i]
            == y[i] by {
            lemma_region_index(s, pos, x + y, x.len() + i);
            assert((x + y)[x.len() + i] == y[i]);
        }
    }
}

/// A rendered value is never empty and never opens with a space, a
/// bracket or a parenthesis-closing character; in operand position it
/// opens with `(`, a name character or `0`.
proof fn lemma_first_char(m: ExprV)
    requires
        wf_v(m),
    ensures
        render_v(m).len() >= 1,
        wrap_v(m).len() >= 1,
        render_v(m)[0] != ' ',
        wrap_v(m)[0] == '(' || is_obj_char(wrap_v(m)[0]),
    decreases m,
{
    match m {
        ExprV::ZeroObj => {
            assert(render_v(m) == seq!['0']);
            assert(is_obj_char('0'));
        }
        ExprV::Obj(name) => {
            assert(render_v(m)[0] == name[0]);
        }
        ExprV::Mor(kind, degree, a, b) => {
            lemma_first_char(*a);
            assert(render_v(m)[0] == wrap_v(*a)[0]);
            assert(wrap_v(m)[0] == '(');
        }
        ExprV::Path(a, b) => {
            lemma_first_char(*a);
            assert(render_v(m)[0] == wrap_v(*a)[0]);
            assert(!is_obj_char(' '));
        }
    }
}

/// Scanning a name region ends exactly at its end.
proof fn lemma_scan_region(s: Seq<char>, pos: int, end: int)
    requires
        0 <= pos <= end <= s.len(),
        forall|i: int| pos <= i < end ==> is_obj_char(#[trigger] s[i]),
        end == s.len() || !is_obj_char(s[end]),
    ensures
        scan_obj(s, pos) == end,
    decreases end - pos,
{
    if pos < end {
        lemma_scan_region(s, pos + 1, end);
    }
}

/// Scanning an arrow body region ends at its end and counts two for
/// each `=` and one for each `-`.
proof fn lemma_body_region(s: Seq<char>, pos: int, mid: int, end: int)
    requires
        0 <= pos <= mid <= end <= s.len(),
        forall|i: int| pos <= i < mid ==> #[trigger] s[i] == '=',
        forall|i: int| mid <= i < end ==> #[trigger] s[i] == '-',
        end == s.len() || (s[end] != '=' && s[end] != '-'),
    ensures
        body_end(s, pos) == end,
        body_n(s, pos) == 2 * (mid - pos) + (end - mid),
    decreases end - pos,
{
    if pos < mid {
        lemma_body_region(s, pos + 1, mid, end);
    } else if pos < end {
        lemma_body_region(s, pos + 1, pos + 1, end);
    }
}

/// Scanning the body region of a non-zero arrow of degree `n` ends
/// after it and yields `n`.
proof fn lemma_body_scan(s: Seq<char>, p1: int, n: int)
    requires
        1 <= n,
        region_at(s, p1, char_repeat('=', (n / 2) as nat) + char_repeat('-', (n % 2) as nat)),
        ({
            let e = p1 + n / 2 + n % 2;
            e == s.len() || (s[e] != '=' && s[e] != '-')
        }),
    ensures
        body_end(s, p1) == p1 + n / 2 + n % 2,
        body_n(s, p1) == n,
{
    let body = char_repeat('=', (n / 2) as nat) + char_repeat('-', (n % 2) as nat);
    let mid = p1 + n / 2;
    let e = p1 + n / 2 + n % 2;
    assert forall|i: int| p1 <= i < mid implies #[trigger] s[i] == '=' by {
        lemma_region_index(s, p1, body, i - p1);
    }
    assert forall|i: int| mid <= i < e implies #[trigger] s[i] == '-' by {
        lemma_region_index(s, p1, body, i - p1);
    }
    lemma_body_region(s, p1, mid, e);
}

/// An arrow region followed by a space parses to its kind, its
/// degree and the position after it.
proof fn lemma_arrow(s: Seq<char>, pos: int, kind: Morphism, n: int)
    requires
        kind != Morphism::Unknown && kind != Morphism::RevIso && kind != Morphism::RevZero,
        1 <= n <= usize::MAX,
        kind == Morphism::Zero ==> n == 1,
        region_at(s, pos, arrow_text(kind, n as nat)),
        pos + arrow_text(kind, n as nat).len() < s.len(),
        s[pos + arrow_text(kind, n as nat).len()] == ' ',
    ensures
        parse_arrow_v(s, pos) == Some((kind, n, pos + arrow_text(kind, n as nat).len())),
{
    let pre = glyph_prefix(kind);
    let body = arrow_body(kind, n as nat);
    let suf = glyph_suffix(kind);
    let rr = arrow_text(kind, n as nat);
    let p1 = pos + pre.len();
    let p2 = p1 + body.len();
    let p3 = p2 + suf.len();
    assert(pre + (body + suf) =~= rr);
    lemma_region_split(s, pos, pre, body + suf);
    lemma_region_split(s, p1, body, suf);
    assert forall|i: int| 0 <= i < pre.len() implies #[trigger] s[pos + i] == pre[i] by {
        lemma_region_index(s, pos, pre, i);
    }
    assert forall|i: int| 0 <= i < body.len() implies #[trigger] s[p1 + i] == body[i] by {
        lemma_region_index(s, p1, body, i);
    }
    assert forall|i: int| 0 <= i < suf.len() implies #[trigger] s[p2 + i] == suf[i] by {
        lemma_region_index(s, p2, suf, i);
    }
    assert(s[p3] == ' ');

    // the body scan
    if kind == Morphism::Zero {
        assert(body =~= Seq::<char>::empty());
        assert(s[p2 + 0] == suf[0] && suf[0] == '>');
        assert(s[p1] != '=' && s[p1] != '-');
        assert(body_end(s, p1) == p1);
        assert(body_n(s, p1) == 0);
    } else {
        assert(body =~= char_repeat('=', (n / 2) as nat) + char_repeat('-', (n % 2) as nat));
        assert(body.len() == n / 2 + n % 2);
        assert(body.len() >= 1) by {
            assert(n / 2 + n % 2 >= 1);
        }
        assert(p2 == p1 + n / 2 + n % 2);
        assert(p2 == s.len() || (s[p2] != '=' && s[p2] != '-')) by {
            if suf.len() > 0 {
                assert(s[p2 + 0] == suf[0]);
                assert(suf[0] == '>' || suf[0] == '!');
            } else {
                assert(s[p2] == ' ');
            }
        }
        lemma_body_scan(s, p1, n);
    }

    // the prefix scan
    let pc = pre_code(s, pos);
    if pre.len() == 0 {
        assert(s[p1 + 0] == body[0]);
        assert(body[0] == '=' || body[0] == '-');
        assert(s[pos] == body[0]);
        assert(pc == (0u8, pos));
    } else if pre.len() == 1 {
        assert(s[pos + 0] == pre[0]);
        if kind == Morphism::Zero {
            assert(s[p2 + 0] == suf[0]);
            assert(s[pos + 1] == '>');
        } else if pre[0] == '<' {
            assert(s[p1 + 0] == body[0]);
            assert(body[0] == '=' || body[0] == '-');
            assert(s[pos + 1] == body[0]);
        }
        if pre[0] == '<' {
            assert(pc == (1u8, pos + 1));
        } else {
            assert(pre[0] == '!');
            assert(pc == (2u8, pos + 1));
        }
    } else {
        assert(pre.len() == 2);
        assert(s[pos + 0] == pre[0] && s[pos + 1] == pre[1]);
        if pre[1] == '!' {
            assert(pc == (3u8, pos + 2));
        } else {
            assert(pre[1] == '<');
            assert(pc == (4u8, pos + 2));
        }
    }
    assert(pc.1 == p1);

    // the suffix scan
    let sc = suf_code(s, p2);
    if suf.len() == 0 {
        assert(s[p2] == ' ');
        assert(sc == (0u8, p2));
    } else if suf.len() == 1 {
        assert(s[p2 + 0] == suf[0]);
        assert(p2 + 1 == p3);
        assert(s[p2 + 1] == ' ');
        if suf[0] == '>' {
            assert(sc == (1u8, p2 + 1));
        } else {
            assert(suf[0] == '!');
            assert(sc == (2u8, p2 + 1));
        }
    } else {
        assert(suf.len() == 2);
        assert(s[p2 + 0] == suf[0] && s[p2 + 1] == suf[1]);
        if suf[0] == '!' {
            assert(sc == (3u8, p2 + 2));
        } else {
            assert(suf[0] == '>' && suf[1] == '>');
            assert(sc == (4u8, p2 + 2));
        }
    }
    assert(sc.1 == p3);
}

/// An arrow token is never empty and opens with an arrow character.
proof fn lemma_arrow_first(kind: Morphism, n: nat)
    requires
        kind != Morphism::Unknown,
        n >= 1 || kind == Morphism::Zero,
    ensures
        arrow_text(kind, n).len() >= 1,
        is_arrow_start(arrow_text(kind, n)[0]),
        forall|i: int|
            0 <= i < arrow_text(kind, n).len() ==> #[trigger] arrow_text(kind, n)[i] != ' ',
{
    let pre = glyph_prefix(kind);
    let body = arrow_body(kind, n);
    let suf = glyph_suffix(kind);
    if pre.len() == 0 {
        assert(body.len() >= 1) by {
            assert(n / 2 + n % 2 >= 1);
        }
        assert(arrow_text(kind, n)[0] == body[0]);
    } else {
        assert(arrow_text(kind, n)[0] == pre[0]);
    }
}

/// The texts of a run of path tails, in order.
pub open spec fn tails_text(items: Seq<ExprV>) -> Seq<char>
    decreases items.len(),
{
    if items.len() == 0 {
        Seq::empty()
    } else {
        seq!['['] + render_v(items[0]) + seq![']'] + tails_text(items.drop_first())
    }
}

/// The value a run of path tails folds onto an operand, from the
/// left.
pub open spec fn rebuild(acc: ExprV, items: Seq<ExprV>) -> ExprV
    decreases items.len(),
{
    if items.len() == 0 {
        acc
    } else {
        rebuild(ExprV::Path(Box::new(acc), Box::new(items[0])), items.drop_first())
    }
}

/// Every item is well formed.
pub open spec fn wf_items(items: Seq<ExprV>) -> bool {
    forall|i: int| 0 <= i < items.len() ==> wf_v(#[trigger] items[i])
}

/// A rendered expression region with a closing or ending follow
/// parses back to the value.
proof fn lemma_parse_expr(s: Seq<char>, pos: int, m: ExprV)
    requires
        wf_v(m),
        region_at(s, pos, render_v(m)),
        ({
            let e = pos + render_v(m).len();
            e == s.len() || s[e] == ')' || s[e] == ']'
        }),
    ensures
        parse_expr_v(s, pos) == Some((m, pos + render_v(m).len())),
    decreases render_v(m).len(), m, 2int,
{
    let e = pos + render_v(m).len();
    match m {
        ExprV::Mor(kind, nn, a, b) => {
            let wa = wrap_v(*a);
            let wb = wrap_v(*b);
            let ar = arrow_text(kind, nn);
            let sp = seq![' '];
            assert(render_v(m) =~= wa + (sp + (ar + (sp + wb))));
            lemma_region_split(s, pos, wa, sp + (ar + (sp + wb)));
            let pa = pos + wa.len();
            lemma_region_split(s, pa, sp, ar + (sp + wb));
            lemma_region_split(s, pa + 1, ar, sp + wb);
            let pe = pa + 1 + ar.len();
            lemma_region_split(s, pe, sp, wb);
            let pb = pe + 1;
            lemma_region_index(s, pa, sp, 0);
            assert(s[pa + 0] == ' ');
            lemma_region_index(s, pe, sp, 0);
            assert(s[pe + 0] == ' ');
            lemma_first_char(*a);
            lemma_first_char(*b);
            lemma_arrow_first(kind, nn);

            // the left operand
            assert(wa + tails_text(Seq::empty()) =~= wa);
            assert(!is_obj_char(' ') && ' ' != '[');
            lemma_op_ext(s, pos, *a, Seq::empty());
            assert(parse_operand_v(s, pos) == Some((*a, pa)));

            // one space, then the arrow
            lemma_region_index(s, pa + 1, ar, 0);
            assert(s[pa + 1 + 0] == ar[0]);
            assert(s[pa + 1] != ' ');
            assert(skip_ws(s, pa + 1) == pa + 1);
            assert(skip_ws(s, pa) == pa + 1);
            assert(is_arrow_start(s[pa + 1]));
            assert(1 <= nn <= usize::MAX && (kind == Morphism::Zero ==> nn == 1));
            assert(region_at(s, pa + 1, arrow_text(kind, (nn as int) as nat)));
            lemma_arrow(s, pa + 1, kind, nn as int);
            assert(parse_arrow_v(s, pa + 1) == Some((kind, nn as int, pe)));

            // one space, then the right operand
            lemma_region_index(s, pb, wb, 0);
            assert(s[pb + 0] == wb[0]);
            assert(wb[0] == '(' || is_obj_char(wb[0]));
            assert(wb[0] != ' ') by {
                assert(!is_obj_char(' '));
            }
            assert(skip_ws(s, pb) == pb);
            assert(skip_ws(s, pe) == pb);
            assert(wb + tails_text(Seq::empty()) =~= wb);
            assert(pb + wb.len() == e);
            lemma_op_ext(s, pb, *b, Seq::empty());
            assert(parse_operand_v(s, pb) == Some((*b, e)));

            assert(parse_expr_v(s, pos) == Some((m, e))) by {
                assert(ar.len() >= 1);
                assert(crate::mor_v(kind, (nn as int) as nat, *a, *b) == m);
            }
        }
        _ => {
            assert(wrap_v(m) == render_v(m));
            assert(wrap_v(m) + tails_text(Seq::empty()) =~= render_v(m));
            assert(e == s.len() || (!is_obj_char(s[e]) && s[e] != '[')) by {
                if e < s.len() {
                    assert(!is_obj_char(')') && !is_obj_char(']'));
                }
            }
            lemma_op_ext(s, pos, m, Seq::empty());
            assert(parse_operand_v(s, pos) == Some((m, e)));
            assert(skip_ws(s, e) == e);
            assert(e == s.len() || !is_arrow_start(s[e]));
            assert(parse_expr_v(s, pos) == Some((m, e)));
        }
    }
}

/// An operand region, continued by tail regions, parses to the
/// folded value.
proof fn lemma_op_ext(s: Seq<char>, pos: int, m: ExprV, extra: Seq<ExprV>)
    requires
        wf_v(m),
        wf_items(extra),
        region_at(s, pos, wrap_v(m) + tails_text(extra)),
        ({
            let e = pos + wrap_v(m).len() + tails_text(extra).len();
            e == s.len() || (!is_obj_char(s[e]) && s[e] != '[')
        }),
    ensures
        parse_operand_v(s, pos) == Some(
            (rebuild(m, extra), pos + wrap_v(m).len() + tails_text(extra).len()),
        ),
    decreases wrap_v(m).len() + tails_text(extra).len(), m, 1int,
{
    let e = pos + wrap_v(m).len() + tails_text(extra).len();
    match m {
        ExprV::Path(h, t) => {
            let items2 = seq![*t] + extra;
            assert(items2[0] == *t);
            assert(items2.drop_first() =~= extra);
            assert(tails_text(items2) =~= seq!['['] + render_v(*t) + seq![']'] + tails_text(
                extra,
            ));
            assert(wrap_v(m) =~= wrap_v(*h) + (seq!['['] + render_v(*t) + seq![']']));
            assert(wrap_v(m) + tails_text(extra) =~= wrap_v(*h) + tails_text(items2));
            assert(wf_items(items2)) by {
                assert(forall|i: int|
                    1 <= i < items2.len() ==> items2[i] == extra[i - 1]);
            }
            lemma_op_ext(s, pos, *h, items2);
            assert(rebuild(*h, items2) == rebuild(m, extra)) by {
                assert(rebuild(*h, items2) == rebuild(
                    ExprV::Path(Box::new(*h), Box::new(*t)),
                    extra,
                ));
            }
        }
        ExprV::Mor(_, _, _, _) => {
            let inner = render_v(m);
            assert(wrap_v(m) =~= seq!['('] + inner + seq![')']);
            assert(wrap_v(m) + tails_text(extra) =~= seq!['('] + (inner + (seq![')']
                + tails_text(extra))));
            lemma_region_split(s, pos, seq!['('], inner + (seq![')'] + tails_text(extra)));
            lemma_region_split(s, pos + 1, inner, seq![')'] + tails_text(extra));
            let p = pos + 1 + inner.len();
            lemma_region_split(s, p, seq![')'], tails_text(extra));
            lemma_region_index(s, pos, seq!['('], 0);
            assert(s[pos + 0] == '(');
            lemma_region_index(s, p, seq![')'], 0);
            assert(s[p + 0] == ')');
            lemma_parse_expr(s, pos + 1, m);
            assert(parse_atom_v(s, pos) == Some((m, p + 1)));
            lemma_tails(s, p + 1, m, extra);
            assert(parse_operand_v(s, pos) == Some((rebuild(m, extra), e)));
        }
        ExprV::Obj(name) => {
            assert(wrap_v(m) == name);
            lemma_region_split(s, pos, name, tails_text(extra));
            let p = pos + name.len();
            assert forall|i: int| pos <= i < p implies is_obj_char(#[trigger] s[i]) by {
                lemma_region_index(s, pos, name, i - pos);
            }
            assert(p == s.len() || !is_obj_char(s[p])) by {
                if extra.len() > 0 {
                    lemma_region_index(s, p, tails_text(extra), 0);
                    assert(s[p + 0] == '[');
                    assert(!is_obj_char('['));
                }
            }
            lemma_scan_region(s, pos, p);
            assert(s.subrange(pos, p) == name);
            lemma_region_index(s, pos, name, 0);
            assert(s[pos + 0] == name[0]);
            assert(is_obj_char(name[0]));
            assert(name[0] != '(');
            assert(parse_atom_v(s, pos) == Some((m, p)));
            lemma_tails(s, p, m, extra);
            assert(parse_operand_v(s, pos) == Some((rebuild(m, extra), e)));
        }
        ExprV::ZeroObj => {
            let name = seq!['0'];
            assert(wrap_v(m) == name);
            lemma_region_split(s, pos, name, tails_text(extra));
            let p = pos + name.len();
            assert forall|i: int| pos <= i < p implies is_obj_char(#[trigger] s[i]) by {
                lemma_region_index(s, pos, name, i - pos);
            }
            assert(p == s.len() || !is_obj_char(s[p])) by {
                if extra.len() > 0 {
                    lemma_region_index(s, p, tails_text(extra), 0);
                    assert(s[p + 0] == '[');
                    assert(!is_obj_char('['));
                }
            }
            lemma_scan_region(s, pos, p);
            assert(s.subrange(pos, p) == name);
            lemma_region_index(s, pos, name, 0);
            assert(s[pos + 0] == '0');
            assert(is_obj_char('0') && '0' != '(');
            assert(parse_atom_v(s, pos) == Some((m, p)));
            lemma_tails(s, p, m, extra);
            assert(parse_operand_v(s, pos) == Some((rebuild(m, extra), e)));
        }
    }
}

/// A run of tail regions folds its items onto the accumulator.
proof fn lemma_tails(s: Seq<char>, pos: int, acc: ExprV, items: Seq<ExprV>)
    requires
        wf_items(items),
        region_at(s, pos, tails_text(items)),
        ({
            let e = pos + tails_text(items).len();
            e == s.len() || s[e] != '['
        }),
    ensures
        parse_tails_v(s, pos, acc) == Some(
            (rebuild(acc, items), pos + tails_text(items).len()),
        ),
    decreases tails_text(items).len(), acc, 0int,
{
    let e = pos + tails_text(items).len();
    if items.len() == 0 {
        assert(e == pos);
        assert(parse_tails_v(s, pos, acc) == Some((acc, pos)));
    } else {
        let t0 = items[0];
        let rest = items.drop_first();
        assert(wf_v(t0));
        assert(wf_items(rest)) by {
            assert(forall|i: int| 0 <= i < rest.len() ==> rest[i] == items[i + 1]);
        }
        assert(tails_text(items) =~= seq!['['] + (render_v(t0) + (seq![']'] + tails_text(
            rest,
        ))));
        lemma_region_split(s, pos, seq!['['], render_v(t0) + (seq![']'] + tails_text(rest)));
        lemma_region_split(s, pos + 1, render_v(t0), seq![']'] + tails_text(rest));
        let p1 = pos + 1 + render_v(t0).len();
        lemma_region_split(s, p1, seq![']'], tails_text(rest));
        lemma_region_index(s, pos, seq!['['], 0);
        assert(s[pos + 0] == '[');
        lemma_region_index(s, p1, seq![']'], 0);
        assert(s[p1 + 0] == ']');
        lemma_parse_expr(s, pos + 1, t0);
        assert(render_v(t0).len() >= 1) by {
            lemma_first_char(t0);
        }
        lemma_tails(s, p1 + 1, ExprV::Path(Box::new(acc), Box::new(t0)), rest);
        assert(rebuild(ExprV::Path(Box::new(acc), Box::new(t0)), rest) == rebuild(acc, items));
        assert(parse_tails_v(s, pos, acc) == Some((rebuild(acc, items), e)));
    }
}

/// The round-trip law: rendering any well-formed expression value
/// and parsing the rendered text yields the value back, so the
/// canonical text of every expression re-reads as that expression.
pub proof fn lemma_round_trip(m: ExprV)
    requires
        wf_v(m),
    ensures
        parse_text(render_v(m)) == Some(m),
{
    let s = render_v(m);
    lemma_first_char(m);
    assert(s[0] != ' ');
    assert(skip_ws(s, 0) == 0);
    assert(s.subrange(0, s.len() as int) =~= s);
    assert(region_at(s, 0, render_v(m)));
    lemma_parse_expr(s, 0, m);
    assert(parse_expr_v(s, 0) == Some((m, s.len() as int)));
    assert(skip_ws(s, s.len() as int) == s.len());
}

/// The same law read from the text side: every canonical text — the
/// rendering of some well-formed value — parses, and rendering the
/// parse gives the text back unchanged.
pub proof fn lemma_text_round_trip(t: Seq<char>, m: ExprV)
    requires
        wf_v(m),
        t == render_v(m),
    ensures
        parse_text(t) matches Some(e) && render_v(e) == t,
{
    lemma_round_trip(m);
}

} // verus!
