use caso::code::{self, Square};
use caso::Morphism::{
    Dir, Epi, EpiMono, Iso, Mono, RevDir, RevEpi, RevEpiMono, RevIso, RevMono, RevZero, Unknown,
    Zero,
};
use caso::{conv, iso_n, solve_str, Expr};

#[test]
fn normalise() {
    let a: Expr = conv("(a -> b)[(c -> a) -> (b -> d)]");
    assert_eq!(a.left().unwrap(), conv("a -> b"));
    assert_eq!(a.top().unwrap(), conv("c -> a"));
    assert_eq!(a.bottom().unwrap(), conv("b -> d"));

    let cd: Expr = conv("c <-> d");
    let b = iso_n(2, a, cd);
    let sq = Square::new(&b).unwrap();
    assert_eq!(
        sq,
        Square {
            bind: vec![conv("a"), conv("b"), conv("c"), conv("d")],
            labels: [[0, 1, 2], [0, 1, 3], [0, 2, 4], [0, 3, 4]],
            code: [Dir, RevDir, Dir, Iso],
        }
    );
    assert_eq!(code::eval(sq.code), [Iso; 4]);

    let a: Expr = conv("(a -> b)[(b -> c) -> (d -> b)] <=> (c -> d)");
    assert_eq!(Square::new(&a).unwrap().code, [Dir, Dir, RevDir, Dir]);
}

#[test]
fn test_eval() {
    let a: Expr = conv("f[(X !-> 1) -> (0 !-> Y)] <=> (0 <-> 1)");
    let sq = Square::new(&a).unwrap();
    assert_eq!(sq.code, [Unknown, Mono, Mono, RevIso]);

    let a: Expr = conv("(X <> Y)[(X !-> 1) -> (0 !-> Y)] <=> (0 <-> 1)");
    let sq = Square::new(&a).unwrap();
    assert_eq!(sq.code, [Zero, Mono, RevMono, RevIso]);
    assert_eq!(sq.eval(), [Zero, Zero, RevZero, RevZero]);

    let a: Expr = conv("(X -> Y)[(X !-> 1) -> (0 !-> Y)] <=> (0 <-> 1)");
    let sq = Square::new(&a).unwrap();
    assert_eq!(sq.code, [Dir, Mono, RevMono, RevIso]);
    assert_eq!(sq.eval(), [Zero, Zero, RevZero, RevZero]);

    let a: Expr = conv("(X -> Y)[(X !-> 1) -> (0 -> Y)] <=> (0 <-> 1)");
    let sq = Square::new(&a).unwrap();
    assert_eq!(sq.code, [Dir, Mono, RevDir, RevIso]);
    assert_eq!(sq.eval(), [Zero, Zero, RevZero, RevZero]);

    let a: Expr = conv("(A ->> B)[(C ->> A) -> (B ->> D)] <=> (D ->> C)");
    let sq = Square::new(&a).unwrap();
    assert_eq!(sq.code, [Epi, RevEpi, Epi, RevEpi]);
    assert_eq!(sq.eval(), [EpiMono, RevEpiMono, EpiMono, RevEpiMono]);

    let a: Expr = conv("(A -> B)[(C -> A) -> (B -> D)] <=> (D -> C)");
    let sq = Square::new(&a).unwrap();
    assert_eq!(sq.code, [Dir, RevDir, Dir, RevDir]);
    assert_eq!(sq.eval(), [Dir, RevDir, Dir, RevDir]);

    let a: Expr = conv("(A -> B)[(C -> A) -> (B -> D)] <=> (D <-> C)");
    let sq = Square::new(&a).unwrap();
    assert_eq!(sq.code, [Dir, RevDir, Dir, RevIso]);
    assert_eq!(sq.eval(), [Dir, RevDir, Dir, RevIso]);

    let a: Expr = conv("(A <-> B)[(C <-> A) -> (B <-> D)] <=> (C -> D)");
    let sq = Square::new(&a).unwrap();
    assert_eq!(sq.code, [Iso, RevIso, Iso, Dir]);
    assert_eq!(sq.eval(), [Iso, RevIso, Iso, Iso]);
}

#[test]
fn rewrite() {
    // `(C -> D) => (C <-> D)`.
    let a = solve_str("(A <-> B)[(A <-> C) -> (B <-> D)] <=> (C -> D)").unwrap();
    assert_eq!(a, "(A <-> B)[(A <-> C) -> (B <-> D)] <=> (C <-> D)");

    // `(D -> C) => (C <-> D)`.
    let a = solve_str("(A <-> B)[(A <-> C) -> (B <-> D)] <=> (D -> C)").unwrap();
    assert_eq!(a, "(A <-> B)[(A <-> C) -> (B <-> D)] <=> (C <-> D)");

    // `(A -> B) => (A <-> B)`.
    let a = solve_str("(A -> B)[(A <-> C) -> (B <-> D)] <=> (C <-> D)").unwrap();
    assert_eq!(a, "(A <-> B)[(A <-> C) -> (B <-> D)] <=> (C <-> D)");

    // `(A -> C) => (A <-> C)`.
    let a = solve_str("(A <-> B)[(A -> C) -> (B <-> D)] <=> (C <-> D)").unwrap();
    assert_eq!(a, "(A <-> B)[(A <-> C) -> (B <-> D)] <=> (C <-> D)");

    // `(C -> A) => (A <-> C)`.
    let a = solve_str("(A <-> B)[(C -> A) -> (B <-> D)] <=> (C <-> D)").unwrap();
    assert_eq!(a, "(A <-> B)[(A <-> C) -> (B <-> D)] <=> (C <-> D)");

    // `(B -> D) => (B <-> D)`
    let a = solve_str("(A <-> B)[(A <-> C) -> (B -> D)] <=> (C <-> D)").unwrap();
    assert_eq!(a, "(A <-> B)[(A <-> C) -> (B <-> D)] <=> (C <-> D)");

    // `(D -> B) => (B <-> D)`
    let a = solve_str("(A <-> B)[(A <-> C) -> (D -> B)] <=> (C <-> D)").unwrap();
    assert_eq!(a, "(A <-> B)[(A <-> C) -> (B <-> D)] <=> (C <-> D)");
}
