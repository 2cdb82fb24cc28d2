use std::sync::Arc;

use caso::Expr::{Obj, _0};
use caso::Morphism::{Dir, Iso};
use caso::{
    conv, dir, dir_n, epi, epi_mono, iso, iso_n, left_inv, path, rev_epi, rev_left_inv, rev_mono,
    rev_right_inv, right_inv, zero, Expr,
};

#[test]
fn it_works() {
    let a: Expr = conv("X");
    assert_eq!(a, Obj(Arc::new("X".into())));

    let b = iso(conv("X"), conv("Y"));
    assert_eq!(b, Expr::Mor(Iso, 1, Arc::new((conv("X"), conv("Y")))));

    let c = dir(conv("X"), conv("Y"));
    assert_eq!(c, Expr::Mor(Dir, 1, Arc::new((conv("X"), conv("Y")))));

    let b2: Expr = conv("X <-> Y");
    assert_eq!(b2, b);

    let b3: Expr = conv("X -> Y");
    assert_eq!(b3, dir(conv("X"), conv("Y")));

    let b4: Expr = conv("X <> Y");
    assert_eq!(b4, zero(conv("X"), conv("Y")));

    let b5: Expr = conv("X => Y");
    assert_eq!(b5, dir_n(2, conv("X"), conv("Y")));

    let b6: Expr = conv("X <=> Y");
    assert_eq!(b6, iso_n(2, conv("X"), conv("Y")));

    let b7: Expr = conv("X ->> Y");
    assert_eq!(b7, epi(conv("X"), conv("Y")));

    let b8: Expr = conv("X !->> Y");
    assert_eq!(b8, epi_mono(conv("X"), conv("Y")));

    let b9: Expr = conv("X <!-> Y");
    assert_eq!(b9, left_inv(conv("X"), conv("Y")));

    let b10: Expr = conv("X <->> Y");
    assert_eq!(b10, right_inv(conv("X"), conv("Y")));

    let b11: Expr = conv("X <<- Y");
    assert_eq!(b11, rev_epi(conv("X"), conv("Y")));

    let b12: Expr = conv("X <-! Y");
    assert_eq!(b12, rev_mono(conv("X"), conv("Y")));

    let b13: Expr = conv("X <-!> Y");
    assert_eq!(b13, rev_left_inv(conv("X"), conv("Y")));

    let b14: Expr = conv("X <<-> Y");
    assert_eq!(b14, rev_right_inv(conv("X"), conv("Y")));

    let b15: Expr = conv("X <==> Y");
    assert_eq!(b15, iso_n(4, conv("X"), conv("Y")));

    let b16: Expr = conv("X <-=> Y");
    assert_eq!(b16, iso_n(3, conv("X"), conv("Y")));

    let b17: Expr = conv("X <--> Y");
    assert_eq!(b17, iso_n(2, conv("X"), conv("Y")));

    let d: Expr = conv("X[Y]");
    assert_eq!(d, path(conv("X"), conv("Y")));

    let e: Expr = conv("f[g] <=> h");
    assert_eq!(e, iso_n(2, path(conv("f"), conv("g")), conv("h")));

    let z: Expr = conv("0");
    assert_eq!(z, _0);
}

#[test]
fn format() {
    let cases = [
        "0",
        "X",
        "X -> Y",
        "X <- Y",
        "X <-> Y",
        "X <=> Y",
        "X <=-> Y",
        "X ->> Y",
        "X <<- Y",
        "X !-> Y",
        "X <-! Y",
        "X <!-> Y",
        "X <-!> Y",
        "X <->> Y",
        "X <<-> Y",
        "X <<- Y",
        "X !->> Y",
        "X <<-! Y",
        "X <> Y",
        "X[Y]",
        "(A -> A)[A -> B]",
        "(A -> A)[A -> B] <=> (B -> B)",
        "(B -> B) <=> (A -> A)[A -> B]",
        "(A -> B)[(A -> C) -> (B -> D)] <=> (C -> D)",
    ];
    for a in cases {
        let b: Expr = conv(a);
        assert_eq!(&b.to_text(), a);
    }
}
