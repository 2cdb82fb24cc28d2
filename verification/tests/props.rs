use caso::code::{eval, is_reversed, reverse, Square};
use caso::Morphism::{
    self, Dir, Epi, EpiMono, Iso, LeftInv, Mono, RevDir, RevEpi, RevEpiMono, RevIso, RevLeftInv,
    RevMono, RevRightInv, RevZero, RightInv, Unknown, Zero,
};
use caso::parsing::parse_str;
use caso::{conv, solve_str};

const ALL: [Morphism; 17] = [
    Unknown, Dir, RevDir, Mono, RevMono, Epi, RevEpi, EpiMono, RevEpiMono, LeftInv, RevLeftInv,
    RightInv, RevRightInv, Iso, RevIso, Zero, RevZero,
];

#[test]
fn reverse_is_involution() {
    for k in ALL {
        assert_eq!(reverse(reverse(k)), k);
        if k != Unknown {
            assert_ne!(is_reversed(reverse(k)), is_reversed(k));
        }
    }
    assert_eq!(reverse(Unknown), Unknown);
    assert_eq!(reverse(Dir), RevDir);
    assert_eq!(reverse(Zero), RevZero);
    assert!(!is_reversed(Zero));
    assert!(is_reversed(RevZero));
}

#[test]
fn normalizer_total_and_idempotent() {
    // every 4-tuple of kinds: the normalizer is total and running it
    // twice changes nothing more
    for a in ALL {
        for b in ALL {
            for c in ALL {
                for d in ALL {
                    let once = eval([a, b, c, d]);
                    assert_eq!(eval(once), once);
                    assert!(once == [Iso; 4] || once == [a, b, c, d]);
                }
            }
        }
    }
    // a chain that matches is rewritten to all isos
    assert_eq!(eval([Dir, RevDir, Dir, Iso]), [Iso; 4]);
    assert_eq!(eval([RevDir, Dir, RevDir, Dir]), [Iso; 4]);
    assert_eq!(eval([Iso, Iso, Iso, Dir]), [Iso; 4]);
    // one that does not match comes back unchanged
    assert_eq!(eval([Mono, Iso, Iso, Iso]), [Mono, Iso, Iso, Iso]);
    assert_eq!(eval([Dir, Dir, Dir, Dir]), [Dir, Dir, Dir, Dir]);
}

#[test]
fn self_loop_becomes_iso() {
    // an edge with identical endpoints and raw kind directional, mono
    // or epi is recoded to an iso, in any of the four positions
    let sq = Square::new(&conv("(A -> A)[(B -> C) -> (D -> E)] <=> (F -> G)")).unwrap();
    assert_eq!(sq.code[0], Iso);
    let sq = Square::new(&conv("(A !-> A)[(B -> C) -> (D -> E)] <=> (F -> G)")).unwrap();
    assert_eq!(sq.code[0], Iso);
    let sq = Square::new(&conv("(A ->> A)[(B -> C) -> (D -> E)] <=> (F -> G)")).unwrap();
    assert_eq!(sq.code[0], Iso);
    let sq = Square::new(&conv("(A -> B)[(C -> C) -> (D -> E)] <=> (F -> G)")).unwrap();
    assert_eq!(sq.code[1], Iso);
    let sq = Square::new(&conv("(A -> B)[(B -> C) -> (D -> D)] <=> (F -> G)")).unwrap();
    assert_eq!(sq.code[2], Iso);
    let sq = Square::new(&conv("(A -> B)[(B -> C) -> (D -> E)] <=> (F -> F)")).unwrap();
    assert_eq!(sq.code[3], Iso);
    // a reverse directional self-loop is not covered by the override
    let sq = Square::new(&conv("(A <- A)[(B -> C) -> (D -> E)] <=> (F -> G)")).unwrap();
    assert_eq!(sq.code[0], RevDir);
}

#[test]
fn error_kinds_are_distinct() {
    // a well-formed expression of the wrong shape: not a square
    let e = solve_str("A -> B").unwrap_err();
    assert_eq!(e, "Could not convert into square");
    // text the grammar rejects: a parse error, a different message
    let e = solve_str("A -> ").unwrap_err();
    assert_eq!(e, "the text does not fit the notation grammar");
    assert!(parse_str("A -> ").is_err());
    assert!(parse_str("A -> B").is_ok());
    assert!(parse_str("").is_err());
    assert!(parse_str("A - B").is_err());
    assert!(parse_str("(A -> B").is_err());
    assert!(parse_str("A <<->> B").is_err());
}

#[test]
fn parse_accepts_degree_spellings() {
    // the degree counts two for each `=` and one for each `-`, so
    // different spellings of one degree parse alike and render
    // canonically
    assert_eq!(conv("X <--> Y"), conv("X <=> Y"));
    assert_eq!(conv("X <--> Y").to_text(), "X <=> Y");
    assert_eq!(conv("X =-> Y").to_text(), "X =-> Y");
    assert_eq!(conv("X --> Y").to_text(), "X => Y");
    assert_eq!(conv("0[X]").to_text(), "0[X]");
    assert_eq!(conv("  X -> Y  ").to_text(), "X -> Y");
}

#[test]
fn zero_square_strengthens_to_zero() {
    let sq = Square::new(&conv("(X <> Y)[(X !-> 1) -> (0 !-> Y)] <=> (0 <-> 1)")).unwrap();
    assert_eq!(sq.eval(), [Zero, Zero, RevZero, RevZero]);
    // the unknown left edge of the scenario square is never touched
    let sq = Square::new(&conv("f[(X !-> 1) -> (0 !-> Y)] <=> (0 <-> 1)")).unwrap();
    assert_eq!(sq.code, [Unknown, Mono, Mono, RevIso]);
    assert_eq!(eval(sq.code), sq.code);
    assert_eq!(sq.eval()[0], Unknown);
}
