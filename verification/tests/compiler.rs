//! End-to-end tests of the two entry points: comprehension compilation and
//! restricted-C function compilation. Each test builds the input token
//! sequence, compiles it, checks the generated token sequence, and runs a
//! hand-written copy of the generated code to check its behaviour.

use minitranspile::cfunc;
use minitranspile::comp;
use minitranspile::errors::ErrKind;
use minitranspile::tokens::{Delim, Tok};

fn id(s: &str) -> Tok {
    Tok::Ident(s.to_string())
}

fn pu(c: char) -> Tok {
    Tok::Punct(c)
}

fn il(n: u64) -> Tok {
    Tok::IntLit(n)
}

fn sl(s: &str) -> Tok {
    Tok::StrLit(s.chars().collect())
}

fn paren(ts: Vec<Tok>) -> Tok {
    Tok::Group(Delim::Paren, ts)
}

fn bracket(ts: Vec<Tok>) -> Tok {
    Tok::Group(Delim::Bracket, ts)
}

fn brace(ts: Vec<Tok>) -> Tok {
    Tok::Group(Delim::Brace, ts)
}

/// The pipeline the comprehension compiler is expected to emit.
fn expected_pipeline(iterable: Vec<Tok>, pat: &str, conds: Vec<Vec<Tok>>, mapping: Vec<Tok>) -> Vec<Tok> {
    let mut conj = vec![id("true")];
    for c in conds {
        conj.push(pu('&'));
        conj.push(pu('&'));
        conj.push(paren(c));
    }
    vec![
        pu(':'),
        pu(':'),
        id("core"),
        pu(':'),
        pu(':'),
        id("iter"),
        pu(':'),
        pu(':'),
        id("IntoIterator"),
        pu(':'),
        pu(':'),
        id("into_iter"),
        paren(iterable),
        pu('.'),
        id("filter_map"),
        paren(vec![
            id("move"),
            pu('|'),
            id(pat),
            pu('|'),
            brace(vec![
                id("if"),
                paren(conj),
                brace(vec![id("Some"), paren(mapping)]),
                id("else"),
                brace(vec![id("None")]),
            ]),
        ]),
    ]
}

#[test]
fn it_works() {
    // x for x in []
    let input = vec![id("x"), id("for"), id("x"), id("in"), bracket(vec![])];
    let out = comp(&input).unwrap();
    assert_eq!(
        out,
        expected_pipeline(vec![bracket(vec![])], "x", vec![], vec![id("x")])
    );
    let empty: Vec<i32> =
        ::core::iter::IntoIterator::into_iter([])
            .filter_map(move |x| if true { Some(x) } else { None })
            .collect();
    assert_eq!(empty.len(), 0);

    // x for x in [1]
    let input = vec![id("x"), id("for"), id("x"), id("in"), bracket(vec![il(1)])];
    let out = comp(&input).unwrap();
    assert_eq!(
        out,
        expected_pipeline(vec![bracket(vec![il(1)])], "x", vec![], vec![id("x")])
    );
    let one: Vec<i32> =
        ::core::iter::IntoIterator::into_iter([1])
            .filter_map(move |x| if true { Some(x) } else { None })
            .collect();
    assert_eq!(one.len(), 1);
    assert_eq!(one, vec![1]);

    // "hello!" for x in [1, 2, 3]
    let iter = vec![bracket(vec![il(1), pu(','), il(2), pu(','), il(3)])];
    let input = vec![sl("hello!"), id("for"), id("x"), id("in"), iter[0].clone_tokens()];
    let out = comp(&input).unwrap();
    assert_eq!(
        out,
        expected_pipeline(iter, "x", vec![], vec![sl("hello!")])
    );
    let unrelated: Vec<&str> =
        ::core::iter::IntoIterator::into_iter([1, 2, 3])
            .filter_map(move |_x| if true { Some("hello!") } else { None })
            .collect();
    assert_eq!(unrelated.len(), 3);
    assert_eq!(*unrelated.first().unwrap(), "hello!");

    // x*x for x in [1, 2, 3, 4, 5, 6] if x % 2 == 0
    let nums = vec![
        il(1),
        pu(','),
        il(2),
        pu(','),
        il(3),
        pu(','),
        il(4),
        pu(','),
        il(5),
        pu(','),
        il(6),
    ];
    let cond = vec![id("x"), pu('%'), il(2), pu('='), pu('='), il(0)];
    let mut input = vec![
        id("x"),
        pu('*'),
        id("x"),
        id("for"),
        id("x"),
        id("in"),
        bracket(nums.clone_all()),
        id("if"),
    ];
    input.extend(cond.clone_all());
    let out = comp(&input).unwrap();
    assert_eq!(
        out,
        expected_pipeline(
            vec![bracket(nums)],
            "x",
            vec![cond],
            vec![id("x"), pu('*'), id("x")]
        )
    );
    let filtered: Vec<i32> =
        ::core::iter::IntoIterator::into_iter([1, 2, 3, 4, 5, 6])
            .filter_map(move |x| if true && (x % 2 == 0) { Some(x * x) } else { None })
            .collect();
    assert_eq!(filtered, vec![4, 16, 36]);
}

/// Copy of each token vector; the token type owns its contents.
trait CloneAll {
    fn clone_all(&self) -> Vec<Tok>;
}

impl CloneAll for Vec<Tok> {
    fn clone_all(&self) -> Vec<Tok> {
        self.iter().map(|t| t.clone_tokens()).collect()
    }
}

trait CloneTok {
    fn clone_tokens(&self) -> Tok;
}

impl CloneTok for Tok {
    fn clone_tokens(&self) -> Tok {
        match self {
            Tok::Ident(s) => Tok::Ident(s.clone()),
            Tok::Punct(c) => Tok::Punct(*c),
            Tok::IntLit(n) => Tok::IntLit(*n),
            Tok::StrLit(cs) => Tok::StrLit(cs.clone()),
            Tok::Group(d, ts) => Tok::Group(*d, ts.clone_all()),
        }
    }
}

#[allow(non_snake_case)]
fn addOne(input: i32) -> i32 {
    return input + 1;
}

#[allow(non_snake_case)]
fn addSomeNumber(input: i32) -> i32 {
    let a = 5;
    return input + a;
}

#[allow(non_snake_case)]
fn callsAnotherFunction(input: i32) -> i32 {
    return addOne(addOne(input));
}

fn conditionals(input: i32) -> i32 {
    if input % 2 == 0 {
        return 1;
    } else {
        return 0;
    };
}

#[allow(non_snake_case)]
fn callsPrintf() -> i32 {
    println!("Hello, world!");
    return 5;
}

#[test]
fn function_macros() {
    // int addOne(int input) { return input + 1; }
    let input = vec![
        id("int"),
        id("addOne"),
        paren(vec![id("int"), id("input")]),
        brace(vec![id("return"), id("input"), pu('+'), il(1)]),
    ];
    let out = cfunc(&input).unwrap();
    assert_eq!(
        out,
        vec![
            id("fn"),
            id("addOne"),
            paren(vec![id("input"), pu(':'), id("i32")]),
            pu('-'),
            pu('>'),
            id("i32"),
            brace(vec![id("return"), id("input"), pu('+'), il(1), pu(';')]),
        ]
    );
    assert_eq!(addOne(5), 6);

    // int addSomeNumber(int input) { let a = 5; return input + a; }
    let input = vec![
        id("int"),
        id("addSomeNumber"),
        paren(vec![id("int"), id("input")]),
        brace(vec![
            id("let"),
            id("a"),
            pu('='),
            il(5),
            pu(';'),
            id("return"),
            id("input"),
            pu('+'),
            id("a"),
            pu(';'),
        ]),
    ];
    let out = cfunc(&input).unwrap();
    assert_eq!(
        out,
        vec![
            id("fn"),
            id("addSomeNumber"),
            paren(vec![id("input"), pu(':'), id("i32")]),
            pu('-'),
            pu('>'),
            id("i32"),
            brace(vec![
                id("let"),
                id("a"),
                pu('='),
                il(5),
                pu(';'),
                id("return"),
                id("input"),
                pu('+'),
                id("a"),
                pu(';'),
            ]),
        ]
    );
    assert_eq!(addSomeNumber(10), 15);

    // int callsAnotherFunction(int input) { return addOne(addOne(input)); }
    let input = vec![
        id("int"),
        id("callsAnotherFunction"),
        paren(vec![id("int"), id("input")]),
        brace(vec![
            id("return"),
            id("addOne"),
            paren(vec![id("addOne"), paren(vec![id("input")])]),
        ]),
    ];
    let out = cfunc(&input).unwrap();
    assert_eq!(
        out,
        vec![
            id("fn"),
            id("callsAnotherFunction"),
            paren(vec![id("input"), pu(':'), id("i32")]),
            pu('-'),
            pu('>'),
            id("i32"),
            brace(vec![
                id("return"),
                id("addOne"),
                paren(vec![id("addOne"), paren(vec![id("input")])]),
                pu(';'),
            ]),
        ]
    );
    assert_eq!(callsAnotherFunction(5), 7);

    // int conditionals(int input) { if (input % 2 == 0) { return 1; } else { return 0; } }
    let body_stmt = vec![
        id("if"),
        paren(vec![id("input"), pu('%'), il(2), pu('='), pu('='), il(0)]),
        brace(vec![id("return"), il(1), pu(';')]),
        id("else"),
        brace(vec![id("return"), il(0), pu(';')]),
    ];
    let input = vec![
        id("int"),
        id("conditionals"),
        paren(vec![id("int"), id("input")]),
        brace(body_stmt.clone_all()),
    ];
    let out = cfunc(&input).unwrap();
    let mut expected_body = body_stmt;
    expected_body.push(pu(';'));
    assert_eq!(
        out,
        vec![
            id("fn"),
            id("conditionals"),
            paren(vec![id("input"), pu(':'), id("i32")]),
            pu('-'),
            pu('>'),
            id("i32"),
            brace(expected_body),
        ]
    );
    assert_eq!(conditionals(2), 1);
    assert_eq!(conditionals(1), 0);

    // int callsPrintf() { printf("Hello, world!\n"); return 5; }
    let input = vec![
        id("int"),
        id("callsPrintf"),
        paren(vec![]),
        brace(vec![
            id("printf"),
            paren(vec![sl("Hello, world!\n")]),
            pu(';'),
            id("return"),
            il(5),
        ]),
    ];
    let out = cfunc(&input).unwrap();
    assert_eq!(
        out,
        vec![
            id("fn"),
            id("callsPrintf"),
            paren(vec![]),
            pu('-'),
            pu('>'),
            id("i32"),
            brace(vec![
                id("print"),
                pu('!'),
                paren(vec![sl("Hello, world!\n"), pu(',')]),
                pu(';'),
                id("return"),
                il(5),
                pu(';'),
            ]),
        ]
    );
    assert_eq!(callsPrintf(), 5);
}

#[test]
fn printf_arguments_are_rewritten_in_order() {
    // printf("%d items: %s", count, name); as a whole function body
    let input = vec![
        id("void"),
        id("report"),
        paren(vec![]),
        brace(vec![
            id("printf"),
            paren(vec![
                sl("%d items: %s"),
                pu(','),
                id("count"),
                pu(','),
                id("name"),
            ]),
        ]),
    ];
    let out = cfunc(&input).unwrap();
    assert_eq!(
        out,
        vec![
            id("fn"),
            id("report"),
            paren(vec![]),
            pu('-'),
            pu('>'),
            paren(vec![]),
            brace(vec![
                id("print"),
                pu('!'),
                paren(vec![
                    sl("{} items: {}"),
                    pu(','),
                    id("count"),
                    pu(','),
                    id("name"),
                    pu(','),
                ]),
                pu(';'),
            ]),
        ]
    );
}

#[test]
fn nested_calls_are_not_rewritten() {
    // a call to printf nested inside another call stays verbatim
    let stmt = vec![
        id("wrap"),
        paren(vec![id("printf"), paren(vec![sl("x")])]),
    ];
    let input = vec![
        id("void"),
        id("outer"),
        paren(vec![]),
        brace(stmt.clone_all()),
    ];
    let out = cfunc(&input).unwrap();
    let mut expected_body = stmt;
    expected_body.push(pu(';'));
    assert_eq!(
        out,
        vec![
            id("fn"),
            id("outer"),
            paren(vec![]),
            pu('-'),
            pu('>'),
            paren(vec![]),
            brace(expected_body),
        ]
    );
}

#[test]
fn unsupported_type_is_rejected() {
    for ty in ["float", "char"] {
        let input = vec![
            id(ty),
            id("f"),
            paren(vec![]),
            brace(vec![]),
        ];
        let e = cfunc(&input).unwrap_err();
        assert_eq!(e.kind, ErrKind::UnsupportedType);
        assert_eq!(e.pos, 0);
        assert_eq!(e.message(), "Only void and int supported");
    }
    // the same error from a parameter type
    let input = vec![
        id("int"),
        id("f"),
        paren(vec![id("float"), id("x")]),
        brace(vec![]),
    ];
    let e = cfunc(&input).unwrap_err();
    assert_eq!(e.kind, ErrKind::UnsupportedType);
    assert_eq!(e.message(), "Only void and int supported");
}

#[test]
fn unresolvable_type_token_is_rejected() {
    let input = vec![
        il(7),
        id("f"),
        paren(vec![]),
        brace(vec![]),
    ];
    let e = cfunc(&input).unwrap_err();
    assert_eq!(e.kind, ErrKind::UnresolvableToken);
    assert_eq!(e.pos, 0);
    assert_eq!(e.message(), "Unable to convert token to String");
}

#[test]
fn cfunc_shape_errors_are_positioned() {
    // missing name
    let e = cfunc(&vec![id("int")]).unwrap_err();
    assert_eq!((e.pos, e.kind), (1, ErrKind::Syntax));
    // missing parameter list
    let e = cfunc(&vec![id("int"), id("f")]).unwrap_err();
    assert_eq!((e.pos, e.kind), (2, ErrKind::Syntax));
    // missing body
    let e = cfunc(&vec![id("int"), id("f"), paren(vec![])]).unwrap_err();
    assert_eq!((e.pos, e.kind), (3, ErrKind::Syntax));
    // leftover tokens after the body
    let e = cfunc(&vec![
        id("int"),
        id("f"),
        paren(vec![]),
        brace(vec![]),
        il(1),
    ])
    .unwrap_err();
    assert_eq!((e.pos, e.kind), (4, ErrKind::Syntax));
    // an empty statement between semicolons
    let e = cfunc(&vec![
        id("int"),
        id("f"),
        paren(vec![]),
        brace(vec![pu(';'), id("return"), il(1)]),
    ])
    .unwrap_err();
    assert_eq!(e.kind, ErrKind::Syntax);
}

#[test]
fn trailing_separators_are_allowed() {
    // int f(int a,) { return a; }
    let input = vec![
        id("int"),
        id("f"),
        paren(vec![id("int"), id("a"), pu(',')]),
        brace(vec![id("return"), id("a"), pu(';')]),
    ];
    let out = cfunc(&input).unwrap();
    assert_eq!(
        out,
        vec![
            id("fn"),
            id("f"),
            paren(vec![id("a"), pu(':'), id("i32")]),
            pu('-'),
            pu('>'),
            id("i32"),
            brace(vec![id("return"), id("a"), pu(';')]),
        ]
    );
}

#[test]
fn void_maps_to_unit() {
    let input = vec![
        id("void"),
        id("f"),
        paren(vec![id("void"), id("x")]),
        brace(vec![]),
    ];
    let out = cfunc(&input).unwrap();
    assert_eq!(
        out,
        vec![
            id("fn"),
            id("f"),
            paren(vec![id("x"), pu(':'), paren(vec![])]),
            pu('-'),
            pu('>'),
            paren(vec![]),
            brace(vec![]),
        ]
    );
}

#[test]
fn comprehension_errors_are_positioned() {
    // no `for` at all: the mapping never ends
    let e = comp(&vec![id("x"), pu('*'), id("x")]).unwrap_err();
    assert_eq!((e.pos, e.kind), (3, ErrKind::Syntax));
    // empty mapping
    let e = comp(&vec![id("for"), id("x"), id("in"), bracket(vec![])]).unwrap_err();
    assert_eq!((e.pos, e.kind), (0, ErrKind::Syntax));
    // pattern is not an identifier
    let e = comp(&vec![id("x"), id("for"), il(1), id("in"), bracket(vec![])]).unwrap_err();
    assert_eq!((e.pos, e.kind), (2, ErrKind::Syntax));
    // missing `in`
    let e = comp(&vec![id("x"), id("for"), id("x"), bracket(vec![])]).unwrap_err();
    assert_eq!((e.pos, e.kind), (3, ErrKind::Syntax));
    // empty iterable
    let e = comp(&vec![id("x"), id("for"), id("x"), id("in")]).unwrap_err();
    assert_eq!((e.pos, e.kind), (4, ErrKind::Syntax));
    // a trailing `if` with no condition consumes nothing and is left over
    let e = comp(&vec![
        id("x"),
        id("for"),
        id("x"),
        id("in"),
        bracket(vec![il(1)]),
        id("if"),
    ])
    .unwrap_err();
    assert_eq!((e.pos, e.kind), (5, ErrKind::Syntax));
}

#[test]
fn multiple_conditions_keep_their_order() {
    let c1 = vec![id("x"), pu('>'), il(1)];
    let c2 = vec![id("x"), pu('<'), il(5)];
    let mut input = vec![
        id("x"),
        id("for"),
        id("x"),
        id("in"),
        bracket(vec![il(1), pu(','), il(2)]),
        id("if"),
    ];
    input.extend(c1.clone_all());
    input.push(id("if"));
    input.extend(c2.clone_all());
    let out = comp(&input).unwrap();
    assert_eq!(
        out,
        expected_pipeline(
            vec![bracket(vec![il(1), pu(','), il(2)])],
            "x",
            vec![c1, c2],
            vec![id("x")]
        )
    );
}
