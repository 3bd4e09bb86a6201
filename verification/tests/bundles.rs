use stream_layout::{
    to_bundle, to_bundle_with_limit, CompileError, Field, FieldType, Node, NodeKind, Span, Stream,
    StreamBundle, UnionOption, DEFAULT_DEPTH_LIMIT,
};

fn span(start: usize, end: usize) -> Span {
    Span { start, end }
}

fn node(kind: NodeKind, text: &str, at: (usize, usize), children: Vec<Node>) -> Node {
    Node { kind, text: text.to_string(), span: span(at.0, at.1), children }
}

fn name(text: &str, at: (usize, usize)) -> Node {
    node(NodeKind::Name, text, at, vec![])
}

fn bits(text: &str, at: (usize, usize)) -> Node {
    node(NodeKind::Bits, text, at, vec![])
}

fn null(at: (usize, usize)) -> Node {
    node(NodeKind::Null, "NULL", at, vec![])
}

fn anon(body: Node) -> Node {
    let at = (body.span.start, body.span.end);
    node(NodeKind::Element, "", at, vec![body])
}

fn named(label: &str, start: usize, body: Node) -> Node {
    let end = body.span.end;
    node(NodeKind::Element, "", (start, end), vec![name(label, (start, start + label.len())), body])
}

fn record(at: (usize, usize), members: Vec<Node>) -> Node {
    node(NodeKind::Struct, "", at, members)
}

fn union(at: (usize, usize), branches: Vec<Node>) -> Node {
    node(NodeKind::Union, "", at, branches)
}

fn list(at: (usize, usize), item: Node) -> Node {
    node(NodeKind::List, "", at, vec![item])
}

fn vector(at: (usize, usize), item: Node) -> Node {
    node(NodeKind::Vector, "", at, vec![item])
}

fn field(label: &str, typ: FieldType, at: (usize, usize)) -> Field {
    Field { name: label.to_string(), typ, start: at.0, end: at.1 }
}

fn stream(label: &str, dimensionality: u32, fields: Vec<Field>) -> Stream {
    Stream { name: label.to_string(), element_type: fields, dimensionality }
}

fn parse_error(at: (usize, usize), message: &str) -> CompileError {
    CompileError::ParseError { span: span(at.0, at.1), message: message.to_string() }
}

// (a: b10, b: b29)
fn two_scalars() -> Node {
    anon(record(
        (0, 16),
        vec![named("a", 1, bits("b10", (4, 7))), named("b", 9, bits("b29", (12, 15)))],
    ))
}

// {NULL, p: b4, q: b7}
fn small_union() -> Node {
    anon(union(
        (0, 20),
        vec![null((1, 5)), named("p", 7, bits("b4", (10, 12))), named("q", 14, bits("b7", (17, 19)))],
    ))
}

// x: {NULL, banana: <(a: b10, b: b29)>, triangle: [[(y: <b1>, z: b2)]]}
fn fruit_and_shapes() -> Node {
    let banana = named(
        "banana",
        10,
        vector(
            (18, 36),
            anon(record(
                (19, 35),
                vec![named("a", 20, bits("b10", (23, 26))), named("b", 28, bits("b29", (31, 34)))],
            )),
        ),
    );
    let triangle = named(
        "triangle",
        38,
        list(
            (48, 69),
            anon(list(
                (49, 68),
                anon(record(
                    (50, 67),
                    vec![
                        named("y", 51, vector((54, 59), anon(bits("b1", (55, 57))))),
                        named("z", 61, bits("b2", (64, 66))),
                    ],
                )),
            )),
        ),
    );
    named("x", 0, union((3, 70), vec![null((4, 8)), banana, triangle]))
}

#[test]
fn scalar_alone_is_one_root_field() {
    let bundle = to_bundle(&anon(bits("b12", (0, 3))), None).unwrap();
    assert_eq!(
        bundle,
        StreamBundle {
            primary: stream("root", 0, vec![field("root", FieldType::Bits(12), (0, 3))]),
            secondary: vec![],
        }
    );
    assert_eq!(bundle.primary.element_type[0].typ.option_width(), Some(0));
    assert_eq!(bundle.primary.element_type[0].typ.data_width(), Some(12));
}

#[test]
fn scalar_field_has_its_literal_width() {
    for n in [1u32, 7, 64, 4096, u32::MAX] {
        let text = format!("b{}", n);
        let bundle = to_bundle(&named("v", 0, bits(&text, (3, 3 + text.len()))), None).unwrap();
        assert_eq!(bundle.primary.element_type.len(), 1);
        let typ = &bundle.primary.element_type[0].typ;
        assert_eq!(typ.option_width(), Some(0));
        assert_eq!(typ.data_width(), Some(n));
    }
}

#[test]
fn struct_of_two_scalars_is_one_primary_stream() {
    let bundle = to_bundle(&two_scalars(), None).unwrap();
    assert_eq!(
        bundle,
        StreamBundle {
            primary: stream(
                "root",
                0,
                vec![
                    field("a", FieldType::Bits(10), (4, 7)),
                    field("b", FieldType::Bits(29), (12, 15)),
                ],
            ),
            secondary: vec![],
        }
    );
    assert_eq!(bundle.primary.element_width(), Some(39));
}

#[test]
fn union_of_null_and_two_scalars_is_one_field() {
    let bundle = to_bundle(&small_union(), None).unwrap();
    assert_eq!(bundle.primary.dimensionality, 0);
    assert_eq!(bundle.primary.element_type.len(), 1);
    assert!(bundle.secondary.is_empty());
    let only = &bundle.primary.element_type[0];
    assert_eq!(only.name, "root");
    assert_eq!((only.start, only.end), (0, 20));
    assert_eq!(
        only.typ,
        FieldType::Union(vec![
            UnionOption::null(),
            UnionOption {
                name: "p".to_string(),
                element_type: vec![field("p", FieldType::Bits(4), (10, 12))],
            },
            UnionOption {
                name: "q".to_string(),
                element_type: vec![field("q", FieldType::Bits(7), (17, 19))],
            },
        ])
    );
    assert_eq!(only.typ.option_width(), Some(2));
    assert_eq!(only.typ.data_width(), Some(7));
    assert_eq!(only.typ.width(), Some(9));
    assert_eq!(bundle.primary.element_width(), Some(9));
}

#[test]
fn nested_arrays_are_hoisted_into_flat_streams() {
    let bundle = to_bundle(&fruit_and_shapes(), None).unwrap();

    assert_eq!(bundle.primary.name, "x");
    assert_eq!(bundle.primary.dimensionality, 0);
    assert_eq!(bundle.primary.element_type.len(), 1);
    let x = &bundle.primary.element_type[0];
    assert_eq!(x.name, "x");
    assert_eq!((x.start, x.end), (3, 70));
    assert_eq!(
        x.typ,
        FieldType::Union(vec![
            UnionOption::null(),
            UnionOption {
                name: "x.banana".to_string(),
                element_type: vec![field("x.banana", FieldType::Length, (18, 36))],
            },
            UnionOption { name: "x.triangle[][]".to_string(), element_type: vec![] },
        ])
    );
    assert_eq!(x.typ.option_width(), Some(2));
    assert_eq!(x.typ.data_width(), Some(32));
    assert_eq!(x.typ.width(), Some(34));

    assert_eq!(
        bundle.secondary,
        vec![
            stream(
                "x.banana<>",
                0,
                vec![
                    field("x.banana<>.a", FieldType::Bits(10), (23, 26)),
                    field("x.banana<>.b", FieldType::Bits(29), (31, 34)),
                ],
            ),
            stream(
                "x.triangle[][]",
                2,
                vec![
                    field("x.triangle[][].y", FieldType::Length, (54, 59)),
                    field("x.triangle[][].z", FieldType::Bits(2), (64, 66)),
                ],
            ),
            stream(
                "x.triangle[][].y<>",
                2,
                vec![field("x.triangle[][].y<>", FieldType::Bits(1), (55, 57))],
            ),
        ]
    );
    assert_eq!(bundle.secondary[0].element_width(), Some(39));
    assert_eq!(bundle.secondary[1].element_width(), Some(34));
    assert_eq!(bundle.secondary[2].element_width(), Some(1));
}

#[test]
fn struct_of_arrays_promotes_its_first_stream() {
    // (m: [b1])
    let schema = anon(record((0, 9), vec![named("m", 1, list((4, 8), anon(bits("b1", (5, 7)))))]));
    let bundle = to_bundle(&schema, None).unwrap();
    assert_eq!(
        bundle,
        StreamBundle {
            primary: stream("m[]", 1, vec![field("m[]", FieldType::Bits(1), (5, 7))]),
            secondary: vec![],
        }
    );
}

#[test]
fn struct_of_arrays_keeps_the_other_streams() {
    // (m: [b1], n: [[b2]])
    let schema = anon(record(
        (0, 20),
        vec![
            named("m", 1, list((4, 8), anon(bits("b1", (5, 7))))),
            named("n", 10, list((13, 19), anon(list((14, 18), anon(bits("b2", (15, 17))))))),
        ],
    ));
    let bundle = to_bundle(&schema, None).unwrap();
    assert_eq!(
        bundle,
        StreamBundle {
            primary: stream("m[]", 1, vec![field("m[]", FieldType::Bits(1), (5, 7))]),
            secondary: vec![stream("n[][]", 2, vec![field("n[][]", FieldType::Bits(2), (15, 17))])],
        }
    );
}

#[test]
fn struct_keeps_inline_fields_and_hoists_arrays() {
    // (a: b3, m: [b1], c: b5)
    let schema = anon(record(
        (0, 24),
        vec![
            named("a", 1, bits("b3", (4, 6))),
            named("m", 8, list((11, 15), anon(bits("b1", (12, 14))))),
            named("c", 17, bits("b5", (20, 22))),
        ],
    ));
    let bundle = to_bundle(&schema, None).unwrap();
    assert_eq!(
        bundle,
        StreamBundle {
            primary: stream(
                "root",
                0,
                vec![field("a", FieldType::Bits(3), (4, 6)), field("c", FieldType::Bits(5), (20, 22))],
            ),
            secondary: vec![stream("m[]", 1, vec![field("m[]", FieldType::Bits(1), (12, 14))])],
        }
    );
    assert_eq!(bundle.primary.element_width(), Some(8));
}

#[test]
fn nested_structs_flatten_with_dotted_names() {
    // p: (q: (r: b1, s: b2), t: b3)
    let inner = record((7, 21), vec![named("r", 8, bits("b1", (11, 13))), named("s", 15, bits("b2", (18, 20)))]);
    let schema = named(
        "p",
        0,
        record((3, 30), vec![named("q", 4, inner), named("t", 23, bits("b3", (26, 28)))]),
    );
    let bundle = to_bundle(&schema, None).unwrap();
    assert_eq!(
        bundle,
        StreamBundle {
            primary: stream(
                "p",
                0,
                vec![
                    field("p.q.r", FieldType::Bits(1), (11, 13)),
                    field("p.q.s", FieldType::Bits(2), (18, 20)),
                    field("p.t", FieldType::Bits(3), (26, 28)),
                ],
            ),
            secondary: vec![],
        }
    );
}

#[test]
fn list_only_deepens_its_element() {
    // [[[b4]]]
    let schema = anon(list((0, 8), anon(list((1, 7), anon(list((2, 6), anon(bits("b4", (3, 5)))))))));
    let bundle = to_bundle(&schema, None).unwrap();
    assert_eq!(
        bundle,
        StreamBundle {
            primary: stream("root", 3, vec![field("root", FieldType::Bits(4), (3, 5))]),
            secondary: vec![],
        }
    );
}

#[test]
fn named_list_marks_its_element() {
    // v: [[b4]]
    let schema = named("v", 0, list((3, 9), anon(list((4, 8), anon(bits("b4", (5, 7)))))));
    let bundle = to_bundle(&schema, None).unwrap();
    assert_eq!(
        bundle,
        StreamBundle {
            primary: stream("v[][]", 2, vec![field("v[][]", FieldType::Bits(4), (5, 7))]),
            secondary: vec![],
        }
    );
}

#[test]
fn vector_adds_one_stream_behind_a_length() {
    // v: <b6>
    let schema = named("v", 0, vector((3, 7), anon(bits("b6", (4, 6)))));
    let bundle = to_bundle(&schema, None).unwrap();
    assert_eq!(
        bundle,
        StreamBundle {
            primary: stream("v", 0, vec![field("v", FieldType::Length, (3, 7))]),
            secondary: vec![stream("v<>", 0, vec![field("v<>", FieldType::Bits(6), (4, 6))])],
        }
    );
    assert_eq!(bundle.primary.element_width(), Some(32));
}

#[test]
fn unnamed_vector_is_named_after_the_root() {
    // <b6>
    let schema = anon(vector((0, 4), anon(bits("b6", (1, 3)))));
    let bundle = to_bundle(&schema, None).unwrap();
    assert_eq!(
        bundle,
        StreamBundle {
            primary: stream("root", 0, vec![field("root", FieldType::Length, (0, 4))]),
            secondary: vec![stream("root", 0, vec![field("root", FieldType::Bits(6), (1, 3))])],
        }
    );
}

#[test]
fn list_of_vectors_deepens_both_streams() {
    // v: [<b6>]
    let schema = named("v", 0, list((3, 9), anon(vector((4, 8), anon(bits("b6", (5, 7)))))));
    let bundle = to_bundle(&schema, None).unwrap();
    assert_eq!(
        bundle,
        StreamBundle {
            primary: stream("v[]", 1, vec![field("v[]", FieldType::Length, (4, 8))]),
            secondary: vec![stream("v[]<>", 1, vec![field("v[]<>", FieldType::Bits(6), (5, 7))])],
        }
    );
}

#[test]
fn vector_of_lists_keeps_the_element_depth() {
    // v: <[b6]>
    let schema = named("v", 0, vector((3, 9), anon(list((4, 8), anon(bits("b6", (5, 7)))))));
    let bundle = to_bundle(&schema, None).unwrap();
    assert_eq!(
        bundle,
        StreamBundle {
            primary: stream("v", 0, vec![field("v", FieldType::Length, (3, 9))]),
            secondary: vec![stream("v<>[]", 1, vec![field("v<>[]", FieldType::Bits(6), (5, 7))])],
        }
    );
}

#[test]
fn vector_of_vectors_adds_a_stream_per_level() {
    // v: <<b6>>
    let schema = named("v", 0, vector((3, 9), anon(vector((4, 8), anon(bits("b6", (5, 7)))))));
    let bundle = to_bundle(&schema, None).unwrap();
    assert_eq!(
        bundle,
        StreamBundle {
            primary: stream("v", 0, vec![field("v", FieldType::Length, (3, 9))]),
            secondary: vec![
                stream("v<>", 0, vec![field("v<>", FieldType::Length, (4, 8))]),
                stream("v<><>", 0, vec![field("v<><>", FieldType::Bits(6), (5, 7))]),
            ],
        }
    );
}

#[test]
fn union_hoists_array_payloads() {
    // u: {a: [b3], b: b2}
    let schema = named(
        "u",
        0,
        union(
            (3, 20),
            vec![named("a", 4, list((7, 11), anon(bits("b3", (8, 10))))), named("b", 13, bits("b2", (16, 18)))],
        ),
    );
    let bundle = to_bundle(&schema, None).unwrap();
    assert_eq!(
        bundle,
        StreamBundle {
            primary: stream(
                "u",
                0,
                vec![field(
                    "u",
                    FieldType::Union(vec![
                        UnionOption { name: "u.a[]".to_string(), element_type: vec![] },
                        UnionOption {
                            name: "u.b".to_string(),
                            element_type: vec![field("u.b", FieldType::Bits(2), (16, 18))],
                        },
                    ]),
                    (3, 20),
                )],
            ),
            secondary: vec![stream("u.a[]", 1, vec![field("u.a[]", FieldType::Bits(3), (8, 10))])],
        }
    );
    let typ = &bundle.primary.element_type[0].typ;
    assert_eq!(typ.option_width(), Some(1));
    assert_eq!(typ.data_width(), Some(2));
}

#[test]
fn initial_name_prefixes_every_path() {
    let bundle = to_bundle(&two_scalars(), Some("top")).unwrap();
    assert_eq!(bundle.primary.name, "top");
    assert_eq!(bundle.primary.element_type[0].name, "top.a");
    assert_eq!(bundle.primary.element_type[1].name, "top.b");
    let named_root = to_bundle(&named("x", 0, bits("b1", (3, 5))), Some("top")).unwrap();
    assert_eq!(named_root.primary.name, "top.x");
}

#[test]
fn several_names_are_joined_by_dots() {
    let schema = node(
        NodeKind::Element,
        "",
        (0, 8),
        vec![name("a", (0, 1)), name("b", (2, 3)), bits("b9", (5, 7)), bits("b1", (7, 8))],
    );
    let bundle = to_bundle(&schema, None).unwrap();
    assert_eq!(
        bundle,
        StreamBundle {
            primary: stream("a.b", 0, vec![field("a.b", FieldType::Bits(9), (5, 7))]),
            secondary: vec![],
        }
    );
}

#[test]
fn array_reads_its_first_child_only() {
    let schema = anon(node(
        NodeKind::List,
        "",
        (0, 9),
        vec![anon(bits("b2", (1, 3))), anon(bits("b0", (4, 6)))],
    ));
    let bundle = to_bundle(&schema, None).unwrap();
    assert_eq!(bundle.primary.dimensionality, 1);
    assert_eq!(bundle.primary.element_type, vec![field("root", FieldType::Bits(2), (1, 3))]);
}

#[test]
fn compiling_twice_gives_the_same_bundle() {
    let first = to_bundle(&fruit_and_shapes(), None);
    let second = to_bundle(&fruit_and_shapes(), None);
    assert_eq!(first, second);
    let schema = fruit_and_shapes();
    assert_eq!(to_bundle(&schema, Some("n")), to_bundle(&schema, Some("n")));
    assert_eq!(to_bundle(&small_union(), None), to_bundle(&small_union(), None));
}

#[test]
fn union_without_options_is_degenerate() {
    let schema = named("u", 0, union((3, 5), vec![]));
    assert_eq!(to_bundle(&schema, None), Err(CompileError::DegenerateUnion { span: span(3, 5) }));
}

#[test]
fn nested_union_without_options_is_degenerate() {
    let schema = anon(record(
        (0, 20),
        vec![named("a", 1, bits("b3", (4, 6))), named("u", 8, union((11, 13), vec![]))],
    ));
    assert_eq!(to_bundle(&schema, None), Err(CompileError::DegenerateUnion { span: span(11, 13) }));
}

#[test]
fn zero_width_scalar_is_invalid() {
    let schema = named("a", 0, bits("b0", (3, 5)));
    assert_eq!(to_bundle(&schema, None), Err(CompileError::InvalidScalarWidth { span: span(3, 5) }));
}

#[test]
fn unreadable_scalar_is_invalid() {
    for text in ["b", "bits", "b12x", "12", "b4294967296", ""] {
        let schema = anon(bits(text, (0, text.len())));
        assert_eq!(
            to_bundle(&schema, None),
            Err(CompileError::InvalidScalarWidth { span: span(0, text.len()) })
        );
    }
}

#[test]
fn first_error_in_source_order_wins() {
    let schema = anon(record(
        (0, 30),
        vec![
            named("a", 1, bits("b3", (4, 6))),
            named("b", 8, bits("b0", (11, 13))),
            named("u", 15, union((18, 20), vec![])),
        ],
    ));
    assert_eq!(to_bundle(&schema, None), Err(CompileError::InvalidScalarWidth { span: span(11, 13) }));
}

#[test]
fn nesting_beyond_the_limit_is_too_deep() {
    // [[b4]] nests three elements
    let schema = anon(list((0, 6), anon(list((1, 5), anon(bits("b4", (2, 4)))))));
    assert_eq!(to_bundle_with_limit(&schema, None, 0), Err(CompileError::SchemaTooDeep { limit: 0 }));
    assert_eq!(to_bundle_with_limit(&schema, None, 1), Err(CompileError::SchemaTooDeep { limit: 1 }));
    assert_eq!(to_bundle_with_limit(&schema, None, 2), Err(CompileError::SchemaTooDeep { limit: 2 }));
    let bundle = to_bundle_with_limit(&schema, None, 3).unwrap();
    assert_eq!(bundle.primary.dimensionality, 2);
    assert_eq!(to_bundle_with_limit(&schema, None, u32::MAX), Ok(bundle));
}

#[test]
fn default_limit_bounds_the_nesting() {
    assert_eq!(DEFAULT_DEPTH_LIMIT, 128);
    let mut deep = anon(bits("b1", (0, 2)));
    for _ in 0..127 {
        deep = anon(list((0, 2), deep));
    }
    let bundle = to_bundle(&deep, None).unwrap();
    assert_eq!(bundle.primary.dimensionality, 127);
    let deeper = anon(list((0, 2), deep));
    assert_eq!(to_bundle(&deeper, None), Err(CompileError::SchemaTooDeep { limit: 128 }));
}

#[test]
fn dimensionality_stays_below_the_limit() {
    let bundle = to_bundle_with_limit(&fruit_and_shapes(), None, 6).unwrap();
    assert!(bundle.primary.dimensionality < 6);
    assert!(bundle.secondary.iter().all(|s| s.dimensionality < 6));
    assert_eq!(
        to_bundle_with_limit(&fruit_and_shapes(), None, 5),
        Err(CompileError::SchemaTooDeep { limit: 5 })
    );
}

#[test]
fn root_must_be_an_element() {
    assert_eq!(
        to_bundle(&bits("b4", (0, 2)), None),
        Err(parse_error((0, 2), "expected an element"))
    );
    assert_eq!(
        to_bundle_with_limit(&bits("b4", (0, 2)), None, 0),
        Err(parse_error((0, 2), "expected an element"))
    );
}

#[test]
fn struct_member_must_be_an_element() {
    let schema = anon(record((0, 9), vec![bits("b4", (1, 3))]));
    assert_eq!(to_bundle(&schema, None), Err(parse_error((1, 3), "expected an element")));
}

#[test]
fn union_branch_must_be_null_or_an_element() {
    let schema = anon(union((0, 9), vec![null((1, 5)), name("p", (6, 7))]));
    assert_eq!(to_bundle(&schema, None), Err(parse_error((6, 7), "expected an element")));
}

#[test]
fn element_needs_a_type() {
    let only_name = node(NodeKind::Element, "", (0, 1), vec![name("a", (0, 1))]);
    assert_eq!(to_bundle(&only_name, None), Err(parse_error((0, 1), "element without a type")));
    let empty = node(NodeKind::Element, "", (4, 4), vec![]);
    assert_eq!(to_bundle(&empty, None), Err(parse_error((4, 4), "element without a type")));
}

#[test]
fn element_type_must_be_a_type() {
    let schema = anon(null((0, 4)));
    assert_eq!(
        to_bundle(&schema, None),
        Err(parse_error((0, 4), "unexpected node in place of a type"))
    );
    let nested = anon(anon(bits("b1", (0, 2))));
    assert_eq!(
        to_bundle(&nested, None),
        Err(parse_error((0, 2), "unexpected node in place of a type"))
    );
}

#[test]
fn array_needs_an_element() {
    let schema = anon(node(NodeKind::List, "", (0, 2), vec![]));
    assert_eq!(to_bundle(&schema, None), Err(parse_error((0, 2), "array without an element")));
    let schema = anon(node(NodeKind::Vector, "", (0, 2), vec![]));
    assert_eq!(to_bundle(&schema, None), Err(parse_error((0, 2), "array without an element")));
}

#[test]
fn struct_needs_a_member() {
    let schema = named("s", 0, record((3, 5), vec![]));
    assert_eq!(to_bundle(&schema, None), Err(parse_error((3, 5), "struct without members")));
}

fn all_unions_have_options(typ: &FieldType) -> bool {
    match typ {
        FieldType::Union(options) => {
            !options.is_empty()
                && options
                    .iter()
                    .all(|o| o.element_type.iter().all(|f| all_unions_have_options(&f.typ)))
        }
        _ => true,
    }
}

#[test]
fn every_planned_stream_has_a_field_and_every_union_an_option() {
    for schema in [two_scalars(), small_union(), fruit_and_shapes()] {
        let bundle = to_bundle(&schema, None).unwrap();
        let mut streams = vec![&bundle.primary];
        streams.extend(bundle.secondary.iter());
        for s in streams {
            assert!(!s.element_type.is_empty());
            for f in &s.element_type {
                assert!(all_unions_have_options(&f.typ));
                assert!(f.typ.option_width().is_some());
                assert!(f.typ.width().is_some());
            }
        }
    }
}

#[test]
fn trees_of_the_same_value_give_the_same_bundle() {
    let built_once = fruit_and_shapes();
    let built_again = fruit_and_shapes();
    assert_eq!(built_once, built_again);
    assert_eq!(
        to_bundle_with_limit(&built_once, Some("s"), 9),
        to_bundle_with_limit(&built_again, Some("s"), 9)
    );
}
