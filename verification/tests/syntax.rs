use zephyr_build::devicetree::grammar::{is_in_class, CharClass, Dts};
use zephyr_build::devicetree::ordmap::OrdMap;
use zephyr_build::devicetree::parse::{
    decode_bytes, decode_property, decode_words, path_below, try_decode_bytes,
    try_decode_property, try_decode_words, LazyName, TreeBuilder,
};
use zephyr_build::devicetree::syntax::{Pair, ParseErrorKind, Rule};
use zephyr_build::devicetree::{Phandle, Value, Word};

fn branch(rule: Rule, text: &str, inner: Vec<Pair>) -> Pair {
    Pair { rule, text: text.to_string(), inner }
}

#[test]
fn source_becomes_pairs() {
    let root = Dts::try_parse("/dts-v1/;\n/ { l: n@1 { p = <0x10 7 &l>, \"s\", [ab], &l; q; }; };").unwrap();
    let expected = branch(
        Rule::Node,
        "/ { l: n@1 { p = <0x10 7 &l>, \"s\", [ab], &l; q; }; };",
        vec![branch(
            Rule::Node,
            "l: n@1 { p = <0x10 7 &l>, \"s\", [ab], &l; q; };",
            vec![
                Pair::leaf(Rule::Label, "l"),
                Pair::leaf(Rule::Nodename, "n@1"),
                branch(
                    Rule::Property,
                    "p = <0x10 7 &l>, \"s\", [ab], &l;",
                    vec![
                        Pair::leaf(Rule::Nodename, "p"),
                        branch(
                            Rule::Words,
                            "<0x10 7 &l>",
                            vec![
                                Pair::leaf(Rule::HexNumber, "0x10"),
                                Pair::leaf(Rule::DecimalNumber, "7"),
                                Pair::leaf(Rule::Phandle, "&l"),
                            ],
                        ),
                        Pair::leaf(Rule::String, "\"s\""),
                        branch(Rule::Bytes, "[ab]", vec![Pair::leaf(Rule::PlainHexNumber, "ab")]),
                        Pair::leaf(Rule::Phandle, "&l"),
                    ],
                ),
                branch(Rule::Property, "q;", vec![Pair::leaf(Rule::Nodename, "q")]),
            ],
        )],
    );
    assert_eq!(root, expected);
}

#[test]
fn character_classes() {
    assert!(is_in_class(CharClass::Space, ' '));
    assert!(is_in_class(CharClass::Space, '\n'));
    assert!(!is_in_class(CharClass::Space, 'x'));
    assert!(is_in_class(CharClass::Alpha, 'a') && is_in_class(CharClass::Alpha, 'Z'));
    assert!(!is_in_class(CharClass::Alpha, '1') && !is_in_class(CharClass::Alpha, '_'));
    assert!(is_in_class(CharClass::Digit, '0') && !is_in_class(CharClass::Digit, 'a'));
    assert!(is_in_class(CharClass::Hex, 'f') && is_in_class(CharClass::Hex, 'A'));
    assert!(!is_in_class(CharClass::Hex, 'g'));
    assert!(is_in_class(CharClass::Label, '_') && !is_in_class(CharClass::Label, '-'));
    for c in ['a', '9', '_', ',', '.', '?', '-', '@', '#'] {
        assert!(is_in_class(CharClass::Name, c));
    }
    assert!(!is_in_class(CharClass::Name, '/') && !is_in_class(CharClass::Name, '+'));
    assert!(is_in_class(CharClass::StringBody, ' '));
    assert!(!is_in_class(CharClass::StringBody, '"'));
    assert!(!is_in_class(CharClass::StringBody, '\n'));
}

#[test]
fn words_are_decoded() {
    let words = try_decode_words(&branch(
        Rule::Words,
        "",
        vec![
            Pair::leaf(Rule::HexNumber, "0x1F"),
            Pair::leaf(Rule::DecimalNumber, "42"),
            Pair::leaf(Rule::DecimalNumber, "+7"),
            Pair::leaf(Rule::Phandle, "&gpio0"),
        ],
    ))
    .unwrap();
    assert_eq!(
        words,
        vec![
            Word::Number(31),
            Word::Number(42),
            Word::Number(7),
            Word::Phandle(Phandle::new("gpio0".to_string())),
        ]
    );
    assert_eq!(Word::Number(31).get_number(), Some(31));
    assert_eq!(Word::Phandle(Phandle::new("x".to_string())).get_number(), None);
}

#[test]
fn bad_words_are_refused() {
    let cases = [
        (Pair::leaf(Rule::HexNumber, "0"), ParseErrorKind::BadNumber),
        (Pair::leaf(Rule::HexNumber, "0x"), ParseErrorKind::BadNumber),
        (Pair::leaf(Rule::HexNumber, "0xg"), ParseErrorKind::BadNumber),
        (Pair::leaf(Rule::DecimalNumber, "1f"), ParseErrorKind::BadNumber),
        (Pair::leaf(Rule::DecimalNumber, ""), ParseErrorKind::BadNumber),
        (Pair::leaf(Rule::Phandle, ""), ParseErrorKind::BadPhandle),
        (Pair::leaf(Rule::String, "\"s\""), ParseErrorKind::UnexpectedRule),
    ];
    for (pair, kind) in cases {
        let text = pair.text.clone();
        let err = try_decode_words(&branch(Rule::Words, "", vec![Pair::leaf(Rule::DecimalNumber, "1"), pair]))
            .unwrap_err();
        assert_eq!(err.kind, kind);
        assert_eq!(err.subject, text);
    }
}

#[test]
fn bytes_are_decoded() {
    let bytes = try_decode_bytes(&branch(
        Rule::Bytes,
        "",
        vec![Pair::leaf(Rule::PlainHexNumber, "0a"), Pair::leaf(Rule::PlainHexNumber, "FF")],
    ))
    .unwrap();
    assert_eq!(bytes, vec![10, 255]);
    for bad in ["1ff", "f", "", "+f", "0g", "0x"] {
        let err = try_decode_bytes(&branch(Rule::Bytes, "", vec![Pair::leaf(Rule::PlainHexNumber, bad)]))
            .unwrap_err();
        assert_eq!(err.kind, ParseErrorKind::BadNumber);
        assert_eq!(err.subject, bad);
    }
    let err = try_decode_bytes(&branch(Rule::Bytes, "", vec![Pair::leaf(Rule::HexNumber, "0x1")]))
        .unwrap_err();
    assert_eq!(err.kind, ParseErrorKind::UnexpectedRule);
    assert_eq!(err.message(), "Unexpected rule at: 0x1");
}

#[test]
fn property_is_decoded() {
    let property = try_decode_property(&branch(
        Rule::Property,
        "",
        vec![
            Pair::leaf(Rule::Nodename, "status"),
            Pair::leaf(Rule::String, "\"okay\""),
            Pair::leaf(Rule::Phandle, "&x"),
            Pair::leaf(Rule::String, "\"\""),
        ],
    ))
    .unwrap();
    assert_eq!(property.name, "status");
    assert_eq!(
        property.value,
        vec![
            Value::String("okay".to_string()),
            Value::Phandle(Phandle::new("x".to_string())),
            Value::String(String::new()),
        ]
    );
    assert!(property.get_single_value().is_none());
}

#[test]
fn bad_properties_are_refused() {
    let err = try_decode_property(&branch(
        Rule::Property,
        "= <1>;",
        vec![branch(Rule::Words, "<1>", vec![Pair::leaf(Rule::DecimalNumber, "1")])],
    ))
    .unwrap_err();
    assert_eq!(err.kind, ParseErrorKind::MissingPropertyName);
    assert_eq!(err.subject, "= <1>;");
    assert_eq!(err.message(), "Property without a name: = <1>;");

    let err = try_decode_property(&branch(
        Rule::Property,
        "",
        vec![Pair::leaf(Rule::Nodename, "a"), Pair::leaf(Rule::String, "\"")],
    ))
    .unwrap_err();
    assert_eq!(err.kind, ParseErrorKind::BadString);
    assert_eq!(err.message(), "Invalid string: \"");

    let err = try_decode_property(&branch(
        Rule::Property,
        "",
        vec![Pair::leaf(Rule::Nodename, "a"), Pair::leaf(Rule::Phandle, "")],
    ))
    .unwrap_err();
    assert_eq!(err.kind, ParseErrorKind::BadPhandle);
    assert_eq!(err.message(), "Invalid phandle: ");

    let err = try_decode_property(&branch(
        Rule::Property,
        "",
        vec![Pair::leaf(Rule::Nodename, "a"), Pair::leaf(Rule::Label, "l")],
    ))
    .unwrap_err();
    assert_eq!(err.kind, ParseErrorKind::UnexpectedRule);
}

fn small_index() -> OrdMap {
    let mut ords = OrdMap::empty();
    ords.insert("/".to_string(), 0);
    ords.insert("/soc".to_string(), 4);
    ords.insert("/soc/uart".to_string(), 9);
    ords
}

#[test]
fn lazy_name_of_the_root() {
    let ords = small_index();
    let mut name = LazyName::try_new("", Vec::new(), &ords).unwrap();
    assert_eq!(name.path_ref(), "/");
    assert_eq!(name.ord(), 0);
    assert!(name.route_ref().is_empty());
    let err = name.try_set("again".to_string()).unwrap_err();
    assert_eq!(err.kind, ParseErrorKind::MultipleNames);
    let node = name.into_node();
    assert_eq!(node.name, "/");
    assert_eq!(node.path, "/");
    assert_eq!(node.ord, 0);
    assert!(node.labels.is_empty() && node.properties.is_empty() && node.children.is_empty());
}

#[test]
fn lazy_name_below_the_root() {
    let ords = small_index();
    let mut name = LazyName::try_new("/", Vec::new(), &ords).unwrap();
    assert!(name.info.is_none());
    name.try_set("soc".to_string()).unwrap();
    assert_eq!(name.path_ref(), "/soc");
    assert_eq!(name.ord(), 4);
    assert_eq!(name.route_ref(), &vec!["soc".to_string()]);

    let mut name = LazyName::try_new("/soc", vec!["soc".to_string()], &ords).unwrap();
    name.try_set("uart".to_string()).unwrap();
    assert_eq!(name.path_ref(), "/soc/uart");
    assert_eq!(name.ord(), 9);
    let node = name.into_node();
    assert_eq!(node.route, vec!["soc".to_string(), "uart".to_string()]);

    let mut name = LazyName::try_new("/soc", vec!["soc".to_string()], &ords).unwrap();
    let err = name.try_set("spi".to_string()).unwrap_err();
    assert_eq!(err.kind, ParseErrorKind::MissingOrdinal);
    assert_eq!(err.subject, "/soc/spi");
    assert!(name.info.is_none());
}

#[test]
fn name_may_stand_anywhere_in_the_body() {
    let ords = small_index();
    let soc = branch(
        Rule::Node,
        "",
        vec![
            branch(Rule::Node, "", vec![Pair::leaf(Rule::Nodename, "uart")]),
            Pair::leaf(Rule::Label, "bus"),
            Pair::leaf(Rule::Nodename, "soc"),
        ],
    );
    let tree = TreeBuilder::new(&ords).try_walk(&branch(Rule::Node, "", vec![soc])).unwrap();
    assert_eq!(tree.root.children[0].path, "/soc");
    assert_eq!(tree.root.children[0].children[0].path, "/soc/uart");
    assert_eq!(tree.root.children[0].children[0].ord, 9);
    assert_eq!(tree.resolve("bus").unwrap().ord, 4);
}

#[test]
fn two_names_are_fatal() {
    let ords = small_index();
    let soc = branch(
        Rule::Node,
        "",
        vec![Pair::leaf(Rule::Nodename, "soc"), Pair::leaf(Rule::Nodename, "uart")],
    );
    let err = TreeBuilder::new(&ords).try_walk(&branch(Rule::Node, "", vec![soc])).unwrap_err();
    assert_eq!(err.kind, ParseErrorKind::MultipleNames);
    assert_eq!(err.subject, "uart");
}

#[test]
fn stray_pieces_are_fatal() {
    let ords = small_index();
    let err = TreeBuilder::new(&ords)
        .try_walk(&branch(Rule::Node, "", vec![Pair::leaf(Rule::Words, "<1>")]))
        .unwrap_err();
    assert_eq!(err.kind, ParseErrorKind::UnexpectedRule);
    assert_eq!(err.subject, "<1>");
    let err = TreeBuilder::new(&ords).try_walk(&Pair::leaf(Rule::Property, "a;")).unwrap_err();
    assert_eq!(err.kind, ParseErrorKind::UnexpectedRule);
    assert_eq!(err.subject, "a;");
}

#[test]
fn well_formed_pieces_are_decoded_outright() {
    let words = branch(
        Rule::Words,
        "",
        vec![Pair::leaf(Rule::HexNumber, "0xffffffff"), Pair::leaf(Rule::Phandle, "&l")],
    );
    assert_eq!(
        decode_words(&words),
        vec![Word::Number(u32::MAX), Word::Phandle(Phandle::new("l".to_string()))]
    );
    let bytes = branch(Rule::Bytes, "", vec![Pair::leaf(Rule::PlainHexNumber, "7f")]);
    assert_eq!(decode_bytes(&bytes), vec![0x7f]);
    let property =
        decode_property(&branch(Rule::Property, "", vec![Pair::leaf(Rule::Nodename, "p"), words]));
    assert_eq!(property.name, "p");
    assert_eq!(property.value.len(), 1);
}

#[test]
fn names_are_set_outright() {
    let ords = small_index();
    let root = LazyName::new("", Vec::new(), &ords);
    assert_eq!(root.path_ref(), "/");
    let mut name = LazyName::new("/soc", vec!["soc".to_string()], &ords);
    name.set("uart".to_string());
    assert_eq!(name.path_ref(), "/soc/uart");
    assert_eq!(name.ord(), 9);
    let pairs = Dts::parse("/ { soc { uart { }; }; };");
    let tree = TreeBuilder::new(&ords).walk(&pairs);
    assert_eq!(tree.root.children[0].children[0].ord, 9);
    let mut builder = TreeBuilder::new(&ords);
    let soc = builder.walk_node(&pairs.inner[0], "/", &Vec::new(), &vec![0]);
    assert_eq!(soc.path, "/soc");
    assert_eq!(soc.children[0].route, vec!["soc".to_string(), "uart".to_string()]);
}

#[test]
fn only_the_root_has_no_slash_before_its_children() {
    assert_eq!(path_below("/", "soc"), "/soc");
    assert_eq!(path_below("/soc", "uart"), "/soc/uart");
    assert_eq!(path_below("a", "b"), "a/b");
    assert_eq!(path_below("\u{e9}", "b"), "\u{e9}/b");
    assert_eq!(path_below("", "b"), "/b");
}
