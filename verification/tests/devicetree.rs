use zephyr_build::devicetree::ordmap::{OrdError, OrdErrorKind, OrdMap};
use zephyr_build::devicetree::output::fix_id;
use zephyr_build::devicetree::parse::{parse, try_parse};
use zephyr_build::devicetree::syntax::{ParseError, ParseErrorKind};
use zephyr_build::devicetree::{DeviceTree, GenErrorKind, LoadError, Value};

const BOARD: &str = r#"/dts-v1/;

/ {
	#address-cells = <0x01>;
	model = "Test board";
	compatible = "vnd,board", "vnd,soc";
	soc {
		gpio0: gpio@0 {
			compatible = "vnd,gpio";
			gpio-controller;
			#gpio-cells = <0x02>;
			reg = <0x0 0x1000>;
		};
	};
	leds {
		compatible = "gpio-leds";
		led0: led_0 {
			gpios = <&gpio0 3 0>;
			label = "Green LED";
		};
	};
	aliases {
		led = &led0;
		mac = [00 11 ff];
	};
};
"#;

fn board_index() -> OrdMap {
    let mut ords = OrdMap::empty();
    ords.insert("/".to_string(), 0);
    ords.insert("/soc".to_string(), 1);
    ords.insert("/soc/gpio@0".to_string(), 7);
    ords.insert("/leds".to_string(), 3);
    ords.insert("/leds/led_0".to_string(), 4);
    ords.insert("/aliases".to_string(), 5);
    ords
}

#[test]
fn builds_the_board() {
    let tree = try_parse(BOARD, &board_index()).unwrap();
    assert_eq!(tree.root.name, "/");
    assert_eq!(tree.root.path, "/");
    assert!(tree.root.route.is_empty());
    assert_eq!(tree.root.children.len(), 3);
    let gpio = &tree.root.children[0].children[0];
    assert_eq!(gpio.name, "gpio@0");
    assert_eq!(gpio.path, "/soc/gpio@0");
    assert_eq!(gpio.ord, 7);
    assert_eq!(gpio.route, vec!["soc".to_string(), "gpio@0".to_string()]);
    assert_eq!(gpio.labels, vec!["gpio0".to_string()]);
    assert_eq!(fix_id(&gpio.name), "gpio_0");
    assert_eq!(tree.labels.len(), 2);
    assert_eq!(tree.labels[0].name, "gpio0");
    assert_eq!(tree.labels[0].target, vec![0, 0]);
    assert_eq!(tree.labels[1].name, "led0");
    assert_eq!(tree.labels[1].target, vec![1, 0]);
}

#[test]
fn generates_the_board() {
    let tree = try_parse(BOARD, &board_index()).unwrap();
    let text = tree.try_to_tokens().unwrap();
    let expected = "pub mod devicetree {\n\
pub const ORD: usize = 0;\n\
pub const NADDRESS_CELLS: u32 = 1;\n\
pub const MODEL_DEBUG: &'static str = \"[String(\\\"Test board\\\")]\";\n\
pub const COMPATIBLE_DEBUG: &'static str = \"[String(\\\"vnd,board\\\"), String(\\\"vnd,soc\\\")]\";\n\
pub mod soc {\n\
pub const ORD: usize = 1;\n\
pub mod gpio_0 {\n\
pub const ORD: usize = 7;\n\
pub const COMPATIBLE_DEBUG: &'static str = \"[String(\\\"vnd,gpio\\\")]\";\n\
pub const GPIO_CONTROLLER_DEBUG: &'static str = \"[]\";\n\
pub const NGPIO_CELLS: u32 = 2;\n\
pub const REG_DEBUG: &'static str = \"[Words([Number(0), Number(4096)])]\";\n\
pub unsafe fn get_instance() -> *const crate::sys::device {\n\
extern \"C\" {\n\
static __device_dts_ord_7: crate::sys::device;\n\
}\n\
&__device_dts_ord_7\n\
}\n\
}\n\
}\n\
pub mod leds {\n\
pub const ORD: usize = 3;\n\
pub const COMPATIBLE_DEBUG: &'static str = \"[String(\\\"gpio-leds\\\")]\";\n\
pub mod led_0 {\n\
pub const ORD: usize = 4;\n\
pub const GPIOS_DEBUG: &'static str = \"[Words([Phandle(Phandle(\\\"gpio0\\\")), Number(3), Number(0)])]\";\n\
pub const LABEL_DEBUG: &'static str = \"[String(\\\"Green LED\\\")]\";\n\
pub fn get_instance() -> crate::sys::gpio_dt_spec {\n\
unsafe {\n\
let port = crate::devicetree::soc::gpio_0::get_instance();\n\
crate::sys::gpio_dt_spec {\n\
port,\n\
pin: 3 as crate::sys::gpio_pin_t,\n\
dt_flags: 0 as crate::sys::gpio_dt_flags_t,\n\
}\n\
}\n\
}\n\
}\n\
}\n\
pub mod aliases {\n\
pub const ORD: usize = 5;\n\
pub mod led {\n\
pub use crate::devicetree::leds::led_0::*;\n\
}\n\
pub const MAC_DEBUG: &'static str = \"[Bytes([0, 17, 255])]\";\n\
}\n\
}\n";
    assert_eq!(text, expected);
}

#[test]
fn missing_ordinal_is_fatal() {
    let mut ords = OrdMap::empty();
    ords.insert("/".to_string(), 0);
    ords.insert("/soc".to_string(), 1);
    let err = try_parse("/ { soc { gpio@0 { }; }; };", &ords).unwrap_err();
    assert_eq!(err.kind, ParseErrorKind::MissingOrdinal);
    assert_eq!(err.subject, "/soc/gpio@0");
    assert_eq!(err.message(), "Unexpected node path: /soc/gpio@0");
}

#[test]
fn dangling_phandle_is_fatal() {
    let mut ords = OrdMap::empty();
    ords.insert("/".to_string(), 0);
    let tree = try_parse("/ { led = &nowhere; };", &ords).unwrap();
    let err = tree.try_to_tokens().unwrap_err();
    assert_eq!(err.kind, GenErrorKind::MissingPhandle);
    assert_eq!(err.subject, "nowhere");
}

fn root_only() -> OrdMap {
    let mut ords = OrdMap::empty();
    ords.insert("/".to_string(), 0);
    ords
}

#[test]
fn sanitizing_twice_changes_nothing() {
    let once = fix_id("#gpio-cells,a@b");
    assert_eq!(once, "Ngpio_cells_a_b");
    assert_eq!(fix_id(&once), once);
    assert_eq!(fix_id("plain_name9"), "plain_name9");
    assert_eq!(fix_id(""), "");
}

#[test]
fn single_number_becomes_a_constant() {
    let tree = try_parse("/ { foo = <5>; };", &root_only()).unwrap();
    let text = tree.try_property_walk(&tree.root.properties[0]).unwrap();
    assert_eq!(text, "pub const FOO: u32 = 5;\n");
}

#[test]
fn two_values_take_the_fallback() {
    let tree = try_parse("/ { foo = <1>, <2>; };", &root_only()).unwrap();
    let text = tree.try_property_walk(&tree.root.properties[0]).unwrap();
    assert_eq!(
        text,
        "pub const FOO_DEBUG: &'static str = \"[Words([Number(1)]), Words([Number(2)])]\";\n"
    );
}

#[test]
fn longer_lists_strings_and_bytes_take_the_fallback() {
    let tree = try_parse(
        "/ { a-b = <1 2>; s = \"x y\"; b = [0a]; p = <&root>; e; };",
        &root_only(),
    )
    .unwrap();
    let texts: Vec<String> =
        tree.root.properties.iter().map(|p| tree.try_property_walk(p).unwrap()).collect();
    assert_eq!(texts[0], "pub const A_B_DEBUG: &'static str = \"[Words([Number(1), Number(2)])]\";\n");
    assert_eq!(texts[1], "pub const S_DEBUG: &'static str = \"[String(\\\"x y\\\")]\";\n");
    assert_eq!(texts[2], "pub const B_DEBUG: &'static str = \"[Bytes([10])]\";\n");
    assert_eq!(
        texts[3],
        "pub const P_DEBUG: &'static str = \"[Words([Phandle(Phandle(\\\"root\\\"))])]\";\n"
    );
    assert_eq!(texts[4], "pub const E_DEBUG: &'static str = \"[]\";\n");
}

#[test]
fn phandle_becomes_a_reexport() {
    let mut ords = root_only();
    ords.insert("/soc".to_string(), 1);
    ords.insert("/soc/gpio0".to_string(), 2);
    let tree = try_parse("/ { soc { g: gpio0 { }; }; my-gpio = &g; };", &ords).unwrap();
    let text = tree.try_property_walk(&tree.root.properties[0]).unwrap();
    assert_eq!(text, "pub mod my_gpio {\npub use crate::devicetree::soc::gpio0::*;\n}\n");
    let target = tree.resolve("g").unwrap();
    assert_eq!(target.route, vec!["soc".to_string(), "gpio0".to_string()]);
    assert_eq!(target.route_to_rust(), "crate::devicetree::soc::gpio0");
    assert_eq!(tree.root.route_to_rust(), "crate::devicetree");
}

fn leds_board(gpios: &str, cells: &str) -> String {
    format!(
        "/ {{ gpio0: gpio@0 {{ gpio-controller; #gpio-cells = <{}>; }}; \
         leds {{ compatible = \"gpio-leds\"; led_0 {{ {} }}; }}; }};",
        cells, gpios
    )
}

fn leds_index() -> OrdMap {
    let mut ords = root_only();
    ords.insert("/gpio@0".to_string(), 1);
    ords.insert("/leds".to_string(), 2);
    ords.insert("/leds/led_0".to_string(), 3);
    ords
}

#[test]
fn led_accessor_holds_pin_and_flags() {
    let tree = try_parse(&leds_board("gpios = <&gpio0 3 0>;", "2"), &leds_index()).unwrap();
    let text = tree.try_to_tokens().unwrap();
    assert!(text.contains("let port = crate::devicetree::gpio_0::get_instance();\n"));
    assert!(text.contains("pin: 3 as crate::sys::gpio_pin_t,\n"));
    assert!(text.contains("dt_flags: 0 as crate::sys::gpio_dt_flags_t,\n"));
}

#[test]
fn led_without_phandle_is_fatal() {
    for gpios in ["gpios = <>;", "gpios = <3 0>;"] {
        let tree = try_parse(&leds_board(gpios, "2"), &leds_index()).unwrap();
        let err = tree.try_to_tokens().unwrap_err();
        assert_eq!(err.kind, GenErrorKind::EmptyGpios);
        assert_eq!(err.subject, "/leds/led_0");
        assert_eq!(err.message(), "gpios property in node is empty: /leds/led_0");
    }
}

#[test]
fn led_with_two_entries_is_fatal() {
    let tree =
        try_parse(&leds_board("gpios = <&gpio0 3 0 &gpio0 4 0>;", "2"), &leds_index()).unwrap();
    let err = tree.try_to_tokens().unwrap_err();
    assert_eq!(err.kind, GenErrorKind::GpiosArity);
    assert_eq!(err.subject, "/leds/led_0");
    assert_eq!(
        err.message(),
        "gpio-leds, gpios property expected to have only one entry: /leds/led_0"
    );
}

#[test]
fn led_without_gpios_is_fatal() {
    for gpios in ["", "gpios = \"text\";", "gpios = <&gpio0 3 0>, <&gpio0 4 0>;"] {
        let tree = try_parse(&leds_board(gpios, "2"), &leds_index()).unwrap();
        let err = tree.try_to_tokens().unwrap_err();
        assert_eq!(err.kind, GenErrorKind::MissingGpios);
        assert_eq!(err.message(), "gpio-leds node without a gpios property: /leds/led_0");
    }
}

#[test]
fn led_with_phandle_as_cell_is_fatal() {
    let tree = try_parse(&leds_board("gpios = <&gpio0 &gpio0 0>;", "2"), &leds_index()).unwrap();
    let err = tree.try_to_tokens().unwrap_err();
    assert_eq!(err.kind, GenErrorKind::GpiosNotNumeric);
    assert_eq!(err.message(), "gpios cell is not a number: /leds/led_0");
}

#[test]
fn led_with_unknown_controller_is_fatal() {
    let tree = try_parse(&leds_board("gpios = <&other 3 0>;", "2"), &leds_index()).unwrap();
    let err = tree.try_to_tokens().unwrap_err();
    assert_eq!(err.kind, GenErrorKind::MissingPhandle);
    assert_eq!(err.subject, "other");
    assert_eq!(err.message(), "Missing phandle: other");
}

#[test]
fn other_gpio_cells_are_unsupported() {
    for cells in ["1", "3", "0x2 0x2"] {
        let tree = try_parse(&leds_board("gpios = <&gpio0 3 0>;", cells), &leds_index()).unwrap();
        let err = tree.try_to_tokens().unwrap_err();
        assert_eq!(err.kind, GenErrorKind::UnsupportedGpioCells);
        assert_eq!(err.subject, "/leds/led_0");
        assert_eq!(err.message(), "gpios only support with #gpio-cells of 2: /leds/led_0");
    }
}

#[test]
fn later_label_wins() {
    let mut ords = root_only();
    ords.insert("/a".to_string(), 1);
    ords.insert("/b".to_string(), 2);
    ords.insert("/b/c".to_string(), 3);
    let tree = try_parse("/ { x: a { }; x: y: b { y: c { }; }; };", &ords).unwrap();
    assert_eq!(tree.resolve("x").unwrap().path, "/b");
    // A node's own labels are recorded after those of its children.
    assert_eq!(tree.resolve("y").unwrap().path, "/b");
    assert!(tree.resolve("z").is_none());
    let names: Vec<&str> = tree.labels.iter().map(|l| l.name.as_str()).collect();
    assert_eq!(names, vec!["x", "y", "x", "y"]);
    assert_eq!(tree.labels[1].target, vec![1, 0]);
    assert_eq!(tree.labels[2].target, vec![1]);
}

#[test]
fn node_queries() {
    let tree = try_parse(BOARD, &board_index()).unwrap();
    let gpio = tree.resolve("gpio0").unwrap();
    assert!(gpio.has_prop("gpio-controller"));
    assert!(!gpio.has_prop("gpios"));
    assert_eq!(gpio.get_number("#gpio-cells"), Some(2));
    assert_eq!(gpio.get_number("reg"), None);
    assert_eq!(gpio.get_number("compatible"), None);
    assert_eq!(gpio.get_words("reg").unwrap().len(), 2);
    assert!(gpio.get_words("compatible").is_none());
    assert!(gpio.is_compatible("vnd,gpio"));
    assert!(!gpio.is_compatible("gpio-leds"));
    assert!(tree.root.is_compatible("vnd,soc"));
    assert!(!tree.root.children[2].is_compatible("vnd,soc"));
    assert_eq!(gpio.get_property("gpio-controller").unwrap().len(), 0);
    assert!(gpio.get_property("nothing").is_none());
    assert_eq!(tree.node_at(&vec![1, 0]).unwrap().name, "led_0");
    assert!(tree.node_at(&vec![1, 5]).is_none());
    assert_eq!(tree.node_at(&vec![]).unwrap().name, "/");
}

#[test]
fn syntax_errors_are_fatal() {
    for text in [
        "",
        "/ {",
        "/ { };  trailing",
        "/ { a = ; };",
        "/ { a = <1>,; };",
        "/ { a = <1 };",
        "/ { a = \"open; };",
        "/ { a = \"two\nlines\"; };",
        "/ { a = [zz]; };",
        "/ { a = [0]; };",
        "/ { a = [100]; };",
        "/ { a = [0 1]; };",
        "/ { a = <12ab>; };",
        "/ { a = <0x>; };",
        "/ { a = &1x; };",
        "/ { 1x: a { }; };",
        "/ { a { } };",
        "/ { }",
        "/dts-v1/ / { };",
        "{ };",
    ] {
        let err = try_parse(text, &root_only()).unwrap_err();
        assert_eq!(err.kind, ParseErrorKind::Syntax, "{:?}", text);
        assert_eq!(err.subject, "");
        assert_eq!(err.message(), "Parsing zephyr.dts");
    }
}

#[test]
fn numbers_must_fit() {
    let err = try_parse("/ { a = <0x100000000>; };", &root_only()).unwrap_err();
    assert_eq!(err.kind, ParseErrorKind::BadNumber);
    assert_eq!(err.subject, "0x100000000");
    assert_eq!(err.message(), "Invalid number: 0x100000000");
    let err = try_parse("/ { a = <4294967296>; };", &root_only()).unwrap_err();
    assert_eq!(err.kind, ParseErrorKind::BadNumber);
    let tree = try_parse("/ { a = <0xffffffff 4294967295 0 0X1f>; b = [ff 00 0A]; };", &root_only())
        .unwrap();
    assert_eq!(tree.root.get_words("a").unwrap().len(), 4);
    let text = tree.try_to_tokens().unwrap();
    assert!(text.contains("[Words([Number(4294967295), Number(4294967295), Number(0), Number(31)])]"));
    assert!(text.contains("[Bytes([255, 0, 10])]"));
}

#[test]
fn bytes_are_two_digits_each() {
    let tree = try_parse("/ { a = [abcd 0001\n02]; b = []; };", &root_only()).unwrap();
    assert_eq!(tree.root.properties[0].value, vec![Value::Bytes(vec![0xab, 0xcd, 0, 1, 2])]);
    assert_eq!(tree.root.properties[1].value, vec![Value::Bytes(vec![])]);
}

#[test]
fn loads_from_source_and_index() {
    let index: Vec<String> = vec![
        "#define DT_N_PATH \"/\"".to_string(),
        "#define DT_N_ORD 0".to_string(),
        "#define DT_N_S_soc_PATH \"/soc\"".to_string(),
        "#define DT_N_S_soc_ORD 5".to_string(),
    ];
    let tree = DeviceTree::try_new("/ { soc { }; };", &index).unwrap();
    assert_eq!(tree.root.children[0].ord, 5);
    assert_eq!(tree.parent_of(&vec![0]).unwrap().path, "/");
    assert!(tree.parent_of(&vec![]).is_none());
    assert!(tree.parent_of(&vec![1]).is_none());
    let err = DeviceTree::try_new("/ { soc { }; bus { }; };", &index).unwrap_err();
    assert_eq!(
        err,
        LoadError::Source(ParseError {
            kind: ParseErrorKind::MissingOrdinal,
            subject: "/bus".to_string()
        })
    );
    assert_eq!(err.message(), "Unexpected node path: /bus");
    let err = DeviceTree::try_new("/ { };", &vec!["#define DT_N_ORD x".to_string()]).unwrap_err();
    assert_eq!(
        err,
        LoadError::Index(OrdError { kind: OrdErrorKind::BadOrdinal, subject: "x".to_string() })
    );
    assert_eq!(err.message(), "Invalid ordinal: x");
}

#[test]
fn nameless_node_is_fatal() {
    let err = try_parse("/ { / { }; };", &root_only()).unwrap_err();
    assert_eq!(err.kind, ParseErrorKind::MissingName);
    assert_eq!(err.subject, "/");
    assert_eq!(err.message(), "Grammar error, node has no name below: /");
}

#[test]
fn named_root_is_fatal() {
    let err = try_parse("soc { };", &root_only()).unwrap_err();
    assert_eq!(err.kind, ParseErrorKind::MultipleNames);
    assert_eq!(err.subject, "soc");
    assert_eq!(err.message(), "Grammar error, node has multiple names: soc");
}

#[test]
fn root_needs_an_ordinal() {
    let err = try_parse("/ { };", &OrdMap::empty()).unwrap_err();
    assert_eq!(err.kind, ParseErrorKind::MissingOrdinal);
    assert_eq!(err.subject, "/");
}

#[test]
fn blank_space_is_free_between_tokens() {
    let tight = try_parse("/{a=<1>,\"s\",[01],&l;l:m:n{};};", &{
        let mut o = root_only();
        o.insert("/n".to_string(), 1);
        o
    })
    .unwrap();
    let loose = try_parse(
        " \t/dts-v1/ ;\r\n / \n{ a = < 1 > , \"s\" , [ 01 ] , & l ; l : m : n { } ; } ; \n",
        &{
            let mut o = root_only();
            o.insert("/n".to_string(), 1);
            o
        },
    );
    // A phandle's sigil and its label are one token.
    assert_eq!(loose.unwrap_err().kind, ParseErrorKind::Syntax);
    let loose = try_parse(
        " \t/dts-v1/ ;\r\n / \n{ a = < 1 > , \"s\" , [ 01 ] , &l ; l : m : n { } ; } ; \n",
        &{
            let mut o = root_only();
            o.insert("/n".to_string(), 1);
            o
        },
    )
    .unwrap();
    assert_eq!(tight, loose);
    assert_eq!(tight.root.children[0].labels, vec!["l".to_string(), "m".to_string()]);
    assert_eq!(tight.root.properties[0].value.len(), 4);
}

#[test]
fn large_tree() {
    let mut ords = root_only();
    let mut source = String::from("/dts-v1/;\n/ {\n");
    for i in 0..300 {
        ords.insert(format!("/bus@{}", i), 2 * i + 1);
        ords.insert(format!("/bus@{}/dev", i), 2 * i + 2);
        source.push_str(&format!(
            "\tb{}: bus@{} {{\n\t\treg = <0x{:x} 0x100>;\n\t\tdev {{ parent = <&b{}>; up = &b{}; }};\n\t}};\n",
            i, i, i * 256, i, i
        ));
    }
    source.push_str("};\n");
    let tree = try_parse(&source, &ords).unwrap();
    assert_eq!(tree.root.children.len(), 300);
    assert_eq!(tree.labels.len(), 300);
    assert_eq!(tree.resolve("b299").unwrap().ord, 599);
    let text = tree.try_to_tokens().unwrap();
    assert!(text.contains("pub mod bus_299 {\npub const ORD: usize = 599;\n"));
    assert!(text.contains("pub mod up {\npub use crate::devicetree::bus_17::*;\n}\n"));
    assert_eq!(text.matches("pub mod ").count(), 1 + 300 * 3);
}

#[test]
fn fitting_source_is_built_and_generated_outright() {
    let tree = parse(BOARD, &board_index());
    assert_eq!(tree, try_parse(BOARD, &board_index()).unwrap());
    assert_eq!(tree.to_tokens(), tree.try_to_tokens().unwrap());
    assert_eq!(tree.property_walk(&tree.root.properties[0]), "pub const NADDRESS_CELLS: u32 = 1;\n");
    let index: Vec<String> = vec![
        "#define DT_N_PATH \"/\"".to_string(),
        "#define DT_N_ORD 4".to_string(),
    ];
    assert_eq!(DeviceTree::new("/ { };", &index).root.ord, 4);
}
