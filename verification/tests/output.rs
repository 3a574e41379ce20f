use zephyr_build::devicetree::augment::{
    get_augments, led_parts, Augment, GpioAugment, GpioLedsAugment, StockAugment,
};
use zephyr_build::devicetree::output::{
    const_str_item, debug_values, dt_to_lower_id, dt_to_upper_id, general_property,
};
use zephyr_build::devicetree::{DeviceTree, Label, Node, Phandle, Property, Value, Word};

fn node(name: &str, path: &str, route: &[&str], ord: usize) -> Node {
    Node {
        name: name.to_string(),
        path: path.to_string(),
        route: route.iter().map(|s| s.to_string()).collect(),
        ord,
        labels: Vec::new(),
        properties: Vec::new(),
        children: Vec::new(),
    }
}

fn property(name: &str, value: Vec<Value>) -> Property {
    Property { name: name.to_string(), value }
}

#[test]
fn identifiers() {
    assert_eq!(dt_to_lower_id("gpio@0"), "gpio_0");
    assert_eq!(dt_to_lower_id("my-node,v2"), "my_node_v2");
    assert_eq!(dt_to_upper_id("foo"), "FOO");
    assert_eq!(dt_to_upper_id("#gpio-cells"), "NGPIO_CELLS");
    assert_eq!(dt_to_upper_id("zephyr,flash@0"), "ZEPHYR_FLASH_0");
    // Upper case comes first: the N that stands for # is not a letter of the name.
    assert_eq!(dt_to_lower_id("#x"), "Nx");
    assert_eq!(dt_to_upper_id("#x"), "NX");
    assert_eq!(dt_to_upper_id("stra\u{df}e"), "STRASSE");
}

#[test]
fn values_are_shown_for_debugging() {
    assert_eq!(debug_values(&vec![]), "[]");
    assert_eq!(debug_values(&vec![Value::Words(vec![])]), "[Words([])]");
    assert_eq!(debug_values(&vec![Value::Bytes(vec![])]), "[Bytes([])]");
    assert_eq!(
        debug_values(&vec![
            Value::Words(vec![Word::Number(1), Word::Phandle(Phandle::new("a".to_string()))]),
            Value::Bytes(vec![0, 200]),
            Value::Phandle(Phandle::new("b".to_string())),
            Value::String("say \"hi\"\\\n".to_string()),
        ]),
        "[Words([Number(1), Phandle(Phandle(\"a\"))]), Bytes([0, 200]), \
         Phandle(Phandle(\"b\")), String(\"say \\\"hi\\\"\\\\\\n\")]"
    );
}

#[test]
fn general_property_quotes_the_debug_text() {
    let text = general_property(&property("status", vec![Value::String("okay".to_string())]));
    assert_eq!(text, "pub const STATUS_DEBUG: &'static str = \"[String(\\\"okay\\\")]\";\n");
    assert_eq!(
        const_str_item("NAME", "\"value\""),
        "pub const NAME: &'static str = \"value\";\n"
    );
}

#[test]
fn stock_rules() {
    let rules = get_augments();
    assert_eq!(rules.len(), 2);
    assert!(matches!(rules[0], StockAugment::Gpio(_)));
    assert!(matches!(rules[1], StockAugment::GpioLeds(_)));
}

#[test]
fn gpio_rule_looks_at_the_marker() {
    let mut controller = node("gpio@0", "/gpio@0", &["gpio@0"], 11);
    controller.properties.push(property("gpio-controller", vec![]));
    let plain = node("uart", "/uart", &["uart"], 12);
    let mut root = node("/", "/", &[], 0);
    root.children.push(controller);
    root.children.push(plain);
    let tree = DeviceTree { root, labels: Vec::new() };
    let controller = &tree.root.children[0];
    let plain = &tree.root.children[1];
    assert!(GpioAugment.is_compatible(&tree, Some(&tree.root), controller));
    assert!(!GpioAugment.is_compatible(&tree, Some(&tree.root), plain));
    assert_eq!(GpioAugment.try_augment(&tree, Some(&tree.root), plain).unwrap(), "");
    assert_eq!(
        GpioAugment.try_augment(&tree, Some(&tree.root), controller).unwrap(),
        "pub unsafe fn get_instance() -> *const crate::sys::device {\n\
         extern \"C\" {\n\
         static __device_dts_ord_11: crate::sys::device;\n\
         }\n\
         &__device_dts_ord_11\n\
         }\n"
    );
    assert_eq!(
        GpioAugment.try_generate(&tree, None, plain).unwrap(),
        "pub unsafe fn get_instance() -> *const crate::sys::device {\n\
         extern \"C\" {\n\
         static __device_dts_ord_12: crate::sys::device;\n\
         }\n\
         &__device_dts_ord_12\n\
         }\n"
    );
}

#[test]
fn led_rule_looks_at_the_parent() {
    let mut controller = node("gpio@0", "/soc/gpio@0", &["soc", "gpio@0"], 11);
    controller.properties.push(property("#gpio-cells", vec![Value::Words(vec![Word::Number(2)])]));
    let mut soc = node("soc", "/soc", &["soc"], 1);
    soc.children.push(controller);
    let mut led = node("led_0", "/leds/led_0", &["leds", "led_0"], 21);
    led.properties.push(property(
        "gpios",
        vec![Value::Words(vec![
            Word::Phandle(Phandle::new("g".to_string())),
            Word::Number(13),
            Word::Number(1),
        ])],
    ));
    let mut leds = node("leds", "/leds", &["leds"], 20);
    leds.properties.push(property(
        "compatible",
        vec![Value::String("other".to_string()), Value::String("gpio-leds".to_string())],
    ));
    leds.children.push(led);
    let mut root = node("/", "/", &[], 0);
    root.children.push(soc);
    root.children.push(leds);
    let tree = DeviceTree {
        root,
        labels: vec![Label { name: "g".to_string(), target: vec![0, 0] }],
    };
    let leds = &tree.root.children[1];
    let led = &leds.children[0];
    assert!(GpioLedsAugment.is_compatible(&tree, Some(leds), led));
    assert!(!GpioLedsAugment.is_compatible(&tree, Some(&tree.root), led));
    assert!(!GpioLedsAugment.is_compatible(&tree, None, led));
    assert_eq!(
        GpioLedsAugment.generate(&tree, Some(leds), led),
        GpioLedsAugment.try_generate(&tree, Some(leds), led).unwrap()
    );
    assert_eq!(GpioLedsAugment.augment(&tree, None, led), "");
    let (target, pin, flags) = led_parts(&tree, led).unwrap();
    assert_eq!((target.path.as_str(), pin, flags), ("/soc/gpio@0", 13, 1));
    assert_eq!(GpioLedsAugment.try_augment(&tree, None, led).unwrap(), "");
    assert_eq!(
        GpioLedsAugment.try_augment(&tree, Some(leds), led).unwrap(),
        "pub fn get_instance() -> crate::sys::gpio_dt_spec {\n\
         unsafe {\n\
         let port = crate::devicetree::soc::gpio_0::get_instance();\n\
         crate::sys::gpio_dt_spec {\n\
         port,\n\
         pin: 13 as crate::sys::gpio_pin_t,\n\
         dt_flags: 1 as crate::sys::gpio_dt_flags_t,\n\
         }\n\
         }\n\
         }\n"
    );
    // A label whose entry leads nowhere does not resolve.
    let broken = DeviceTree {
        root: node("/", "/", &[], 0),
        labels: vec![Label { name: "g".to_string(), target: vec![3] }],
    };
    assert!(broken.resolve("g").is_none());
}

#[test]
fn node_walk_nests_children_and_applies_rules() {
    let mut child = node("a-b", "/a-b", &["a-b"], 2);
    child.properties.push(property("n", vec![Value::Words(vec![Word::Number(9)])]));
    let mut root = node("/", "/", &[], 1);
    root.children.push(child);
    let tree = DeviceTree { root, labels: Vec::new() };
    let none: Vec<StockAugment> = Vec::new();
    assert_eq!(
        tree.try_node_walk(&tree.root, None, "top", &none).unwrap(),
        "pub mod top {\npub const ORD: usize = 1;\n\
         pub mod a_b {\npub const ORD: usize = 2;\npub const N: u32 = 9;\n}\n}\n"
    );
    assert_eq!(tree.node_walk(&tree.root, None, "devicetree", &get_augments()), tree.to_tokens());
    assert_eq!(
        tree.try_to_tokens().unwrap(),
        "pub mod devicetree {\npub const ORD: usize = 1;\n\
         pub mod a_b {\npub const ORD: usize = 2;\npub const N: u32 = 9;\n}\n}\n"
    );
}
