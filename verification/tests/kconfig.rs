use zephyr_build::kconfig::{bool_kconfig_line, build_kconfig_mod, export_bool_kconfig};

fn lines(text: &str) -> Vec<String> {
    text.lines().map(|l| l.to_string()).collect()
}

const CONFIG: &str = "# Generated\n\
CONFIG_RUST=y\n\
CONFIG_BOARD=\"qemu_cortex_m3\"\n\
# CONFIG_FOO is not set\n\
CONFIG_FLASH_BASE=0x0\n\
CONFIG_NUM_IRQS=34\n\
CONFIG_OFFSET=-12\n\
CONFIG_ZERO=0\n\
CONFIG_PRINTK=y\n\
CONFIG_MODULE=m\n";

#[test]
fn switched_on_settings_become_flags() {
    assert_eq!(bool_kconfig_line("CONFIG_RUST=y"), Some("cargo:rustc-cfg=CONFIG_RUST".to_string()));
    assert_eq!(bool_kconfig_line("CONFIG_RUST=n"), None);
    assert_eq!(bool_kconfig_line(" CONFIG_RUST=y"), None);
    assert_eq!(bool_kconfig_line("CONFIG_RUST=yes"), None);
    assert_eq!(
        export_bool_kconfig(&lines(CONFIG)),
        vec!["cargo:rustc-cfg=CONFIG_RUST".to_string(), "cargo:rustc-cfg=CONFIG_PRINTK".to_string()]
    );
    assert!(export_bool_kconfig(&Vec::new()).is_empty());
}

#[test]
fn values_become_constants() {
    assert_eq!(
        build_kconfig_mod(&lines(CONFIG)),
        "pub mod kconfig {\n\
\x20   #[allow(dead_code)]\n\
\x20   pub const CONFIG_BOARD: &'static str = \"qemu_cortex_m3\";\n\
\x20   #[allow(dead_code)]\n\
\x20   pub const CONFIG_FLASH_BASE: usize = 0x0;\n\
\x20   #[allow(dead_code)]\n\
\x20   pub const CONFIG_NUM_IRQS: isize = 34;\n\
\x20   #[allow(dead_code)]\n\
\x20   pub const CONFIG_OFFSET: isize = -12;\n\
}\n"
    );
    assert_eq!(build_kconfig_mod(&Vec::new()), "pub mod kconfig {\n}\n");
}
