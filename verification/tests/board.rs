use zephyr_build::devicetree::DeviceTree;

const DTS: &str = r#"/dts-v1/;

/ {
	#address-cells = < 0x1 >;
	#size-cells = < 0x1 >;
	model = "QEMU Cortex-M3";
	compatible = "ti,lm3s6965evb-qemu", "ti,lm3s6965";
	chosen {
		zephyr,flash = &flash0;
		zephyr,console = &uart0;
	};
	aliases {
		uart-0 = &uart0;
		led0 = &green_led;
	};
	soc {
		#address-cells = < 0x1 >;
		#size-cells = < 0x1 >;
		compatible = "simple-bus";
		interrupt-parent = < &nvic >;
		ranges;
		nvic: interrupt-controller@e000e100 {
			#address-cells = < 0x1 >;
			compatible = "arm,v7m-nvic";
			reg = < 0xe000e100 0xc00 >;
			interrupt-controller;
			#interrupt-cells = < 0x2 >;
			arm,num-irq-priority-bits = < 0x3 >;
			phandle = < 0x1 >;
		};
		flash0: flash@0 {
			compatible = "soc-nv-flash";
			reg = < 0x0 0x40000 >;
		};
		uart0: uart@4000c000 {
			compatible = "ti,stellaris-uart";
			reg = < 0x4000c000 0x4c >;
			interrupts = < 0x5 0x3 >;
			status = "okay";
			current-speed = < 0x1c200 >;
		};
		gpio0: gpio@40004000 {
			compatible = "ti,stellaris-gpio";
			reg = < 0x40004000 0x1000 >;
			gpio-controller;
			#gpio-cells = < 0x2 >;
			phandle = < 0x2 >;
		};
		eth: ethernet@40048000 {
			compatible = "ti,stellaris-ethernet";
			reg = < 0x40048000 0x3c >;
			local-mac-address = [ 00 00 94 00 83 00 ];
		};
	};
	cpus {
		#address-cells = < 0x1 >;
		#size-cells = < 0x0 >;
		cpu@0 {
			device_type = "cpu";
			compatible = "arm,cortex-m3";
			reg = < 0x0 >;
		};
	};
	leds {
		compatible = "gpio-leds";
		green_led: led_0 {
			gpios = < &gpio0 0xd 0x1 >;
			label = "User LD1";
		};
	};
};
"#;

const INDEX: &str = r#"#define DT_N_PATH "/"
#define DT_N_FULL_NAME "/"
#define DT_N_ORD 0
#define DT_N_ORD_STR_SORTABLE 00000
#define DT_N_S_chosen_PATH "/chosen"
#define DT_N_S_chosen_ORD 1
#define DT_N_S_aliases_PATH "/aliases"
#define DT_N_S_aliases_ORD 2
#define DT_N_S_soc_PATH "/soc"
#define DT_N_S_soc_ORD 3
#define DT_N_S_soc_REQUIRES_ORDS \
	0, /* / */
#define DT_N_S_soc_S_interrupt_controller_e000e100_PATH "/soc/interrupt-controller@e000e100"
#define DT_N_S_soc_S_interrupt_controller_e000e100_ORD 4
#define DT_N_S_soc_S_flash_0_PATH "/soc/flash@0"
#define DT_N_S_soc_S_flash_0_ORD 5
#define DT_N_S_soc_S_uart_4000c000_PATH "/soc/uart@4000c000"
#define DT_N_S_soc_S_uart_4000c000_ORD 6
#define DT_N_S_soc_S_gpio_40004000_PATH "/soc/gpio@40004000"
#define DT_N_S_soc_S_gpio_40004000_ORD 7
#define DT_N_S_soc_S_ethernet_40048000_PATH "/soc/ethernet@40048000"
#define DT_N_S_soc_S_ethernet_40048000_ORD 8
#define DT_N_S_cpus_PATH "/cpus"
#define DT_N_S_cpus_ORD 9
#define DT_N_S_cpus_S_cpu_0_PATH "/cpus/cpu@0"
#define DT_N_S_cpus_S_cpu_0_ORD 10
#define DT_N_S_leds_PATH "/leds"
#define DT_N_S_leds_ORD 11
#define DT_N_S_leds_S_led_0_PATH "/leds/led_0"
#define DT_N_S_leds_S_led_0_ORD 12
"#;

fn board() -> DeviceTree {
    let index: Vec<String> = INDEX.lines().map(|l| l.to_string()).collect();
    DeviceTree::try_new(DTS, &index).unwrap()
}

#[test]
fn board_is_built() {
    let tree = board();
    let names: Vec<&str> = tree.root.children.iter().map(|c| c.name.as_str()).collect();
    assert_eq!(names, vec!["chosen", "aliases", "soc", "cpus", "leds"]);
    let ords: Vec<usize> = tree.root.children[2].children.iter().map(|c| c.ord).collect();
    assert_eq!(ords, vec![4, 5, 6, 7, 8]);
    assert_eq!(tree.resolve("uart0").unwrap().path, "/soc/uart@4000c000");
    assert_eq!(tree.resolve("green_led").unwrap().ord, 12);
    assert_eq!(tree.resolve("eth").unwrap().get_property("local-mac-address").unwrap().len(), 1);
    assert_eq!(tree.root.children[2].get_number("#address-cells"), Some(1));
}

#[test]
fn board_is_generated() {
    let text = board().try_to_tokens().unwrap();
    assert!(text.starts_with("pub mod devicetree {\npub const ORD: usize = 0;\n"));
    assert!(text.ends_with("}\n}\n}\n"));
    for piece in [
        "pub const NADDRESS_CELLS: u32 = 1;\n",
        "pub const MODEL_DEBUG: &'static str = \"[String(\\\"QEMU Cortex-M3\\\")]\";\n",
        "pub mod zephyr_flash {\npub use crate::devicetree::soc::flash_0::*;\n}\n",
        "pub mod uart_0 {\npub use crate::devicetree::soc::uart_4000c000::*;\n}\n",
        "pub mod led0 {\npub use crate::devicetree::leds::led_0::*;\n}\n",
        "pub const INTERRUPT_PARENT_DEBUG: &'static str = \"[Words([Phandle(Phandle(\\\"nvic\\\"))])]\";\n",
        "pub const RANGES_DEBUG: &'static str = \"[]\";\n",
        "pub mod interrupt_controller_e000e100 {\npub const ORD: usize = 4;\n",
        "pub const ARM_NUM_IRQ_PRIORITY_BITS: u32 = 3;\n",
        "pub const CURRENT_SPEED: u32 = 115200;\n",
        "pub const REG_DEBUG: &'static str = \"[Words([Number(1073758208), Number(4096)])]\";\n",
        "pub const LOCAL_MAC_ADDRESS_DEBUG: &'static str = \"[Bytes([0, 0, 148, 0, 131, 0])]\";\n",
        "static __device_dts_ord_7: crate::sys::device;\n",
        "let port = crate::devicetree::soc::gpio_40004000::get_instance();\n",
        "pin: 13 as crate::sys::gpio_pin_t,\n",
        "dt_flags: 1 as crate::sys::gpio_dt_flags_t,\n",
        "pub mod cpu_0 {\npub const ORD: usize = 10;\n",
    ] {
        assert!(text.contains(piece), "{}", piece);
    }
    assert_eq!(text.matches("pub unsafe fn get_instance()").count(), 1);
    assert_eq!(text.matches("pub fn get_instance()").count(), 1);
    assert_eq!(text.matches('{').count(), text.matches('}').count());
}
