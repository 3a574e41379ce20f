//! Augmenting the generated modules: rules that recognise a kind of node and
//! add code to its module.

use vstd::prelude::*;
use vstd::string::StringExecFns;
use crate::devicetree::output::route_path;
use crate::devicetree::{
    text_result, opt_node_view, DeviceTree, DeviceTreeView, GenError, GenErrorKind, GenErrorView,
    Node, NodeView, Word, WordView,
};
use crate::text::{decimal, push_decimal};

verus! {

/// A rule that is offered every node of the tree and may add code to the
/// node's module.
pub trait Augment {
    /// Whether the rule applies to `node`, which stands below `parent`.
    spec fn compatible(&self, tree: DeviceTreeView, parent: Option<NodeView>, node: NodeView) -> bool;

    /// The code that the rule writes for `node`.
    spec fn generated(&self, tree: DeviceTreeView, parent: Option<NodeView>, node: NodeView) -> Result<
        Seq<char>,
        GenErrorView,
    >;

    /// Whether the rule applies to `node`.
    fn is_compatible(&self, tree: &DeviceTree, parent: Option<&Node>, node: &Node) -> (r: bool)
        ensures
            r == self.compatible(tree@, opt_node_view(parent), node@),
    ;

    /// Writes the rule's code for a node for which the rule has code.
    fn generate(&self, tree: &DeviceTree, parent: Option<&Node>, node: &Node) -> (r: String)
        requires
            self.generated(tree@, opt_node_view(parent), node@) is Ok,
        ensures
            r@ == self.generated(tree@, opt_node_view(parent), node@)->Ok_0,
    ;

    /// Writes the rule's code for `node`, or says why the rule has none
    /// for it.
    fn try_generate(&self, tree: &DeviceTree, parent: Option<&Node>, node: &Node) -> (r: Result<
        String,
        GenError,
    >)
        ensures
            text_result(r) == self.generated(tree@, opt_node_view(parent), node@),
    ;

    /// The rule's code for `node` where the rule applies, and nothing where
    /// it does not. Where it applies it must have code for the node.
    fn augment(&self, tree: &DeviceTree, parent: Option<&Node>, node: &Node) -> (r: String)
        requires
            self.compatible(tree@, opt_node_view(parent), node@) ==> self.generated(
                tree@,
                opt_node_view(parent),
                node@,
            ) is Ok,
        ensures
            r@ == (if self.compatible(tree@, opt_node_view(parent), node@) {
                self.generated(tree@, opt_node_view(parent), node@)->Ok_0
            } else {
                Seq::empty()
            }),
    {
        if self.is_compatible(tree, parent, node) {
            self.generate(tree, parent, node)
        } else {
            String::new()
        }
    }

    /// The rule's code for `node` where the rule applies, nothing where it
    /// does not, or why a rule that applies has no code for the node.
    fn try_augment(&self, tree: &DeviceTree, parent: Option<&Node>, node: &Node) -> (r: Result<
        String,
        GenError,
    >)
        ensures
            text_result(r) == (if self.compatible(tree@, opt_node_view(parent), node@) {
                self.generated(tree@, opt_node_view(parent), node@)
            } else {
                Ok(Seq::empty())
            }),
    {
        if self.is_compatible(tree, parent, node) {
            self.try_generate(tree, parent, node)
        } else {
            Ok(String::new())
        }
    }
}

/// What a rule contributes to a node's module: its code where it applies,
/// nothing where it does not.
pub open spec fn augmented<A: Augment>(
    rule: A,
    tree: DeviceTreeView,
    parent: Option<NodeView>,
    node: NodeView,
) -> Result<Seq<char>, GenErrorView> {
    if rule.compatible(tree, parent, node) {
        rule.generated(tree, parent, node)
    } else {
        Ok(Seq::empty())
    }
}

/// The accessor of a GPIO controller: a function that hands out the device
/// object which the kernel keeps under the node's ordinal.
pub open spec fn gpio_instance_text(ord: nat) -> Seq<char> {
    "pub unsafe fn get_instance() -> *const crate::sys::device {\nextern \"C\" {\nstatic __device_dts_ord_"@
        + decimal(ord) + ": crate::sys::device;\n}\n&__device_dts_ord_"@ + decimal(ord) + "\n}\n"@
}

/// Augments GPIO controllers: the nodes that carry a `gpio-controller`
/// property.
pub struct GpioAugment;

impl Augment for GpioAugment {
    open spec fn compatible(&self, tree: DeviceTreeView, parent: Option<NodeView>, node: NodeView) -> bool {
        node.has_prop("gpio-controller"@)
    }

    open spec fn generated(&self, tree: DeviceTreeView, parent: Option<NodeView>, node: NodeView) -> Result<
        Seq<char>,
        GenErrorView,
    > {
        Ok(gpio_instance_text(node.ord))
    }

    fn is_compatible(&self, tree: &DeviceTree, parent: Option<&Node>, node: &Node) -> (r: bool) {
        node.has_prop("gpio-controller")
    }

    fn generate(&self, tree: &DeviceTree, parent: Option<&Node>, node: &Node) -> (r: String) {
        let mut out = String::new();
        out.append(
            "pub unsafe fn get_instance() -> *const crate::sys::device {\nextern \"C\" {\nstatic __device_dts_ord_",
        );
        push_decimal(&mut out, node.ord as u64);
        out.append(": crate::sys::device;\n}\n&__device_dts_ord_");
        push_decimal(&mut out, node.ord as u64);
        out.append("\n}\n");
        out
    }

    fn try_generate(&self, tree: &DeviceTree, parent: Option<&Node>, node: &Node) -> (r: Result<
        String,
        GenError,
    >) {
        Ok(self.generate(tree, parent, node))
    }
}

/// The accessor of a LED: a function that puts the controller's device
/// object, the pin and the flags into one `gpio_dt_spec`.
pub open spec fn led_instance_text(controller: Seq<Seq<char>>, pin: u32, flags: u32) -> Seq<char> {
    "pub fn get_instance() -> crate::sys::gpio_dt_spec {\nunsafe {\nlet port = "@ + route_path(
        controller,
    ) + "::get_instance();\ncrate::sys::gpio_dt_spec {\nport,\npin: "@ + decimal(pin as nat)
        + " as crate::sys::gpio_pin_t,\ndt_flags: "@ + decimal(flags as nat)
        + " as crate::sys::gpio_dt_flags_t,\n}\n}\n}\n"@
}

/// The code for a LED node, from its `gpios` property: one phandle to the
/// controller, whose `#gpio-cells` must be 2, then the pin and the flags.
pub open spec fn led_text(tree: DeviceTreeView, node: NodeView) -> Result<Seq<char>, GenErrorView> {
    match node.words("gpios"@) {
        None => Err(GenErrorView { kind: GenErrorKind::MissingGpios, subject: node.path }),
        Some(ws) => if ws.len() == 0 {
            Err(GenErrorView { kind: GenErrorKind::EmptyGpios, subject: node.path })
        } else {
            match ws[0] {
                WordView::Number(_) => Err(
                    GenErrorView { kind: GenErrorKind::EmptyGpios, subject: node.path },
                ),
                WordView::Phandle(label) => match tree.resolve(label) {
                    None => Err(GenErrorView { kind: GenErrorKind::MissingPhandle, subject: label }),
                    Some(target) => if target.number("#gpio-cells"@) != Some(2u32) {
                        Err(
                            GenErrorView {
                                kind: GenErrorKind::UnsupportedGpioCells,
                                subject: node.path,
                            },
                        )
                    } else if ws.len() != 3 {
                        Err(GenErrorView { kind: GenErrorKind::GpiosArity, subject: node.path })
                    } else {
                        match (ws[1].number(), ws[2].number()) {
                            (Some(pin), Some(flags)) => Ok(
                                led_instance_text(target.route, pin, flags),
                            ),
                            _ => Err(
                                GenErrorView {
                                    kind: GenErrorKind::GpiosNotNumeric,
                                    subject: node.path,
                                },
                            ),
                        }
                    },
                },
            }
        },
    }
}

/// Augments the LEDs: the nodes whose parent is compatible with `gpio-leds`.
pub struct GpioLedsAugment;

impl Augment for GpioLedsAugment {
    open spec fn compatible(&self, tree: DeviceTreeView, parent: Option<NodeView>, node: NodeView) -> bool {
        match parent {
            Some(p) => p.is_compatible("gpio-leds"@),
            None => false,
        }
    }

    open spec fn generated(&self, tree: DeviceTreeView, parent: Option<NodeView>, node: NodeView) -> Result<
        Seq<char>,
        GenErrorView,
    > {
        led_text(tree, node)
    }

    fn is_compatible(&self, tree: &DeviceTree, parent: Option<&Node>, node: &Node) -> (r: bool) {
        match parent {
            Some(p) => p.is_compatible("gpio-leds"),
            None => false,
        }
    }

    fn generate(&self, tree: &DeviceTree, parent: Option<&Node>, node: &Node) -> (r: String) {
        let (target, pin, flags) = led_parts(tree, node).unwrap();
        let gpio_route = target.route_to_rust();
        let mut out = String::new();
        out.append("pub fn get_instance() -> crate::sys::gpio_dt_spec {\nunsafe {\nlet port = ");
        out.append(gpio_route.as_str());
        out.append("::get_instance();\ncrate::sys::gpio_dt_spec {\nport,\npin: ");
        push_decimal(&mut out, pin as u64);
        out.append(" as crate::sys::gpio_pin_t,\ndt_flags: ");
        push_decimal(&mut out, flags as u64);
        out.append(" as crate::sys::gpio_dt_flags_t,\n}\n}\n}\n");
        out
    }

    fn try_generate(&self, tree: &DeviceTree, parent: Option<&Node>, node: &Node) -> (r: Result<
        String,
        GenError,
    >) {
        match led_parts(tree, node) {
            Ok(_) => Ok(self.generate(tree, parent, node)),
            Err(e) => Err(e),
        }
    }
}

/// What the accessor of a LED is made of: the controller, the pin and the
/// flags; or why the node's `gpios` gives none.
pub fn led_parts<'a>(tree: &'a DeviceTree, node: &Node) -> (r: Result<(&'a Node, u32, u32), GenError>)
    ensures
        match r {
            Ok((target, pin, flags)) => led_text(tree@, node@) == Ok::<Seq<char>, GenErrorView>(
                led_instance_text(target@.route, pin, flags),
            ),
            Err(e) => led_text(tree@, node@) == Err::<Seq<char>, GenErrorView>(e@),
        },
{
    let words = match node.get_words("gpios") {
        Some(ws) => ws,
        None => {
            return Err(GenError::new(GenErrorKind::MissingGpios, node.path.as_str()));
        },
    };
    if words.len() == 0 {
        return Err(GenError::new(GenErrorKind::EmptyGpios, node.path.as_str()));
    }
    let target = match &words[0] {
        Word::Phandle(gpio) => match tree.resolve(gpio.name.as_str()) {
            Some(target) => target,
            None => {
                return Err(GenError::new(GenErrorKind::MissingPhandle, gpio.name.as_str()));
            },
        },
        Word::Number(_) => {
            return Err(GenError::new(GenErrorKind::EmptyGpios, node.path.as_str()));
        },
    };
    // At this point, we support gpio-cells of 2.
    if target.get_number("#gpio-cells") != Some(2) {
        return Err(GenError::new(GenErrorKind::UnsupportedGpioCells, node.path.as_str()));
    }
    if words.len() != 3 {
        return Err(GenError::new(GenErrorKind::GpiosArity, node.path.as_str()));
    }
    let pin = match words[1].get_number() {
        Some(n) => n,
        None => {
            return Err(GenError::new(GenErrorKind::GpiosNotNumeric, node.path.as_str()));
        },
    };
    let flags = match words[2].get_number() {
        Some(n) => n,
        None => {
            return Err(GenError::new(GenErrorKind::GpiosNotNumeric, node.path.as_str()));
        },
    };
    Ok((target, pin, flags))
}

/// The rules that come with the generator.
pub enum StockAugment {
    Gpio(GpioAugment),
    GpioLeds(GpioLedsAugment),
}

impl Augment for StockAugment {
    open spec fn compatible(&self, tree: DeviceTreeView, parent: Option<NodeView>, node: NodeView) -> bool {
        match self {
            StockAugment::Gpio(a) => a.compatible(tree, parent, node),
            StockAugment::GpioLeds(a) => a.compatible(tree, parent, node),
        }
    }

    open spec fn generated(&self, tree: DeviceTreeView, parent: Option<NodeView>, node: NodeView) -> Result<
        Seq<char>,
        GenErrorView,
    > {
        match self {
            StockAugment::Gpio(a) => a.generated(tree, parent, node),
            StockAugment::GpioLeds(a) => a.generated(tree, parent, node),
        }
    }

    fn is_compatible(&self, tree: &DeviceTree, parent: Option<&Node>, node: &Node) -> (r: bool) {
        match self {
            StockAugment::Gpio(a) => a.is_compatible(tree, parent, node),
            StockAugment::GpioLeds(a) => a.is_compatible(tree, parent, node),
        }
    }

    fn generate(&self, tree: &DeviceTree, parent: Option<&Node>, node: &Node) -> (r: String) {
        match self {
            StockAugment::Gpio(a) => a.generate(tree, parent, node),
            StockAugment::GpioLeds(a) => a.generate(tree, parent, node),
        }
    }

    fn try_generate(&self, tree: &DeviceTree, parent: Option<&Node>, node: &Node) -> (r: Result<
        String,
        GenError,
    >) {
        match self {
            StockAugment::Gpio(a) => a.try_generate(tree, parent, node),
            StockAugment::GpioLeds(a) => a.try_generate(tree, parent, node),
        }
    }
}

/// The rules that `to_tokens` applies: GPIO controllers first, then LEDs.
pub open spec fn stock_augments() -> Seq<StockAugment> {
    seq![StockAugment::Gpio(GpioAugment), StockAugment::GpioLeds(GpioLedsAugment)]
}

/// All the rules that the generator applies, in order.
pub fn get_augments() -> (r: Vec<StockAugment>)
    ensures
        r@ == stock_augments(),
{
    let mut v: Vec<StockAugment> = Vec::new();
    v.push(StockAugment::Gpio(GpioAugment));
    v.push(StockAugment::GpioLeds(GpioLedsAugment));
    assert(v@ =~= stock_augments());
    v
}

/// A node below a `gpio-leds` parent whose `gpios` holds one phandle, to a
/// controller with `#gpio-cells` of 2, and two numbers gets an accessor that
/// holds the two numbers as pin and flags.
pub proof fn law_led_accessor(
    tree: DeviceTreeView,
    parent: NodeView,
    node: NodeView,
    label: Seq<char>,
    target: NodeView,
    pin: u32,
    flags: u32,
)
    requires
        parent.is_compatible("gpio-leds"@),
        node.words("gpios"@) == Some(
            seq![WordView::Phandle(label), WordView::Number(pin), WordView::Number(flags)],
        ),
        tree.resolve(label) == Some(target),
        target.number("#gpio-cells"@) == Some(2u32),
    ensures
        augmented(GpioLedsAugment, tree, Some(parent), node) == Ok::<Seq<char>, GenErrorView>(
            led_instance_text(target.route, pin, flags),
        ),
{
}

/// A `gpios` list that does not start with a phandle is fatal.
pub proof fn law_led_without_phandle(tree: DeviceTreeView, parent: NodeView, node: NodeView)
    requires
        parent.is_compatible("gpio-leds"@),
        node.words("gpios"@) matches Some(ws) && (ws.len() == 0 || ws[0] is Number),
    ensures
        augmented(GpioLedsAugment, tree, Some(parent), node) == Err::<Seq<char>, GenErrorView>(
            GenErrorView { kind: GenErrorKind::EmptyGpios, subject: node.path },
        ),
{
}

/// A `gpios` list with more or less than one phandle and two cells is fatal.
pub proof fn law_led_arity(
    tree: DeviceTreeView,
    parent: NodeView,
    node: NodeView,
    label: Seq<char>,
    target: NodeView,
)
    requires
        parent.is_compatible("gpio-leds"@),
        node.words("gpios"@) matches Some(ws) && ws.len() != 3 && ws.len() > 0 && ws[0]
            == WordView::Phandle(label),
        tree.resolve(label) == Some(target),
        target.number("#gpio-cells"@) == Some(2u32),
    ensures
        augmented(GpioLedsAugment, tree, Some(parent), node) == Err::<Seq<char>, GenErrorView>(
            GenErrorView { kind: GenErrorKind::GpiosArity, subject: node.path },
        ),
{
}

/// A controller whose `#gpio-cells` is anything but 2 is not supported.
pub proof fn law_unsupported_gpio_cells(
    tree: DeviceTreeView,
    parent: NodeView,
    node: NodeView,
    label: Seq<char>,
    target: NodeView,
)
    requires
        parent.is_compatible("gpio-leds"@),
        node.words("gpios"@) matches Some(ws) && ws.len() > 0 && ws[0] == WordView::Phandle(label),
        tree.resolve(label) == Some(target),
        target.number("#gpio-cells"@) != Some(2u32),
    ensures
        augmented(GpioLedsAugment, tree, Some(parent), node) == Err::<Seq<char>, GenErrorView>(
            GenErrorView { kind: GenErrorKind::UnsupportedGpioCells, subject: node.path },
        ),
        (GenErrorView { kind: GenErrorKind::UnsupportedGpioCells, subject: node.path }).message()
            == "gpios only support with #gpio-cells of 2: "@ + node.path,
{
}

} // verus!
