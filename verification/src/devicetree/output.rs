//! Lowering the devicetree into Rust source text: one module per node, named
//! after the node, holding its ordinal, its properties and its children.

use vstd::prelude::*;
use vstd::string::StringExecFns;
use crate::devicetree::augment::{augmented, get_augments, stock_augments, Augment};
use crate::devicetree::{
    lemma_node_children, opt_node_view, properties_view, text_result, values_view, words_view,
    DeviceTree, DeviceTreeView, GenError, GenErrorKind, GenErrorView, Node, NodeView, Property,
    PropertyView, Value, ValueView, Word, WordView,
};
use crate::text::{debug_quote, debug_quoted, decimal, push_char, push_decimal, to_uppercase, uppercase};

verus! {

/// What sanitizing does to one character.
pub open spec fn fixed_char(c: char) -> char {
    if c == '#' {
        'N'
    } else if c == '-' || c == '@' || c == ',' {
        '_'
    } else {
        c
    }
}

/// A devicetree name with the characters that no Rust identifier may hold
/// replaced: `#` by `N`; `-`, `@` and `,` by `_`.
pub open spec fn fixed_id(text: Seq<char>) -> Seq<char> {
    text.map_values(|c: char| fixed_char(c))
}

/// Sanitizing a sanitized name changes nothing.
pub proof fn law_fix_id_idempotent(text: Seq<char>)
    ensures
        fixed_id(fixed_id(text)) == fixed_id(text),
{
    assert(fixed_id(fixed_id(text)) =~= fixed_id(text));
}

/// Sanitizing keeps the length, and leaves none of `#`, `-`, `@`, `,` behind.
pub proof fn law_fix_id_clean(text: Seq<char>)
    ensures
        fixed_id(text).len() == text.len(),
        forall|i: int|
            0 <= i < text.len() ==> {
                let c = #[trigger] fixed_id(text)[i];
                c != '#' && c != '-' && c != '@' && c != ','
            },
{
}

/// Makes a devicetree name safe as a Rust identifier.
pub fn fix_id(text: &str) -> (r: String)
    ensures
        r@ == fixed_id(text@),
{
    let mut result = String::new();
    for ch in it: text.chars()
        invariant
            it.seq() == text@,
            result@ == fixed_id(text@.take(it.index() as int)),
    {
        if ch == '#' {
            push_char(&mut result, 'N');
        } else if ch == '-' {
            push_char(&mut result, '_');
        } else if ch == '@' {
            push_char(&mut result, '_');
        } else if ch == ',' {
            push_char(&mut result, '_');
        } else {
            push_char(&mut result, ch);
        }
        assert(result@ =~= fixed_id(text@.take(it.index() + 1)));
    }
    result
}

/// The identifier of a module: the sanitized name.
pub open spec fn lower_id(text: Seq<char>) -> Seq<char> {
    fixed_id(text)
}

/// The identifier of a constant: the sanitized upper-case form of the name.
pub open spec fn upper_id(text: Seq<char>) -> Seq<char> {
    fixed_id(uppercase(text))
}

/// The identifier under which a node or a phandle property becomes a module.
pub fn dt_to_lower_id(text: &str) -> (r: String)
    ensures
        r@ == lower_id(text@),
{
    fix_id(text)
}

/// The identifier under which a property becomes a constant.
pub fn dt_to_upper_id(text: &str) -> (r: String)
    ensures
        r@ == upper_id(text@),
{
    let upper = to_uppercase(text);
    fix_id(upper.as_str())
}

/// The items, separated by a comma and a space.
pub open spec fn joined(items: Seq<Seq<char>>) -> Seq<char>
    decreases items.len(),
{
    if items.len() == 0 {
        Seq::empty()
    } else if items.len() == 1 {
        items[0]
    } else {
        joined(items.drop_last()) + ", "@ + items.last()
    }
}

/// How a list is shown for debugging: its items between square brackets.
pub open spec fn list_debug(items: Seq<Seq<char>>) -> Seq<char> {
    "["@ + joined(items) + "]"@
}

/// How a phandle is shown for debugging.
pub open spec fn phandle_debug(label: Seq<char>) -> Seq<char> {
    "Phandle("@ + debug_quoted(label) + ")"@
}

/// How a cell is shown for debugging.
pub open spec fn word_debug(w: WordView) -> Seq<char> {
    match w {
        WordView::Number(n) => "Number("@ + decimal(n as nat) + ")"@,
        WordView::Phandle(label) => "Phandle("@ + phandle_debug(label) + ")"@,
    }
}

pub open spec fn words_debug(ws: Seq<WordView>) -> Seq<char> {
    list_debug(ws.map_values(|w: WordView| word_debug(w)))
}

pub open spec fn bytes_debug(bs: Seq<u8>) -> Seq<char> {
    list_debug(bs.map_values(|b: u8| decimal(b as nat)))
}

/// How a value is shown for debugging.
pub open spec fn value_debug(v: ValueView) -> Seq<char> {
    match v {
        ValueView::Words(ws) => "Words("@ + words_debug(ws) + ")"@,
        ValueView::Bytes(bs) => "Bytes("@ + bytes_debug(bs) + ")"@,
        ValueView::Phandle(label) => "Phandle("@ + phandle_debug(label) + ")"@,
        ValueView::String(s) => "String("@ + debug_quoted(s) + ")"@,
    }
}

/// How the values of a property are shown for debugging.
pub open spec fn values_debug(vs: Seq<ValueView>) -> Seq<char> {
    list_debug(vs.map_values(|v: ValueView| value_debug(v)))
}

/// Appending one more item to a joined list.
proof fn lemma_joined_step(items: Seq<Seq<char>>, k: int)
    requires
        0 <= k < items.len(),
    ensures
        joined(items.take(k + 1)) == if k == 0 {
            items[0]
        } else {
            joined(items.take(k)) + ", "@ + items[k]
        },
{
    assert(items.take(k + 1).drop_last() =~= items.take(k));
    assert(items.take(k + 1).last() == items[k]);
}

fn push_phandle_debug(out: &mut String, label: &str)
    ensures
        final(out)@ == old(out)@ + phandle_debug(label@),
{
    out.append("Phandle(");
    let quoted = debug_quote(label);
    out.append(quoted.as_str());
    out.append(")");
    assert(final(out)@ =~= old(out)@ + phandle_debug(label@));
}

fn push_word_debug(out: &mut String, w: &Word)
    ensures
        final(out)@ == old(out)@ + word_debug(w@),
{
    match w {
        Word::Number(n) => {
            out.append("Number(");
            push_decimal(out, *n as u64);
            out.append(")");
        },
        Word::Phandle(p) => {
            out.append("Phandle(");
            push_phandle_debug(out, p.name.as_str());
            out.append(")");
        },
    }
    assert(final(out)@ =~= old(out)@ + word_debug(w@));
}

fn push_words_debug(out: &mut String, ws: &Vec<Word>)
    ensures
        final(out)@ == old(out)@ + words_debug(words_view(ws@)),
{
    let ghost items = words_view(ws@).map_values(|w: WordView| word_debug(w));
    out.append("[");
    let mut i: usize = 0;
    while i < ws.len()
        invariant
            i <= ws.len(),
            items == words_view(ws@).map_values(|w: WordView| word_debug(w)),
            out@ == old(out)@ + "["@ + joined(items.take(i as int)),
        decreases ws.len() - i,
    {
        proof {
            lemma_joined_step(items, i as int);
        }
        if i > 0 {
            out.append(", ");
        }
        push_word_debug(out, &ws[i]);
        i = i + 1;
        assert(out@ =~= old(out)@ + "["@ + joined(items.take(i as int)));
    }
    out.append("]");
    assert(items.take(i as int) =~= items);
    assert(final(out)@ =~= old(out)@ + words_debug(words_view(ws@)));
}

fn push_bytes_debug(out: &mut String, bs: &Vec<u8>)
    ensures
        final(out)@ == old(out)@ + bytes_debug(bs@),
{
    let ghost items = bs@.map_values(|b: u8| decimal(b as nat));
    out.append("[");
    let mut i: usize = 0;
    while i < bs.len()
        invariant
            i <= bs.len(),
            items == bs@.map_values(|b: u8| decimal(b as nat)),
            out@ == old(out)@ + "["@ + joined(items.take(i as int)),
        decreases bs.len() - i,
    {
        proof {
            lemma_joined_step(items, i as int);
        }
        if i > 0 {
            out.append(", ");
        }
        push_decimal(out, bs[i] as u64);
        i = i + 1;
        assert(out@ =~= old(out)@ + "["@ + joined(items.take(i as int)));
    }
    out.append("]");
    assert(items.take(i as int) =~= items);
    assert(final(out)@ =~= old(out)@ + bytes_debug(bs@));
}

fn push_value_debug(out: &mut String, v: &Value)
    ensures
        final(out)@ == old(out)@ + value_debug(v@),
{
    match v {
        Value::Words(ws) => {
            out.append("Words(");
            push_words_debug(out, ws);
            out.append(")");
        },
        Value::Bytes(bs) => {
            out.append("Bytes(");
            push_bytes_debug(out, bs);
            out.append(")");
        },
        Value::Phandle(p) => {
            out.append("Phandle(");
            push_phandle_debug(out, p.name.as_str());
            out.append(")");
        },
        Value::String(s) => {
            out.append("String(");
            let quoted = debug_quote(s.as_str());
            out.append(quoted.as_str());
            out.append(")");
        },
    }
    assert(final(out)@ =~= old(out)@ + value_debug(v@));
}

/// The values of a property as they are shown for debugging.
pub fn debug_values(vs: &Vec<Value>) -> (r: String)
    ensures
        r@ == values_debug(values_view(vs@)),
{
    let ghost items = values_view(vs@).map_values(|v: ValueView| value_debug(v));
    let mut out = String::new();
    out.append("[");
    let mut i: usize = 0;
    while i < vs.len()
        invariant
            i <= vs.len(),
            items == values_view(vs@).map_values(|v: ValueView| value_debug(v)),
            out@ == "["@ + joined(items.take(i as int)),
        decreases vs.len() - i,
    {
        proof {
            lemma_joined_step(items, i as int);
        }
        if i > 0 {
            out.append(", ");
        }
        push_value_debug(&mut out, &vs[i]);
        i = i + 1;
        assert(out@ =~= "["@ + joined(items.take(i as int)));
    }
    out.append("]");
    assert(items.take(i as int) =~= items);
    assert(out@ =~= values_debug(values_view(vs@)));
    out
}

/// A string constant of the generated code.
pub open spec fn const_str_text(tag: Seq<char>, literal: Seq<char>) -> Seq<char> {
    "pub const "@ + tag + ": &'static str = "@ + literal + ";\n"@
}

/// Writes a string constant called `tag` whose value is the given literal,
/// quotes included.
pub fn const_str_item(tag: &str, literal: &str) -> (r: String)
    ensures
        r@ == const_str_text(tag@, literal@),
{
    let mut out = String::new();
    out.append("pub const ");
    out.append(tag);
    out.append(": &'static str = ");
    out.append(literal);
    out.append(";\n");
    assert(out@ =~= const_str_text(tag@, literal@));
    out
}

/// The fallback for a property: a string constant, named after the property
/// with `_DEBUG` behind it, that holds the debug text of its values.
pub open spec fn general_text(p: PropertyView) -> Seq<char> {
    const_str_text(upper_id(p.name + "_DEBUG"@), debug_quoted(values_debug(p.value)))
}

/// Lowers a property in the general way.
pub fn general_property(prop: &Property) -> (r: String)
    ensures
        r@ == general_text(prop@),
{
    let text = debug_values(&prop.value);
    let mut tag = prop.name.clone();
    tag.append("_DEBUG");
    let tag = dt_to_upper_id(tag.as_str());
    let literal = debug_quote(text.as_str());
    const_str_item(tag.as_str(), literal.as_str())
}

/// A numeric constant of the generated code.
pub open spec fn const_u32_text(name: Seq<char>, n: u32) -> Seq<char> {
    "pub const "@ + upper_id(name) + ": u32 = "@ + decimal(n as nat) + ";\n"@
}

/// A module of the generated code that hands on all that the module of the
/// node with the given route holds.
pub open spec fn reexport_text(name: Seq<char>, route: Seq<Seq<char>>) -> Seq<char> {
    "pub mod "@ + lower_id(name) + " {\npub use "@ + route_path(route) + "::*;\n}\n"@
}

/// What a property is lowered to. A property whose one value is a list of one
/// number becomes a numeric constant; one whose one value is a phandle
/// becomes a module that re-exports the module of the node referred to;
/// every other property takes the general form.
pub open spec fn property_text(tree: DeviceTreeView, p: PropertyView) -> Result<
    Seq<char>,
    GenErrorView,
> {
    match p.single_value() {
        Some(ValueView::Words(ws)) => if ws.len() == 1 {
            match ws[0] {
                WordView::Number(n) => Ok(const_u32_text(p.name, n)),
                WordView::Phandle(_) => Ok(general_text(p)),
            }
        } else {
            Ok(general_text(p))
        },
        Some(ValueView::Phandle(label)) => match tree.resolve(label) {
            Some(target) => Ok(reexport_text(p.name, target.route)),
            None => Err(GenErrorView { kind: GenErrorKind::MissingPhandle, subject: label }),
        },
        _ => Ok(general_text(p)),
    }
}

/// One piece of text after another; the first failure wins.
pub open spec fn then(
    a: Result<Seq<char>, GenErrorView>,
    b: Result<Seq<char>, GenErrorView>,
) -> Result<Seq<char>, GenErrorView> {
    match a {
        Err(e) => Err(e),
        Ok(x) => match b {
            Ok(y) => Ok(x + y),
            Err(e) => Err(e),
        },
    }
}

/// All the pieces in order; the first failure wins.
pub open spec fn concat_all(parts: Seq<Result<Seq<char>, GenErrorView>>) -> Result<
    Seq<char>,
    GenErrorView,
>
    decreases parts.len(),
{
    if parts.len() == 0 {
        Ok(Seq::empty())
    } else {
        then(concat_all(parts.drop_last()), parts.last())
    }
}

/// A failure among the pieces, with none before it, is the failure of the whole.
pub proof fn lemma_concat_all_fails(parts: Seq<Result<Seq<char>, GenErrorView>>, k: int)
    requires
        0 <= k < parts.len(),
        concat_all(parts.take(k)) is Ok,
        parts[k] is Err,
    ensures
        concat_all(parts) == Err::<Seq<char>, GenErrorView>(parts[k]->Err_0),
    decreases parts.len() - k,
{
    assert(parts.take(k + 1).drop_last() =~= parts.take(k));
    lemma_concat_all_stays_failed(parts, k + 1);
}

proof fn lemma_concat_all_stays_failed(parts: Seq<Result<Seq<char>, GenErrorView>>, k: int)
    requires
        0 <= k <= parts.len(),
        concat_all(parts.take(k)) is Err,
    ensures
        concat_all(parts) == concat_all(parts.take(k)),
    decreases parts.len() - k,
{
    if k < parts.len() {
        assert(parts.take(k + 1).drop_last() =~= parts.take(k));
        lemma_concat_all_stays_failed(parts, k + 1);
    } else {
        assert(parts.take(k) =~= parts);
    }
}

pub open spec fn properties_text(tree: DeviceTreeView, ps: Seq<PropertyView>) -> Seq<
    Result<Seq<char>, GenErrorView>,
> {
    ps.map_values(|p: PropertyView| property_text(tree, p))
}

pub open spec fn augments_text<A: Augment>(
    augments: Seq<A>,
    tree: DeviceTreeView,
    parent: Option<NodeView>,
    node: NodeView,
) -> Seq<Result<Seq<char>, GenErrorView>> {
    augments.map_values(|a: A| augmented(a, tree, parent, node))
}

/// The first lines of a node's module: its name and its ordinal.
pub open spec fn module_head(name: Seq<char>, ord: nat) -> Seq<char> {
    "pub mod "@ + lower_id(name) + " {\npub const ORD: usize = "@ + decimal(ord) + ";\n"@
}

/// The module generated for `node` under the name `name`: the ordinal, the
/// properties in order, the children's modules in order, then what each rule
/// adds, in the rules' order.
pub open spec fn node_text<A: Augment>(
    tree: DeviceTreeView,
    augments: Seq<A>,
    parent: Option<NodeView>,
    node: NodeView,
    name: Seq<char>,
) -> Result<Seq<char>, GenErrorView>
    decreases node, 1nat,
{
    then(
        then(
            then(
                then(
                    Ok(module_head(name, node.ord)),
                    concat_all(properties_text(tree, node.properties)),
                ),
                concat_all(children_text(tree, augments, node)),
            ),
            concat_all(augments_text(augments, tree, parent, node)),
        ),
        Ok("}\n"@),
    )
}

/// The modules of the children of `node`, each under the child's own name.
pub open spec fn children_text<A: Augment>(
    tree: DeviceTreeView,
    augments: Seq<A>,
    node: NodeView,
) -> Seq<Result<Seq<char>, GenErrorView>>
    decreases node, 0nat,
{
    Seq::new(
        node.children.len(),
        |i: int|
            if 0 <= i < node.children.len() {
                node_text(tree, augments, Some(node), node.children[i], node.children[i].name)
            } else {
                arbitrary()
            },
    )
}

/// The text generated for a whole tree: the module of the root, under the
/// name `devicetree`, with the stock rules applied.
pub open spec fn tree_text(tree: DeviceTreeView) -> Result<Seq<char>, GenErrorView> {
    node_text(tree, stock_augments(), None, tree.root, "devicetree"@)
}

impl DeviceTree {
    /// Generates the Rust source text for a tree for which all of it can be
    /// generated.
    pub fn to_tokens(&self) -> (r: String)
        requires
            tree_text(self@) is Ok,
        ensures
            r@ == tree_text(self@)->Ok_0,
    {
        self.try_to_tokens().unwrap()
    }

    /// Generates the module of `node`, which stands below `parent`, under the
    /// name `name`, where all of it can be generated.
    pub fn node_walk<A: Augment>(
        &self,
        node: &Node,
        parent: Option<&Node>,
        name: &str,
        augments: &Vec<A>,
    ) -> (r: String)
        requires
            node_text(self@, augments@, opt_node_view(parent), node@, name@) is Ok,
        ensures
            r@ == node_text(self@, augments@, opt_node_view(parent), node@, name@)->Ok_0,
    {
        self.try_node_walk(node, parent, name, augments).unwrap()
    }

    /// Lowers one property whose phandle, if it is one, names a node.
    pub fn property_walk(&self, prop: &Property) -> (r: String)
        requires
            property_text(self@, prop@) is Ok,
        ensures
            r@ == property_text(self@, prop@)->Ok_0,
    {
        self.try_property_walk(prop).unwrap()
    }

    /// Generates the Rust source text for this tree, or says why it cannot
    /// be generated.
    pub fn try_to_tokens(&self) -> (r: Result<String, GenError>)
        ensures
            text_result(r) == tree_text(self@),
    {
        let augments = get_augments();
        self.try_node_walk(&self.root, None, "devicetree", &augments)
    }

    /// Generates the module of `node`, which stands below `parent`, under the
    /// name `name`.
    pub fn try_node_walk<A: Augment>(
        &self,
        node: &Node,
        parent: Option<&Node>,
        name: &str,
        augments: &Vec<A>,
    ) -> (r: Result<String, GenError>)
        ensures
            text_result(r) == node_text(self@, augments@, opt_node_view(parent), node@, name@),
        decreases node,
    {
        proof {
            lemma_node_children(*node);
        }
        let name_id = dt_to_lower_id(name);
        let mut out = String::new();
        out.append("pub mod ");
        out.append(name_id.as_str());
        out.append(" {\npub const ORD: usize = ");
        push_decimal(&mut out, node.ord as u64);
        out.append(";\n");
        assert(out@ =~= module_head(name@, node@.ord));
        let ghost head = out@;

        let ghost props = properties_text(self@, node@.properties);
        let mut i: usize = 0;
        while i < node.properties.len()
            invariant
                i <= node.properties.len(),
                props == properties_text(self@, node@.properties),
                node@.properties == properties_view(node.properties@),
                concat_all(props.take(i as int)) is Ok,
                out@ == head + concat_all(props.take(i as int))->Ok_0,
            decreases node.properties.len() - i,
        {
            proof {
                assert(props.take(i as int + 1).drop_last() =~= props.take(i as int));
            }
            match self.try_property_walk(&node.properties[i]) {
                Ok(text) => {
                    out.append(text.as_str());
                },
                Err(e) => {
                    proof {
                        lemma_concat_all_fails(props, i as int);
                    }
                    return Err(e);
                },
            }
            i = i + 1;
            assert(out@ =~= head + concat_all(props.take(i as int))->Ok_0);
        }
        assert(props.take(i as int) =~= props);
        let ghost after_props = out@;
        assert(then(Ok(head), concat_all(props)) == Ok::<Seq<char>, GenErrorView>(after_props));

        let ghost kids = children_text(self@, augments@, node@);
        let mut i: usize = 0;
        while i < node.children.len()
            invariant
                i <= node.children.len(),
                kids.len() == node.children.len(),
                forall|j: int|
                    0 <= j < node.children.len() ==> #[trigger] kids[j] == node_text(
                        self@,
                        augments@,
                        Some(node@),
                        node.children[j]@,
                        node.children[j]@.name,
                    ),
                node_text(self@, augments@, opt_node_view(parent), node@, name@) == then(
                    then(
                        then(Ok(after_props), concat_all(kids)),
                        concat_all(augments_text(augments@, self@, opt_node_view(parent), node@)),
                    ),
                    Ok("}\n"@),
                ),
                concat_all(kids.take(i as int)) is Ok,
                out@ == after_props + concat_all(kids.take(i as int))->Ok_0,
            decreases node.children.len() - i,
        {
            proof {
                assert(kids.take(i as int + 1).drop_last() =~= kids.take(i as int));
            }
            let child = &node.children[i];
            match self.try_node_walk(child, Some(node), child.name.as_str(), augments) {
                Ok(text) => {
                    out.append(text.as_str());
                },
                Err(e) => {
                    proof {
                        lemma_concat_all_fails(kids, i as int);
                    }
                    return Err(e);
                },
            }
            i = i + 1;
            assert(out@ =~= after_props + concat_all(kids.take(i as int))->Ok_0);
        }
        assert(kids.take(i as int) =~= kids);
        let ghost after_kids = out@;
        assert(then(Ok(after_props), concat_all(kids)) == Ok::<Seq<char>, GenErrorView>(after_kids));

        let ghost augs = augments_text(augments@, self@, opt_node_view(parent), node@);
        let mut i: usize = 0;
        while i < augments.len()
            invariant
                i <= augments.len(),
                augs == augments_text(augments@, self@, opt_node_view(parent), node@),
                node_text(self@, augments@, opt_node_view(parent), node@, name@) == then(
                    then(Ok(after_kids), concat_all(augs)),
                    Ok("}\n"@),
                ),
                concat_all(augs.take(i as int)) is Ok,
                out@ == after_kids + concat_all(augs.take(i as int))->Ok_0,
            decreases augments.len() - i,
        {
            proof {
                assert(augs.take(i as int + 1).drop_last() =~= augs.take(i as int));
            }
            match augments[i].try_augment(self, parent, node) {
                Ok(text) => {
                    out.append(text.as_str());
                },
                Err(e) => {
                    proof {
                        lemma_concat_all_fails(augs, i as int);
                    }
                    return Err(e);
                },
            }
            i = i + 1;
            assert(out@ =~= after_kids + concat_all(augs.take(i as int))->Ok_0);
        }
        assert(augs.take(i as int) =~= augs);
        out.append("}\n");
        assert(out@ =~= after_kids + concat_all(augs)->Ok_0 + "}\n"@);
        Ok(out)
    }

    /// Lowers one property.
    pub fn try_property_walk(&self, prop: &Property) -> (r: Result<String, GenError>)
        ensures
            text_result(r) == property_text(self@, prop@),
    {
        match prop.get_single_value() {
            Some(value) => {
                match value {
                    Value::Words(words) => {
                        if words.len() == 1 {
                            match &words[0] {
                                Word::Number(n) => {
                                    let tag = dt_to_upper_id(prop.name.as_str());
                                    let mut out = String::new();
                                    out.append("pub const ");
                                    out.append(tag.as_str());
                                    out.append(": u32 = ");
                                    push_decimal(&mut out, *n as u64);
                                    out.append(";\n");
                                    assert(out@ =~= const_u32_text(prop@.name, *n));
                                    Ok(out)
                                },
                                Word::Phandle(_) => Ok(general_property(prop)),
                            }
                        } else {
                            Ok(general_property(prop))
                        }
                    },
                    Value::Phandle(ph) => {
                        match self.resolve(ph.name.as_str()) {
                            Some(target) => {
                                let route = target.route_to_rust();
                                let tag = dt_to_lower_id(prop.name.as_str());
                                let mut out = String::new();
                                out.append("pub mod ");
                                out.append(tag.as_str());
                                out.append(" {\npub use ");
                                out.append(route.as_str());
                                out.append("::*;\n}\n");
                                assert(out@ =~= reexport_text(prop@.name, target@.route));
                                Ok(out)
                            },
                            None => Err(
                                GenError::new(GenErrorKind::MissingPhandle, ph.name.as_str()),
                            ),
                        }
                    },
                    _ => Ok(general_property(prop)),
                }
            },
            None => Ok(general_property(prop)),
        }
    }
}

/// The Rust path of the module generated for the node with this route.
pub open spec fn route_path(route: Seq<Seq<char>>) -> Seq<char>
    decreases route.len(),
{
    if route.len() == 0 {
        "crate::devicetree"@
    } else {
        route_path(route.drop_last()) + "::"@ + fixed_id(route.last())
    }
}

impl Node {
    /// The Rust path of the module generated for this node, fully qualified.
    pub fn route_to_rust(&self) -> (r: String)
        ensures
            r@ == route_path(self@.route),
    {
        let mut out = String::new();
        out.append("crate::devicetree");
        let mut i: usize = 0;
        while i < self.route.len()
            invariant
                i <= self.route.len(),
                out@ == route_path(self@.route.take(i as int)),
            decreases self.route.len() - i,
        {
            proof {
                assert(self@.route.take(i as int + 1).drop_last() =~= self@.route.take(i as int));
            }
            let seg = fix_id(self.route[i].as_str());
            out.append("::");
            out.append(seg.as_str());
            i = i + 1;
        }
        assert(self@.route.take(i as int) =~= self@.route);
        out
    }
}

/// A property whose one value is a list of one number lowers to a numeric
/// constant of that value, named after the property in upper case.
pub proof fn law_single_number_constant(tree: DeviceTreeView, name: Seq<char>, n: u32)
    ensures
        property_text(
            tree,
            PropertyView { name, value: seq![ValueView::Words(seq![WordView::Number(n)])] },
        ) == Ok::<Seq<char>, GenErrorView>(
            "pub const "@ + fixed_id(uppercase(name)) + ": u32 = "@ + decimal(n as nat) + ";\n"@,
        ),
{
}

/// A property with no value or with several takes the general form.
pub proof fn law_several_values_fallback(tree: DeviceTreeView, p: PropertyView)
    requires
        p.value.len() != 1,
    ensures
        property_text(tree, p) == Ok::<Seq<char>, GenErrorView>(general_text(p)),
{
}

/// A property whose one value is a phandle lowers to a module, named after
/// the property, that re-exports the module of the node referred to, which
/// is found by that node's route.
pub proof fn law_phandle_reexport(
    tree: DeviceTreeView,
    name: Seq<char>,
    label: Seq<char>,
    target: NodeView,
)
    requires
        tree.resolve(label) == Some(target),
    ensures
        property_text(tree, PropertyView { name, value: seq![ValueView::Phandle(label)] }) == Ok::<
            Seq<char>,
            GenErrorView,
        >(
            "pub mod "@ + fixed_id(name) + " {\npub use "@ + route_path(target.route)
                + "::*;\n}\n"@,
        ),
{
}

/// The module path of a route nests as the generated modules do: the path
/// of a child's route is that of its parent's, `::` and the child's
/// sanitized name.
pub proof fn law_route_nests(route: Seq<Seq<char>>, name: Seq<char>)
    ensures
        route_path(route.push(name)) == route_path(route) + "::"@ + fixed_id(name),
        route_path(Seq::empty()) == "crate::devicetree"@,
{
    assert(route.push(name).drop_last() =~= route);
}

} // verus!
