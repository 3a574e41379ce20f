//! The devicetree as the build sees it: nodes with their properties, the
//! labels that name them, and the queries that the code generator asks.
//!
//! Every executable type has a mathematical view (`WordView`, `ValueView`,
//! `PropertyView`, `NodeView`, `DeviceTreeView`); the contracts of the whole
//! front end are stated over those views.
//!
//! What can fail comes in two forms. `parse`, `to_tokens` and the like ask
//! by `requires` for input that fits, and return what they build. Their
//! companions `try_parse`, `try_to_tokens` and the like take any input and
//! say in their error what does not fit, and where.

use vstd::prelude::*;
use vstd::string::StringExecFns;
use crate::devicetree::ordmap::{index_of, lines_of, OrdError, OrdErrorView, OrdMap};
use crate::devicetree::parse::{parsed, try_parse};
use crate::devicetree::syntax::{ParseError, ParseErrorView};
use crate::text::same_text;

pub mod augment;
pub mod grammar;
pub mod ordmap;
pub mod output;
pub mod parse;
pub mod shape;
pub mod syntax;

verus! {

/// Why generating code for a tree failed.
#[derive(Clone, Copy, Debug, PartialEq, Eq, Structural)]
pub enum GenErrorKind {
    /// A phandle names a label that leads to no node. The subject is the label.
    MissingPhandle,
    /// A node under `gpio-leds` has no `gpios` property whose one value is a
    /// `<...>` list. The subject is the node's path, as for the kinds below.
    MissingGpios,
    /// The `gpios` list does not start with a phandle.
    EmptyGpios,
    /// The controller's `#gpio-cells` is not 2.
    UnsupportedGpioCells,
    /// The `gpios` list does not hold exactly one phandle and two cells.
    GpiosArity,
    /// A cell after the phandle is no number.
    GpiosNotNumeric,
}

/// A failed generation: what went wrong, and the label or node path at which.
#[derive(Debug, PartialEq, Eq)]
pub struct GenError {
    pub kind: GenErrorKind,
    pub subject: String,
}

pub struct GenErrorView {
    pub kind: GenErrorKind,
    pub subject: Seq<char>,
}

impl View for GenError {
    type V = GenErrorView;

    open spec fn view(&self) -> GenErrorView {
        GenErrorView { kind: self.kind, subject: self.subject@ }
    }
}

impl GenError {
    pub fn new(kind: GenErrorKind, subject: &str) -> (r: GenError)
        ensures
            r@ == (GenErrorView { kind, subject: subject@ }),
    {
        GenError { kind, subject: subject.to_owned() }
    }

    /// A sentence that says what failed and where.
    pub fn message(&self) -> (r: String)
        ensures
            r@ == self@.message(),
    {
        let mut r = String::new();
        match self.kind {
            GenErrorKind::MissingPhandle => r.append("Missing phandle: "),
            GenErrorKind::MissingGpios => r.append("gpio-leds node without a gpios property: "),
            GenErrorKind::EmptyGpios => r.append("gpios property in node is empty: "),
            GenErrorKind::UnsupportedGpioCells => r.append(
                "gpios only support with #gpio-cells of 2: ",
            ),
            GenErrorKind::GpiosArity => r.append(
                "gpio-leds, gpios property expected to have only one entry: ",
            ),
            GenErrorKind::GpiosNotNumeric => r.append("gpios cell is not a number: "),
        }
        r.append(self.subject.as_str());
        assert(r@ =~= self@.message());
        r
    }
}

impl GenErrorView {
    pub open spec fn message(self) -> Seq<char> {
        (match self.kind {
            GenErrorKind::MissingPhandle => "Missing phandle: "@,
            GenErrorKind::MissingGpios => "gpio-leds node without a gpios property: "@,
            GenErrorKind::EmptyGpios => "gpios property in node is empty: "@,
            GenErrorKind::UnsupportedGpioCells => "gpios only support with #gpio-cells of 2: "@,
            GenErrorKind::GpiosArity => "gpio-leds, gpios property expected to have only one entry: "@,
            GenErrorKind::GpiosNotNumeric => "gpios cell is not a number: "@,
        }) + self.subject
    }
}

/// The view of a generator's result.
pub open spec fn text_result(r: Result<String, GenError>) -> Result<Seq<char>, GenErrorView> {
    match r {
        Ok(s) => Ok(s@),
        Err(e) => Err(e@),
    }
}

/// The view of a node that may be absent.
pub open spec fn opt_node_view(n: Option<&Node>) -> Option<NodeView> {
    match n {
        Some(n) => Some(n@),
        None => None,
    }
}

/// An unresolved reference to another node, by label.
#[derive(Debug, PartialEq, Eq)]
pub struct Phandle {
    pub name: String,
}

impl Phandle {
    pub fn new(name: String) -> (r: Phandle)
        ensures
            r.name@ == name@,
    {
        Phandle { name }
    }
}

/// One cell of a `<...>` list.
#[derive(Debug, PartialEq, Eq)]
pub enum Word {
    Number(u32),
    Phandle(Phandle),
}

pub enum WordView {
    Number(u32),
    Phandle(Seq<char>),
}

impl View for Word {
    type V = WordView;

    open spec fn view(&self) -> WordView {
        match self {
            Word::Number(n) => WordView::Number(*n),
            Word::Phandle(p) => WordView::Phandle(p.name@),
        }
    }
}

impl Word {
    /// The number in this cell, if it holds one.
    pub fn get_number(&self) -> (r: Option<u32>)
        ensures
            r == self@.number(),
    {
        match self {
            Word::Number(n) => Some(*n),
            Word::Phandle(_) => None,
        }
    }
}

impl WordView {
    pub open spec fn number(self) -> Option<u32> {
        match self {
            WordView::Number(n) => Some(n),
            WordView::Phandle(_) => None,
        }
    }
}

/// One value of a property.
#[derive(Debug, PartialEq, Eq)]
pub enum Value {
    Words(Vec<Word>),
    Bytes(Vec<u8>),
    Phandle(Phandle),
    String(String),
}

pub enum ValueView {
    Words(Seq<WordView>),
    Bytes(Seq<u8>),
    Phandle(Seq<char>),
    String(Seq<char>),
}

pub open spec fn words_view(ws: Seq<Word>) -> Seq<WordView> {
    ws.map_values(|w: Word| w@)
}

impl View for Value {
    type V = ValueView;

    open spec fn view(&self) -> ValueView {
        match self {
            Value::Words(ws) => ValueView::Words(words_view(ws@)),
            Value::Bytes(bs) => ValueView::Bytes(bs@),
            Value::Phandle(p) => ValueView::Phandle(p.name@),
            Value::String(s) => ValueView::String(s@),
        }
    }
}

pub open spec fn values_view(vs: Seq<Value>) -> Seq<ValueView> {
    vs.map_values(|v: Value| v@)
}

/// A named property with its values, in source order.
#[derive(Debug, PartialEq, Eq)]
pub struct Property {
    pub name: String,
    pub value: Vec<Value>,
}

pub struct PropertyView {
    pub name: Seq<char>,
    pub value: Seq<ValueView>,
}

impl View for Property {
    type V = PropertyView;

    open spec fn view(&self) -> PropertyView {
        PropertyView { name: self.name@, value: values_view(self.value@) }
    }
}

impl PropertyView {
    /// The sole value of the property; `None` where it has none or several.
    pub open spec fn single_value(self) -> Option<ValueView> {
        if self.value.len() == 1 {
            Some(self.value[0])
        } else {
            None
        }
    }
}

impl Property {
    /// The sole value of the property; `None` where it has none or several.
    pub fn get_single_value(&self) -> (r: Option<&Value>)
        ensures
            r matches Some(v) ==> self@.single_value() == Some(v@),
            r is None ==> self@.single_value() is None,
    {
        if self.value.len() == 1 {
            Some(&self.value[0])
        } else {
            None
        }
    }
}

pub open spec fn properties_view(ps: Seq<Property>) -> Seq<PropertyView> {
    ps.map_values(|p: Property| p@)
}

pub open spec fn strings_view(ss: Seq<String>) -> Seq<Seq<char>> {
    ss.map_values(|s: String| s@)
}

/// One node of the tree. `path` is the absolute path, `route` the names from
/// the root down to this node (empty for the root), `ord` the ordinal that
/// the index gives for `path`.
///
/// A node owns its children. The node above it is not part of it: the tree
/// finds it (`DeviceTree::parent_of`), and the code generator hands it to
/// the rules that ask for it.
#[derive(Debug, PartialEq, Eq)]
pub struct Node {
    pub name: String,
    pub path: String,
    pub route: Vec<String>,
    pub ord: usize,
    pub labels: Vec<String>,
    pub properties: Vec<Property>,
    pub children: Vec<Node>,
}

pub struct NodeView {
    pub name: Seq<char>,
    pub path: Seq<char>,
    pub route: Seq<Seq<char>>,
    pub ord: nat,
    pub labels: Seq<Seq<char>>,
    pub properties: Seq<PropertyView>,
    pub children: Seq<NodeView>,
}

pub open spec fn node_view(n: Node) -> NodeView
    decreases n,
{
    NodeView {
        name: n.name@,
        path: n.path@,
        route: strings_view(n.route@),
        ord: n.ord as nat,
        labels: strings_view(n.labels@),
        properties: properties_view(n.properties@),
        children: Seq::new(
            n.children.len() as nat,
            |i: int|
                if 0 <= i < n.children.len() {
                    node_view(n.children[i])
                } else {
                    arbitrary()
                },
        ),
    }
}

pub open spec fn nodes_view(ns: Seq<Node>) -> Seq<NodeView> {
    ns.map_values(|n: Node| node_view(n))
}

impl View for Node {
    type V = NodeView;

    open spec fn view(&self) -> NodeView {
        node_view(*self)
    }
}

/// The view of a node holds the views of its children, in order.
pub proof fn lemma_node_children(n: Node)
    ensures
        n@.children == nodes_view(n.children@),
        n@.children.len() == n.children.len(),
        forall|i: int| 0 <= i < n.children.len() ==> n@.children[i] == (#[trigger] n.children[i])@,
{
    assert(n@.children =~= nodes_view(n.children@));
}

/// The first index from `k` on at which a property is called `name`.
pub open spec fn first_named_from(ps: Seq<PropertyView>, name: Seq<char>, k: int) -> Option<int>
    decreases ps.len() - k,
{
    if k < 0 || k >= ps.len() {
        None
    } else if ps[k].name == name {
        Some(k)
    } else {
        first_named_from(ps, name, k + 1)
    }
}

impl NodeView {
    /// The values of the first property called `name`.
    pub open spec fn property(self, name: Seq<char>) -> Option<Seq<ValueView>> {
        match first_named_from(self.properties, name, 0) {
            Some(k) => Some(self.properties[k].value),
            None => None,
        }
    }

    pub open spec fn has_prop(self, name: Seq<char>) -> bool {
        self.property(name) is Some
    }

    /// The cells of the property, where its one value is a `<...>` list.
    pub open spec fn words(self, name: Seq<char>) -> Option<Seq<WordView>> {
        match self.property(name) {
            Some(vs) => if vs.len() == 1 {
                match vs[0] {
                    ValueView::Words(ws) => Some(ws),
                    _ => None,
                }
            } else {
                None
            },
            None => None,
        }
    }

    /// The number of the property, where its one value is a list of one number.
    pub open spec fn number(self, name: Seq<char>) -> Option<u32> {
        match self.words(name) {
            Some(ws) => if ws.len() == 1 {
                ws[0].number()
            } else {
                None
            },
            None => None,
        }
    }

    /// Whether the node's `compatible` property lists `name` among its strings.
    pub open spec fn is_compatible(self, name: Seq<char>) -> bool {
        match self.property("compatible"@) {
            Some(vs) => vs.contains(ValueView::String(name)),
            None => false,
        }
    }
}

impl Node {
    /// The values of the first property called `name`.
    pub fn get_property(&self, name: &str) -> (r: Option<&Vec<Value>>)
        ensures
            r matches Some(vs) ==> self@.property(name@) == Some(values_view(vs@)),
            r is None ==> self@.property(name@) is None,
    {
        let mut i: usize = 0;
        while i < self.properties.len()
            invariant
                i <= self.properties.len(),
                first_named_from(self@.properties, name@, 0) == first_named_from(
                    self@.properties,
                    name@,
                    i as int,
                ),
            decreases self.properties.len() - i,
        {
            if same_text(self.properties[i].name.as_str(), name) {
                return Some(&self.properties[i].value);
            }
            i = i + 1;
        }
        None
    }

    /// Whether the node has a property called `name`.
    pub fn has_prop(&self, name: &str) -> (r: bool)
        ensures
            r == self@.has_prop(name@),
    {
        self.get_property(name).is_some()
    }

    /// The cells of the property, where its one value is a `<...>` list.
    pub fn get_words(&self, name: &str) -> (r: Option<&Vec<Word>>)
        ensures
            r matches Some(ws) ==> self@.words(name@) == Some(words_view(ws@)),
            r is None ==> self@.words(name@) is None,
    {
        match self.get_property(name) {
            Some(vs) => {
                if vs.len() == 1 {
                    match &vs[0] {
                        Value::Words(ws) => Some(ws),
                        _ => None,
                    }
                } else {
                    None
                }
            },
            None => None,
        }
    }

    /// The number of the property, where its one value is a list of one number.
    pub fn get_number(&self, name: &str) -> (r: Option<u32>)
        ensures
            r == self@.number(name@),
    {
        match self.get_words(name) {
            Some(ws) => {
                if ws.len() == 1 {
                    ws[0].get_number()
                } else {
                    None
                }
            },
            None => None,
        }
    }

    /// Whether the node's `compatible` property lists `name` among its strings.
    pub fn is_compatible(&self, name: &str) -> (r: bool)
        ensures
            r == self@.is_compatible(name@),
    {
        match self.get_property("compatible") {
            Some(vs) => {
                let mut i: usize = 0;
                while i < vs.len()
                    invariant
                        i <= vs.len(),
                        self@.property("compatible"@) == Some(values_view(vs@)),
                        forall|j: int| 0 <= j < i ==> values_view(vs@)[j] != ValueView::String(name@),
                    decreases vs.len() - i,
                {
                    match &vs[i] {
                        Value::String(s) => {
                            if same_text(s.as_str(), name) {
                                assert(values_view(vs@)[i as int] == ValueView::String(name@));
                                assert(values_view(vs@).contains(ValueView::String(name@)));
                                return true;
                            }
                        },
                        _ => {},
                    }
                    i = i + 1;
                }
                false
            },
            None => false,
        }
    }
}

/// A declared label and the node that it decorates, given as the child
/// indices that lead from the root to that node.
#[derive(Debug, PartialEq, Eq)]
pub struct Label {
    pub name: String,
    pub target: Vec<usize>,
}

pub struct LabelView {
    pub name: Seq<char>,
    pub target: Seq<usize>,
}

impl View for Label {
    type V = LabelView;

    open spec fn view(&self) -> LabelView {
        LabelView { name: self.name@, target: self.target@ }
    }
}

pub open spec fn labels_view(ls: Seq<Label>) -> Seq<LabelView> {
    ls.map_values(|l: Label| l@)
}

/// The whole tree with its label table. The table is kept in the order in
/// which labels were declared; where a label occurs twice the later entry
/// counts.
#[derive(Debug, PartialEq, Eq)]
pub struct DeviceTree {
    pub root: Node,
    pub labels: Vec<Label>,
}

pub struct DeviceTreeView {
    pub root: NodeView,
    pub labels: Seq<LabelView>,
}

impl View for DeviceTree {
    type V = DeviceTreeView;

    open spec fn view(&self) -> DeviceTreeView {
        DeviceTreeView { root: self.root@, labels: labels_view(self.labels@) }
    }
}

/// The node reached from `root` by following the child indices `target`.
pub open spec fn node_at(root: NodeView, target: Seq<usize>) -> Option<NodeView>
    decreases target.len(),
{
    if target.len() == 0 {
        Some(root)
    } else if target[0] < root.children.len() {
        node_at(root.children[target[0] as int], target.drop_first())
    } else {
        None
    }
}

/// The index of the last entry called `name`.
pub open spec fn last_named(labels: Seq<LabelView>, name: Seq<char>) -> Option<int>
    decreases labels.len(),
{
    if labels.len() == 0 {
        None
    } else if labels.last().name == name {
        Some(labels.len() - 1)
    } else {
        last_named(labels.drop_last(), name)
    }
}

/// The labels of one node, each pointing at `at`.
pub open spec fn own_labels(names: Seq<Seq<char>>, at: Seq<usize>) -> Seq<LabelView> {
    names.map_values(|name: Seq<char>| LabelView { name, target: at })
}

/// The label entries that the subtree of `n`, which stands at `at`, declares:
/// those of its children first, child by child, then its own.
pub open spec fn declared_labels(n: NodeView, at: Seq<usize>) -> Seq<LabelView>
    decreases n, 0nat,
{
    children_labels(n.children, at, n.children.len()) + own_labels(n.labels, at)
}

/// The label entries that the first `k` of the children `cs` of the node at
/// `at` declare.
pub open spec fn children_labels(cs: Seq<NodeView>, at: Seq<usize>, k: nat) -> Seq<LabelView>
    decreases cs, k,
{
    if k == 0 || k > cs.len() {
        Seq::empty()
    } else {
        children_labels(cs, at, (k - 1) as nat) + declared_labels(
            cs[k - 1],
            at.push((k - 1) as usize),
        )
    }
}

impl DeviceTreeView {
    /// The node that `label` names: the target of the last entry of that name.
    pub open spec fn resolve(self, label: Seq<char>) -> Option<NodeView> {
        match last_named(self.labels, label) {
            Some(k) => node_at(self.root, self.labels[k].target),
            None => None,
        }
    }

    /// The node above the one that the child indices `target` lead to.
    pub open spec fn parent_of(self, target: Seq<usize>) -> Option<NodeView> {
        if target.len() > 0 && node_at(self.root, target) is Some {
            node_at(self.root, target.drop_last())
        } else {
            None
        }
    }

    /// The label table is the one that the tree itself declares.
    pub open spec fn labels_declared(self) -> bool {
        self.labels == declared_labels(self.root, Seq::empty())
    }
}

impl DeviceTree {
    /// The node reached from the root by following the child indices `target`.
    pub fn node_at(&self, target: &Vec<usize>) -> (r: Option<&Node>)
        ensures
            r matches Some(n) ==> node_at(self@.root, target@) == Some(n@),
            r is None ==> node_at(self@.root, target@) is None,
    {
        let mut cur: &Node = &self.root;
        let mut i: usize = 0;
        assert(target@.skip(0) =~= target@);
        while i < target.len()
            invariant
                i <= target.len(),
                node_at(self@.root, target@) == node_at(cur@, target@.skip(i as int)),
            decreases target.len() - i,
        {
            let k = target[i];
            proof {
                lemma_node_children(*cur);
                assert(target@.skip(i as int).drop_first() =~= target@.skip(i as int + 1));
            }
            if k < cur.children.len() {
                cur = &cur.children[k];
            } else {
                return None;
            }
            i = i + 1;
        }
        Some(cur)
    }

    /// The node above the one that the child indices `target` lead to;
    /// `None` for the root and where they lead nowhere.
    pub fn parent_of(&self, target: &Vec<usize>) -> (r: Option<&Node>)
        ensures
            r matches Some(n) ==> self@.parent_of(target@) == Some(n@),
            r is None ==> self@.parent_of(target@) is None,
    {
        if target.len() == 0 {
            return None;
        }
        if self.node_at(target).is_none() {
            return None;
        }
        let mut above: Vec<usize> = Vec::new();
        let mut i: usize = 0;
        while i < target.len() - 1
            invariant
                target.len() > 0,
                i <= target.len() - 1,
                above@ == target@.take(i as int),
            decreases target.len() - 1 - i,
        {
            above.push(target[i]);
            i = i + 1;
        }
        assert(above@ =~= target@.drop_last());
        self.node_at(&above)
    }

    /// The node that `label` names; `None` where no such label was declared
    /// or its entry leads nowhere.
    pub fn resolve(&self, label: &str) -> (r: Option<&Node>)
        ensures
            r matches Some(n) ==> self@.resolve(label@) == Some(n@),
            r is None ==> self@.resolve(label@) is None,
    {
        let mut i: usize = self.labels.len();
        assert(self@.labels.take(i as int) =~= self@.labels);
        while i > 0
            invariant
                i <= self.labels.len(),
                last_named(self@.labels, label@) == last_named(self@.labels.take(i as int), label@),
            decreases i,
        {
            proof {
                assert(self@.labels.take(i as int).drop_last() =~= self@.labels.take(i as int - 1));
            }
            if same_text(self.labels[i - 1].name.as_str(), label) {
                return self.node_at(&self.labels[i - 1].target);
            }
            i = i - 1;
        }
        None
    }
}

/// Why a devicetree could not be loaded.
#[derive(Debug, PartialEq, Eq)]
pub enum LoadError {
    /// The ordinal index is malformed.
    Index(OrdError),
    /// The source is malformed or does not fit the index.
    Source(ParseError),
}

pub enum LoadErrorView {
    Index(OrdErrorView),
    Source(ParseErrorView),
}

impl View for LoadError {
    type V = LoadErrorView;

    open spec fn view(&self) -> LoadErrorView {
        match self {
            LoadError::Index(e) => LoadErrorView::Index(e@),
            LoadError::Source(e) => LoadErrorView::Source(e@),
        }
    }
}

impl LoadError {
    /// A sentence that says what failed and where.
    pub fn message(&self) -> (r: String)
        ensures
            r@ == (match self@ {
                LoadErrorView::Index(e) => e.message(),
                LoadErrorView::Source(e) => e.message(),
            }),
    {
        match self {
            LoadError::Index(e) => e.message(),
            LoadError::Source(e) => e.message(),
        }
    }
}

/// The tree that a source and the lines of its ordinal index stand for.
pub open spec fn loaded(dts: Seq<char>, dt_gen: Seq<String>) -> Result<DeviceTreeView, LoadErrorView> {
    match index_of(lines_of(dt_gen)) {
        Err(e) => Err(LoadErrorView::Index(e)),
        Ok(ords) => match parsed(dts, ords) {
            Ok(tree) => Ok(tree),
            Err(e) => Err(LoadErrorView::Source(e)),
        },
    }
}

impl DeviceTree {
    /// Builds the devicetree from the text of `zephyr.dts` and the lines of
    /// `devicetree_generated.h`, where the two are well formed and fit
    /// together.
    pub fn new(dts: &str, dt_gen: &Vec<String>) -> (r: DeviceTree)
        requires
            loaded(dts@, dt_gen@) is Ok,
        ensures
            r@ == loaded(dts@, dt_gen@)->Ok_0,
    {
        DeviceTree::try_new(dts, dt_gen).unwrap()
    }

    /// Builds the devicetree from the text of `zephyr.dts` and the lines of
    /// `devicetree_generated.h`, or says why it cannot be built.
    pub fn try_new(dts: &str, dt_gen: &Vec<String>) -> (r: Result<DeviceTree, LoadError>)
        ensures
            match r {
                Ok(tree) => loaded(dts@, dt_gen@) == Ok::<DeviceTreeView, LoadErrorView>(tree@),
                Err(e) => loaded(dts@, dt_gen@) == Err::<DeviceTreeView, LoadErrorView>(e@),
            },
    {
        let ords = match OrdMap::try_new(dt_gen) {
            Ok(ords) => ords,
            Err(e) => {
                return Err(LoadError::Index(e));
            },
        };
        match try_parse(dts, &ords) {
            Ok(tree) => Ok(tree),
            Err(e) => Err(LoadError::Source(e)),
        }
    }
}

/// No node of the subtree has more children than can be counted.
pub open spec fn countable(n: NodeView) -> bool
    decreases n,
{
    &&& n.children.len() <= usize::MAX
    &&& forall|i: int| 0 <= i < n.children.len() ==> countable(#[trigger] n.children[i])
}

/// The view of a node of the program is countable.
pub proof fn lemma_node_countable(n: Node)
    ensures
        countable(n@),
    decreases n,
{
    lemma_node_children(n);
    assert forall|i: int| 0 <= i < n@.children.len() implies countable(#[trigger] n@.children[i]) by {
        lemma_node_countable(n.children[i]);
    }
}

/// The entry leads to a node of the tree below `root` that carries the
/// entry's label.
pub open spec fn leads(root: NodeView, entry: LabelView) -> bool {
    node_at(root, entry.target) matches Some(n) && n.labels.contains(entry.name)
}

/// One more step down from a node that was reached.
proof fn lemma_node_at_push(root: NodeView, at: Seq<usize>, i: usize)
    requires
        node_at(root, at) is Some,
        i < node_at(root, at)->0.children.len(),
    ensures
        node_at(root, at.push(i)) == Some(node_at(root, at)->0.children[i as int]),
    decreases at.len(),
{
    let longer = at.push(i);
    if at.len() == 0 {
        assert(longer.drop_first() =~= Seq::<usize>::empty());
        assert(longer[0] == i);
        assert(node_at(root.children[i as int], longer.drop_first()) == Some(
            root.children[i as int],
        ));
    } else {
        assert(longer.drop_first() =~= at.drop_first().push(i));
        assert(longer[0] == at[0]);
        lemma_node_at_push(root.children[at[0] as int], at.drop_first(), i);
    }
}

proof fn lemma_declared_lead(root: NodeView, n: NodeView, at: Seq<usize>)
    requires
        node_at(root, at) == Some(n),
        countable(n),
    ensures
        forall|k: int|
            0 <= k < declared_labels(n, at).len() ==> leads(root, #[trigger] declared_labels(n, at)[k]),
    decreases n, 0nat,
{
    lemma_children_lead(root, n, at, n.children.len());
    let below = children_labels(n.children, at, n.children.len());
    let own = own_labels(n.labels, at);
    assert forall|k: int| 0 <= k < declared_labels(n, at).len() implies leads(
        root,
        #[trigger] declared_labels(n, at)[k],
    ) by {
        if k < below.len() {
            assert(declared_labels(n, at)[k] == below[k]);
        } else {
            let j = k - below.len();
            assert(declared_labels(n, at)[k] == own[j]);
            assert(n.labels[j] == own[j].name);
        }
    }
}

proof fn lemma_children_lead(root: NodeView, n: NodeView, at: Seq<usize>, k: nat)
    requires
        node_at(root, at) == Some(n),
        countable(n),
        k <= n.children.len(),
    ensures
        forall|j: int|
            0 <= j < children_labels(n.children, at, k).len() ==> leads(
                root,
                #[trigger] children_labels(n.children, at, k)[j],
            ),
    decreases n.children, k,
{
    if k > 0 {
        let i = (k - 1) as usize;
        lemma_children_lead(root, n, at, (k - 1) as nat);
        lemma_node_at_push(root, at, i);
        lemma_declared_lead(root, n.children[k - 1], at.push(i));
        let before = children_labels(n.children, at, (k - 1) as nat);
        let added = declared_labels(n.children[k - 1], at.push(i));
        assert forall|j: int| 0 <= j < children_labels(n.children, at, k).len() implies leads(
            root,
            #[trigger] children_labels(n.children, at, k)[j],
        ) by {
            if j < before.len() {
                assert(children_labels(n.children, at, k)[j] == before[j]);
            } else {
                assert(children_labels(n.children, at, k)[j] == added[j - before.len()]);
            }
        }
    }
}

/// The index of the last entry called `name`, where there is one, is the
/// index of an entry called `name`.
proof fn lemma_last_named(labels: Seq<LabelView>, name: Seq<char>)
    ensures
        last_named(labels, name) matches Some(k) ==> 0 <= k < labels.len() && labels[k].name == name,
    decreases labels.len(),
{
    if labels.len() > 0 && labels.last().name != name {
        lemma_last_named(labels.drop_last(), name);
    }
}

/// An entry called `name` makes the name resolve to some entry.
proof fn lemma_named_is_found(labels: Seq<LabelView>, name: Seq<char>, k: int)
    requires
        0 <= k < labels.len(),
        labels[k].name == name,
    ensures
        last_named(labels, name) is Some,
    decreases labels.len(),
{
    if labels.last().name != name {
        lemma_named_is_found(labels.drop_last(), name, k);
    }
}

/// Labels lead to their nodes: in a tree whose label table is the one that
/// the tree declares, every entry leads to a node that carries the entry's
/// label, and a label resolves to a node that carries it.
pub proof fn law_labels_lead_to_their_nodes(tree: DeviceTreeView, label: Seq<char>)
    requires
        tree.labels_declared(),
        countable(tree.root),
    ensures
        forall|k: int| 0 <= k < tree.labels.len() ==> leads(tree.root, #[trigger] tree.labels[k]),
        tree.resolve(label) matches Some(n) ==> n.labels.contains(label),
        (exists|k: int| 0 <= k < tree.labels.len() && (#[trigger] tree.labels[k]).name == label)
            ==> tree.resolve(label) is Some,
{
    lemma_declared_lead(tree.root, tree.root, Seq::empty());
    lemma_last_named(tree.labels, label);
    if exists|k: int| 0 <= k < tree.labels.len() && (#[trigger] tree.labels[k]).name == label {
        let k = choose|k: int| 0 <= k < tree.labels.len() && (#[trigger] tree.labels[k]).name == label;
        lemma_named_is_found(tree.labels, label, k);
    }
    match last_named(tree.labels, label) {
        Some(k) => {
            assert(leads(tree.root, tree.labels[k]));
        },
        None => {},
    }
}

} // verus!
