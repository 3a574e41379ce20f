//! Building the devicetree from the syntax tree of its source.
//!
//! Every node is resolved against the ordinal index by its absolute path;
//! a node whose path the index does not know makes the whole build fail.

use vstd::prelude::*;
use vstd::string::StringExecFns;
use vstd::string::StrSliceExecFns;
use crate::devicetree::ordmap::{lookup, OrdMap};
use crate::devicetree::syntax::{
    failure, lemma_pair_inner, Pair, PairView, ParseError, ParseErrorKind, ParseErrorView, Rule,
};
use crate::devicetree::grammar::{parsed_source, Dts};
use crate::devicetree::{
    children_labels, declared_labels, labels_view, lemma_node_children, node_at, nodes_view,
    own_labels, properties_view, strings_view, values_view, words_view, DeviceTree,
    DeviceTreeView, Label, Node, NodeView, Phandle, Property, PropertyView, Value,
    ValueView, Word, WordView,
};
use crate::text::{
    chars_of, digit_of, digits_value, parse_unsigned, same_text, string_of, unsigned_value,
};

verus! {

/// The cell that a piece of a `<...>` list stands for: a number in
/// hexadecimal after its two-character prefix, a number in decimal, or a
/// phandle after its sigil. A number must fit 32 bits.
pub open spec fn decoded_word(p: PairView) -> Result<WordView, ParseErrorView> {
    match p.rule {
        Rule::HexNumber => if p.text.len() < 2 {
            Err(failure(ParseErrorKind::BadNumber, p.text))
        } else {
            match unsigned_value(p.text.skip(2), 16, 0xffff_ffff) {
                Some(n) => Ok(WordView::Number(n as u32)),
                None => Err(failure(ParseErrorKind::BadNumber, p.text)),
            }
        },
        Rule::DecimalNumber => match unsigned_value(p.text, 10, 0xffff_ffff) {
            Some(n) => Ok(WordView::Number(n as u32)),
            None => Err(failure(ParseErrorKind::BadNumber, p.text)),
        },
        Rule::Phandle => if p.text.len() < 1 {
            Err(failure(ParseErrorKind::BadPhandle, p.text))
        } else {
            Ok(WordView::Phandle(p.text.skip(1)))
        },
        _ => Err(failure(ParseErrorKind::UnexpectedRule, p.text)),
    }
}

/// The cells of the first `k` pieces; the first failure wins.
pub open spec fn words_upto(inner: Seq<PairView>, k: nat) -> Result<Seq<WordView>, ParseErrorView>
    decreases k,
{
    if k == 0 || k > inner.len() {
        Ok(Seq::empty())
    } else {
        match words_upto(inner, (k - 1) as nat) {
            Err(e) => Err(e),
            Ok(ws) => match decoded_word(inner[k - 1]) {
                Ok(w) => Ok(ws.push(w)),
                Err(e) => Err(e),
            },
        }
    }
}

/// The cells of a `<...>` list, in order.
pub open spec fn decoded_words(p: PairView) -> Result<Seq<WordView>, ParseErrorView> {
    words_upto(p.inner, p.inner.len())
}

/// The byte that a piece of a `[...]` list stands for: the number that its
/// two hexadecimal digits write.
pub open spec fn decoded_byte(p: PairView) -> Result<u8, ParseErrorView> {
    match p.rule {
        Rule::PlainHexNumber => if p.text.len() == 2 {
            match digits_value(p.text, 16) {
                Some(n) => Ok(n as u8),
                None => Err(failure(ParseErrorKind::BadNumber, p.text)),
            }
        } else {
            Err(failure(ParseErrorKind::BadNumber, p.text))
        },
        _ => Err(failure(ParseErrorKind::UnexpectedRule, p.text)),
    }
}

/// Two characters that do not start with a sign are read as a number
/// exactly where both are digits, and the number is below the square of the
/// radix.
proof fn lemma_two_digits(s: Seq<char>, radix: nat)
    requires
        s.len() == 2,
        radix >= 2,
        s[0] != '+',
    ensures
        unsigned_value(s, radix, (radix * radix - 1) as nat) == digits_value(s, radix),
{
    reveal_with_fuel(digits_value, 3);
    let one = s.drop_last();
    assert(one.drop_last() =~= Seq::<char>::empty());
    assert(one.last() == s[0]);
    match (digit_of(s[0], radix), digit_of(s[1], radix)) {
        (Some(a), Some(b)) => {
            assert(a * radix + b <= radix * radix - 1) by (nonlinear_arith)
                requires
                    a < radix,
                    b < radix,
            ;
            let none = one.drop_last();
            assert(digits_value(none, radix) == Some(0nat));
            assert(0 * radix + a == a) by (nonlinear_arith);
            assert(digits_value(one, radix) == Some((0 * radix + a) as nat));
            assert(digits_value(s, radix) == Some(a * radix + b));
        },
        _ => {},
    }
}

/// A sign is no digit.
proof fn lemma_sign_is_no_digit(s: Seq<char>, radix: nat)
    requires
        s.len() == 2,
        s[0] == '+',
        radix <= 36,
    ensures
        digits_value(s, radix) is None,
{
    reveal_with_fuel(digits_value, 3);
    let one = s.drop_last();
    assert(one.drop_last() =~= Seq::<char>::empty());
    assert(one.last() == s[0]);
    assert(digit_of(s[0], radix) is None);
    assert(digits_value(one, radix) is None);
}

/// The bytes of the first `k` pieces; the first failure wins.
pub open spec fn bytes_upto(inner: Seq<PairView>, k: nat) -> Result<Seq<u8>, ParseErrorView>
    decreases k,
{
    if k == 0 || k > inner.len() {
        Ok(Seq::empty())
    } else {
        match bytes_upto(inner, (k - 1) as nat) {
            Err(e) => Err(e),
            Ok(bs) => match decoded_byte(inner[k - 1]) {
                Ok(b) => Ok(bs.push(b)),
                Err(e) => Err(e),
            },
        }
    }
}

/// The bytes of a `[...]` list, in order.
pub open spec fn decoded_bytes(p: PairView) -> Result<Seq<u8>, ParseErrorView> {
    bytes_upto(p.inner, p.inner.len())
}

/// A property while it is being read: its name, once seen, and its values so
/// far.
pub struct PropertyParts {
    pub name: Option<Seq<char>>,
    pub value: Seq<ValueView>,
}

/// What one piece of a property clause adds: a name replaces the name, a
/// value is appended. A string loses its two quotes, a phandle its sigil.
pub open spec fn property_step(parts: PropertyParts, p: PairView) -> Result<
    PropertyParts,
    ParseErrorView,
> {
    match p.rule {
        Rule::Nodename => Ok(PropertyParts { name: Some(p.text), value: parts.value }),
        Rule::Words => match decoded_words(p) {
            Ok(ws) => Ok(
                PropertyParts { name: parts.name, value: parts.value.push(ValueView::Words(ws)) },
            ),
            Err(e) => Err(e),
        },
        Rule::Phandle => if p.text.len() < 1 {
            Err(failure(ParseErrorKind::BadPhandle, p.text))
        } else {
            Ok(
                PropertyParts {
                    name: parts.name,
                    value: parts.value.push(ValueView::Phandle(p.text.skip(1))),
                },
            )
        },
        Rule::String => if p.text.len() < 2 {
            Err(failure(ParseErrorKind::BadString, p.text))
        } else {
            Ok(
                PropertyParts {
                    name: parts.name,
                    value: parts.value.push(
                        ValueView::String(p.text.subrange(1, p.text.len() - 1)),
                    ),
                },
            )
        },
        Rule::Bytes => match decoded_bytes(p) {
            Ok(bs) => Ok(
                PropertyParts { name: parts.name, value: parts.value.push(ValueView::Bytes(bs)) },
            ),
            Err(e) => Err(e),
        },
        _ => Err(failure(ParseErrorKind::UnexpectedRule, p.text)),
    }
}

/// The property after its first `k` pieces; the first failure wins.
pub open spec fn property_upto(inner: Seq<PairView>, k: nat) -> Result<
    PropertyParts,
    ParseErrorView,
>
    decreases k,
{
    if k == 0 || k > inner.len() {
        Ok(PropertyParts { name: None, value: Seq::empty() })
    } else {
        match property_upto(inner, (k - 1) as nat) {
            Err(e) => Err(e),
            Ok(parts) => property_step(parts, inner[k - 1]),
        }
    }
}

/// The property that a property clause stands for. It must have a name.
pub open spec fn decoded_property(p: PairView) -> Result<PropertyView, ParseErrorView> {
    match property_upto(p.inner, p.inner.len()) {
        Err(e) => Err(e),
        Ok(parts) => match parts.name {
            Some(name) => Ok(PropertyView { name, value: parts.value }),
            None => Err(failure(ParseErrorKind::MissingPropertyName, p.text)),
        },
    }
}

/// Decodes the cells of a `<...>` list.
pub fn try_decode_words(node: &Pair) -> (r: Result<Vec<Word>, ParseError>)
    ensures
        match r {
            Ok(ws) => decoded_words(node@) == Ok::<Seq<WordView>, ParseErrorView>(words_view(ws@)),
            Err(e) => decoded_words(node@) == Err::<Seq<WordView>, ParseErrorView>(e@),
        },
{
    proof {
        lemma_pair_inner(*node);
    }
    let mut value: Vec<Word> = Vec::new();
    let mut i: usize = 0;
    assert(words_view(value@) =~= Seq::empty());
    while i < node.inner.len()
        invariant
            i <= node.inner.len(),
            node@.inner.len() == node.inner.len(),
            forall|j: int| 0 <= j < node.inner.len() ==> node@.inner[j] == (#[trigger] node.inner[j])@,
            words_upto(node@.inner, i as nat) == Ok::<Seq<WordView>, ParseErrorView>(
                words_view(value@),
            ),
        decreases node.inner.len() - i,
    {
        let pair = &node.inner[i];
        let ghost before = words_view(value@);
        let word = match pair.rule {
            Rule::HexNumber => {
                let chars = chars_of(pair.text.as_str());
                if chars.len() < 2 {
                    proof {
                        lemma_words_fail(node@.inner, i as nat + 1);
                    }
                    return Err(ParseError::new(ParseErrorKind::BadNumber, pair.text.as_str()));
                }
                let digits = string_of(&chars, 2, chars.len());
                assert(digits@ =~= pair@.text.skip(2));
                match parse_unsigned(digits.as_str(), 16, 0xffff_ffff) {
                    Some(num) => Word::Number(num as u32),
                    None => {
                        proof {
                            lemma_words_fail(node@.inner, i as nat + 1);
                        }
                        return Err(ParseError::new(ParseErrorKind::BadNumber, pair.text.as_str()));
                    },
                }
            },
            Rule::DecimalNumber => {
                match parse_unsigned(pair.text.as_str(), 10, 0xffff_ffff) {
                    Some(num) => Word::Number(num as u32),
                    None => {
                        proof {
                            lemma_words_fail(node@.inner, i as nat + 1);
                        }
                        return Err(ParseError::new(ParseErrorKind::BadNumber, pair.text.as_str()));
                    },
                }
            },
            Rule::Phandle => {
                let chars = chars_of(pair.text.as_str());
                if chars.len() < 1 {
                    proof {
                        lemma_words_fail(node@.inner, i as nat + 1);
                    }
                    return Err(ParseError::new(ParseErrorKind::BadPhandle, pair.text.as_str()));
                }
                let label = string_of(&chars, 1, chars.len());
                assert(label@ =~= pair@.text.skip(1));
                Word::Phandle(Phandle::new(label))
            },
            _ => {
                proof {
                    lemma_words_fail(node@.inner, i as nat + 1);
                }
                return Err(ParseError::new(ParseErrorKind::UnexpectedRule, pair.text.as_str()));
            },
        };
        assert(decoded_word(pair@) == Ok::<WordView, ParseErrorView>(word@));
        value.push(word);
        i = i + 1;
        assert(words_view(value@) =~= before.push(word@));
    }
    Ok(value)
}

/// Decodes the cells of a `<...>` list that holds nothing but cells, each
/// number fitting 32 bits.
pub fn decode_words(node: &Pair) -> (r: Vec<Word>)
    requires
        decoded_words(node@) is Ok,
    ensures
        words_view(r@) == decoded_words(node@)->Ok_0,
{
    try_decode_words(node).unwrap()
}

/// Once the cells fail, they stay failed.
proof fn lemma_words_fail(inner: Seq<PairView>, k: nat)
    requires
        k <= inner.len(),
        words_upto(inner, k) is Err,
    ensures
        words_upto(inner, inner.len()) == words_upto(inner, k),
    decreases inner.len() - k,
{
    if k < inner.len() {
        lemma_words_fail(inner, k + 1);
    }
}

/// Decodes the bytes of a `[...]` list.
pub fn try_decode_bytes(node: &Pair) -> (r: Result<Vec<u8>, ParseError>)
    ensures
        match r {
            Ok(bs) => decoded_bytes(node@) == Ok::<Seq<u8>, ParseErrorView>(bs@),
            Err(e) => decoded_bytes(node@) == Err::<Seq<u8>, ParseErrorView>(e@),
        },
{
    proof {
        lemma_pair_inner(*node);
    }
    let mut value: Vec<u8> = Vec::new();
    let mut i: usize = 0;
    while i < node.inner.len()
        invariant
            i <= node.inner.len(),
            node@.inner.len() == node.inner.len(),
            forall|j: int| 0 <= j < node.inner.len() ==> node@.inner[j] == (#[trigger] node.inner[j])@,
            bytes_upto(node@.inner, i as nat) == Ok::<Seq<u8>, ParseErrorView>(value@),
        decreases node.inner.len() - i,
    {
        let pair = &node.inner[i];
        match pair.rule {
            Rule::PlainHexNumber => {
                let chars = chars_of(pair.text.as_str());
                if chars.len() != 2 || chars[0] == '+' {
                    proof {
                        if chars.len() == 2 {
                            lemma_sign_is_no_digit(pair@.text, 16);
                        }
                        lemma_bytes_fail(node@.inner, i as nat + 1);
                    }
                    return Err(ParseError::new(ParseErrorKind::BadNumber, pair.text.as_str()));
                }
                proof {
                    lemma_two_digits(pair@.text, 16);
                }
                match parse_unsigned(pair.text.as_str(), 16, 0xff) {
                    Some(num) => {
                        value.push(num as u8);
                    },
                    None => {
                        proof {
                            lemma_bytes_fail(node@.inner, i as nat + 1);
                        }
                        return Err(ParseError::new(ParseErrorKind::BadNumber, pair.text.as_str()));
                    },
                }
            },
            _ => {
                proof {
                    lemma_bytes_fail(node@.inner, i as nat + 1);
                }
                return Err(ParseError::new(ParseErrorKind::UnexpectedRule, pair.text.as_str()));
            },
        }
        i = i + 1;
    }
    Ok(value)
}

/// Decodes the bytes of a `[...]` list that holds nothing but bytes.
pub fn decode_bytes(node: &Pair) -> (r: Vec<u8>)
    requires
        decoded_bytes(node@) is Ok,
    ensures
        r@ == decoded_bytes(node@)->Ok_0,
{
    try_decode_bytes(node).unwrap()
}

/// Once the bytes fail, they stay failed.
proof fn lemma_bytes_fail(inner: Seq<PairView>, k: nat)
    requires
        k <= inner.len(),
        bytes_upto(inner, k) is Err,
    ensures
        bytes_upto(inner, inner.len()) == bytes_upto(inner, k),
    decreases inner.len() - k,
{
    if k < inner.len() {
        lemma_bytes_fail(inner, k + 1);
    }
}

/// Once a property fails, it stays failed.
proof fn lemma_property_fail(inner: Seq<PairView>, k: nat)
    requires
        k <= inner.len(),
        property_upto(inner, k) is Err,
    ensures
        property_upto(inner, inner.len()) == property_upto(inner, k),
    decreases inner.len() - k,
{
    if k < inner.len() {
        lemma_property_fail(inner, k + 1);
    }
}

/// Decodes a property clause.
pub fn try_decode_property(node: &Pair) -> (r: Result<Property, ParseError>)
    ensures
        match r {
            Ok(p) => decoded_property(node@) == Ok::<PropertyView, ParseErrorView>(p@),
            Err(e) => decoded_property(node@) == Err::<PropertyView, ParseErrorView>(e@),
        },
{
    proof {
        lemma_pair_inner(*node);
    }
    let mut name: Option<String> = None;
    let mut value: Vec<Value> = Vec::new();
    let mut i: usize = 0;
    assert(values_view(value@) =~= Seq::empty());
    while i < node.inner.len()
        invariant
            i <= node.inner.len(),
            node@.inner.len() == node.inner.len(),
            forall|j: int| 0 <= j < node.inner.len() ==> node@.inner[j] == (#[trigger] node.inner[j])@,
            property_upto(node@.inner, i as nat) == Ok::<PropertyParts, ParseErrorView>(
                PropertyParts {
                    name: match name {
                        Some(n) => Some(n@),
                        None => None,
                    },
                    value: values_view(value@),
                },
            ),
        decreases node.inner.len() - i,
    {
        let pair = &node.inner[i];
        let ghost before = values_view(value@);
        match pair.rule {
            Rule::Nodename => {
                name = Some(pair.text.clone());
            },
            Rule::Words => {
                match try_decode_words(pair) {
                    Ok(ws) => {
                        value.push(Value::Words(ws));
                        assert(values_view(value@) =~= before.push(ValueView::Words(words_view(ws@))));
                    },
                    Err(e) => {
                        proof {
                            lemma_property_fail(node@.inner, i as nat + 1);
                        }
                        return Err(e);
                    },
                }
            },
            Rule::Phandle => {
                let chars = chars_of(pair.text.as_str());
                if chars.len() < 1 {
                    proof {
                        lemma_property_fail(node@.inner, i as nat + 1);
                    }
                    return Err(ParseError::new(ParseErrorKind::BadPhandle, pair.text.as_str()));
                }
                let label = string_of(&chars, 1, chars.len());
                assert(label@ =~= pair@.text.skip(1));
                value.push(Value::Phandle(Phandle::new(label)));
                assert(values_view(value@) =~= before.push(ValueView::Phandle(label@)));
            },
            Rule::String => {
                let chars = chars_of(pair.text.as_str());
                if chars.len() < 2 {
                    proof {
                        lemma_property_fail(node@.inner, i as nat + 1);
                    }
                    return Err(ParseError::new(ParseErrorKind::BadString, pair.text.as_str()));
                }
                let text = string_of(&chars, 1, chars.len() - 1);
                value.push(Value::String(text));
                assert(values_view(value@) =~= before.push(ValueView::String(text@)));
            },
            Rule::Bytes => {
                match try_decode_bytes(pair) {
                    Ok(bs) => {
                        value.push(Value::Bytes(bs));
                        assert(values_view(value@) =~= before.push(ValueView::Bytes(bs@)));
                    },
                    Err(e) => {
                        proof {
                            lemma_property_fail(node@.inner, i as nat + 1);
                        }
                        return Err(e);
                    },
                }
            },
            _ => {
                proof {
                    lemma_property_fail(node@.inner, i as nat + 1);
                }
                return Err(ParseError::new(ParseErrorKind::UnexpectedRule, pair.text.as_str()));
            },
        }
        i = i + 1;
    }
    match name {
        Some(name) => Ok(Property { name, value }),
        None => Err(ParseError::new(ParseErrorKind::MissingPropertyName, node.text.as_str())),
    }
}

/// Decodes a property clause that holds a name and well-formed values.
pub fn decode_property(node: &Pair) -> (r: Property)
    requires
        decoded_property(node@) is Ok,
    ensures
        r@ == decoded_property(node@)->Ok_0,
{
    try_decode_property(node).unwrap()
}

/// The path of the node called `name` below the node at `parent`: a slash
/// separates the two, but below the root `/`, whose children are `/name`.
pub open spec fn child_path(parent: Seq<char>, name: Seq<char>) -> Seq<char> {
    if parent == "/"@ {
        parent + name
    } else {
        parent + "/"@ + name
    }
}

/// The path of the node called `name` below the node at `parent`.
pub fn path_below(parent: &str, name: &str) -> (r: String)
    ensures
        r@ == child_path(parent@, name@),
{
    let mut path = parent.to_owned();
    if !same_text(parent, "/") {
        path.append("/");
    }
    path.append(name);
    assert(path@ =~= child_path(parent@, name@));
    path
}

/// What is known of a node once its name is: the name, the absolute path and
/// the ordinal that the index gives for the path.
pub struct Info {
    pub name: String,
    pub path: String,
    pub ord: usize,
}

pub struct InfoView {
    pub name: Seq<char>,
    pub path: Seq<char>,
    pub ord: nat,
}

impl View for Info {
    type V = InfoView;

    open spec fn view(&self) -> InfoView {
        InfoView { name: self.name@, path: self.path@, ord: self.ord as nat }
    }
}

/// A node's identity while its body is being read: the path and route of the
/// node above it and, from the moment its name is seen, its own `Info`. The
/// root needs no name: it is `/` from the start.
pub struct LazyName<'a, 'b> {
    pub path: &'a str,
    pub route: Vec<String>,
    pub ords: &'b OrdMap,
    pub info: Option<Info>,
}

pub struct LazyNameView {
    pub path: Seq<char>,
    pub route: Seq<Seq<char>>,
    pub ords: Map<Seq<char>, usize>,
    pub info: Option<InfoView>,
}

impl<'a, 'b> View for LazyName<'a, 'b> {
    type V = LazyNameView;

    open spec fn view(&self) -> LazyNameView {
        LazyNameView {
            path: self.path@,
            route: strings_view(self.route@),
            ords: self.ords@,
            info: match self.info {
                Some(info) => Some(info@),
                None => None,
            },
        }
    }
}

/// The identity with which the reading of a node's body starts. An empty
/// parent path marks the root, whose ordinal the index must hold under `/`.
pub open spec fn lazy_new(path: Seq<char>, route: Seq<Seq<char>>, ords: Map<Seq<char>, usize>) -> Result<
    LazyNameView,
    ParseErrorView,
> {
    if path.len() == 0 {
        match lookup(ords, "/"@) {
            Some(ord) => Ok(
                LazyNameView {
                    path,
                    route,
                    ords,
                    info: Some(InfoView { name: "/"@, path: "/"@, ord: ord as nat }),
                },
            ),
            None => Err(failure(ParseErrorKind::MissingOrdinal, "/"@)),
        }
    } else {
        Ok(LazyNameView { path, route, ords, info: None })
    }
}

/// The identity after the name `name` was seen. A second name is refused, and
/// so is a path that the index does not hold.
pub open spec fn lazy_set(s: LazyNameView, name: Seq<char>, ords: Map<Seq<char>, usize>) -> Result<
    LazyNameView,
    ParseErrorView,
> {
    if s.info is Some {
        Err(failure(ParseErrorKind::MultipleNames, name))
    } else {
        match lookup(ords, child_path(s.path, name)) {
            Some(ord) => Ok(
                LazyNameView {
                    path: s.path,
                    route: s.route.push(name),
                    ords: s.ords,
                    info: Some(InfoView { name, path: child_path(s.path, name), ord: ord as nat }),
                },
            ),
            None => Err(failure(ParseErrorKind::MissingOrdinal, child_path(s.path, name))),
        }
    }
}

/// A copy of a list of strings.
pub fn copy_strings(v: &Vec<String>) -> (r: Vec<String>)
    ensures
        strings_view(r@) == strings_view(v@),
{
    let mut r: Vec<String> = Vec::new();
    let mut i: usize = 0;
    while i < v.len()
        invariant
            i <= v.len(),
            strings_view(r@) == strings_view(v@).take(i as int),
        decreases v.len() - i,
    {
        let ghost before = strings_view(r@);
        r.push(v[i].clone());
        i = i + 1;
        assert(strings_view(r@) =~= before.push(v[i - 1]@));
        assert(strings_view(r@) =~= strings_view(v@).take(i as int));
    }
    assert(strings_view(v@).take(i as int) =~= strings_view(v@));
    r
}

/// A copy of a list of indices.
pub fn copy_indices(v: &Vec<usize>) -> (r: Vec<usize>)
    ensures
        r@ == v@,
{
    let mut r: Vec<usize> = Vec::new();
    let mut i: usize = 0;
    while i < v.len()
        invariant
            i <= v.len(),
            r@ == v@.take(i as int),
        decreases v.len() - i,
    {
        r.push(v[i]);
        i = i + 1;
    }
    assert(v@.take(i as int) =~= v@);
    r
}

impl<'a, 'b> LazyName<'a, 'b> {
    /// Starts the reading of a node that stands below the node at `path`,
    /// which `route` leads to. An empty `path` starts the root, whose
    /// ordinal the index must hold under `/`.
    pub fn new(path: &'a str, route: Vec<String>, ords: &'b OrdMap) -> (r: LazyName<'a, 'b>)
        requires
            path@.len() == 0 ==> lookup(ords@, "/"@) is Some,
        ensures
            lazy_new(path@, strings_view(route@), ords@) == Ok::<LazyNameView, ParseErrorView>(r@),
            r.ords == ords,
    {
        if path.unicode_len() == 0 {
            let ord = ords.get("/").unwrap();
            LazyName {
                path,
                route,
                ords,
                info: Some(Info { name: "/".to_owned(), path: "/".to_owned(), ord }),
            }
        } else {
            LazyName { path, route, ords, info: None }
        }
    }

    /// Starts the reading of a node, or says that the index lacks the root.
    pub fn try_new(path: &'a str, route: Vec<String>, ords: &'b OrdMap) -> (r: Result<
        LazyName<'a, 'b>,
        ParseError,
    >)
        ensures
            match r {
                Ok(s) => lazy_new(path@, strings_view(route@), ords@) == Ok::<
                    LazyNameView,
                    ParseErrorView,
                >(s@) && s.ords == ords,
                Err(e) => lazy_new(path@, strings_view(route@), ords@) == Err::<
                    LazyNameView,
                    ParseErrorView,
                >(e@),
            },
    {
        if path.unicode_len() == 0 && ords.get("/").is_none() {
            Err(ParseError::new(ParseErrorKind::MissingOrdinal, "/"))
        } else {
            Ok(LazyName::new(path, route, ords))
        }
    }

    /// Records the node's name, now that it is known. The node must not have
    /// a name yet, and the index must hold its path.
    pub fn set(&mut self, name: String)
        requires
            old(self).info is None,
            lookup(old(self).ords@, child_path(old(self).path@, name@)) is Some,
        ensures
            final(self).ords == old(self).ords,
            lazy_set(old(self)@, name@, old(self).ords@) == Ok::<LazyNameView, ParseErrorView>(
                final(self)@,
            ),
    {
        let path = path_below(self.path, name.as_str());
        let ord = self.ords.get(path.as_str()).unwrap();
        let ghost before = strings_view(self.route@);
        self.route.push(name.clone());
        assert(strings_view(self.route@) =~= before.push(name@));
        self.info = Some(Info { name, path, ord });
    }

    /// Records the node's name, or says why it cannot be: the node has a
    /// name already, or the index lacks its path.
    pub fn try_set(&mut self, name: String) -> (r: Result<(), ParseError>)
        ensures
            final(self).ords == old(self).ords,
            match r {
                Ok(_) => lazy_set(old(self)@, name@, old(self).ords@) == Ok::<
                    LazyNameView,
                    ParseErrorView,
                >(final(self)@),
                Err(e) => lazy_set(old(self)@, name@, old(self).ords@) == Err::<
                    LazyNameView,
                    ParseErrorView,
                >(e@) && final(self)@ == old(self)@,
            },
    {
        if self.info.is_some() {
            return Err(ParseError::new(ParseErrorKind::MultipleNames, name.as_str()));
        }
        let path = path_below(self.path, name.as_str());
        if self.ords.get(path.as_str()).is_none() {
            return Err(ParseError::new(ParseErrorKind::MissingOrdinal, path.as_str()));
        }
        self.set(name);
        Ok(())
    }

    /// The node's absolute path.
    pub fn path_ref(&self) -> (r: &str)
        requires
            self.info is Some,
        ensures
            r@ == self@.info->0.path,
    {
        match &self.info {
            Some(info) => info.path.as_str(),
            None => "",
        }
    }

    /// The names from the root down to this node.
    pub fn route_ref(&self) -> (r: &Vec<String>)
        ensures
            strings_view(r@) == self@.route,
    {
        &self.route
    }

    /// The node's ordinal.
    pub fn ord(&self) -> (r: usize)
        requires
            self.info is Some,
        ensures
            r == self@.info->0.ord,
    {
        match &self.info {
            Some(info) => info.ord,
            None => 0,
        }
    }

    /// The node with its identity and nothing else: no labels, no properties,
    /// no children.
    pub fn into_node(self) -> (r: Node)
        requires
            self.info is Some,
        ensures
            r@ == bare_node(self@),
    {
        match self.info {
            Some(info) => {
                let r = Node {
                    name: info.name,
                    path: info.path,
                    route: self.route,
                    ord: info.ord,
                    labels: Vec::new(),
                    properties: Vec::new(),
                    children: Vec::new(),
                };
                proof {
                    lemma_node_children(r);
                    assert(r@.children =~= Seq::empty());
                    assert(r@.labels =~= Seq::empty());
                    assert(r@.properties =~= Seq::empty());
                }
                r
            },
            None => Node {
                name: String::new(),
                path: String::new(),
                route: self.route,
                ord: 0,
                labels: Vec::new(),
                properties: Vec::new(),
                children: Vec::new(),
            },
        }
    }
}

/// The node of a resolved identity, still empty.
pub open spec fn bare_node(s: LazyNameView) -> NodeView {
    NodeView {
        name: s.info->0.name,
        path: s.info->0.path,
        route: s.route,
        ord: s.info->0.ord,
        labels: Seq::empty(),
        properties: Seq::empty(),
        children: Seq::empty(),
    }
}

/// The identity after the names among the first `k` pieces of a body.
pub open spec fn names_upto(
    inner: Seq<PairView>,
    k: nat,
    start: LazyNameView,
    ords: Map<Seq<char>, usize>,
) -> Result<LazyNameView, ParseErrorView>
    decreases k,
{
    if k == 0 || k > inner.len() {
        Ok(start)
    } else {
        match names_upto(inner, (k - 1) as nat, start, ords) {
            Err(e) => Err(e),
            Ok(s) => if inner[k - 1].rule == Rule::Nodename {
                lazy_set(s, inner[k - 1].text, ords)
            } else {
                Ok(s)
            },
        }
    }
}

/// The identity of the node with the body `inner` below the node at `path`:
/// the one name in its body decides, wherever it stands there.
pub open spec fn identity(
    inner: Seq<PairView>,
    path: Seq<char>,
    route: Seq<Seq<char>>,
    ords: Map<Seq<char>, usize>,
) -> Result<LazyNameView, ParseErrorView> {
    match lazy_new(path, route, ords) {
        Err(e) => Err(e),
        Ok(start) => match names_upto(inner, inner.len(), start, ords) {
            Err(e) => Err(e),
            Ok(s) => if s.info is Some {
                Ok(s)
            } else {
                Err(failure(ParseErrorKind::MissingName, path))
            },
        },
    }
}

/// The node after the first `k` pieces of its body: a label is recorded, a
/// property decoded, a node inside built as a child. The first failure wins.
pub open spec fn body_upto(
    inner: Seq<PairView>,
    k: nat,
    id: LazyNameView,
    ords: Map<Seq<char>, usize>,
) -> Result<NodeView, ParseErrorView>
    decreases inner, k,
{
    if k == 0 || k > inner.len() {
        Ok(bare_node(id))
    } else {
        match body_upto(inner, (k - 1) as nat, id, ords) {
            Err(e) => Err(e),
            Ok(n) => match inner[k - 1].rule {
                Rule::Nodename => Ok(n),
                Rule::Label => Ok(NodeView { labels: n.labels.push(inner[k - 1].text), ..n }),
                Rule::Property => match decoded_property(inner[k - 1]) {
                    Ok(p) => Ok(NodeView { properties: n.properties.push(p), ..n }),
                    Err(e) => Err(e),
                },
                Rule::Node => match built_node(inner[k - 1], id.info->0.path, id.route, ords) {
                    Ok(c) => Ok(NodeView { children: n.children.push(c), ..n }),
                    Err(e) => Err(e),
                },
                _ => Err(failure(ParseErrorKind::UnexpectedRule, inner[k - 1].text)),
            },
        }
    }
}

/// The node that the piece `p` stands for, below the node at `path` that
/// `route` leads to. An empty `path` makes it the root.
pub open spec fn built_node(
    p: PairView,
    path: Seq<char>,
    route: Seq<Seq<char>>,
    ords: Map<Seq<char>, usize>,
) -> Result<NodeView, ParseErrorView>
    decreases p, 0nat,
{
    match identity(p.inner, path, route, ords) {
        Err(e) => Err(e),
        Ok(id) => body_upto(p.inner, p.inner.len(), id, ords),
    }
}

/// Once the names fail, they stay failed.
proof fn lemma_names_fail(
    inner: Seq<PairView>,
    k: nat,
    start: LazyNameView,
    ords: Map<Seq<char>, usize>,
)
    requires
        k <= inner.len(),
        names_upto(inner, k, start, ords) is Err,
    ensures
        names_upto(inner, inner.len(), start, ords) == names_upto(inner, k, start, ords),
    decreases inner.len() - k,
{
    if k < inner.len() {
        lemma_names_fail(inner, k + 1, start, ords);
    }
}

/// Once a body fails, it stays failed.
proof fn lemma_body_fail(inner: Seq<PairView>, k: nat, id: LazyNameView, ords: Map<Seq<char>, usize>)
    requires
        k <= inner.len(),
        body_upto(inner, k, id, ords) is Err,
    ensures
        body_upto(inner, inner.len(), id, ords) == body_upto(inner, k, id, ords),
    decreases inner.len() - k,
{
    if k < inner.len() {
        lemma_body_fail(inner, k + 1, id, ords);
    }
}

/// The labels of the first `k` children do not depend on the children after.
proof fn lemma_children_labels_prefix(cs: Seq<NodeView>, c: NodeView, at: Seq<usize>, k: nat)
    requires
        k <= cs.len(),
    ensures
        children_labels(cs.push(c), at, k) == children_labels(cs, at, k),
    decreases k,
{
    if k > 0 {
        lemma_children_labels_prefix(cs, c, at, (k - 1) as nat);
        assert(cs.push(c)[k - 1] == cs[k - 1]);
    }
}

/// Walks the syntax tree and collects the labels on the way.
pub struct TreeBuilder<'a> {
    pub ords: &'a OrdMap,
    /// All labels seen so far.
    pub labels: Vec<Label>,
}

impl<'a> TreeBuilder<'a> {
    pub fn new(ords: &'a OrdMap) -> (r: TreeBuilder<'a>)
        ensures
            r.ords == ords,
            r.labels@.len() == 0,
    {
        TreeBuilder { ords, labels: Vec::new() }
    }

    /// Builds the node that `node` stands for, below the node at `path` that
    /// `route` leads to, and records the labels of its subtree. `at` holds
    /// the child indices that lead from the root to the new node.
    pub fn try_walk_node(&mut self, node: &Pair, path: &str, route: &Vec<String>, at: &Vec<usize>) -> (r:
        Result<Node, ParseError>)
        ensures
            final(self).ords == old(self).ords,
            match r {
                Ok(n) => {
                    &&& built_node(node@, path@, strings_view(route@), old(self).ords@) == Ok::<
                        NodeView,
                        ParseErrorView,
                    >(n@)
                    &&& labels_view(final(self).labels@) == labels_view(old(self).labels@)
                        + declared_labels(n@, at@)
                },
                Err(e) => built_node(node@, path@, strings_view(route@), old(self).ords@) == Err::<
                    NodeView,
                    ParseErrorView,
                >(e@),
            },
        decreases node,
    {
        proof {
            lemma_pair_inner(*node);
        }
        let ghost ords = self.ords@;
        let ghost inner = node@.inner;
        let ghost labels0 = labels_view(self.labels@);
        let mut name = match LazyName::try_new(path, copy_strings(route), self.ords) {
            Ok(name) => name,
            Err(e) => {
                return Err(e);
            },
        };
        let ghost start = name@;
        let mut i: usize = 0;
        while i < node.inner.len()
            invariant
                i <= node.inner.len(),
                inner == node@.inner,
                inner.len() == node.inner.len(),
                forall|j: int| 0 <= j < node.inner.len() ==> inner[j] == (#[trigger] node.inner[j])@,
                name.ords == self.ords,
                ords == self.ords@,
                names_upto(inner, i as nat, start, ords) == Ok::<LazyNameView, ParseErrorView>(name@),
                lazy_new(path@, strings_view(route@), ords) == Ok::<LazyNameView, ParseErrorView>(
                    start,
                ),
            decreases node.inner.len() - i,
        {
            let pair = &node.inner[i];
            match pair.rule {
                Rule::Nodename => {
                    match name.try_set(pair.text.clone()) {
                        Ok(_) => {},
                        Err(e) => {
                            proof {
                                lemma_names_fail(inner, i as nat + 1, start, ords);
                            }
                            return Err(e);
                        },
                    }
                },
                _ => {},
            }
            i = i + 1;
        }
        if name.info.is_none() {
            return Err(ParseError::new(ParseErrorKind::MissingName, path));
        }
        let ghost id = name@;
        assert(identity(inner, path@, strings_view(route@), ords) == Ok::<
            LazyNameView,
            ParseErrorView,
        >(id));

        let mut labels: Vec<String> = Vec::new();
        let mut properties: Vec<Property> = Vec::new();
        let mut children: Vec<Node> = Vec::new();
        assert(strings_view(labels@) =~= Seq::empty());
        assert(properties_view(properties@) =~= Seq::empty());
        assert(nodes_view(children@) =~= Seq::empty());
        let mut i: usize = 0;
        while i < node.inner.len()
            invariant
                i <= node.inner.len(),
                inner == node@.inner,
                inner.len() == node.inner.len(),
                forall|j: int| 0 <= j < node.inner.len() ==> inner[j] == (#[trigger] node.inner[j])@,
                ords == self.ords@,
                self.ords == old(self).ords,
                name@ == id,
                id.info is Some,
                built_node(node@, path@, strings_view(route@), ords) == body_upto(
                    inner,
                    inner.len(),
                    id,
                    ords,
                ),
                body_upto(inner, i as nat, id, ords) == Ok::<NodeView, ParseErrorView>(
                    NodeView {
                        labels: strings_view(labels@),
                        properties: properties_view(properties@),
                        children: nodes_view(children@),
                        ..bare_node(id)
                    },
                ),
                labels_view(self.labels@) == labels0 + children_labels(
                    nodes_view(children@),
                    at@,
                    children@.len(),
                ),
            decreases node.inner.len() - i,
        {
            let pair = &node.inner[i];
            let ghost before_labels = strings_view(labels@);
            let ghost before_props = properties_view(properties@);
            let ghost before_kids = nodes_view(children@);
            match pair.rule {
                Rule::Nodename => {},
                Rule::Label => {
                    labels.push(pair.text.clone());
                    assert(strings_view(labels@) =~= before_labels.push(pair@.text));
                },
                Rule::Property => {
                    match try_decode_property(pair) {
                        Ok(p) => {
                            properties.push(p);
                            assert(properties_view(properties@) =~= before_props.push(p@));
                        },
                        Err(e) => {
                            proof {
                                lemma_body_fail(inner, i as nat + 1, id, ords);
                            }
                            return Err(e);
                        },
                    }
                },
                Rule::Node => {
                    let mut child_at = copy_indices(at);
                    child_at.push(children.len());
                    match self.try_walk_node(pair, name.path_ref(), name.route_ref(), &child_at) {
                        Ok(c) => {
                            children.push(c);
                            proof {
                                assert(nodes_view(children@) =~= before_kids.push(c@));
                                lemma_children_labels_prefix(
                                    before_kids,
                                    c@,
                                    at@,
                                    before_kids.len(),
                                );
                                assert(child_at@ =~= at@.push((children@.len() - 1) as usize));
                                assert(labels_view(self.labels@) =~= labels0 + children_labels(
                                    nodes_view(children@),
                                    at@,
                                    children@.len(),
                                ));
                            }
                        },
                        Err(e) => {
                            proof {
                                lemma_body_fail(inner, i as nat + 1, id, ords);
                            }
                            return Err(e);
                        },
                    }
                },
                _ => {
                    proof {
                        lemma_body_fail(inner, i as nat + 1, id, ords);
                    }
                    return Err(ParseError::new(ParseErrorKind::UnexpectedRule, pair.text.as_str()));
                },
            }
            i = i + 1;
        }

        // Build this node.
        let labels2 = copy_strings(&labels);
        let mut result = name.into_node();
        result.labels = labels;
        result.properties = properties;
        result.children = children;
        proof {
            lemma_node_children(result);
        }
        assert(result@ == NodeView {
            labels: strings_view(labels@),
            properties: properties_view(properties@),
            children: nodes_view(children@),
            ..bare_node(id)
        });

        // Insert all of the labels.
        let ghost table = labels_view(self.labels@);
        let ghost own = own_labels(result@.labels, at@);
        let mut k: usize = 0;
        while k < labels2.len()
            invariant
                k <= labels2.len(),
                self.ords == old(self).ords,
                strings_view(labels2@) == result@.labels,
                own == own_labels(result@.labels, at@),
                labels_view(self.labels@) == table + own.take(k as int),
            decreases labels2.len() - k,
        {
            let ghost before = labels_view(self.labels@);
            let entry = Label { name: labels2[k].clone(), target: copy_indices(at) };
            self.labels.push(entry);
            k = k + 1;
            assert(labels_view(self.labels@) =~= before.push(entry@));
            assert(entry@ == own[k - 1]);
            assert(labels_view(self.labels@) =~= table + own.take(k as int));
        }
        assert(own.take(k as int) =~= own);
        assert(labels_view(self.labels@) =~= labels0 + declared_labels(result@, at@));
        Ok(result)
    }
}

/// The tree that a syntax tree stands for: its root must be a node; the
/// label table is the one that the tree declares.
pub open spec fn built_tree(pair: PairView, ords: Map<Seq<char>, usize>) -> Result<
    DeviceTreeView,
    ParseErrorView,
> {
    if pair.rule != Rule::Node {
        Err(failure(ParseErrorKind::UnexpectedRule, pair.text))
    } else {
        match built_node(pair, ""@, Seq::empty(), ords) {
            Ok(root) => Ok(
                DeviceTreeView { root, labels: declared_labels(root, Seq::empty()) },
            ),
            Err(e) => Err(e),
        }
    }
}

/// The tree that a source stands for, given the ordinal index.
pub open spec fn parsed(text: Seq<char>, ords: Map<Seq<char>, usize>) -> Result<
    DeviceTreeView,
    ParseErrorView,
> {
    match parsed_source(text) {
        Ok(pair) => built_tree(pair, ords),
        Err(e) => Err(e),
    }
}

/// The view of the builder's result.
pub open spec fn tree_result(r: Result<DeviceTree, ParseError>) -> Result<
    DeviceTreeView,
    ParseErrorView,
> {
    match r {
        Ok(t) => Ok(t@),
        Err(e) => Err(e@),
    }
}

impl<'a> TreeBuilder<'a> {
    /// Builds the node that `node` stands for and records the labels of its
    /// subtree, where the node can be built.
    pub fn walk_node(&mut self, node: &Pair, path: &str, route: &Vec<String>, at: &Vec<usize>) -> (r:
        Node)
        requires
            built_node(node@, path@, strings_view(route@), old(self).ords@) is Ok,
        ensures
            final(self).ords == old(self).ords,
            r@ == built_node(node@, path@, strings_view(route@), old(self).ords@)->Ok_0,
            labels_view(final(self).labels@) == labels_view(old(self).labels@) + declared_labels(
                r@,
                at@,
            ),
    {
        self.try_walk_node(node, path, route, at).unwrap()
    }

    /// Builds the whole tree from the root of a syntax tree from which a
    /// tree can be built.
    pub fn walk(self, pairs: &Pair) -> (r: DeviceTree)
        requires
            self.labels@.len() == 0,
            built_tree(pairs@, self.ords@) is Ok,
        ensures
            r@ == built_tree(pairs@, self.ords@)->Ok_0,
    {
        self.try_walk(pairs).unwrap()
    }

    /// Builds the whole tree from the root of the syntax tree.
    pub fn try_walk(self, pairs: &Pair) -> (r: Result<DeviceTree, ParseError>)
        requires
            self.labels@.len() == 0,
        ensures
            tree_result(r) == built_tree(pairs@, self.ords@),
    {
        // There is a single node at the top.
        match pairs.rule {
            Rule::Node => {},
            _ => {
                return Err(ParseError::new(ParseErrorKind::UnexpectedRule, pairs.text.as_str()));
            },
        }
        let mut builder = self;
        let route: Vec<String> = Vec::new();
        let at: Vec<usize> = Vec::new();
        assert(strings_view(route@) =~= Seq::empty());
        assert(labels_view(builder.labels@) =~= Seq::empty());
        match builder.try_walk_node(pairs, "", &route, &at) {
            Ok(root) => {
                let tree = DeviceTree { root, labels: builder.labels };
                assert(tree@.labels =~= declared_labels(root@, Seq::empty()));
                Ok(tree)
            },
            Err(e) => Err(e),
        }
    }
}

/// Reads a devicetree source and builds its tree, with every node's ordinal
/// taken from `ords`, or says why no tree can be built.
pub fn try_parse(text: &str, ords: &OrdMap) -> (r: Result<DeviceTree, ParseError>)
    ensures
        tree_result(r) == parsed(text@, ords@),
{
    let pairs = match Dts::try_parse(text) {
        Ok(pairs) => pairs,
        Err(e) => {
            return Err(e);
        },
    };
    let b = TreeBuilder::new(ords);
    b.try_walk(&pairs)
}

/// Reads a devicetree source that fits the index and builds its tree, with
/// every node's ordinal taken from `ords`.
pub fn parse(text: &str, ords: &OrdMap) -> (r: DeviceTree)
    requires
        parsed(text@, ords@) is Ok,
    ensures
        r@ == parsed(text@, ords@)->Ok_0,
{
    try_parse(text, ords).unwrap()
}

/// Every node of the subtree has the ordinal that the index gives for its
/// path.
pub open spec fn indexed(n: NodeView, ords: Map<Seq<char>, usize>) -> bool
    decreases n,
{
    &&& lookup(ords, n.path) matches Some(ord) && ord as nat == n.ord
    &&& forall|i: int| 0 <= i < n.children.len() ==> indexed(#[trigger] n.children[i], ords)
}

proof fn lemma_names_indexed(
    inner: Seq<PairView>,
    k: nat,
    start: LazyNameView,
    ords: Map<Seq<char>, usize>,
)
    requires
        k <= inner.len(),
        names_upto(inner, k, start, ords) is Ok,
        start.info matches Some(info) ==> (lookup(ords, info.path) matches Some(ord) && ord as nat
            == info.ord),
    ensures
        names_upto(inner, k, start, ords)->Ok_0.info matches Some(info) ==> (lookup(
            ords,
            info.path,
        ) matches Some(ord) && ord as nat == info.ord),
    decreases k,
{
    if k > 0 {
        lemma_names_indexed(inner, (k - 1) as nat, start, ords);
    }
}

proof fn lemma_body_indexed(inner: Seq<PairView>, k: nat, id: LazyNameView, ords: Map<Seq<char>, usize>)
    requires
        k <= inner.len(),
        body_upto(inner, k, id, ords) is Ok,
    ensures
        ({
            let n = body_upto(inner, k, id, ords)->Ok_0;
            &&& n.name == id.info->0.name
            &&& n.path == id.info->0.path
            &&& n.ord == id.info->0.ord
            &&& n.route == id.route
            &&& forall|i: int| 0 <= i < n.children.len() ==> indexed(#[trigger] n.children[i], ords)
        }),
    decreases inner, k,
{
    if k > 0 {
        lemma_body_indexed(inner, (k - 1) as nat, id, ords);
        if inner[k - 1].rule == Rule::Node {
            lemma_built_indexed(inner[k - 1], id.info->0.path, id.route, ords);
        }
    }
}

/// A node that was built holds, all through its subtree, the ordinals that
/// the index gives.
pub proof fn lemma_built_indexed(
    p: PairView,
    path: Seq<char>,
    route: Seq<Seq<char>>,
    ords: Map<Seq<char>, usize>,
)
    requires
        built_node(p, path, route, ords) is Ok,
    ensures
        indexed(built_node(p, path, route, ords)->Ok_0, ords),
    decreases p, 0nat,
{
    let start = lazy_new(path, route, ords)->Ok_0;
    lemma_names_indexed(p.inner, p.inner.len(), start, ords);
    let id = identity(p.inner, path, route, ords)->Ok_0;
    lemma_body_indexed(p.inner, p.inner.len(), id, ords);
}

proof fn lemma_indexed_at(n: NodeView, target: Seq<usize>, ords: Map<Seq<char>, usize>)
    requires
        indexed(n, ords),
        node_at(n, target) is Some,
    ensures
        indexed(node_at(n, target)->0, ords),
    decreases target.len(),
{
    if target.len() > 0 {
        lemma_indexed_at(n.children[target[0] as int], target.drop_first(), ords);
    }
}

/// Ordinals come from the index: in a tree that was built from a source,
/// every node carries the ordinal that the index holds for the node's path.
/// So a source with a node whose path the index lacks builds no tree.
pub proof fn law_ordinals_from_index(
    text: Seq<char>,
    ords: Map<Seq<char>, usize>,
    target: Seq<usize>,
)
    requires
        parsed(text, ords) is Ok,
        node_at(parsed(text, ords)->Ok_0.root, target) is Some,
    ensures
        ({
            let node = node_at(parsed(text, ords)->Ok_0.root, target)->0;
            ords.contains_key(node.path) && ords[node.path] as nat == node.ord
        }),
{
    let pair = parsed_source(text)->Ok_0;
    lemma_built_indexed(pair, ""@, Seq::empty(), ords);
    lemma_indexed_at(parsed(text, ords)->Ok_0.root, target, ords);
}

/// A node whose path the index lacks is fatal: where a node other than the
/// root has the one name `name` in its body and the index holds nothing for
/// its path, building it fails and names that path.
pub proof fn law_missing_ordinal_is_fatal(
    p: PairView,
    k: int,
    path: Seq<char>,
    route: Seq<Seq<char>>,
    ords: Map<Seq<char>, usize>,
)
    requires
        path.len() > 0,
        0 <= k < p.inner.len(),
        p.inner[k].rule == Rule::Nodename,
        forall|j: int| 0 <= j < p.inner.len() && j != k ==> p.inner[j].rule != Rule::Nodename,
        !ords.contains_key(child_path(path, p.inner[k].text)),
    ensures
        built_node(p, path, route, ords) == Err::<NodeView, ParseErrorView>(
            failure(ParseErrorKind::MissingOrdinal, child_path(path, p.inner[k].text)),
        ),
{
    let start = LazyNameView { path, route, ords, info: None };
    lemma_names_unset(p.inner, k as nat, start, ords);
    lemma_names_fail(p.inner, (k + 1) as nat, start, ords);
}

/// The root is no exception: where the index holds nothing for `/`, no tree
/// is built, whatever the source says.
pub proof fn law_root_needs_an_ordinal(p: PairView, route: Seq<Seq<char>>, ords: Map<Seq<char>, usize>)
    requires
        !ords.contains_key("/"@),
    ensures
        built_node(p, ""@, route, ords) == Err::<NodeView, ParseErrorView>(
            failure(ParseErrorKind::MissingOrdinal, "/"@),
        ),
{
    reveal_strlit("");
}

proof fn lemma_names_unset(
    inner: Seq<PairView>,
    k: nat,
    start: LazyNameView,
    ords: Map<Seq<char>, usize>,
)
    requires
        k <= inner.len(),
        forall|j: int| 0 <= j < k ==> inner[j].rule != Rule::Nodename,
    ensures
        names_upto(inner, k, start, ords) == Ok::<LazyNameView, ParseErrorView>(start),
    decreases k,
{
    if k > 0 {
        lemma_names_unset(inner, (k - 1) as nat, start, ords);
    }
}

/// Every node below `n` stands where its name says: its route is that of the
/// node above it with its own name added, and so is its path.
pub open spec fn placed(n: NodeView) -> bool
    decreases n,
{
    forall|i: int|
        0 <= i < n.children.len() ==> {
            let c = #[trigger] n.children[i];
            &&& c.route == n.route.push(c.name)
            &&& c.path == child_path(n.path, c.name)
            &&& placed(c)
        }
}

proof fn lemma_names_placed(
    inner: Seq<PairView>,
    k: nat,
    start: LazyNameView,
    ords: Map<Seq<char>, usize>,
)
    requires
        k <= inner.len(),
        names_upto(inner, k, start, ords) is Ok,
        start.info is None,
    ensures
        ({
            let s = names_upto(inner, k, start, ords)->Ok_0;
            &&& s.path == start.path
            &&& match s.info {
                Some(info) => s.route == start.route.push(info.name) && info.path == child_path(
                    start.path,
                    info.name,
                ),
                None => s.route == start.route,
            }
        }),
    decreases k,
{
    if k > 0 {
        lemma_names_placed(inner, (k - 1) as nat, start, ords);
    }
}

proof fn lemma_body_placed(inner: Seq<PairView>, k: nat, id: LazyNameView, ords: Map<Seq<char>, usize>)
    requires
        k <= inner.len(),
        body_upto(inner, k, id, ords) is Ok,
        id.info is Some,
        id.info->0.path.len() > 0,
    ensures
        ({
            let n = body_upto(inner, k, id, ords)->Ok_0;
            &&& n.name == id.info->0.name
            &&& n.path == id.info->0.path
            &&& n.route == id.route
            &&& placed(n)
        }),
    decreases inner, k,
{
    if k > 0 {
        lemma_body_placed(inner, (k - 1) as nat, id, ords);
        let before = body_upto(inner, (k - 1) as nat, id, ords)->Ok_0;
        let after = body_upto(inner, k, id, ords)->Ok_0;
        if inner[k - 1].rule == Rule::Node {
            lemma_built_placed(inner[k - 1], id.info->0.path, id.route, ords);
            let c = built_node(inner[k - 1], id.info->0.path, id.route, ords)->Ok_0;
            assert(after.children == before.children.push(c));
            assert forall|i: int| 0 <= i < after.children.len() implies ({
                let x = #[trigger] after.children[i];
                &&& x.route == after.route.push(x.name)
                &&& x.path == child_path(after.path, x.name)
                &&& placed(x)
            }) by {
                if i < before.children.len() {
                    assert(after.children[i] == before.children[i]);
                }
            }
        } else {
            assert(after.children == before.children);
        }
    }
}

/// A node that was built below another stands where its name says, and so
/// does every node below it.
pub proof fn lemma_built_placed(
    p: PairView,
    path: Seq<char>,
    route: Seq<Seq<char>>,
    ords: Map<Seq<char>, usize>,
)
    requires
        built_node(p, path, route, ords) is Ok,
    ensures
        placed(built_node(p, path, route, ords)->Ok_0),
        path.len() > 0 ==> ({
            let n = built_node(p, path, route, ords)->Ok_0;
            n.route == route.push(n.name) && n.path == child_path(path, n.name)
        }),
        path.len() == 0 ==> ({
            let n = built_node(p, path, route, ords)->Ok_0;
            n.route == route && n.path == "/"@ && n.name == "/"@
        }),
    decreases p, 0nat,
{
    reveal_strlit("/");
    let start = lazy_new(path, route, ords)->Ok_0;
    let id = identity(p.inner, path, route, ords)->Ok_0;
    if path.len() > 0 {
        lemma_names_placed(p.inner, p.inner.len(), start, ords);
    } else {
        lemma_names_kept(p.inner, p.inner.len(), start, ords);
    }
    lemma_body_placed(p.inner, p.inner.len(), id, ords);
}

/// An identity that is known stays as it is while names are read without
/// failure.
proof fn lemma_names_kept(
    inner: Seq<PairView>,
    k: nat,
    start: LazyNameView,
    ords: Map<Seq<char>, usize>,
)
    requires
        k <= inner.len(),
        names_upto(inner, k, start, ords) is Ok,
        start.info is Some,
    ensures
        names_upto(inner, k, start, ords)->Ok_0 == start,
    decreases k,
{
    if k > 0 {
        lemma_names_kept(inner, (k - 1) as nat, start, ords);
    }
}

/// Routes and paths follow the tree: in a tree that was built from a source
/// the root is `/` with the empty route, and every other node has the route
/// and the path of the node above it with its own name added. So the module
/// path that a route gives nests as the generated modules do.
pub proof fn law_routes_follow_the_tree(text: Seq<char>, ords: Map<Seq<char>, usize>)
    requires
        parsed(text, ords) is Ok,
    ensures
        ({
            let root = parsed(text, ords)->Ok_0.root;
            &&& root.name == "/"@
            &&& root.path == "/"@
            &&& root.route == Seq::<Seq<char>>::empty()
            &&& placed(root)
        }),
{
    reveal_strlit("");
    let pair = parsed_source(text)->Ok_0;
    lemma_built_placed(pair, ""@, Seq::empty(), ords);
}

} // verus!
