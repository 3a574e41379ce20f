//! What the source parser hands to the tree builder is well shaped: every
//! piece stands where the builder expects its rule, and every number is made
//! of digits. So a source that parses can only fail to build for what it
//! says, never for how its syntax tree is put together.

use vstd::prelude::*;
use crate::devicetree::grammar::{
    at, byte_at, bytes_from, entries_from, in_class, label_end, labels_from, leaf, node_at,
    node_head, nodename_end, property_at, run_end, skip_ws, syntax_tree, value_at, values_from,
    word_at, words_from, CharClass,
};
use crate::devicetree::parse::{
    body_upto, built_node, bytes_upto, decoded_byte, decoded_property, decoded_word, identity,
    lazy_new, names_upto, parsed, property_upto, words_upto, LazyNameView,
};
use crate::devicetree::syntax::{PairView, ParseErrorKind, ParseErrorView, Rule};
use crate::devicetree::WordView;
use crate::text::{digit_of, digits_value};

verus! {

/// All characters from `from` on belong to the class.
pub open spec fn all_in(s: Seq<char>, from: int, class: CharClass) -> bool {
    forall|i: int| from <= i < s.len() ==> in_class(class, #[trigger] s[i])
}

/// The text of a piece fits its rule: a number is made of digits, after its
/// prefix where it has one; a byte is two hexadecimal digits; a phandle has
/// its sigil and a string its quotes.
pub open spec fn text_fits(p: PairView) -> bool {
    match p.rule {
        Rule::HexNumber => p.text.len() >= 3 && all_in(p.text, 2, CharClass::Hex),
        Rule::DecimalNumber => p.text.len() >= 1 && all_in(p.text, 0, CharClass::Digit),
        Rule::PlainHexNumber => p.text.len() == 2 && all_in(p.text, 0, CharClass::Hex),
        Rule::Phandle => p.text.len() >= 2,
        Rule::String => p.text.len() >= 2,
        _ => true,
    }
}

/// The piece is a cell of a `<...>` list.
pub open spec fn is_cell(p: PairView) -> bool {
    (p.rule == Rule::HexNumber || p.rule == Rule::DecimalNumber || p.rule == Rule::Phandle)
        && text_fits(p)
}

/// The piece is a byte of a `[...]` list.
pub open spec fn is_byte(p: PairView) -> bool {
    p.rule == Rule::PlainHexNumber && text_fits(p)
}

pub open spec fn all_cells(ps: Seq<PairView>) -> bool {
    forall|i: int| 0 <= i < ps.len() ==> is_cell(#[trigger] ps[i])
}

pub open spec fn all_bytes(ps: Seq<PairView>) -> bool {
    forall|i: int| 0 <= i < ps.len() ==> is_byte(#[trigger] ps[i])
}

/// The piece is a value of a property.
pub open spec fn is_value(p: PairView) -> bool {
    match p.rule {
        Rule::Words => all_cells(p.inner),
        Rule::Bytes => all_bytes(p.inner),
        Rule::Phandle => text_fits(p),
        Rule::String => text_fits(p),
        _ => false,
    }
}

/// The pieces are a property's: first its name, then its values.
pub open spec fn property_pieces(ps: Seq<PairView>) -> bool {
    &&& ps.len() >= 1
    &&& ps[0].rule == Rule::Nodename
    &&& forall|i: int| 1 <= i < ps.len() ==> is_value(#[trigger] ps[i])
}

/// The piece is a property clause.
pub open spec fn is_property(p: PairView) -> bool {
    p.rule == Rule::Property && property_pieces(p.inner)
}

/// The piece may stand in a node's body.
pub open spec fn is_entry(p: PairView) -> bool
    decreases p, 1nat,
{
    match p.rule {
        Rule::Label => true,
        Rule::Nodename => true,
        Rule::Property => is_property(p),
        Rule::Node => is_node(p),
        _ => false,
    }
}

/// The piece is a node: labels, names, properties and nodes inside it, and
/// nothing else.
pub open spec fn is_node(p: PairView) -> bool
    decreases p, 0nat,
{
    p.rule == Rule::Node && forall|i: int|
        0 <= i < p.inner.len() ==> is_entry(#[trigger] p.inner[i])
}

pub open spec fn all_entries(ps: Seq<PairView>) -> bool {
    forall|i: int| 0 <= i < ps.len() ==> is_entry(#[trigger] ps[i])
}

/// A run lies inside the text and holds characters of its class only.
pub proof fn lemma_run(s: Seq<char>, i: int, class: CharClass)
    requires
        0 <= i <= s.len(),
    ensures
        i <= run_end(s, i, class) <= s.len(),
        forall|j: int| i <= j < run_end(s, i, class) ==> in_class(class, #[trigger] s[j]),
    decreases s.len() - i,
{
    if i < s.len() && in_class(class, s[i]) {
        lemma_run(s, i + 1, class);
    }
}

proof fn lemma_word_at(s: Seq<char>, i: int)
    requires
        0 <= i <= s.len(),
        word_at(s, i) is Some,
    ensures
        is_cell((word_at(s, i)->0).0),
        i < (word_at(s, i)->0).1 <= s.len(),
{
    let (p, e) = word_at(s, i)->0;
    if at(s, i, '&') {
        lemma_run(s, i + 2, CharClass::Label);
    } else if at(s, i, '0') && (at(s, i + 1, 'x') || at(s, i + 1, 'X')) && run_end(
        s,
        i + 2,
        CharClass::Hex,
    ) > i + 2 {
        lemma_run(s, i + 2, CharClass::Hex);
        assert forall|j: int| 2 <= j < p.text.len() implies in_class(
            CharClass::Hex,
            #[trigger] p.text[j],
        ) by {
            assert(p.text[j] == s[i + j]);
        }
    } else {
        lemma_run(s, i, CharClass::Digit);
        assert forall|j: int| 0 <= j < p.text.len() implies in_class(
            CharClass::Digit,
            #[trigger] p.text[j],
        ) by {
            assert(p.text[j] == s[i + j]);
        }
    }
}

proof fn lemma_words_from(s: Seq<char>, i: int, acc: Seq<PairView>)
    requires
        0 <= i <= s.len(),
        all_cells(acc),
    ensures
        all_cells(words_from(s, i, acc).0),
        i <= words_from(s, i, acc).1 <= s.len(),
    decreases s.len() - i,
{
    lemma_run(s, i, CharClass::Space);
    match word_at(s, skip_ws(s, i)) {
        Some((p, e)) => {
            lemma_word_at(s, skip_ws(s, i));
            if i < e <= s.len() {
                lemma_words_from(s, e, acc.push(p));
            }
        },
        None => {},
    }
}

proof fn lemma_bytes_from(s: Seq<char>, i: int, acc: Seq<PairView>)
    requires
        0 <= i <= s.len(),
        all_bytes(acc),
    ensures
        all_bytes(bytes_from(s, i, acc).0),
        i <= bytes_from(s, i, acc).1 <= s.len(),
    decreases s.len() - i,
{
    lemma_run(s, i, CharClass::Space);
    match byte_at(s, skip_ws(s, i)) {
        Some((p, e)) => {
            let j = skip_ws(s, i);
            assert(p.text[0] == s[j]);
            assert(p.text[1] == s[j + 1]);
            assert(is_byte(p));
            if i < e <= s.len() {
                lemma_bytes_from(s, e, acc.push(p));
            }
        },
        None => {},
    }
}

proof fn lemma_value_at(s: Seq<char>, i: int)
    requires
        0 <= i <= s.len(),
        value_at(s, i) is Some,
    ensures
        is_value((value_at(s, i)->0).0),
        i < (value_at(s, i)->0).1 <= s.len(),
{
    if at(s, i, '"') {
        lemma_run(s, i + 1, CharClass::StringBody);
    } else if at(s, i, '<') {
        lemma_words_from(s, i + 1, Seq::empty());
        lemma_run(s, words_from(s, i + 1, Seq::empty()).1, CharClass::Space);
    } else if at(s, i, '[') {
        lemma_bytes_from(s, i + 1, Seq::empty());
        lemma_run(s, bytes_from(s, i + 1, Seq::empty()).1, CharClass::Space);
    } else {
        lemma_run(s, i + 2, CharClass::Label);
    }
}

proof fn lemma_values_from(s: Seq<char>, i: int, acc: Seq<PairView>)
    requires
        0 <= i <= s.len(),
        property_pieces(acc),
    ensures
        property_pieces(values_from(s, i, acc).0),
        i <= values_from(s, i, acc).1 <= s.len(),
    decreases s.len() - i,
{
    lemma_run(s, i, CharClass::Space);
    if at(s, skip_ws(s, i), ',') {
        lemma_run(s, skip_ws(s, i) + 1, CharClass::Space);
        match value_at(s, skip_ws(s, skip_ws(s, i) + 1)) {
            Some((p, e)) => {
                lemma_value_at(s, skip_ws(s, skip_ws(s, i) + 1));
                if i < e <= s.len() {
                    assert(acc.push(p)[0] == acc[0]);
                    lemma_values_from(s, e, acc.push(p));
                }
            },
            None => {},
        }
    }
}

proof fn lemma_property_at(s: Seq<char>, i: int)
    requires
        0 <= i <= s.len(),
        property_at(s, i) is Some,
    ensures
        is_property((property_at(s, i)->0).0),
        i < (property_at(s, i)->0).1 <= s.len(),
{
    lemma_run(s, i, CharClass::Name);
    let e1 = nodename_end(s, i)->0;
    let name = leaf(Rule::Nodename, s, i, e1);
    lemma_run(s, e1, CharClass::Space);
    let j = skip_ws(s, e1);
    if at(s, j, '=') {
        lemma_run(s, j + 1, CharClass::Space);
        lemma_value_at(s, skip_ws(s, j + 1));
        let (v, e2) = value_at(s, skip_ws(s, j + 1))->0;
        let start = seq![name, v];
        assert(property_pieces(start));
        lemma_values_from(s, e2, start);
        lemma_run(s, values_from(s, e2, start).1, CharClass::Space);
    }
}

proof fn lemma_labels_from(s: Seq<char>, i: int, acc: Seq<PairView>)
    requires
        0 <= i <= s.len(),
        all_entries(acc),
    ensures
        all_entries(labels_from(s, i, acc).0),
        i <= labels_from(s, i, acc).1 <= s.len(),
    decreases s.len() - i,
{
    match label_end(s, i) {
        Some(e) => {
            lemma_run(s, i + 1, CharClass::Label);
            lemma_run(s, e, CharClass::Space);
            if at(s, skip_ws(s, e), ':') {
                lemma_run(s, skip_ws(s, e) + 1, CharClass::Space);
                if i < skip_ws(s, skip_ws(s, e) + 1) <= s.len() {
                    let p = leaf(Rule::Label, s, i, e);
                    assert(is_entry(p));
                    lemma_labels_from(s, skip_ws(s, skip_ws(s, e) + 1), acc.push(p));
                }
            }
        },
        None => {},
    }
}

proof fn lemma_node_head(s: Seq<char>, i: int)
    requires
        0 <= i <= s.len(),
        node_head(s, i) is Some,
    ensures
        all_entries((node_head(s, i)->0).0),
        i < (node_head(s, i)->0).1 <= s.len(),
{
    lemma_labels_from(s, i, Seq::empty());
    let (labels, j) = labels_from(s, i, Seq::empty());
    if !at(s, j, '/') {
        lemma_run(s, j, CharClass::Name);
        let e = nodename_end(s, j)->0;
        assert(is_entry(leaf(Rule::Nodename, s, j, e)));
    }
}

proof fn lemma_node_at(s: Seq<char>, i: int)
    requires
        0 <= i <= s.len(),
        node_at(s, i) is Some,
    ensures
        is_node((node_at(s, i)->0).0),
        i < (node_at(s, i)->0).1 <= s.len(),
    decreases s.len() - i, 0nat,
{
    lemma_node_head(s, i);
    let (head, e) = node_head(s, i)->0;
    lemma_run(s, e, CharClass::Space);
    let k = skip_ws(s, e);
    lemma_entries_from(s, k + 1, head);
    let (items, e2) = entries_from(s, k + 1, head);
    lemma_run(s, e2, CharClass::Space);
    lemma_run(s, skip_ws(s, e2) + 1, CharClass::Space);
}

proof fn lemma_entries_from(s: Seq<char>, i: int, acc: Seq<PairView>)
    requires
        0 <= i <= s.len(),
        all_entries(acc),
    ensures
        all_entries(entries_from(s, i, acc).0),
        i <= entries_from(s, i, acc).1 <= s.len(),
    decreases s.len() - i, 1nat,
{
    lemma_run(s, i, CharClass::Space);
    let j = skip_ws(s, i);
    match property_at(s, j) {
        Some((p, e)) => {
            lemma_property_at(s, j);
            if i < e <= s.len() {
                assert(is_entry(p));
                lemma_entries_from(s, e, acc.push(p));
            }
        },
        None => {
            match node_at(s, j) {
                Some((p, e)) => {
                    lemma_node_at(s, j);
                    if i < e <= s.len() {
                        assert(is_entry(p));
                        lemma_entries_from(s, e, acc.push(p));
                    }
                },
                None => {},
            }
        },
    }
}

/// The syntax tree of a source is a node, well shaped all through.
pub proof fn lemma_syntax_tree_shaped(s: Seq<char>)
    requires
        syntax_tree(s) is Some,
    ensures
        is_node(syntax_tree(s)->0),
{
    lemma_run(s, 0, CharClass::Space);
    let i = skip_ws(s, 0);
    if i + 8 <= s.len() {
        lemma_run(s, i + 8, CharClass::Space);
        if skip_ws(s, i + 8) < s.len() {
            lemma_run(s, skip_ws(s, i + 8) + 1, CharClass::Space);
        }
    }
    lemma_node_at(s, crate::devicetree::grammar::root_start(s));
}

/// Digits write a number.
proof fn lemma_digits_written(s: Seq<char>, radix: nat, class: CharClass)
    requires
        all_in(s, 0, class),
        (class == CharClass::Hex && radix == 16) || (class == CharClass::Digit && radix == 10),
    ensures
        digits_value(s, radix) is Some,
    decreases s.len(),
{
    if s.len() > 0 {
        assert forall|i: int| 0 <= i < s.drop_last().len() implies in_class(
            class,
            #[trigger] s.drop_last()[i],
        ) by {
            assert(s.drop_last()[i] == s[i]);
        }
        lemma_digits_written(s.drop_last(), radix, class);
        assert(in_class(class, s[s.len() - 1]));
        assert(digit_of(s.last(), radix) is Some);
    }
}

/// The number that a cell writes, whether it fits or not.
pub open spec fn written_number(p: PairView) -> Option<nat> {
    match p.rule {
        Rule::HexNumber => digits_value(p.text.skip(2), 16),
        Rule::DecimalNumber => digits_value(p.text, 10),
        _ => None,
    }
}

/// A cell of the source fails for one reason only: it is a number that does
/// not fit 32 bits.
pub proof fn lemma_cell_decoded(p: PairView)
    requires
        is_cell(p),
    ensures
        p.rule == Rule::Phandle ==> decoded_word(p) == Ok::<WordView, ParseErrorView>(
            WordView::Phandle(p.text.skip(1)),
        ),
        p.rule != Rule::Phandle ==> written_number(p) is Some,
        p.rule != Rule::Phandle && written_number(p)->0 <= 0xffff_ffff ==> decoded_word(p) == Ok::<
            WordView,
            ParseErrorView,
        >(WordView::Number(written_number(p)->0 as u32)),
        p.rule != Rule::Phandle && written_number(p)->0 > 0xffff_ffff ==> decoded_word(p) == Err::<
            WordView,
            ParseErrorView,
        >(ParseErrorView { kind: ParseErrorKind::BadNumber, subject: p.text }),
{
    if p.rule == Rule::HexNumber {
        let digits = p.text.skip(2);
        assert forall|i: int| 0 <= i < digits.len() implies in_class(
            CharClass::Hex,
            #[trigger] digits[i],
        ) by {
            assert(digits[i] == p.text[i + 2]);
        }
        lemma_digits_written(digits, 16, CharClass::Hex);
        assert(in_class(CharClass::Hex, digits[0]));
    } else if p.rule == Rule::DecimalNumber {
        lemma_digits_written(p.text, 10, CharClass::Digit);
        assert(in_class(CharClass::Digit, p.text[0]));
    }
}

/// A byte of the source never fails.
pub proof fn lemma_byte_decoded(p: PairView)
    requires
        is_byte(p),
    ensures
        decoded_byte(p) is Ok,
{
    lemma_digits_written(p.text, 16, CharClass::Hex);
}

proof fn lemma_words_decoded(inner: Seq<PairView>, k: nat)
    requires
        all_cells(inner),
        k <= inner.len(),
    ensures
        words_upto(inner, k) matches Err(e) ==> e.kind == ParseErrorKind::BadNumber,
    decreases k,
{
    if k > 0 {
        lemma_words_decoded(inner, (k - 1) as nat);
        lemma_cell_decoded(inner[k - 1]);
    }
}

proof fn lemma_bytes_decoded(inner: Seq<PairView>, k: nat)
    requires
        all_bytes(inner),
        k <= inner.len(),
    ensures
        bytes_upto(inner, k) is Ok,
    decreases k,
{
    if k > 0 {
        lemma_bytes_decoded(inner, (k - 1) as nat);
        lemma_byte_decoded(inner[k - 1]);
    }
}

proof fn lemma_property_upto(inner: Seq<PairView>, k: nat)
    requires
        property_pieces(inner),
        k <= inner.len(),
    ensures
        match property_upto(inner, k) {
            Ok(parts) => k >= 1 ==> parts.name is Some,
            Err(e) => e.kind == ParseErrorKind::BadNumber,
        },
    decreases k,
{
    if k > 0 {
        lemma_property_upto(inner, (k - 1) as nat);
        let p = inner[k - 1];
        if k > 1 {
            assert(is_value(p));
            if p.rule == Rule::Words {
                lemma_words_decoded(p.inner, p.inner.len());
            } else if p.rule == Rule::Bytes {
                lemma_bytes_decoded(p.inner, p.inner.len());
            }
        }
    }
}

/// A property of the source fails for one reason only: one of its numbers
/// does not fit.
pub proof fn lemma_property_decoded(p: PairView)
    requires
        is_property(p),
    ensures
        decoded_property(p) matches Err(e) ==> e.kind == ParseErrorKind::BadNumber,
{
    lemma_property_upto(p.inner, p.inner.len());
}

/// The failures of a source that has a syntax tree: a number that does not
/// fit, a node that the index lacks, and a node with no name or with a
/// further one.
pub open spec fn said_by_the_source(kind: ParseErrorKind) -> bool {
    kind == ParseErrorKind::BadNumber || kind == ParseErrorKind::MissingOrdinal || kind
        == ParseErrorKind::MultipleNames || kind == ParseErrorKind::MissingName
}

proof fn lemma_names_fail_kinds(
    inner: Seq<PairView>,
    k: nat,
    start: LazyNameView,
    ords: Map<Seq<char>, usize>,
)
    requires
        k <= inner.len(),
    ensures
        names_upto(inner, k, start, ords) matches Err(e) ==> said_by_the_source(e.kind),
    decreases k,
{
    if k > 0 {
        lemma_names_fail_kinds(inner, (k - 1) as nat, start, ords);
    }
}

proof fn lemma_body_fail_kinds(
    inner: Seq<PairView>,
    k: nat,
    id: LazyNameView,
    ords: Map<Seq<char>, usize>,
)
    requires
        all_entries(inner),
        k <= inner.len(),
    ensures
        body_upto(inner, k, id, ords) matches Err(e) ==> said_by_the_source(e.kind),
    decreases inner, k,
{
    if k > 0 {
        lemma_body_fail_kinds(inner, (k - 1) as nat, id, ords);
        let p = inner[k - 1];
        assert(is_entry(p));
        if p.rule == Rule::Property {
            lemma_property_decoded(p);
        } else if p.rule == Rule::Node {
            lemma_node_fail_kinds(p, id.info->0.path, id.route, ords);
        }
    }
}

/// A node of the source fails to build only for what the source says.
pub proof fn lemma_node_fail_kinds(
    p: PairView,
    path: Seq<char>,
    route: Seq<Seq<char>>,
    ords: Map<Seq<char>, usize>,
)
    requires
        is_node(p),
    ensures
        built_node(p, path, route, ords) matches Err(e) ==> said_by_the_source(e.kind),
    decreases p, 0nat,
{
    match lazy_new(path, route, ords) {
        Ok(start) => {
            lemma_names_fail_kinds(p.inner, p.inner.len(), start, ords);
            match identity(p.inner, path, route, ords) {
                Ok(id) => {
                    lemma_body_fail_kinds(p.inner, p.inner.len(), id, ords);
                },
                Err(_) => {},
            }
        },
        Err(_) => {},
    }
}

/// A source fails for its syntax or for what it says: where a text has a
/// syntax tree, its tree fails to build only for a number that does not fit,
/// a node that the index lacks, or a node with no name or a further one.
/// No piece of the syntax tree ever stands where the builder does not
/// expect it.
pub proof fn law_failures_of_a_source(text: Seq<char>, ords: Map<Seq<char>, usize>)
    ensures
        parsed(text, ords) matches Err(e) ==> e.kind == ParseErrorKind::Syntax
            || said_by_the_source(e.kind),
        syntax_tree(text) is None <==> parsed(text, ords) is Err && parsed(
            text,
            ords,
        )->Err_0.kind == ParseErrorKind::Syntax,
{
    if syntax_tree(text) is Some {
        lemma_syntax_tree_shaped(text);
        lemma_node_fail_kinds(syntax_tree(text)->0, ""@, Seq::empty(), ords);
    }
}

} // verus!
