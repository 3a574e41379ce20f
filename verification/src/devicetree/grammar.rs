//! The source parser: from the text of a devicetree source, as the devicetree
//! compiler writes it out, to its syntax tree.
//!
//! The grammar, with blanks, tabs and line ends allowed between any two
//! tokens and nowhere inside one:
//!
//! ```text
//! file     := ("/dts-v1/" ";")? node
//! node     := (label ":")* ("/" | nodename) "{" (property | node)* "}" ";"
//! property := nodename "=" value ("," value)* ";"  |  nodename ";"
//! value    := string | words | bytes | phandle
//! words    := "<" (hex | decimal | phandle)* ">"
//! bytes    := "[" hexbyte* "]"
//! hex      := ("0x" | "0X") hexdigit+
//! decimal  := digit+
//! hexbyte  := hexdigit hexdigit
//! string   := '"' (any character but '"' and line feed)* '"'
//! phandle  := "&" label
//! label    := letter (letter | digit | "_")*
//! nodename := (letter | digit | "_" | "," | "." | "?" | "-" | "@" | "#")+
//! ```
//!
//! Choices are tried in the order given and repetitions take all they can.
//! The `spec` functions of this file are that grammar as a function from
//! text to syntax tree; the executable parser is proved to compute it.

use vstd::prelude::*;
use crate::devicetree::syntax::{
    failure, lemma_pair_inner, pairs_view, Pair, PairView, ParseError, ParseErrorKind,
    ParseErrorView, Rule,
};
use crate::text::{chars_of, string_of};

verus! {

/// The classes of characters that the tokens are made of.
#[derive(Clone, Copy, Debug, PartialEq, Eq, Structural)]
pub enum CharClass {
    /// Blank, tab, carriage return, line feed.
    Space,
    /// ASCII letters.
    Alpha,
    /// ASCII digits.
    Digit,
    /// ASCII hexadecimal digits.
    Hex,
    /// What a label continues with: letters, digits, underscore.
    Label,
    /// What a node or property name is made of.
    Name,
    /// What may stand inside a string: all but the quote and the line feed.
    StringBody,
}

pub open spec fn is_alpha(c: char) -> bool {
    let v = c as u32;
    (65 <= v <= 90) || (97 <= v <= 122)
}

pub open spec fn is_digit(c: char) -> bool {
    let v = c as u32;
    48 <= v <= 57
}

pub open spec fn is_hex(c: char) -> bool {
    let v = c as u32;
    (48 <= v <= 57) || (65 <= v <= 70) || (97 <= v <= 102)
}

/// Whether `c` belongs to the class.
pub open spec fn in_class(class: CharClass, c: char) -> bool {
    match class {
        CharClass::Space => c == ' ' || c == '\t' || c == '\r' || c == '\n',
        CharClass::Alpha => is_alpha(c),
        CharClass::Digit => is_digit(c),
        CharClass::Hex => is_hex(c),
        CharClass::Label => is_alpha(c) || is_digit(c) || c == '_',
        CharClass::Name => is_alpha(c) || is_digit(c) || c == '_' || c == ',' || c == '.' || c
            == '?' || c == '-' || c == '@' || c == '#',
        CharClass::StringBody => c != '"' && c != '\n',
    }
}

/// Whether `c` belongs to the class.
pub fn is_in_class(class: CharClass, c: char) -> (r: bool)
    ensures
        r == in_class(class, c),
{
    let v: u32 = c as u32;
    let alpha = (65 <= v && v <= 90) || (97 <= v && v <= 122);
    let digit = 48 <= v && v <= 57;
    match class {
        CharClass::Space => c == ' ' || c == '\t' || c == '\r' || c == '\n',
        CharClass::Alpha => alpha,
        CharClass::Digit => digit,
        CharClass::Hex => digit || (65 <= v && v <= 70) || (97 <= v && v <= 102),
        CharClass::Label => alpha || digit || c == '_',
        CharClass::Name => alpha || digit || c == '_' || c == ',' || c == '.' || c == '?' || c
            == '-' || c == '@' || c == '#',
        CharClass::StringBody => c != '"' && c != '\n',
    }
}

/// Where the longest run of characters of the class that starts at `i` ends.
pub open spec fn run_end(s: Seq<char>, i: int, class: CharClass) -> int
    decreases s.len() - i,
{
    if 0 <= i < s.len() && in_class(class, s[i]) {
        run_end(s, i + 1, class)
    } else {
        i
    }
}

/// Where the blank space that starts at `i` ends.
pub open spec fn skip_ws(s: Seq<char>, i: int) -> int {
    run_end(s, i, CharClass::Space)
}

/// Whether the character at `i` is `c`.
pub open spec fn at(s: Seq<char>, i: int, c: char) -> bool {
    0 <= i < s.len() && s[i] == c
}

/// A piece of the text with nothing inside it.
pub open spec fn leaf(rule: Rule, s: Seq<char>, from: int, to: int) -> PairView {
    PairView { rule, text: s.subrange(from, to), inner: Seq::empty() }
}

/// A piece of the text with pieces inside it.
pub open spec fn branch(rule: Rule, s: Seq<char>, from: int, to: int, inner: Seq<PairView>) -> PairView {
    PairView { rule, text: s.subrange(from, to), inner }
}

/// Where the label that starts at `i` ends.
pub open spec fn label_end(s: Seq<char>, i: int) -> Option<int> {
    if 0 <= i < s.len() && is_alpha(s[i]) {
        Some(run_end(s, i + 1, CharClass::Label))
    } else {
        None
    }
}

/// Where the name that starts at `i` ends.
pub open spec fn nodename_end(s: Seq<char>, i: int) -> Option<int> {
    if run_end(s, i, CharClass::Name) > i {
        Some(run_end(s, i, CharClass::Name))
    } else {
        None
    }
}

/// Where the phandle that starts at `i` ends.
pub open spec fn phandle_end(s: Seq<char>, i: int) -> Option<int> {
    if at(s, i, '&') {
        label_end(s, i + 1)
    } else {
        None
    }
}

/// Where the string that starts at `i` ends, closing quote included.
pub open spec fn string_end(s: Seq<char>, i: int) -> Option<int> {
    if at(s, i, '"') && at(s, run_end(s, i + 1, CharClass::StringBody), '"') {
        Some(run_end(s, i + 1, CharClass::StringBody) + 1)
    } else {
        None
    }
}

/// The cell that starts at `i`, and where it ends.
pub open spec fn word_at(s: Seq<char>, i: int) -> Option<(PairView, int)> {
    if at(s, i, '&') {
        match phandle_end(s, i) {
            Some(e) => Some((leaf(Rule::Phandle, s, i, e), e)),
            None => None,
        }
    } else if at(s, i, '0') && (at(s, i + 1, 'x') || at(s, i + 1, 'X')) && run_end(
        s,
        i + 2,
        CharClass::Hex,
    ) > i + 2 {
        Some(
            (
                leaf(Rule::HexNumber, s, i, run_end(s, i + 2, CharClass::Hex)),
                run_end(s, i + 2, CharClass::Hex),
            ),
        )
    } else if run_end(s, i, CharClass::Digit) > i {
        Some(
            (
                leaf(Rule::DecimalNumber, s, i, run_end(s, i, CharClass::Digit)),
                run_end(s, i, CharClass::Digit),
            ),
        )
    } else {
        None
    }
}

/// The cells that follow `acc` from `i` on, and where they end.
pub open spec fn words_from(s: Seq<char>, i: int, acc: Seq<PairView>) -> (Seq<PairView>, int)
    decreases s.len() - i,
{
    match word_at(s, skip_ws(s, i)) {
        Some((p, e)) => if i < e <= s.len() {
            words_from(s, e, acc.push(p))
        } else {
            (acc, i)
        },
        None => (acc, i),
    }
}

/// The `<...>` list that starts at `i`, and where it ends.
pub open spec fn words_at(s: Seq<char>, i: int) -> Option<(PairView, int)> {
    if at(s, i, '<') {
        let (items, e) = words_from(s, i + 1, Seq::empty());
        let j = skip_ws(s, e);
        if at(s, j, '>') {
            Some((branch(Rule::Words, s, i, j + 1, items), j + 1))
        } else {
            None
        }
    } else {
        None
    }
}

/// The byte that starts at `i`, and where it ends: two hexadecimal digits.
pub open spec fn byte_at(s: Seq<char>, i: int) -> Option<(PairView, int)> {
    if 0 <= i && i + 1 < s.len() && is_hex(s[i]) && is_hex(s[i + 1]) {
        Some((leaf(Rule::PlainHexNumber, s, i, i + 2), i + 2))
    } else {
        None
    }
}

/// The bytes that follow `acc` from `i` on, and where they end.
pub open spec fn bytes_from(s: Seq<char>, i: int, acc: Seq<PairView>) -> (Seq<PairView>, int)
    decreases s.len() - i,
{
    match byte_at(s, skip_ws(s, i)) {
        Some((p, e)) => if i < e <= s.len() {
            bytes_from(s, e, acc.push(p))
        } else {
            (acc, i)
        },
        None => (acc, i),
    }
}

/// The `[...]` list that starts at `i`, and where it ends.
pub open spec fn bytes_at(s: Seq<char>, i: int) -> Option<(PairView, int)> {
    if at(s, i, '[') {
        let (items, e) = bytes_from(s, i + 1, Seq::empty());
        let j = skip_ws(s, e);
        if at(s, j, ']') {
            Some((branch(Rule::Bytes, s, i, j + 1, items), j + 1))
        } else {
            None
        }
    } else {
        None
    }
}

/// The value that starts at `i`, and where it ends.
pub open spec fn value_at(s: Seq<char>, i: int) -> Option<(PairView, int)> {
    if at(s, i, '"') {
        match string_end(s, i) {
            Some(e) => Some((leaf(Rule::String, s, i, e), e)),
            None => None,
        }
    } else if at(s, i, '<') {
        words_at(s, i)
    } else if at(s, i, '[') {
        bytes_at(s, i)
    } else {
        match phandle_end(s, i) {
            Some(e) => Some((leaf(Rule::Phandle, s, i, e), e)),
            None => None,
        }
    }
}

/// The values that follow `acc` after commas from `i` on, and where they end.
pub open spec fn values_from(s: Seq<char>, i: int, acc: Seq<PairView>) -> (Seq<PairView>, int)
    decreases s.len() - i,
{
    if at(s, skip_ws(s, i), ',') {
        match value_at(s, skip_ws(s, skip_ws(s, i) + 1)) {
            Some((p, e)) => if i < e <= s.len() {
                values_from(s, e, acc.push(p))
            } else {
                (acc, i)
            },
            None => (acc, i),
        }
    } else {
        (acc, i)
    }
}

/// The property clause that starts at `i`, and where it ends.
pub open spec fn property_at(s: Seq<char>, i: int) -> Option<(PairView, int)> {
    match nodename_end(s, i) {
        None => None,
        Some(e1) => {
            let name = leaf(Rule::Nodename, s, i, e1);
            let j = skip_ws(s, e1);
            if at(s, j, '=') {
                match value_at(s, skip_ws(s, j + 1)) {
                    None => None,
                    Some((v, e2)) => {
                        let (items, e3) = values_from(s, e2, seq![name, v]);
                        let k = skip_ws(s, e3);
                        if at(s, k, ';') {
                            Some((branch(Rule::Property, s, i, k + 1, items), k + 1))
                        } else {
                            None
                        }
                    },
                }
            } else if at(s, j, ';') {
                Some((branch(Rule::Property, s, i, j + 1, seq![name]), j + 1))
            } else {
                None
            }
        },
    }
}

/// The labels that follow `acc` from `i` on, each with its colon, and where
/// they end.
pub open spec fn labels_from(s: Seq<char>, i: int, acc: Seq<PairView>) -> (Seq<PairView>, int)
    decreases s.len() - i,
{
    match label_end(s, i) {
        Some(e) => if at(s, skip_ws(s, e), ':') && i < skip_ws(s, skip_ws(s, e) + 1) <= s.len() {
            labels_from(s, skip_ws(s, skip_ws(s, e) + 1), acc.push(leaf(Rule::Label, s, i, e)))
        } else {
            (acc, i)
        },
        None => (acc, i),
    }
}

/// The labels and the name that a node starts with at `i`, and where they
/// end. The name `/` leaves no piece.
pub open spec fn node_head(s: Seq<char>, i: int) -> Option<(Seq<PairView>, int)> {
    let (labels, j) = labels_from(s, i, Seq::empty());
    if at(s, j, '/') {
        Some((labels, j + 1))
    } else {
        match nodename_end(s, j) {
            Some(e) => Some((labels.push(leaf(Rule::Nodename, s, j, e)), e)),
            None => None,
        }
    }
}

/// The node that starts at `i`, and where it ends.
pub open spec fn node_at(s: Seq<char>, i: int) -> Option<(PairView, int)>
    decreases s.len() - i, 0nat,
{
    match node_head(s, i) {
        None => None,
        Some((head, e)) => {
            let k = skip_ws(s, e);
            if at(s, k, '{') && i <= k {
                let (items, e2) = entries_from(s, k + 1, head);
                let m = skip_ws(s, e2);
                let n = skip_ws(s, m + 1);
                if at(s, m, '}') && at(s, n, ';') {
                    Some((branch(Rule::Node, s, i, n + 1, items), n + 1))
                } else {
                    None
                }
            } else {
                None
            }
        },
    }
}

/// The properties and nodes that follow `acc` from `i` on, and where they end.
pub open spec fn entries_from(s: Seq<char>, i: int, acc: Seq<PairView>) -> (Seq<PairView>, int)
    decreases s.len() - i, 1nat,
{
    let j = skip_ws(s, i);
    match property_at(s, j) {
        Some((p, e)) => if i < e <= s.len() {
            entries_from(s, e, acc.push(p))
        } else {
            (acc, i)
        },
        None => if i <= j <= s.len() {
            match node_at(s, j) {
                Some((p, e)) => if i < e <= s.len() {
                    entries_from(s, e, acc.push(p))
                } else {
                    (acc, i)
                },
                None => (acc, i),
            }
        } else {
            (acc, i)
        },
    }
}

/// Whether the version tag stands at `i`.
pub open spec fn tag_at(s: Seq<char>, i: int) -> bool {
    at(s, i, '/') && at(s, i + 1, 'd') && at(s, i + 2, 't') && at(s, i + 3, 's') && at(s, i + 4, '-')
        && at(s, i + 5, 'v') && at(s, i + 6, '1') && at(s, i + 7, '/')
}

/// Where the root node starts: after the blank space and, if the text starts
/// with one, the version tag with its semicolon.
pub open spec fn root_start(s: Seq<char>) -> int {
    let i = skip_ws(s, 0);
    if tag_at(s, i) && at(s, skip_ws(s, i + 8), ';') {
        skip_ws(s, skip_ws(s, i + 8) + 1)
    } else {
        i
    }
}

/// The syntax tree of a source: its root node, where the whole text is one
/// node with at most blank space and the version tag around it.
pub open spec fn syntax_tree(s: Seq<char>) -> Option<PairView> {
    match node_at(s, root_start(s)) {
        Some((p, e)) => if skip_ws(s, e) == s.len() {
            Some(p)
        } else {
            None
        },
        None => None,
    }
}

/// The end of the run of characters of the class that starts at `i`.
pub fn scan(chars: &Vec<char>, i: usize, class: CharClass) -> (e: usize)
    requires
        i <= chars.len(),
    ensures
        e == run_end(chars@, i as int, class),
        i <= e <= chars.len(),
{
    let mut e: usize = i;
    while e < chars.len() && is_in_class(class, chars[e])
        invariant
            i <= e <= chars.len(),
            run_end(chars@, i as int, class) == run_end(chars@, e as int, class),
        decreases chars.len() - e,
    {
        e = e + 1;
    }
    e
}

/// Whether the character at `i` is `c`.
pub fn is_at(chars: &Vec<char>, i: usize, c: char) -> (r: bool)
    ensures
        r == at(chars@, i as int, c),
{
    i < chars.len() && chars[i] == c
}

/// Makes a piece with nothing inside it from `chars[from..to]`.
pub fn make_leaf(rule: Rule, chars: &Vec<char>, from: usize, to: usize) -> (r: Pair)
    requires
        from <= to <= chars.len(),
    ensures
        r@ == leaf(rule, chars@, from as int, to as int),
{
    let r = Pair { rule, text: string_of(chars, from, to), inner: Vec::new() };
    proof {
        lemma_pair_inner(r);
        assert(r@.inner =~= Seq::empty());
    }
    r
}

/// Makes a piece from `chars[from..to]` with the given pieces inside it.
pub fn make_branch(rule: Rule, chars: &Vec<char>, from: usize, to: usize, inner: Vec<Pair>) -> (r:
    Pair)
    requires
        from <= to <= chars.len(),
    ensures
        r@ == branch(rule, chars@, from as int, to as int, pairs_view(inner@)),
{
    let r = Pair { rule, text: string_of(chars, from, to), inner };
    proof {
        lemma_pair_inner(r);
    }
    r
}

/// The view of what a parsing step found.
pub open spec fn found(r: Option<(Pair, usize)>) -> Option<(PairView, int)> {
    match r {
        Some((p, e)) => Some((p@, e as int)),
        None => None,
    }
}

/// Where the label that starts at `i` ends.
pub fn parse_label(chars: &Vec<char>, i: usize) -> (r: Option<usize>)
    requires
        i <= chars.len(),
    ensures
        match r {
            Some(e) => label_end(chars@, i as int) == Some(e as int) && i < e <= chars.len(),
            None => label_end(chars@, i as int) is None,
        },
{
    if i < chars.len() && is_in_class(CharClass::Alpha, chars[i]) {
        Some(scan(chars, i + 1, CharClass::Label))
    } else {
        None
    }
}

/// Where the phandle that starts at `i` ends.
pub fn parse_phandle(chars: &Vec<char>, i: usize) -> (r: Option<usize>)
    requires
        i <= chars.len(),
    ensures
        match r {
            Some(e) => phandle_end(chars@, i as int) == Some(e as int) && i < e <= chars.len(),
            None => phandle_end(chars@, i as int) is None,
        },
{
    if is_at(chars, i, '&') {
        parse_label(chars, i + 1)
    } else {
        None
    }
}

/// Reads the cell that starts at `i`.
pub fn parse_word(chars: &Vec<char>, i: usize) -> (r: Option<(Pair, usize)>)
    requires
        i <= chars.len(),
    ensures
        found(r) == word_at(chars@, i as int),
        r matches Some((_, e)) ==> i < e <= chars.len(),
{
    if is_at(chars, i, '&') {
        match parse_phandle(chars, i) {
            Some(e) => Some((make_leaf(Rule::Phandle, chars, i, e), e)),
            None => None,
        }
    } else {
        if is_at(chars, i, '0') && (is_at(chars, i + 1, 'x') || is_at(chars, i + 1, 'X')) {
            let e = scan(chars, i + 2, CharClass::Hex);
            if e > i + 2 {
                return Some((make_leaf(Rule::HexNumber, chars, i, e), e));
            }
        }
        let e = scan(chars, i, CharClass::Digit);
        if e > i {
            Some((make_leaf(Rule::DecimalNumber, chars, i, e), e))
        } else {
            None
        }
    }
}

/// Reads the `<...>` list that starts at `i`.
pub fn parse_words(chars: &Vec<char>, i: usize) -> (r: Option<(Pair, usize)>)
    requires
        i <= chars.len(),
    ensures
        found(r) == words_at(chars@, i as int),
        r matches Some((_, e)) ==> i < e <= chars.len(),
{
    if !is_at(chars, i, '<') {
        return None;
    }
    let mut items: Vec<Pair> = Vec::new();
    let mut pos: usize = i + 1;
    assert(pairs_view(items@) =~= Seq::empty());
    loop
        invariant
            i < pos <= chars.len(),
            words_from(chars@, i + 1, Seq::empty()) == words_from(
                chars@,
                pos as int,
                pairs_view(items@),
            ),
        ensures
            i < pos <= chars.len(),
            words_from(chars@, i + 1, Seq::empty()) == (pairs_view(items@), pos as int),
        decreases chars.len() - pos,
    {
        let j = scan(chars, pos, CharClass::Space);
        match parse_word(chars, j) {
            Some((p, e)) => {
                let ghost before = pairs_view(items@);
                items.push(p);
                assert(pairs_view(items@) =~= before.push(p@));
                pos = e;
            },
            None => {
                break ;
            },
        }
    }
    let j = scan(chars, pos, CharClass::Space);
    if is_at(chars, j, '>') {
        Some((make_branch(Rule::Words, chars, i, j + 1, items), j + 1))
    } else {
        None
    }
}

/// Reads the `[...]` list that starts at `i`.
pub fn parse_bytes(chars: &Vec<char>, i: usize) -> (r: Option<(Pair, usize)>)
    requires
        i <= chars.len(),
    ensures
        found(r) == bytes_at(chars@, i as int),
        r matches Some((_, e)) ==> i < e <= chars.len(),
{
    if !is_at(chars, i, '[') {
        return None;
    }
    let mut items: Vec<Pair> = Vec::new();
    let mut pos: usize = i + 1;
    assert(pairs_view(items@) =~= Seq::empty());
    loop
        invariant
            i < pos <= chars.len(),
            bytes_from(chars@, i + 1, Seq::empty()) == bytes_from(
                chars@,
                pos as int,
                pairs_view(items@),
            ),
        ensures
            i < pos <= chars.len(),
            bytes_from(chars@, i + 1, Seq::empty()) == (pairs_view(items@), pos as int),
        decreases chars.len() - pos,
    {
        let j = scan(chars, pos, CharClass::Space);
        if j < chars.len() - 1 && is_in_class(CharClass::Hex, chars[j]) && is_in_class(
            CharClass::Hex,
            chars[j + 1],
        ) {
            let p = make_leaf(Rule::PlainHexNumber, chars, j, j + 2);
            let ghost before = pairs_view(items@);
            items.push(p);
            assert(pairs_view(items@) =~= before.push(p@));
            pos = j + 2;
        } else {
            break ;
        }
    }
    let j = scan(chars, pos, CharClass::Space);
    if is_at(chars, j, ']') {
        Some((make_branch(Rule::Bytes, chars, i, j + 1, items), j + 1))
    } else {
        None
    }
}

/// Reads the value that starts at `i`.
pub fn parse_value(chars: &Vec<char>, i: usize) -> (r: Option<(Pair, usize)>)
    requires
        i <= chars.len(),
    ensures
        found(r) == value_at(chars@, i as int),
        r matches Some((_, e)) ==> i < e <= chars.len(),
{
    if is_at(chars, i, '"') {
        let e = scan(chars, i + 1, CharClass::StringBody);
        if is_at(chars, e, '"') {
            Some((make_leaf(Rule::String, chars, i, e + 1), e + 1))
        } else {
            None
        }
    } else if is_at(chars, i, '<') {
        parse_words(chars, i)
    } else if is_at(chars, i, '[') {
        parse_bytes(chars, i)
    } else {
        match parse_phandle(chars, i) {
            Some(e) => Some((make_leaf(Rule::Phandle, chars, i, e), e)),
            None => None,
        }
    }
}

/// Reads the property clause that starts at `i`.
pub fn parse_property(chars: &Vec<char>, i: usize) -> (r: Option<(Pair, usize)>)
    requires
        i <= chars.len(),
    ensures
        found(r) == property_at(chars@, i as int),
        r matches Some((_, e)) ==> i < e <= chars.len(),
{
    let e1 = scan(chars, i, CharClass::Name);
    if e1 <= i {
        return None;
    }
    let name = make_leaf(Rule::Nodename, chars, i, e1);
    let j = scan(chars, e1, CharClass::Space);
    if is_at(chars, j, '=') {
        let k = scan(chars, j + 1, CharClass::Space);
        match parse_value(chars, k) {
            None => None,
            Some((v, e2)) => {
                let mut items: Vec<Pair> = Vec::new();
                items.push(name);
                items.push(v);
                assert(pairs_view(items@) =~= seq![name@, v@]);
                let mut pos: usize = e2;
                loop
                    invariant
                        i < pos <= chars.len(),
                        values_from(chars@, e2 as int, seq![name@, v@]) == values_from(
                            chars@,
                            pos as int,
                            pairs_view(items@),
                        ),
                    ensures
                        i < pos <= chars.len(),
                        values_from(chars@, e2 as int, seq![name@, v@]) == (
                            pairs_view(items@),
                            pos as int,
                        ),
                    decreases chars.len() - pos,
                {
                    let c = scan(chars, pos, CharClass::Space);
                    if !is_at(chars, c, ',') {
                        break ;
                    }
                    let n = scan(chars, c + 1, CharClass::Space);
                    match parse_value(chars, n) {
                        Some((p, e)) => {
                            let ghost before = pairs_view(items@);
                            items.push(p);
                            assert(pairs_view(items@) =~= before.push(p@));
                            pos = e;
                        },
                        None => {
                            break ;
                        },
                    }
                }
                let k = scan(chars, pos, CharClass::Space);
                if is_at(chars, k, ';') {
                    Some((make_branch(Rule::Property, chars, i, k + 1, items), k + 1))
                } else {
                    None
                }
            },
        }
    } else if is_at(chars, j, ';') {
        let mut items: Vec<Pair> = Vec::new();
        items.push(name);
        assert(pairs_view(items@) =~= seq![name@]);
        Some((make_branch(Rule::Property, chars, i, j + 1, items), j + 1))
    } else {
        None
    }
}

/// Reads the labels and the name that a node starts with at `i`.
pub fn parse_node_head(chars: &Vec<char>, i: usize) -> (r: Option<(Vec<Pair>, usize)>)
    requires
        i <= chars.len(),
    ensures
        match r {
            Some((head, e)) => node_head(chars@, i as int) == Some((pairs_view(head@), e as int))
                && i < e <= chars.len(),
            None => node_head(chars@, i as int) is None,
        },
{
    let mut head: Vec<Pair> = Vec::new();
    let mut pos: usize = i;
    assert(pairs_view(head@) =~= Seq::empty());
    loop
        invariant
            i <= pos <= chars.len(),
            labels_from(chars@, i as int, Seq::empty()) == labels_from(
                chars@,
                pos as int,
                pairs_view(head@),
            ),
        ensures
            i <= pos <= chars.len(),
            labels_from(chars@, i as int, Seq::empty()) == (pairs_view(head@), pos as int),
        decreases chars.len() - pos,
    {
        match parse_label(chars, pos) {
            Some(e) => {
                let c = scan(chars, e, CharClass::Space);
                if is_at(chars, c, ':') {
                    let next = scan(chars, c + 1, CharClass::Space);
                    let p = make_leaf(Rule::Label, chars, pos, e);
                    let ghost before = pairs_view(head@);
                    head.push(p);
                    assert(pairs_view(head@) =~= before.push(p@));
                    pos = next;
                } else {
                    break ;
                }
            },
            None => {
                break ;
            },
        }
    }
    if is_at(chars, pos, '/') {
        Some((head, pos + 1))
    } else {
        let e = scan(chars, pos, CharClass::Name);
        if e > pos {
            let p = make_leaf(Rule::Nodename, chars, pos, e);
            let ghost before = pairs_view(head@);
            head.push(p);
            assert(pairs_view(head@) =~= before.push(p@));
            Some((head, e))
        } else {
            None
        }
    }
}

/// Reads the node that starts at `i`.
pub fn parse_node(chars: &Vec<char>, i: usize) -> (r: Option<(Pair, usize)>)
    requires
        i <= chars.len(),
    ensures
        found(r) == node_at(chars@, i as int),
        r matches Some((_, e)) ==> i < e <= chars.len(),
    decreases chars.len() - i,
{
    let (head, e) = match parse_node_head(chars, i) {
        Some(r) => r,
        None => {
            return None;
        },
    };
    let k = scan(chars, e, CharClass::Space);
    if !is_at(chars, k, '{') {
        return None;
    }
    let mut items: Vec<Pair> = head;
    let mut pos: usize = k + 1;
    loop
        invariant
            i < pos <= chars.len(),
            entries_from(chars@, k + 1, pairs_view(head@)) == entries_from(
                chars@,
                pos as int,
                pairs_view(items@),
            ),
        ensures
            i < pos <= chars.len(),
            entries_from(chars@, k + 1, pairs_view(head@)) == (pairs_view(items@), pos as int),
        decreases chars.len() - pos,
    {
        let j = scan(chars, pos, CharClass::Space);
        let entry = match parse_property(chars, j) {
            Some(r) => Some(r),
            None => parse_node(chars, j),
        };
        match entry {
            Some((p, e)) => {
                let ghost before = pairs_view(items@);
                items.push(p);
                assert(pairs_view(items@) =~= before.push(p@));
                pos = e;
            },
            None => {
                break ;
            },
        }
    }
    let m = scan(chars, pos, CharClass::Space);
    if !is_at(chars, m, '}') {
        return None;
    }
    let n = scan(chars, m + 1, CharClass::Space);
    if is_at(chars, n, ';') {
        Some((make_branch(Rule::Node, chars, i, n + 1, items), n + 1))
    } else {
        None
    }
}

/// Where the root node starts.
pub fn find_root(chars: &Vec<char>) -> (r: usize)
    ensures
        r == root_start(chars@),
        r <= chars.len(),
{
    let i = scan(chars, 0, CharClass::Space);
    if chars.len() - i >= 8 && chars[i] == '/' && chars[i + 1] == 'd' && chars[i + 2] == 't'
        && chars[i + 3] == 's' && chars[i + 4] == '-' && chars[i + 5] == 'v' && chars[i + 6] == '1'
        && chars[i + 7] == '/' {
        let j = scan(chars, i + 8, CharClass::Space);
        if is_at(chars, j, ';') {
            return scan(chars, j + 1, CharClass::Space);
        }
    }
    i
}

/// The parser of devicetree sources.
pub struct Dts;

/// The view of the parser's result.
pub open spec fn pair_result(r: Result<Pair, ParseError>) -> Result<PairView, ParseErrorView> {
    match r {
        Ok(p) => Ok(p@),
        Err(e) => Err(e@),
    }
}

/// What parsing a source gives: its syntax tree, or a syntax failure where
/// the text is no source.
pub open spec fn parsed_source(s: Seq<char>) -> Result<PairView, ParseErrorView> {
    match syntax_tree(s) {
        Some(p) => Ok(p),
        None => Err(failure(ParseErrorKind::Syntax, ""@)),
    }
}

impl Dts {
    /// Reads a whole source that has a syntax tree.
    pub fn parse(text: &str) -> (r: Pair)
        requires
            syntax_tree(text@) is Some,
        ensures
            r@ == syntax_tree(text@)->0,
    {
        Dts::try_parse(text).unwrap()
    }

    /// Reads a whole source, or says that the text is none.
    pub fn try_parse(text: &str) -> (r: Result<Pair, ParseError>)
        ensures
            pair_result(r) == parsed_source(text@),
    {
        let chars = chars_of(text);
        let start = find_root(&chars);
        match parse_node(&chars, start) {
            Some((p, e)) => {
                let end = scan(&chars, e, CharClass::Space);
                if end == chars.len() {
                    Ok(p)
                } else {
                    Err(ParseError::new(ParseErrorKind::Syntax, ""))
                }
            },
            None => Err(ParseError::new(ParseErrorKind::Syntax, "")),
        }
    }
}

} // verus!
