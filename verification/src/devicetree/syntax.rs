//! The syntax tree of a devicetree source: what the source parser hands to
//! the tree builder.

use vstd::prelude::*;
use vstd::string::StringExecFns;

verus! {

/// The grammar rule that a piece of the source was read by.
#[derive(Clone, Copy, Debug, PartialEq, Eq, Structural)]
pub enum Rule {
    Node,
    Nodename,
    Label,
    Property,
    Words,
    Bytes,
    Phandle,
    String,
    HexNumber,
    DecimalNumber,
    PlainHexNumber,
}

/// One piece of the source: its rule, its text and the pieces inside it.
#[derive(Debug, PartialEq, Eq)]
pub struct Pair {
    pub rule: Rule,
    pub text: String,
    pub inner: Vec<Pair>,
}

pub struct PairView {
    pub rule: Rule,
    pub text: Seq<char>,
    pub inner: Seq<PairView>,
}

pub open spec fn pair_view(p: Pair) -> PairView
    decreases p,
{
    PairView {
        rule: p.rule,
        text: p.text@,
        inner: Seq::new(
            p.inner.len() as nat,
            |i: int|
                if 0 <= i < p.inner.len() {
                    pair_view(p.inner[i])
                } else {
                    arbitrary()
                },
        ),
    }
}

pub open spec fn pairs_view(ps: Seq<Pair>) -> Seq<PairView> {
    ps.map_values(|p: Pair| pair_view(p))
}

impl View for Pair {
    type V = PairView;

    open spec fn view(&self) -> PairView {
        pair_view(*self)
    }
}

/// The view of a pair holds the views of the pairs inside it, in order.
pub proof fn lemma_pair_inner(p: Pair)
    ensures
        p@.inner == pairs_view(p.inner@),
        p@.inner.len() == p.inner.len(),
        forall|i: int| 0 <= i < p.inner.len() ==> p@.inner[i] == (#[trigger] p.inner[i])@,
{
    assert(p@.inner =~= pairs_view(p.inner@));
}

impl Pair {
    /// A piece with nothing inside it.
    pub fn leaf(rule: Rule, text: &str) -> (r: Pair)
        ensures
            r@ == (PairView { rule, text: text@, inner: Seq::empty() }),
    {
        let r = Pair { rule, text: text.to_owned(), inner: Vec::new() };
        proof {
            lemma_pair_inner(r);
            assert(r@.inner =~= Seq::empty());
        }
        r
    }
}

/// Why reading a source or building its tree failed.
#[derive(Clone, Copy, Debug, PartialEq, Eq, Structural)]
pub enum ParseErrorKind {
    /// The text is no devicetree source. The subject is empty.
    Syntax,
    /// The index has no ordinal for a node. The subject is the node's path.
    MissingOrdinal,
    /// A node has more than one name. The subject is the further name.
    MultipleNames,
    /// A node other than the root has no name. The subject is the path of
    /// the node above it.
    MissingName,
    /// A piece stands where its rule has no place. The subject is its text,
    /// as for the kinds below.
    UnexpectedRule,
    /// A number is malformed or does not fit its width.
    BadNumber,
    /// A string is not enclosed in quotes.
    BadString,
    /// A phandle lacks its sigil.
    BadPhandle,
    /// A property has no name.
    MissingPropertyName,
}

/// A failed parse: what went wrong, and the text or path at which.
#[derive(Debug, PartialEq, Eq)]
pub struct ParseError {
    pub kind: ParseErrorKind,
    pub subject: String,
}

pub struct ParseErrorView {
    pub kind: ParseErrorKind,
    pub subject: Seq<char>,
}

impl View for ParseError {
    type V = ParseErrorView;

    open spec fn view(&self) -> ParseErrorView {
        ParseErrorView { kind: self.kind, subject: self.subject@ }
    }
}

/// The failure of the given kind at the given subject.
pub open spec fn failure(kind: ParseErrorKind, subject: Seq<char>) -> ParseErrorView {
    ParseErrorView { kind, subject }
}

impl ParseError {
    pub fn new(kind: ParseErrorKind, subject: &str) -> (r: ParseError)
        ensures
            r@ == failure(kind, subject@),
    {
        ParseError { kind, subject: subject.to_owned() }
    }

    /// A sentence that says what failed and where.
    pub fn message(&self) -> (r: String)
        ensures
            r@ == self@.message(),
    {
        let mut r = String::new();
        match self.kind {
            ParseErrorKind::Syntax => r.append("Parsing zephyr.dts"),
            ParseErrorKind::MissingOrdinal => r.append("Unexpected node path: "),
            ParseErrorKind::MultipleNames => r.append("Grammar error, node has multiple names: "),
            ParseErrorKind::MissingName => r.append("Grammar error, node has no name below: "),
            ParseErrorKind::UnexpectedRule => r.append("Unexpected rule at: "),
            ParseErrorKind::BadNumber => r.append("Invalid number: "),
            ParseErrorKind::BadString => r.append("Invalid string: "),
            ParseErrorKind::BadPhandle => r.append("Invalid phandle: "),
            ParseErrorKind::MissingPropertyName => r.append("Property without a name: "),
        }
        r.append(self.subject.as_str());
        assert(r@ =~= self@.message());
        r
    }
}

impl ParseErrorView {
    pub open spec fn message(self) -> Seq<char> {
        (match self.kind {
            ParseErrorKind::Syntax => "Parsing zephyr.dts"@,
            ParseErrorKind::MissingOrdinal => "Unexpected node path: "@,
            ParseErrorKind::MultipleNames => "Grammar error, node has multiple names: "@,
            ParseErrorKind::MissingName => "Grammar error, node has no name below: "@,
            ParseErrorKind::UnexpectedRule => "Unexpected rule at: "@,
            ParseErrorKind::BadNumber => "Invalid number: "@,
            ParseErrorKind::BadString => "Invalid string: "@,
            ParseErrorKind::BadPhandle => "Invalid phandle: "@,
            ParseErrorKind::MissingPropertyName => "Property without a name: "@,
        }) + self.subject
    }
}

} // verus!
