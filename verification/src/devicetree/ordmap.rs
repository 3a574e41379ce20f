//! The ordinal index: from a node's absolute path to its ordinal.

use vstd::prelude::*;
use vstd::string::StringExecFns;
use crate::pattern::{captures, captures_view, group, group_text, regex_captures};
use crate::text::{parse_unsigned, same_text, unsigned_value};

verus! {

/// One line of the index: a path and the ordinal of the node there.
#[derive(Debug, PartialEq, Eq)]
pub struct OrdEntry {
    pub path: String,
    pub ord: usize,
}

/// The mapping that a list of entries stands for. Where a path occurs twice,
/// the later entry counts.
pub open spec fn entries_map(entries: Seq<OrdEntry>) -> Map<Seq<char>, usize>
    decreases entries.len(),
{
    if entries.len() == 0 {
        Map::empty()
    } else {
        entries_map(entries.drop_last()).insert(entries.last().path@, entries.last().ord)
    }
}

/// The ordinal index. Its view is the mapping from path to ordinal.
#[derive(Debug)]
pub struct OrdMap(pub Vec<OrdEntry>);

impl View for OrdMap {
    type V = Map<Seq<char>, usize>;

    open spec fn view(&self) -> Map<Seq<char>, usize> {
        entries_map(self.0@)
    }
}

/// What looking a path up in a mapping gives.
pub open spec fn lookup(m: Map<Seq<char>, usize>, path: Seq<char>) -> Option<usize> {
    if m.contains_key(path) {
        Some(m[path])
    } else {
        None
    }
}

impl OrdMap {
    /// The index without entries.
    pub fn empty() -> (r: OrdMap)
        ensures
            r@ == Map::<Seq<char>, usize>::empty(),
    {
        OrdMap(Vec::new())
    }

    /// Records the ordinal of the node at `path`, in place of an earlier one.
    pub fn insert(&mut self, path: String, ord: usize)
        ensures
            final(self)@ == old(self)@.insert(path@, ord),
    {
        self.0.push(OrdEntry { path, ord });
        assert(self.0@.drop_last() =~= old(self).0@);
    }

    /// The ordinal of the node at `path`.
    pub fn get(&self, path: &str) -> (r: Option<usize>)
        ensures
            r == lookup(self@, path@),
    {
        let mut i: usize = self.0.len();
        assert(self.0@.take(i as int) =~= self.0@);
        while i > 0
            invariant
                i <= self.0.len(),
                lookup(self@, path@) == lookup(entries_map(self.0@.take(i as int)), path@),
            decreases i,
        {
            proof {
                assert(self.0@.take(i as int).drop_last() =~= self.0@.take(i as int - 1));
            }
            if same_text(self.0[i - 1].path.as_str(), path) {
                return Some(self.0[i - 1].ord);
            }
            i = i - 1;
        }
        None
    }
}

/// The line that gives a node's path: `#define DT_<name>_PATH "<path>"`.
pub open spec fn path_pattern() -> Seq<char> {
    "^#define DT_(.*)_PATH \"(.*)\"$"@
}

/// The line that gives a node's ordinal: `#define DT_<name>_ORD <ordinal>`.
pub open spec fn ord_pattern() -> Seq<char> {
    "^#define DT_(.*)_ORD (.*)$"@
}

/// What a line of the index says.
#[derive(Debug, PartialEq, Eq)]
pub enum IndexLine {
    /// The node with this C name has this path.
    Path { name: String, path: String },
    /// The node with this C name has this ordinal, still as text.
    Ord { name: String, ord: String },
    /// Nothing that the index is built from.
    Other,
}

pub enum IndexLineView {
    Path { name: Seq<char>, path: Seq<char> },
    Ord { name: Seq<char>, ord: Seq<char> },
    Other,
}

impl View for IndexLine {
    type V = IndexLineView;

    open spec fn view(&self) -> IndexLineView {
        match self {
            IndexLine::Path { name, path } => IndexLineView::Path { name: name@, path: path@ },
            IndexLine::Ord { name, ord } => IndexLineView::Ord { name: name@, ord: ord@ },
            IndexLine::Other => IndexLineView::Other,
        }
    }
}

/// What a line says, given what the path pattern and the ordinal pattern
/// capture in it. The path pattern is asked first; a match counts where both
/// of its groups took part.
pub open spec fn line_kind(
    path_caps: Option<Seq<Option<Seq<char>>>>,
    ord_caps: Option<Seq<Option<Seq<char>>>>,
) -> IndexLineView {
    match path_caps {
        Some(gs) => match (group_text(gs, 1), group_text(gs, 2)) {
            (Some(name), Some(path)) => IndexLineView::Path { name, path },
            _ => IndexLineView::Other,
        },
        None => match ord_caps {
            Some(gs) => match (group_text(gs, 1), group_text(gs, 2)) {
                (Some(name), Some(ord)) => IndexLineView::Ord { name, ord },
                _ => IndexLineView::Other,
            },
            None => IndexLineView::Other,
        },
    }
}

/// What the line `line` of the index says.
pub open spec fn line_of(line: Seq<char>) -> IndexLineView {
    line_kind(regex_captures(path_pattern(), line), regex_captures(ord_pattern(), line))
}

/// Tells what a line says from what the two patterns captured in it.
pub fn classify(path_caps: Option<Vec<Option<String>>>, ord_caps: Option<Vec<Option<String>>>) -> (r:
    IndexLine)
    ensures
        r@ == line_kind(captures_view(path_caps), captures_view(ord_caps)),
{
    match path_caps {
        Some(gs) => match (group(&gs, 1), group(&gs, 2)) {
            (Some(name), Some(path)) => IndexLine::Path { name: name.clone(), path: path.clone() },
            _ => IndexLine::Other,
        },
        None => match ord_caps {
            Some(gs) => match (group(&gs, 1), group(&gs, 2)) {
                (Some(name), Some(ord)) => IndexLine::Ord { name: name.clone(), ord: ord.clone() },
                _ => IndexLine::Other,
            },
            None => IndexLine::Other,
        },
    }
}

/// Tells what a line of the index says.
pub fn read_line(line: &str) -> (r: IndexLine)
    ensures
        r@ == line_of(line@),
{
    let path_caps = captures("^#define DT_(.*)_PATH \"(.*)\"$", line);
    let ord_caps = captures("^#define DT_(.*)_ORD (.*)$", line);
    classify(path_caps, ord_caps)
}

/// Why reading the index failed.
#[derive(Clone, Copy, Debug, PartialEq, Eq, Structural)]
pub enum OrdErrorKind {
    /// An ordinal is no number, or too large. The subject is its text.
    BadOrdinal,
    /// An ordinal line names another node than the path line before it. The
    /// subject is the name on the ordinal line.
    Mismatch,
}

/// A failed reading of the index.
#[derive(Debug, PartialEq, Eq)]
pub struct OrdError {
    pub kind: OrdErrorKind,
    pub subject: String,
}

pub struct OrdErrorView {
    pub kind: OrdErrorKind,
    pub subject: Seq<char>,
}

impl View for OrdError {
    type V = OrdErrorView;

    open spec fn view(&self) -> OrdErrorView {
        OrdErrorView { kind: self.kind, subject: self.subject@ }
    }
}

impl OrdError {
    /// A sentence that says what failed and where.
    pub fn message(&self) -> (r: String)
        ensures
            r@ == self@.message(),
    {
        let mut r = String::new();
        match self.kind {
            OrdErrorKind::BadOrdinal => r.append("Invalid ordinal: "),
            OrdErrorKind::Mismatch => r.append("Ordinal does not follow the path of: "),
        }
        r.append(self.subject.as_str());
        assert(r@ =~= self@.message());
        r
    }
}

impl OrdErrorView {
    pub open spec fn message(self) -> Seq<char> {
        (match self.kind {
            OrdErrorKind::BadOrdinal => "Invalid ordinal: "@,
            OrdErrorKind::Mismatch => "Ordinal does not follow the path of: "@,
        }) + self.subject
    }
}

/// The reading of the index in progress: the C name and the path of the last
/// path line, and the mapping so far.
pub struct IndexState {
    pub c_name: Seq<char>,
    pub dt_path: Seq<char>,
    pub map: Map<Seq<char>, usize>,
}

/// The state before the first line.
pub open spec fn index_start() -> IndexState {
    IndexState { c_name: ""@, dt_path: ""@, map: Map::empty() }
}

/// What one line does to the state. A path line is remembered. An ordinal
/// line must name the node of the path line before it; it then gives that
/// path its ordinal.
pub open spec fn index_step(state: IndexState, line: IndexLineView) -> Result<
    IndexState,
    OrdErrorView,
> {
    match line {
        IndexLineView::Path { name, path } => Ok(
            IndexState { c_name: name, dt_path: path, map: state.map },
        ),
        IndexLineView::Ord { name, ord } => match unsigned_value(ord, 10, usize::MAX as nat) {
            None => Err(OrdErrorView { kind: OrdErrorKind::BadOrdinal, subject: ord }),
            Some(n) => if name == state.c_name {
                Ok(
                    IndexState {
                        c_name: state.c_name,
                        dt_path: state.dt_path,
                        map: state.map.insert(state.dt_path, n as usize),
                    },
                )
            } else {
                Err(OrdErrorView { kind: OrdErrorKind::Mismatch, subject: name })
            },
        },
        IndexLineView::Other => Ok(state),
    }
}

/// The state after the first `k` lines; the first failure wins.
pub open spec fn index_upto(lines: Seq<IndexLineView>, k: nat) -> Result<IndexState, OrdErrorView>
    decreases k,
{
    if k == 0 || k > lines.len() {
        Ok(index_start())
    } else {
        match index_upto(lines, (k - 1) as nat) {
            Err(e) => Err(e),
            Ok(state) => index_step(state, lines[k - 1]),
        }
    }
}

/// The mapping that the lines of an index give.
pub open spec fn index_of(lines: Seq<IndexLineView>) -> Result<Map<Seq<char>, usize>, OrdErrorView> {
    match index_upto(lines, lines.len()) {
        Ok(state) => Ok(state.map),
        Err(e) => Err(e),
    }
}

/// Once the reading fails, it stays failed.
proof fn lemma_index_fail(lines: Seq<IndexLineView>, k: nat)
    requires
        k <= lines.len(),
        index_upto(lines, k) is Err,
    ensures
        index_upto(lines, lines.len()) == index_upto(lines, k),
    decreases lines.len() - k,
{
    if k < lines.len() {
        lemma_index_fail(lines, k + 1);
    }
}

pub open spec fn index_lines_view(lines: Seq<IndexLine>) -> Seq<IndexLineView> {
    lines.map_values(|l: IndexLine| l@)
}

/// The lines of an index file, each told by the two patterns.
pub open spec fn lines_of(lines: Seq<String>) -> Seq<IndexLineView> {
    lines.map_values(|l: String| line_of(l@))
}

/// The view of the result of reading an index.
pub open spec fn index_result(r: Result<OrdMap, OrdError>) -> Result<
    Map<Seq<char>, usize>,
    OrdErrorView,
> {
    match r {
        Ok(m) => Ok(m@),
        Err(e) => Err(e@),
    }
}

impl OrdMap {
    /// Builds the index from lines that were told already and are well
    /// formed: every ordinal is a number and follows the path of its node.
    pub fn from_lines(lines: &Vec<IndexLine>) -> (r: OrdMap)
        requires
            index_of(index_lines_view(lines@)) is Ok,
        ensures
            r@ == index_of(index_lines_view(lines@))->Ok_0,
    {
        OrdMap::try_from_lines(lines).unwrap()
    }

    /// Builds the index from the lines of a well-formed generated header.
    pub fn new(lines: &Vec<String>) -> (r: OrdMap)
        requires
            index_of(lines_of(lines@)) is Ok,
        ensures
            r@ == index_of(lines_of(lines@))->Ok_0,
    {
        OrdMap::from_lines(&read_lines(lines))
    }

    /// Builds the index from lines that were told already, or says which
    /// line is malformed.
    pub fn try_from_lines(lines: &Vec<IndexLine>) -> (r: Result<OrdMap, OrdError>)
        ensures
            index_result(r) == index_of(index_lines_view(lines@)),
    {
        let ghost views = index_lines_view(lines@);
        let mut result = OrdMap::empty();
        // The last C name seen.
        let mut c_name = String::new();
        let mut dt_path = String::new();
        proof {
            reveal_strlit("");
            assert(c_name@ =~= ""@);
            assert(dt_path@ =~= ""@);
        }
        let mut i: usize = 0;
        while i < lines.len()
            invariant
                i <= lines.len(),
                views == index_lines_view(lines@),
                index_upto(views, i as nat) == Ok::<IndexState, OrdErrorView>(
                    IndexState { c_name: c_name@, dt_path: dt_path@, map: result@ },
                ),
            decreases lines.len() - i,
        {
            match &lines[i] {
                IndexLine::Path { name, path } => {
                    c_name = name.clone();
                    dt_path = path.clone();
                },
                IndexLine::Ord { name, ord } => {
                    let n = match parse_unsigned(ord.as_str(), 10, usize::MAX as u64) {
                        Some(n) => n,
                        None => {
                            proof {
                                lemma_index_fail(views, i as nat + 1);
                            }
                            return Err(
                                OrdError { kind: OrdErrorKind::BadOrdinal, subject: ord.clone() },
                            );
                        },
                    };
                    if !same_text(name.as_str(), c_name.as_str()) {
                        proof {
                            lemma_index_fail(views, i as nat + 1);
                        }
                        return Err(OrdError { kind: OrdErrorKind::Mismatch, subject: name.clone() });
                    }
                    result.insert(dt_path.clone(), n as usize);
                },
                IndexLine::Other => {},
            }
            i = i + 1;
        }
        Ok(result)
    }

    /// Builds the index from the lines of the generated header, or says
    /// which line is malformed.
    pub fn try_new(lines: &Vec<String>) -> (r: Result<OrdMap, OrdError>)
        ensures
            index_result(r) == index_of(lines_of(lines@)),
    {
        OrdMap::try_from_lines(&read_lines(lines))
    }
}

/// Tells what each line of the index says.
pub fn read_lines(lines: &Vec<String>) -> (r: Vec<IndexLine>)
    ensures
        index_lines_view(r@) == lines_of(lines@),
{
    let mut told: Vec<IndexLine> = Vec::new();
    let mut i: usize = 0;
    assert(index_lines_view(told@) =~= lines_of(lines@).take(0));
    while i < lines.len()
        invariant
            i <= lines.len(),
            index_lines_view(told@) == lines_of(lines@).take(i as int),
        decreases lines.len() - i,
    {
        let ghost before = index_lines_view(told@);
        let line = read_line(lines[i].as_str());
        told.push(line);
        i = i + 1;
        assert(index_lines_view(told@) =~= before.push(line@));
        assert(index_lines_view(told@) =~= lines_of(lines@).take(i as int));
    }
    assert(lines_of(lines@).take(i as int) =~= lines_of(lines@));
    told
}

/// The C name of the last path line among the first `k` lines.
pub open spec fn name_before(lines: Seq<IndexLineView>, k: nat) -> Seq<char>
    decreases k,
{
    if k == 0 || k > lines.len() {
        ""@
    } else {
        match lines[k - 1] {
            IndexLineView::Path { name, path } => name,
            _ => name_before(lines, (k - 1) as nat),
        }
    }
}

/// The path of the last path line among the first `k` lines.
pub open spec fn path_before(lines: Seq<IndexLineView>, k: nat) -> Seq<char>
    decreases k,
{
    if k == 0 || k > lines.len() {
        ""@
    } else {
        match lines[k - 1] {
            IndexLineView::Path { name, path } => path,
            _ => path_before(lines, (k - 1) as nat),
        }
    }
}

/// An index is well formed where every ordinal line carries a number that
/// fits and names the node of the path line before it.
pub open spec fn well_formed(lines: Seq<IndexLineView>) -> bool {
    forall|k: int|
        0 <= k < lines.len() ==> (#[trigger] lines[k] matches IndexLineView::Ord { name, ord }
            ==> unsigned_value(ord, 10, usize::MAX as nat) is Some && name == name_before(
            lines,
            k as nat,
        ))
}

/// The last ordinal line among the first `k` lines that belongs to `path`.
pub open spec fn last_ord(lines: Seq<IndexLineView>, k: nat, path: Seq<char>) -> Option<int>
    decreases k,
{
    if k == 0 || k > lines.len() {
        None
    } else if lines[k - 1] is Ord && path_before(lines, (k - 1) as nat) == path {
        Some(k - 1)
    } else {
        last_ord(lines, (k - 1) as nat, path)
    }
}

/// The ordinal on line `j`.
pub open spec fn ordinal_on(lines: Seq<IndexLineView>, j: int) -> usize {
    match lines[j] {
        IndexLineView::Ord { name, ord } => unsigned_value(ord, 10, usize::MAX as nat)->0 as usize,
        _ => 0,
    }
}

/// The mapping that the correlated lines among the first `k` stand for: a
/// path has an entry where an ordinal line belongs to it, and the entry is
/// the ordinal of the last such line.
pub open spec fn correlated_upto(lines: Seq<IndexLineView>, k: nat) -> Map<Seq<char>, usize> {
    Map::new(
        |path: Seq<char>| last_ord(lines, k, path) is Some,
        |path: Seq<char>| ordinal_on(lines, last_ord(lines, k, path)->0),
    )
}

proof fn lemma_correlation(lines: Seq<IndexLineView>, k: nat)
    requires
        well_formed(lines),
        k <= lines.len(),
    ensures
        index_upto(lines, k) == Ok::<IndexState, OrdErrorView>(
            IndexState {
                c_name: name_before(lines, k),
                dt_path: path_before(lines, k),
                map: correlated_upto(lines, k),
            },
        ),
    decreases k,
{
    if k == 0 {
        assert(correlated_upto(lines, 0) =~= Map::<Seq<char>, usize>::empty());
    } else {
        let j = (k - 1) as nat;
        lemma_correlation(lines, j);
        let before = index_upto(lines, j)->Ok_0;
        match lines[k - 1] {
            IndexLineView::Path { name, path } => {
                assert(correlated_upto(lines, k) =~= correlated_upto(lines, j));
            },
            IndexLineView::Ord { name, ord } => {
                let n = unsigned_value(ord, 10, usize::MAX as nat)->0;
                assert(correlated_upto(lines, k) =~= before.map.insert(before.dt_path, n as usize));
            },
            IndexLineView::Other => {
                assert(correlated_upto(lines, k) =~= correlated_upto(lines, j));
            },
        }
    }
}

/// Ordinal correlation: a well-formed index gives a mapping with one entry
/// for each path that an ordinal line belongs to, and the entry is the
/// ordinal on the last such line.
pub proof fn law_ordinal_correlation(lines: Seq<IndexLineView>)
    requires
        well_formed(lines),
    ensures
        index_of(lines) == Ok::<Map<Seq<char>, usize>, OrdErrorView>(
            correlated_upto(lines, lines.len()),
        ),
{
    lemma_correlation(lines, lines.len());
}

/// How many ordinal lines the first `k` lines hold.
pub open spec fn ordinal_lines(lines: Seq<IndexLineView>, k: nat) -> nat
    decreases k,
{
    if k == 0 || k > lines.len() {
        0
    } else if lines[k - 1] is Ord {
        ordinal_lines(lines, (k - 1) as nat) + 1
    } else {
        ordinal_lines(lines, (k - 1) as nat)
    }
}

/// No two ordinal lines belong to the same path.
pub open spec fn paths_differ(lines: Seq<IndexLineView>) -> bool {
    forall|i: int, j: int|
        0 <= i < j < lines.len() && (#[trigger] lines[i]) is Ord && (#[trigger] lines[j]) is Ord
            ==> path_before(lines, i as nat) != path_before(lines, j as nat)
}

proof fn lemma_last_ord(lines: Seq<IndexLineView>, k: nat, path: Seq<char>)
    requires
        k <= lines.len(),
    ensures
        last_ord(lines, k, path) matches Some(j) ==> 0 <= j < k && lines[j] is Ord && path_before(
            lines,
            j as nat,
        ) == path,
    decreases k,
{
    if k > 0 {
        lemma_last_ord(lines, (k - 1) as nat, path);
    }
}

proof fn lemma_entries_counted(lines: Seq<IndexLineView>, k: nat)
    requires
        paths_differ(lines),
        k <= lines.len(),
    ensures
        correlated_upto(lines, k).dom().finite(),
        correlated_upto(lines, k).dom().len() == ordinal_lines(lines, k),
    decreases k,
{
    if k == 0 {
        assert(correlated_upto(lines, 0).dom() =~= Set::<Seq<char>>::empty());
    } else {
        let j = (k - 1) as nat;
        lemma_entries_counted(lines, j);
        let before = correlated_upto(lines, j).dom();
        if lines[k - 1] is Ord {
            let path = path_before(lines, j);
            lemma_last_ord(lines, j, path);
            assert(!before.contains(path));
            assert(correlated_upto(lines, k).dom() =~= before.insert(path));
        } else {
            assert(correlated_upto(lines, k).dom() =~= before);
        }
    }
}

/// One entry for each correlated line: where no two ordinal lines belong to
/// the same path, a well-formed index gives as many entries as it has
/// ordinal lines.
pub proof fn law_one_entry_per_ordinal(lines: Seq<IndexLineView>)
    requires
        well_formed(lines),
        paths_differ(lines),
    ensures
        index_of(lines) matches Ok(m) && m.dom().finite() && m.dom().len() == ordinal_lines(
            lines,
            lines.len(),
        ),
{
    lemma_correlation(lines, lines.len());
    lemma_entries_counted(lines, lines.len());
}

} // verus!
