//! The structural limits that source files are held to.

use vstd::prelude::*;
use vstd::seq_lib::*;
use vstd::string::*;

use crate::model::option_text;
use crate::order::{sorted, views, SortKey};
use crate::paths::{file_name, name_of_path, path_key, sort_paths, PathText};
use crate::syntax::{outline, outlines_of};
use crate::text::{
    chars, concat, concat3, copy, decimal, last_index, lemma_last_index, lemma_precedes_irreflexive,
    lemma_precedes_total, lemma_precedes_transitive, number_text, precedes, same, slice, split,
    split_text, text_precedes, texts, wide_number_text,
};

verus! {

/// What a source file is held to.
#[derive(Debug, Clone, Copy, PartialEq, Eq, PartialOrd, Ord, Structural)]
pub enum Rule {
    FileLines,
    FunctionLines,
    TypeLines,
    Parameters,
    Complexity,
    Nesting,
}

/// The place of a rule among the rules.
pub open spec fn rank_of(r: Rule) -> nat {
    match r {
        Rule::FileLines => 0,
        Rule::FunctionLines => 1,
        Rule::TypeLines => 2,
        Rule::Parameters => 3,
        Rule::Complexity => 4,
        Rule::Nesting => 5,
    }
}

fn rank(r: Rule) -> (n: u8)
    ensures
        n == rank_of(r),
{
    match r {
        Rule::FileLines => 0,
        Rule::FunctionLines => 1,
        Rule::TypeLines => 2,
        Rule::Parameters => 3,
        Rule::Complexity => 4,
        Rule::Nesting => 5,
    }
}

/// The limits.
#[derive(Debug, Clone, Copy, PartialEq, Eq, Structural)]
pub struct Limits {
    pub file_lines: usize,
    pub function_lines: usize,
    pub type_lines: usize,
    pub parameters: usize,
    pub complexity: usize,
    pub nesting: usize,
}

/// A place where a limit is exceeded.
#[derive(Debug)]
pub struct Violation {
    pub rule: Rule,
    pub path: String,
    pub line: usize,
    pub symbol: Option<String>,
    pub actual: usize,
    pub maximum: usize,
}

/// A violation over plain values.
pub struct ViolationView {
    pub rule: Rule,
    pub path: Seq<char>,
    pub line: usize,
    pub symbol: Option<Seq<char>>,
    pub actual: usize,
    pub maximum: usize,
}

impl View for Violation {
    type V = ViolationView;

    open spec fn view(&self) -> ViolationView {
        ViolationView {
            rule: self.rule,
            path: self.path@,
            line: self.line,
            symbol: option_text(self.symbol),
            actual: self.actual,
            maximum: self.maximum,
        }
    }
}

// ---------------------------------------------------------------------------
// Files
// ---------------------------------------------------------------------------

/// The number of lines of a text; a line feed at its end opens no further line.
pub open spec fn line_total(s: Seq<char>) -> nat
    decreases s.len(),
{
    if s.len() == 0 {
        0
    } else {
        line_total(s.drop_last()) + if s.len() == 1 || s[s.len() - 2] == '\n' {
            1nat
        } else {
            0nat
        }
    }
}

/// The number of lines of a text.
pub fn line_count(s: &str) -> (n: usize)
    ensures
        n == line_total(s@),
{
    let v = chars(s);
    let mut n: usize = 0;
    let mut i: usize = 0;
    proof {
        assert(v@.subrange(0, 0) =~= Seq::<char>::empty());
    }
    while i < v.len()
        invariant
            0 <= i <= v@.len(),
            n <= i,
            n == line_total(v@.subrange(0, i as int)),
        decreases v@.len() - i,
    {
        proof {
            let t = v@.subrange(0, i as int + 1);
            assert(t.drop_last() =~= v@.subrange(0, i as int));
        }
        if i == 0 || v[i - 1] == '\n' {
            n += 1;
        }
        i += 1;
    }
    proof {
        assert(v@.subrange(0, v@.len() as int) =~= v@);
    }
    n
}

/// Whether a character is white space.
pub open spec fn is_space(c: char) -> bool {
    let n = c as u32;
    9 <= n <= 13 || n == 32 || n == 0x85 || n == 0xa0 || n == 0x1680 || 0x2000 <= n <= 0x200a || n
        == 0x2028 || n == 0x2029 || n == 0x202f || n == 0x205f || n == 0x3000
}

fn space(c: char) -> (r: bool)
    ensures
        r == is_space(c),
{
    let n: u32 = c as u32;
    (9 <= n && n <= 13) || n == 32 || n == 0x85 || n == 0xa0 || n == 0x1680 || (0x2000 <= n && n
        <= 0x200a) || n == 0x2028 || n == 0x2029 || n == 0x202f || n == 0x205f || n == 0x3000
}

/// A text without the white space around it.
pub open spec fn stripped(s: Seq<char>) -> Seq<char>
    decreases s.len(),
{
    if s.len() > 0 && is_space(s[0]) {
        stripped(s.drop_first())
    } else if s.len() > 0 && is_space(s.last()) {
        stripped(s.drop_last())
    } else {
        s
    }
}

fn strip(s: &str) -> (r: String)
    ensures
        r@ == stripped(s@),
{
    let v = chars(s);
    let mut start: usize = 0;
    proof {
        assert(v@.subrange(0, v@.len() as int) =~= v@);
    }
    while start < v.len() && space(v[start])
        invariant
            0 <= start <= v@.len(),
            stripped(s@) == stripped(v@.subrange(start as int, v@.len() as int)),
        decreases v@.len() - start,
    {
        proof {
            assert(v@.subrange(start as int, v@.len() as int).drop_first() =~= v@.subrange(
                start as int + 1,
                v@.len() as int,
            ));
        }
        start += 1;
    }
    let mut end: usize = v.len();
    while end > start && space(v[end - 1])
        invariant
            0 <= start <= end <= v@.len(),
            start < v@.len() ==> !is_space(v@[start as int]),
            stripped(s@) == stripped(v@.subrange(start as int, end as int)),
        decreases end,
    {
        proof {
            assert(v@.subrange(start as int, end as int).drop_last() =~= v@.subrange(
                start as int,
                end as int - 1,
            ));
        }
        end -= 1;
    }
    slice(&v, start, end)
}

/// Whether a manifest is that of a workspace: one of its lines opens that table.
pub open spec fn opens_workspace(manifest: Seq<char>) -> bool {
    exists|i: int|
        0 <= i < split(manifest, '\n').len() && stripped(#[trigger] split(manifest, '\n')[i])
            == "[workspace]"@
}

/// Whether a manifest is that of a workspace.
pub fn is_workspace_manifest(manifest: &str) -> (r: bool)
    ensures
        r == opens_workspace(manifest@),
{
    let lines = split_text(manifest, '\n');
    let ghost all = split(manifest@, '\n');
    let mut i: usize = 0;
    while i < lines.len()
        invariant
            0 <= i <= lines@.len(),
            all == split(manifest@, '\n'),
            texts(lines@) == all,
            forall|j: int| 0 <= j < i ==> stripped(#[trigger] all[j]) != "[workspace]"@,
        decreases lines@.len() - i,
    {
        proof {
            assert(texts(lines@)[i as int] == lines@[i as int]@);
        }
        if same(strip(lines[i].as_str()).as_str(), "[workspace]") {
            return true;
        }
        i += 1;
    }
    false
}

/// The extension of a file's name: what stands behind its last dot, unless that
/// dot is its first character or there is none.
pub open spec fn extension_of(name: Seq<char>) -> Option<Seq<char>> {
    let dot = last_index(name, '.');
    if 0 < dot < name.len() {
        Some(name.subrange(dot + 1, name.len() as int))
    } else {
        None
    }
}

/// The extensions of source files.
pub open spec fn source_extensions() -> Seq<Seq<char>> {
    seq![
        "c"@,
        "cc"@,
        "cpp"@,
        "cxx"@,
        "go"@,
        "h"@,
        "hh"@,
        "hpp"@,
        "py"@,
        "rs"@,
        "swift"@,
        "ts"@,
        "tsx"@,
        "mts"@,
    ]
}

/// Whether a path is that of a source file.
pub open spec fn is_source(path: Seq<char>) -> bool {
    match name_of_path(path) {
        None => false,
        Some(name) => match extension_of(name) {
            None => false,
            Some(e) => source_extensions().contains(e),
        },
    }
}

fn extension(name: &str) -> (r: Option<String>)
    ensures
        option_text(r) == extension_of(name@),
{
    let v = chars(name);
    let mut i: usize = v.len();
    proof {
        assert(v@.subrange(0, v@.len() as int) =~= v@);
        lemma_last_index(v@, '.');
    }
    while i > 0
        invariant
            0 <= i <= v@.len(),
            v@ == name@,
            last_index(v@, '.') == last_index(v@.subrange(0, i as int), '.'),
            last_index(v@, '.') < v@.len(),
        decreases i,
    {
        proof {
            let t = v@.subrange(0, i as int);
            assert(t.drop_last() =~= v@.subrange(0, i - 1));
            assert(t.last() == v@[i - 1]);
        }
        if v[i - 1] == '.' {
            if i == 1 {
                return None;
            }
            return Some(slice(&v, i, v.len()));
        }
        i -= 1;
    }
    None
}

fn is_source_extension(e: &str) -> (r: bool)
    ensures
        r == source_extensions().contains(e@),
{
    let r = same(e, "c") || same(e, "cc") || same(e, "cpp") || same(e, "cxx") || same(e, "go")
        || same(e, "h") || same(e, "hh") || same(e, "hpp") || same(e, "py") || same(e, "rs")
        || same(e, "swift") || same(e, "ts") || same(e, "tsx") || same(e, "mts");
    proof {
        let s = source_extensions();
        assert(s[0] == "c"@ && s[1] == "cc"@ && s[2] == "cpp"@ && s[3] == "cxx"@ && s[4] == "go"@
            && s[5] == "h"@ && s[6] == "hh"@ && s[7] == "hpp"@ && s[8] == "py"@ && s[9] == "rs"@
            && s[10] == "swift"@ && s[11] == "ts"@ && s[12] == "tsx"@ && s[13] == "mts"@);
        if s.contains(e@) {
            let i = choose|i: int| 0 <= i < s.len() && s[i] == e@;
            assert(0 <= i < 14);
        }
    }
    r
}

/// Whether a path is that of a source file.
pub fn is_source_file(path: &str) -> (r: bool)
    ensures
        r == is_source(path@),
{
    match file_name(path) {
        None => false,
        Some(name) => match extension(name.as_str()) {
            None => false,
            Some(e) => is_source_extension(e.as_str()),
        },
    }
}

/// The source files among the first `n` paths.
pub open spec fn sources_among(s: Seq<Seq<char>>, n: int) -> Seq<Seq<char>>
    decreases n,
{
    if n <= 0 {
        Seq::empty()
    } else if is_source(s[n - 1]) {
        sources_among(s, n - 1).push(s[n - 1])
    } else {
        sources_among(s, n - 1)
    }
}

/// The source files among the files that were found, in their order.
pub fn source_files(found: &Vec<String>) -> (r: Vec<String>)
    ensures
        views(r@) == sorted::<PathText>(sources_among(views(found@), found@.len() as int)),
{
    let mut kept: Vec<String> = Vec::new();
    let mut i: usize = 0;
    proof {
        assert(views(kept@) =~= Seq::<Seq<char>>::empty());
    }
    while i < found.len()
        invariant
            0 <= i <= found@.len(),
            views(kept@) == sources_among(views(found@), i as int),
        decreases found@.len() - i,
    {
        proof {
            assert(views(found@)[i as int] == found@[i as int]@);
        }
        if is_source_file(found[i].as_str()) {
            let path = copy(found[i].as_str());
            let ghost before = kept@;
            kept.push(path);
            proof {
                assert(views(kept@) =~= views(before).push(found@[i as int]@));
            }
        }
        i += 1;
    }
    sort_paths(kept)
}

/// Whether a path is that of a file whose functions and types are measured.
pub open spec fn is_rust(path: Seq<char>) -> bool {
    name_of_path(path) is Some && extension_of(name_of_path(path)->0) == Some("rs"@)
}

/// Whether a path is that of a file whose functions and types are measured.
pub fn is_rust_file(path: &str) -> (r: bool)
    ensures
        r == is_rust(path@),
{
    match file_name(path) {
        None => false,
        Some(name) => match extension(name.as_str()) {
            None => false,
            Some(e) => same(e.as_str(), "rs"),
        },
    }
}

// ---------------------------------------------------------------------------
// Control flow
// ---------------------------------------------------------------------------

/// What is met on the way through a function's body.
#[derive(Debug, Clone, Copy, PartialEq, Eq, Structural)]
pub enum FlowEvent {
    /// An `if`, a `for`, a `while` or a `loop` begins.
    Branch,
    /// A `match` with so many arms begins.
    Choice(usize),
    /// One of them ends.
    Leave,
    /// An operator between two values.
    Binary(Operator),
    /// A pattern that is tested.
    LetTest,
}

/// An operator between two values.
#[derive(Debug, Clone, Copy, PartialEq, Eq, Structural)]
pub enum Operator {
    /// `&&`, which evaluates its right side only where it has to.
    And,
    /// `||`, which does so too.
    Or,
    /// One that evaluates both sides.
    Other,
}

/// How branched a body is.
#[derive(Debug, Clone, Copy, PartialEq, Eq, Structural)]
pub struct FlowMetrics {
    pub complexity: usize,
    pub current_nesting: usize,
    pub maximum_nesting: usize,
}

/// How branched a body is, over plain values.
pub struct FlowView {
    pub complexity: nat,
    pub current_nesting: nat,
    pub maximum_nesting: nat,
}

impl View for FlowMetrics {
    type V = FlowView;

    open spec fn view(&self) -> FlowView {
        FlowView {
            complexity: self.complexity as nat,
            current_nesting: self.current_nesting as nat,
            maximum_nesting: self.maximum_nesting as nat,
        }
    }
}

/// Before anything is met.
pub open spec fn flow_begun() -> FlowView {
    FlowView { complexity: 1, current_nesting: 0, maximum_nesting: 0 }
}

/// Behind the beginning of something that adds so many ways through.
pub open spec fn flow_entered(f: FlowView, ways: nat) -> FlowView {
    FlowView {
        complexity: f.complexity + ways,
        current_nesting: f.current_nesting + 1,
        maximum_nesting: if f.current_nesting + 1 > f.maximum_nesting {
            f.current_nesting + 1
        } else {
            f.maximum_nesting
        },
    }
}

/// Behind something that was met.
pub open spec fn flow_step(f: FlowView, e: FlowEvent) -> FlowView {
    match e {
        FlowEvent::Branch => flow_entered(f, 1),
        FlowEvent::Choice(arms) => flow_entered(
            f,
            if arms > 0 {
                (arms - 1) as nat
            } else {
                0
            },
        ),
        FlowEvent::Leave => FlowView {
            current_nesting: if f.current_nesting > 0 {
                (f.current_nesting - 1) as nat
            } else {
                0
            },
            ..f
        },
        FlowEvent::Binary(Operator::And) | FlowEvent::Binary(Operator::Or) | FlowEvent::LetTest => FlowView {
            complexity: f.complexity + 1,
            ..f
        },
        FlowEvent::Binary(Operator::Other) => f,
    }
}

/// How branched the first `n` things are that are met.
pub open spec fn flow(events: Seq<FlowEvent>, n: int) -> FlowView
    decreases n,
{
    if n <= 0 {
        flow_begun()
    } else {
        flow_step(flow(events, n - 1), events[n - 1])
    }
}

proof fn lemma_flow_bounds(events: Seq<FlowEvent>, n: int)
    requires
        0 <= n <= events.len(),
    ensures
        flow(events, n).current_nesting <= n,
        flow(events, n).maximum_nesting <= n,
    decreases n,
{
    if n > 0 {
        lemma_flow_bounds(events, n - 1);
    }
}

proof fn lemma_flow_grows(events: Seq<FlowEvent>, n: int, m: int)
    requires
        0 <= n <= m,
    ensures
        flow(events, n).complexity <= flow(events, m).complexity,
    decreases m,
{
    if n < m {
        lemma_flow_grows(events, n, m - 1);
    }
}

impl FlowMetrics {
    /// Before anything is met.
    pub fn new() -> (r: FlowMetrics)
        ensures
            r@ == flow_begun(),
    {
        FlowMetrics { complexity: 1, current_nesting: 0, maximum_nesting: 0 }
    }

    /// Behind the beginning of something that nests.
    pub fn enter_control_flow(&mut self)
        requires
            old(self).current_nesting < usize::MAX,
        ensures
            final(self)@ == flow_entered(old(self)@, 0),
    {
        self.current_nesting = self.current_nesting + 1;
        if self.current_nesting > self.maximum_nesting {
            self.maximum_nesting = self.current_nesting;
        }
    }

    /// Behind the end of something that nests.
    pub fn leave_control_flow(&mut self)
        ensures
            final(self)@ == flow_step(old(self)@, FlowEvent::Leave),
    {
        if self.current_nesting > 0 {
            self.current_nesting = self.current_nesting - 1;
        }
    }

    /// How branched a body is; nothing where that number is too large.
    pub fn measure(events: &Vec<FlowEvent>) -> (r: Option<FlowMetrics>)
        ensures
            match r {
                Some(m) => m@ == flow(events@, events@.len() as int),
                None => flow(events@, events@.len() as int).complexity > usize::MAX,
            },
    {
        let mut m = FlowMetrics::new();
        let mut i: usize = 0;
        while i < events.len()
            invariant
                0 <= i <= events@.len(),
                m@ == flow(events@, i as int),
            decreases events@.len() - i,
        {
            proof {
                lemma_flow_bounds(events@, i as int);
                lemma_flow_grows(events@, i as int + 1, events@.len() as int);
            }
            let ways: usize = match events[i] {
                FlowEvent::Choice(arms) => if arms > 0 {
                    arms - 1
                } else {
                    0
                },
                FlowEvent::Leave | FlowEvent::Binary(Operator::Other) => 0,
                _ => 1,
            };
            match m.complexity.checked_add(ways) {
                None => {
                    return None;
                },
                Some(total) => {
                    m.complexity = total;
                },
            }
            match events[i] {
                FlowEvent::Branch | FlowEvent::Choice(_) => {
                    m.enter_control_flow();
                },
                FlowEvent::Leave => {
                    m.leave_control_flow();
                },
                _ => {},
            }
            i += 1;
        }
        Some(m)
    }
}

// ---------------------------------------------------------------------------
// Functions and types
// ---------------------------------------------------------------------------

/// A function or a type of a source file.
#[derive(Debug)]
pub enum Outline {
    Function(FunctionOutline),
    Type(TypeOutline),
}

/// A function: the lines it begins and ends on, the line of its signature, the
/// number of its parameters, and what is met in its body, where it has one.
#[derive(Debug)]
pub struct FunctionOutline {
    pub name: String,
    pub first_line: usize,
    pub last_line: usize,
    pub signature_line: usize,
    pub parameters: usize,
    pub body: Option<Vec<FlowEvent>>,
}

/// A type, a trait or an implementation; the last has no name.
#[derive(Debug)]
pub struct TypeOutline {
    pub name: Option<String>,
    pub first_line: usize,
    pub last_line: usize,
}

/// A function over plain values.
pub struct FunctionView {
    pub name: Seq<char>,
    pub first_line: usize,
    pub last_line: usize,
    pub signature_line: usize,
    pub parameters: usize,
    pub body: Option<Seq<FlowEvent>>,
}

/// A type over plain values.
pub struct TypeView {
    pub name: Option<Seq<char>>,
    pub first_line: usize,
    pub last_line: usize,
}

/// A function or a type over plain values.
pub enum OutlineView {
    Function(FunctionView),
    Type(TypeView),
}

impl View for FunctionOutline {
    type V = FunctionView;

    open spec fn view(&self) -> FunctionView {
        FunctionView {
            name: self.name@,
            first_line: self.first_line,
            last_line: self.last_line,
            signature_line: self.signature_line,
            parameters: self.parameters,
            body: match self.body {
                Some(b) => Some(b@),
                None => None,
            },
        }
    }
}

impl View for TypeOutline {
    type V = TypeView;

    open spec fn view(&self) -> TypeView {
        TypeView { name: option_text(self.name), first_line: self.first_line, last_line: self.last_line }
    }
}

impl View for Outline {
    type V = OutlineView;

    open spec fn view(&self) -> OutlineView {
        match self {
            Outline::Function(f) => OutlineView::Function(f@),
            Outline::Type(t) => OutlineView::Type(t@),
        }
    }
}

/// How many lines there are from one to another.
pub open spec fn lines_between(first: usize, last: usize) -> nat {
    if last > first {
        (last - first + 1) as nat
    } else {
        1
    }
}

/// How many lines there are from one to another; nothing where that number is
/// too large.
pub fn span_lines(first: usize, last: usize) -> (r: Option<usize>)
    ensures
        match r {
            Some(n) => n == lines_between(first, last),
            None => lines_between(first, last) > usize::MAX,
        },
{
    if last > first {
        (last - first).checked_add(1)
    } else {
        Some(1)
    }
}

/// Whether everything about a function or a type can be counted.
pub open spec fn countable(o: OutlineView) -> bool {
    match o {
        OutlineView::Type(t) => lines_between(t.first_line, t.last_line) <= usize::MAX,
        OutlineView::Function(f) => lines_between(f.first_line, f.last_line) <= usize::MAX
            && match f.body {
            None => true,
            Some(b) => flow(b, b.len() as int).complexity <= usize::MAX,
        },
    }
}

/// The violation of one limit, where it is exceeded.
pub open spec fn exceeded(
    path: Seq<char>,
    rule: Rule,
    name: Seq<char>,
    line: usize,
    actual: nat,
    maximum: usize,
) -> Seq<ViolationView> {
    if actual > maximum {
        seq![
            ViolationView {
                rule,
                path,
                line,
                symbol: Some(name),
                actual: actual as usize,
                maximum,
            },
        ]
    } else {
        Seq::empty()
    }
}

/// The violations of a function without its body.
pub open spec fn signature_violations(path: Seq<char>, f: FunctionView, limits: Limits) -> Seq<
    ViolationView,
> {
    exceeded(
        path,
        Rule::FunctionLines,
        f.name,
        f.first_line,
        lines_between(f.first_line, f.last_line),
        limits.function_lines,
    ) + exceeded(
        path,
        Rule::Parameters,
        f.name,
        f.signature_line,
        f.parameters as nat,
        limits.parameters,
    )
}

/// The violations of a function's body.
pub open spec fn body_violations(
    path: Seq<char>,
    f: FunctionView,
    m: FlowView,
    limits: Limits,
) -> Seq<ViolationView> {
    exceeded(
        path,
        Rule::Complexity,
        f.name,
        f.signature_line,
        m.complexity,
        limits.complexity,
    ) + exceeded(
        path,
        Rule::Nesting,
        f.name,
        f.signature_line,
        m.maximum_nesting,
        limits.nesting,
    )
}

/// The name by which a type is reported.
pub open spec fn type_symbol(t: TypeView) -> Seq<char> {
    match t.name {
        Some(name) => name,
        None => "impl"@,
    }
}

/// The violations of a function or a type.
pub open spec fn outline_violations(path: Seq<char>, o: OutlineView, limits: Limits) -> Seq<
    ViolationView,
> {
    match o {
        OutlineView::Type(t) => exceeded(
            path,
            Rule::TypeLines,
            type_symbol(t),
            t.first_line,
            lines_between(t.first_line, t.last_line),
            limits.type_lines,
        ),
        OutlineView::Function(f) => signature_violations(path, f, limits) + match f.body {
            None => Seq::empty(),
            Some(b) => body_violations(path, f, flow(b, b.len() as int), limits),
        },
    }
}

/// The violations of the first `n` functions and types.
pub open spec fn violations_of(
    path: Seq<char>,
    o: Seq<OutlineView>,
    n: int,
    limits: Limits,
) -> Seq<ViolationView>
    decreases n,
{
    if n <= 0 {
        Seq::empty()
    } else {
        violations_of(path, o, n - 1, limits) + outline_violations(path, o[n - 1], limits)
    }
}

fn check_value(
    violations: &mut Vec<Violation>,
    path: &str,
    rule: Rule,
    name: &str,
    line: usize,
    actual: usize,
    maximum: usize,
)
    ensures
        views(final(violations)@) == views(old(violations)@) + exceeded(
            path@,
            rule,
            name@,
            line,
            actual as nat,
            maximum,
        ),
{
    let ghost before = violations@;
    if actual > maximum {
        let v = Violation {
            rule,
            path: copy(path),
            line,
            symbol: Some(copy(name)),
            actual,
            maximum,
        };
        violations.push(v);
    }
    proof {
        assert(views(violations@) =~= views(before) + exceeded(
            path@,
            rule,
            name@,
            line,
            actual as nat,
            maximum,
        ));
    }
}

fn check_function(violations: &mut Vec<Violation>, path: &str, f: &FunctionOutline, limits: &Limits) -> (r:
    bool)
    ensures
        r == countable(OutlineView::Function(f@)),
        r ==> views(final(violations)@) == views(old(violations)@) + outline_violations(
            path@,
            OutlineView::Function(f@),
            *limits,
        ),
{
    let ghost before = views(violations@);
    let ghost name = f@.name;
    let lines: usize = match span_lines(f.first_line, f.last_line) {
        None => {
            return false;
        },
        Some(n) => n,
    };
    check_value(
        violations,
        path,
        Rule::FunctionLines,
        f.name.as_str(),
        f.first_line,
        lines,
        limits.function_lines,
    );
    check_value(
        violations,
        path,
        Rule::Parameters,
        f.name.as_str(),
        f.signature_line,
        f.parameters,
        limits.parameters,
    );
    let ghost signed = views(violations@);
    proof {
        assert(signed =~= before + signature_violations(path@, f@, *limits));
    }
    match &f.body {
        None => {
            proof {
                assert(signed =~= before + outline_violations(
                    path@,
                    OutlineView::Function(f@),
                    *limits,
                ));
            }
            true
        },
        Some(events) => {
            let m = match FlowMetrics::measure(events) {
                None => {
                    return false;
                },
                Some(m) => m,
            };
            check_value(
                violations,
                path,
                Rule::Complexity,
                f.name.as_str(),
                f.signature_line,
                m.complexity,
                limits.complexity,
            );
            check_value(
                violations,
                path,
                Rule::Nesting,
                f.name.as_str(),
                f.signature_line,
                m.maximum_nesting,
                limits.nesting,
            );
            proof {
                assert(views(violations@) =~= before + outline_violations(
                    path@,
                    OutlineView::Function(f@),
                    *limits,
                ));
            }
            true
        },
    }
}

fn check_outline(violations: &mut Vec<Violation>, path: &str, o: &Outline, limits: &Limits) -> (r:
    bool)
    ensures
        r == countable(o@),
        r ==> views(final(violations)@) == views(old(violations)@) + outline_violations(
            path@,
            o@,
            *limits,
        ),
{
    match o {
        Outline::Function(f) => check_function(violations, path, f, limits),
        Outline::Type(t) => match span_lines(t.first_line, t.last_line) {
            None => false,
            Some(lines) => {
                let symbol = match &t.name {
                    Some(name) => name.as_str(),
                    None => "impl",
                };
                check_value(
                    violations,
                    path,
                    Rule::TypeLines,
                    symbol,
                    t.first_line,
                    lines,
                    limits.type_lines,
                );
                true
            },
        },
    }
}

/// The violations of a file's functions and types, in the order in which these
/// stand in it; nothing where something in it is too large to be counted.
pub fn analyze(path: &str, outlines: &Vec<Outline>, limits: &Limits) -> (r: Option<Vec<Violation>>)
    ensures
        match r {
            Some(v) => (forall|i: int| 0 <= i < outlines@.len() ==> countable(#[trigger] outlines@[i]@))
                && views(v@) == violations_of(
                path@,
                views(outlines@),
                outlines@.len() as int,
                *limits,
            ),
            None => exists|i: int| 0 <= i < outlines@.len() && !countable(#[trigger] outlines@[i]@),
        },
{
    let mut violations: Vec<Violation> = Vec::new();
    let mut i: usize = 0;
    proof {
        assert(views(violations@) =~= Seq::<ViolationView>::empty());
    }
    while i < outlines.len()
        invariant
            0 <= i <= outlines@.len(),
            forall|j: int| 0 <= j < i ==> countable(#[trigger] outlines@[j]@),
            views(violations@) == violations_of(path@, views(outlines@), i as int, *limits),
        decreases outlines@.len() - i,
    {
        proof {
            assert(views(outlines@)[i as int] == outlines@[i as int]@);
        }
        if !check_outline(&mut violations, path, &outlines[i], limits) {
            return None;
        }
        i += 1;
    }
    Some(violations)
}

/// What comes of a file's text: the violations of its functions and types; nothing
/// where the text or something in it is too large to be counted; or the sentence
/// that says where it stops being a source text.
pub open spec fn analysis(path: Seq<char>, source: Seq<char>, limits: Limits) -> Result<
    Option<Seq<ViolationView>>,
    Seq<char>,
> {
    if source.len() >= u32::MAX {
        Ok(None)
    } else {
        match outlines_of(source) {
            Err((line, column, message)) => Err(failure_line(path, line, column, message)),
            Ok(o) => if forall|i: int| 0 <= i < o.len() ==> countable(#[trigger] o[i]) {
                Ok(Some(violations_of(path, o, o.len() as int, limits)))
            } else {
                Ok(None)
            },
        }
    }
}

/// Whether what came of a file is what should.
pub open spec fn analyzed(
    r: Result<Option<Vec<Violation>>, String>,
    expected: Result<Option<Seq<ViolationView>>, Seq<char>>,
) -> bool {
    match r {
        Ok(Some(v)) => expected == Ok::<Option<Seq<ViolationView>>, Seq<char>>(Some(views(v@))),
        Ok(None) => expected == Ok::<Option<Seq<ViolationView>>, Seq<char>>(None),
        Err(e) => expected == Err::<Option<Seq<ViolationView>>, Seq<char>>(e@),
    }
}

/// The violations of the functions and types in a file's text, in the order in
/// which these stand in it; nothing where the text or something in it is too large
/// to be counted; or the sentence that says where it stops being a source text.
pub fn analyze_source(path: &str, source: &str, limits: &Limits) -> (r: Result<
    Option<Vec<Violation>>,
    String,
>)
    ensures
        analyzed(r, analysis(path@, source@, *limits)),
{
    if source.unicode_len() >= u32::MAX as usize {
        return Ok(None);
    }
    match outline(source) {
        Err(e) => Err(parse_failure(path, e.line, e.column, e.message.as_str())),
        Ok(outlines) => {
            let r = analyze(path, &outlines, limits);
            proof {
                let o = views(outlines@);
                assert forall|i: int| 0 <= i < o.len() implies #[trigger] o[i] == outlines@[i]@ by {}
                if r is None {
                    let i = choose|i: int|
                        0 <= i < outlines@.len() && !countable(#[trigger] outlines@[i]@);
                    assert(!countable(o[i]));
                }
            }
            Ok(r)
        },
    }
}

/// The violation of a file's length, where it is too long.
pub open spec fn length_violation(path: Seq<char>, source: Seq<char>, maximum: usize) -> Seq<
    ViolationView,
> {
    if line_total(source) > maximum {
        seq![
            ViolationView {
                rule: Rule::FileLines,
                path,
                line: 1,
                symbol: None,
                actual: line_total(source) as usize,
                maximum,
            },
        ]
    } else {
        Seq::empty()
    }
}

/// Adds the violation of a file's length, where it is too long.
pub fn check_file_length(
    path: &str,
    source: &str,
    maximum: usize,
    violations: &mut Vec<Violation>,
)
    ensures
        views(final(violations)@) == views(old(violations)@) + length_violation(
            path@,
            source@,
            maximum,
        ),
{
    let ghost before = violations@;
    let lines: usize = line_count(source);
    if lines > maximum {
        let v = Violation {
            rule: Rule::FileLines,
            path: copy(path),
            line: 1,
            symbol: None,
            actual: lines,
            maximum,
        };
        violations.push(v);
    }
    proof {
        assert(views(violations@) =~= views(before) + length_violation(path@, source@, maximum));
    }
}

/// What comes of a source file: the violation of its length and, where its
/// functions and types are measured, theirs behind it.
pub open spec fn inspection(path: Seq<char>, source: Seq<char>, limits: Limits) -> Result<
    Option<Seq<ViolationView>>,
    Seq<char>,
> {
    let length = length_violation(path, source, limits.file_lines);
    if !is_rust(path) {
        Ok(Some(length))
    } else {
        match analysis(path, source, limits) {
            Ok(Some(v)) => Ok(Some(length + v)),
            other => other,
        }
    }
}

/// Everything that a source file violates.
pub fn inspect_source(path: &str, source: &str, limits: &Limits) -> (r: Result<
    Option<Vec<Violation>>,
    String,
>)
    ensures
        analyzed(r, inspection(path@, source@, *limits)),
{
    let mut violations: Vec<Violation> = Vec::new();
    proof {
        assert(views(violations@) =~= Seq::<ViolationView>::empty());
    }
    check_file_length(path, source, limits.file_lines, &mut violations);
    let ghost length = length_violation(path@, source@, limits.file_lines);
    proof {
        assert(views(violations@) =~= length);
    }
    if !is_rust_file(path) {
        return Ok(Some(violations));
    }
    match analyze_source(path, source, limits) {
        Ok(Some(found)) => {
            let ghost more = views(found@);
            let mut found = found;
            violations.append(&mut found);
            proof {
                assert(views(violations@) =~= length + more);
            }
            Ok(Some(violations))
        },
        Ok(None) => Ok(None),
        Err(e) => Err(e),
    }
}

// ---------------------------------------------------------------------------
// The order of violations
// ---------------------------------------------------------------------------

/// Whether a violation is reported before another: by path, by line, by rule.
pub open spec fn comes_before(a: ViolationView, b: ViolationView) -> bool {
    if path_key(a.path) != path_key(b.path) {
        precedes(path_key(a.path), path_key(b.path))
    } else if a.line != b.line {
        a.line < b.line
    } else {
        rank_of(a.rule) < rank_of(b.rule)
    }
}

/// Violations in their order with one more behind all that do not come after it.
pub open spec fn placed(s: Seq<ViolationView>, x: ViolationView) -> Seq<ViolationView>
    decreases s.len(),
{
    if s.len() > 0 && comes_before(x, s.last()) {
        placed(s.drop_last(), x).push(s.last())
    } else {
        s.push(x)
    }
}

/// Violations in their order; those that are alike keep theirs.
pub open spec fn arranged(s: Seq<ViolationView>) -> Seq<ViolationView>
    decreases s.len(),
{
    if s.len() == 0 {
        Seq::empty()
    } else {
        placed(arranged(s.drop_last()), s.last())
    }
}

/// Whether no violation stands behind one that it comes before.
pub open spec fn is_arranged(s: Seq<ViolationView>) -> bool {
    forall|i: int, j: int|
        0 <= i < j < s.len() ==> !comes_before(#[trigger] s[j], #[trigger] s[i])
}

proof fn lemma_order(a: ViolationView, b: ViolationView, c: ViolationView)
    ensures
        !(comes_before(a, b) && comes_before(b, a)),
        comes_before(a, b) && comes_before(b, c) ==> comes_before(a, c),
        !comes_before(b, a) && !comes_before(c, b) ==> !comes_before(c, a),
{
    let (x, y, z) = (path_key(a.path), path_key(b.path), path_key(c.path));
    lemma_precedes_total(x, y);
    lemma_precedes_total(y, z);
    lemma_precedes_total(x, z);
    lemma_precedes_irreflexive(x);
    lemma_precedes_irreflexive(y);
    lemma_precedes_irreflexive(z);
    if precedes(x, y) && precedes(y, x) {
        lemma_precedes_transitive(x, y, x);
    }
    if precedes(x, y) && precedes(y, z) {
        lemma_precedes_transitive(x, y, z);
    }
    if precedes(z, x) && precedes(x, y) {
        lemma_precedes_transitive(z, x, y);
    }
    if precedes(y, z) && precedes(z, x) {
        lemma_precedes_transitive(y, z, x);
    }
    if precedes(x, z) && precedes(z, x) {
        lemma_precedes_transitive(x, z, x);
    }
    if precedes(y, z) && precedes(z, y) {
        lemma_precedes_transitive(y, z, y);
    }
}

proof fn lemma_placed_at(s: Seq<ViolationView>, x: ViolationView, k: int)
    requires
        0 <= k <= s.len(),
        k > 0 ==> !comes_before(x, s[k - 1]),
        forall|i: int| k <= i < s.len() ==> comes_before(x, #[trigger] s[i]),
    ensures
        placed(s, x) == s.insert(k, x),
    decreases s.len(),
{
    if k < s.len() {
        let t = s.drop_last();
        assert(comes_before(x, s[s.len() - 1]));
        assert forall|i: int| k <= i < t.len() implies comes_before(x, #[trigger] t[i]) by {
            assert(t[i] == s[i]);
        }
        lemma_placed_at(t, x, k);
        assert(t.insert(k, x).push(s.last()) =~= s.insert(k, x));
    } else {
        assert(s.insert(k, x) =~= s.push(x));
    }
}

proof fn lemma_placed(s: Seq<ViolationView>, x: ViolationView)
    requires
        is_arranged(s),
    ensures
        is_arranged(placed(s, x)),
        placed(s, x).to_multiset() == s.to_multiset().insert(x),
        placed(s, x).len() == s.len() + 1,
        forall|i: int|
            0 <= i < placed(s, x).len() ==> #[trigger] placed(s, x)[i] == x || s.contains(
                placed(s, x)[i],
            ),
    decreases s.len(),
{
    broadcast use group_to_multiset_ensures;

    let r = placed(s, x);
    if s.len() > 0 && comes_before(x, s.last()) {
        let t = s.drop_last();
        let last = s.last();
        assert forall|i: int, j: int| 0 <= i < j < t.len() implies !comes_before(
            #[trigger] t[j],
            #[trigger] t[i],
        ) by {
            assert(t[i] == s[i] && t[j] == s[j]);
        }
        lemma_placed(t, x);
        let u = placed(t, x);
        assert(u.push(last).to_multiset() == u.to_multiset().insert(last));
        assert(t.push(last) =~= s);
        assert(t.push(last).to_multiset() == t.to_multiset().insert(last));
        assert(t.to_multiset().insert(x).insert(last) =~= t.to_multiset().insert(last).insert(x));
        assert forall|i: int| 0 <= i < r.len() implies #[trigger] r[i] == x || s.contains(r[i]) by {
            if i < u.len() {
                assert(r[i] == u[i]);
                if u[i] != x {
                    let k = choose|k: int| 0 <= k < t.len() && t[k] == u[i];
                    assert(s[k] == r[i]);
                }
            } else {
                assert(s[s.len() - 1] == r[i]);
            }
        }
        assert forall|i: int, j: int| 0 <= i < j < r.len() implies !comes_before(
            #[trigger] r[j],
            #[trigger] r[i],
        ) by {
            if j < u.len() {
                assert(r[i] == u[i] && r[j] == u[j]);
            } else {
                assert(r[j] == last && r[i] == u[i]);
                if u[i] == x {
                    lemma_order(x, last, x);
                } else {
                    let k = choose|k: int| 0 <= k < t.len() && t[k] == u[i];
                    assert(s[k] == u[i] && s[s.len() - 1] == last);
                }
            }
        }
    } else {
        assert forall|i: int| 0 <= i < r.len() implies #[trigger] r[i] == x || s.contains(r[i]) by {
            if i < s.len() {
                assert(s[i] == r[i]);
            }
        }
        assert forall|i: int, j: int| 0 <= i < j < r.len() implies !comes_before(
            #[trigger] r[j],
            #[trigger] r[i],
        ) by {
            if j < s.len() {
                assert(r[i] == s[i] && r[j] == s[j]);
            } else {
                assert(r[j] == x && r[i] == s[i]);
                let last = s[s.len() - 1];
                if i < s.len() - 1 {
                    assert(!comes_before(last, s[i]));
                    lemma_order(s[i], last, x);
                }
            }
        }
    }
}

/// The violations are reported in their order, each that was found and no other.
pub proof fn law_violations_are_arranged(s: Seq<ViolationView>)
    ensures
        is_arranged(arranged(s)),
        arranged(s).to_multiset() == s.to_multiset(),
        arranged(s).len() == s.len(),
    decreases s.len(),
{
    broadcast use group_to_multiset_ensures;

    if s.len() > 0 {
        let t = s.drop_last();
        law_violations_are_arranged(t);
        lemma_placed(arranged(t), s.last());
        assert(t.push(s.last()) =~= s);
        assert(t.push(s.last()).to_multiset() == t.to_multiset().insert(s.last()));
    } else {
        assert(s =~= Seq::<ViolationView>::empty());
    }
}

fn precedes_violation(a: &Violation, b: &Violation) -> (r: bool)
    ensures
        r == comes_before(a@, b@),
{
    let x = PathText { path: copy(a.path.as_str()) }.key_text();
    let y = PathText { path: copy(b.path.as_str()) }.key_text();
    if !same(x.as_str(), y.as_str()) {
        return text_precedes(x.as_str(), y.as_str());
    }
    if a.line != b.line {
        return a.line < b.line;
    }
    rank(a.rule) < rank(b.rule)
}

/// Puts violations into their order.
pub fn arrange(violations: Vec<Violation>) -> (r: Vec<Violation>)
    ensures
        views(r@) == arranged(views(violations@)),
{
    let ghost all = views(violations@);
    let mut rest = violations;
    let mut r: Vec<Violation> = Vec::new();
    let ghost mut done: int = 0;
    proof {
        assert(all.subrange(0, 0) =~= Seq::<ViolationView>::empty());
        assert(views(r@) =~= Seq::<ViolationView>::empty());
        assert(all.subrange(0, all.len() as int) =~= all);
    }
    while rest.len() > 0
        invariant
            0 <= done <= all.len(),
            views(rest@) == all.subrange(done, all.len() as int),
            views(r@) == arranged(all.subrange(0, done)),
        decreases rest@.len(),
    {
        let ghost before_rest = views(rest@);
        proof {
            assert(before_rest.len() == rest@.len());
            assert(before_rest[0] == rest@[0]@);
        }
        let x = rest.remove(0);
        let ghost xv = x@;
        let ghost before = views(r@);
        let mut k: usize = r.len();
        while k > 0 && precedes_violation(&x, &r[k - 1])
            invariant
                k <= r@.len(),
                xv == x@,
                before == views(r@),
                forall|i: int| k <= i < r@.len() ==> comes_before(xv, #[trigger] before[i]),
            decreases k,
        {
            proof {
                assert(before[k - 1] == r@[k - 1]@);
            }
            k -= 1;
        }
        proof {
            if k > 0 {
                assert(before[k - 1] == r@[k - 1]@);
            }
            lemma_placed_at(before, xv, k as int);
        }
        r.insert(k, x);
        proof {
            assert(views(r@) =~= before.insert(k as int, xv));
            assert(before_rest[0] == all[done]);
            let next = all.subrange(0, done + 1);
            assert(next.drop_last() =~= all.subrange(0, done));
            assert(next.last() == xv);
            assert(views(rest@) =~= before_rest.subrange(1, before_rest.len() as int));
            assert(views(rest@) =~= all.subrange(done + 1, all.len() as int));
            done = done + 1;
        }
    }
    proof {
        assert(views(rest@).len() == 0);
        assert(all.subrange(0, done) =~= all);
    }
    r
}

// ---------------------------------------------------------------------------
// Reports
// ---------------------------------------------------------------------------

/// How a violation is written, with its rule's code and description.
pub open spec fn violation_line(v: ViolationView, code: Seq<char>, description: Seq<char>) -> Seq<
    char,
> {
    v.path + ":"@ + decimal(v.line as nat) + ": error["@ + code + "]: "@ + description + match v.symbol {
        Some(name) => " '"@ + name + "'"@,
        None => Seq::empty(),
    } + " ("@ + decimal(v.actual as nat) + "; maximum "@ + decimal(v.maximum as nat) + ")"@
}

/// Writes a violation, with its rule's code and description.
pub fn violation_text(v: &Violation, code: &str, description: &str) -> (s: String)
    ensures
        s@ == violation_line(v@, code@, description@),
{
    let symbol = match &v.symbol {
        Some(name) => concat3(" '", name.as_str(), "'"),
        None => String::new(),
    };
    let place = concat3(v.path.as_str(), ":", number_text(v.line as u64).as_str());
    let head = concat3(concat3(place.as_str(), ": error[", code).as_str(), "]: ", description);
    let named = concat(head.as_str(), symbol.as_str());
    let counted = concat3(named.as_str(), " (", number_text(v.actual as u64).as_str());
    let r = concat3(
        concat3(counted.as_str(), "; maximum ", number_text(v.maximum as u64).as_str()).as_str(),
        ")",
        "",
    );
    proof {
        reveal_strlit("");
        assert(r@ =~= violation_line(v@, code@, description@));
    }
    r
}

/// How a report ends.
pub fn summary_text(violations: usize) -> (s: String)
    ensures
        s@ == "Portal quality: "@ + decimal(violations as nat) + " structural violation(s)"@,
{
    concat3("Portal quality: ", number_text(violations as u64).as_str(), " structural violation(s)")
}

/// How a file is reported that could not be read as a source file; columns are
/// counted from nothing.
pub open spec fn failure_line(path: Seq<char>, line: usize, column: usize, error: Seq<char>) -> Seq<
    char,
> {
    "cannot parse "@ + path + " at "@ + decimal(line as nat) + ":"@ + decimal((column + 1) as nat)
        + ": "@ + error
}

/// Writes that a file could not be read as a source file.
pub fn parse_failure(path: &str, line: usize, column: usize, error: &str) -> (s: String)
    ensures
        s@ == failure_line(path@, line, column, error@),
{
    let place = concat3("cannot parse ", path, " at ");
    let at = concat3(
        concat(place.as_str(), number_text(line as u64).as_str()).as_str(),
        ":",
        wide_number_text(column as u128 + 1).as_str(),
    );
    concat3(at.as_str(), ": ", error)
}

// ---------------------------------------------------------------------------
// Laws
// ---------------------------------------------------------------------------

/// A body has at least one way through, and never less than what was met before.
pub proof fn law_complexity_only_grows(events: Seq<FlowEvent>, n: int, m: int)
    requires
        0 <= n <= m <= events.len(),
    ensures
        1 <= flow(events, n).complexity <= flow(events, m).complexity,
        flow(events, n).maximum_nesting <= flow(events, m).maximum_nesting,
        flow(events, m).current_nesting <= flow(events, m).maximum_nesting,
    decreases m,
{
    if n < m {
        law_complexity_only_grows(events, n, m - 1);
    } else if m > 0 {
        law_complexity_only_grows(events, n - 1, m - 1);
    }
}

} // verus!
