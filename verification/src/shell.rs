//! Parsing `run:` scripts with tree-sitter and reading the shell commands
//! out of them. Parsing and querying stand behind trusted wrappers whose
//! results are named; what is done with those results is verified.
use vstd::prelude::*;

use tree_sitter::StreamingIterator;
use tree_sitter::{Language, Parser, Query, QueryCursor};

use crate::candidates::{
    candidates_of, lemma_candidates_are_command_spans, CommandMatch, CommandPart, PublishCommandCandidate, Subfeature,
};
use crate::text::{piece_at, str_eq, text_between};
use crate::UseTrustedPublishing;
use vstd::string::StringSliceAdditionalSpecFns;
use vstd::utf8::{encode_utf8_valid_utf8, is_char_boundary};

verus! {

/// The matches of the query `query`, compiled for the Bash grammar, on the
/// Bash parse tree of `run`: for each match, in the order the query cursor
/// yields them, its captures as the capture's name index and the byte range
/// of the captured node. `None` when the query does not compile or the
/// script cannot be parsed.
pub uninterp spec fn bash_captures(query: Seq<char>, run: Seq<char>) -> Option<Seq<Seq<(u32, usize, usize)>>>;

/// The same as `bash_captures`, for the PowerShell grammar.
pub uninterp spec fn pwsh_captures(query: Seq<char>, run: Seq<char>) -> Option<Seq<Seq<(u32, usize, usize)>>>;

/// The index of the capture named `name` in the query `query` compiled for
/// the Bash grammar; `None` when the query does not compile or has no
/// such capture.
pub uninterp spec fn bash_capture_index(query: Seq<char>, name: Seq<char>) -> Option<u32>;

/// The same as `bash_capture_index`, for the PowerShell grammar.
pub uninterp spec fn pwsh_capture_index(query: Seq<char>, name: Seq<char>) -> Option<u32>;

/// The named children of the smallest node of the Bash parse tree of `run`
/// that spans the bytes `start..end`: for each, in order, its kind, its byte
/// range, and the byte range of its `name` field when it has one. `None`
/// when the script cannot be parsed or no node spans that range.
pub uninterp spec fn bash_node_children(run: Seq<char>, start: usize, end: usize) -> Option<
    Seq<(Seq<char>, usize, usize, Option<(usize, usize)>)>,
>;

/// Compiles `query` for the Bash grammar (`tree_sitter::Query::new`), parses
/// `run` with `tree_sitter::Parser::parse` and runs the query over the tree
/// with `tree_sitter::QueryCursor::matches`. The contract claims that the
/// result is `bash_captures` of the two texts: it depends on them alone.
#[verifier::external_body]
fn bash_query_captures(query: &str, run: &str) -> (r: Option<Vec<Vec<(u32, usize, usize)>>>)
    ensures
        r.deep_view() == bash_captures(query@, run@),
{
    let language: Language = tree_sitter_bash::LANGUAGE.into();
    let query = Query::new(&language, query).ok()?;
    let mut parser = Parser::new();
    parser.set_language(&language).ok()?;
    let tree = parser.parse(run, None)?;
    let mut cursor = QueryCursor::new();
    let mut matches = cursor.matches(&query, tree.root_node(), run.as_bytes());
    let mut out = Vec::new();
    while let Some(m) = matches.next() {
        out.push(m.captures().iter().map(|c| (c.index, c.node.start_byte(), c.node.end_byte())).collect());
    }
    Some(out)
}

/// The same calls as `bash_query_captures`, with the PowerShell grammar
/// (`tree_sitter_powershell::LANGUAGE`). The contract claims that the result
/// is `pwsh_captures` of the two texts.
#[verifier::external_body]
fn pwsh_query_captures(query: &str, run: &str) -> (r: Option<Vec<Vec<(u32, usize, usize)>>>)
    ensures
        r.deep_view() == pwsh_captures(query@, run@),
{
    let language: Language = tree_sitter_powershell::LANGUAGE.into();
    let query = Query::new(&language, query).ok()?;
    let mut parser = Parser::new();
    parser.set_language(&language).ok()?;
    let tree = parser.parse(run, None)?;
    let mut cursor = QueryCursor::new();
    let mut matches = cursor.matches(&query, tree.root_node(), run.as_bytes());
    let mut out = Vec::new();
    while let Some(m) = matches.next() {
        out.push(m.captures().iter().map(|c| (c.index, c.node.start_byte(), c.node.end_byte())).collect());
    }
    Some(out)
}

/// Compiles `query` for the Bash grammar and asks for the index of the
/// capture `name` (`tree_sitter::Query::capture_index_for_name`). The
/// contract claims that the result is `bash_capture_index` of the two texts.
#[verifier::external_body]
fn bash_query_capture_index(query: &str, name: &str) -> (r: Option<u32>)
    ensures
        r == bash_capture_index(query@, name@),
{
    let language: Language = tree_sitter_bash::LANGUAGE.into();
    Query::new(&language, query).ok()?.capture_index_for_name(name)
}

/// The same as `bash_query_capture_index`, for the PowerShell grammar. The
/// contract claims that the result is `pwsh_capture_index` of the two texts.
#[verifier::external_body]
fn pwsh_query_capture_index(query: &str, name: &str) -> (r: Option<u32>)
    ensures
        r == pwsh_capture_index(query@, name@),
{
    let language: Language = tree_sitter_powershell::LANGUAGE.into();
    Query::new(&language, query).ok()?.capture_index_for_name(name)
}

/// Parses `run` as Bash, finds the smallest node spanning `start..end`
/// (`tree_sitter::Node::descendant_for_byte_range`) and lists its named
/// children (`tree_sitter::Node::named_children`) with their kinds
/// (`Node::kind`), byte ranges and `name` fields
/// (`Node::child_by_field_name`). The contract claims that the result is
/// `bash_node_children` of the text and the range.
#[verifier::external_body]
fn bash_command_children(run: &str, start: usize, end: usize) -> (r: Option<
    Vec<(String, usize, usize, Option<(usize, usize)>)>,
>)
    ensures
        r.deep_view() == bash_node_children(run@, start, end),
{
    let mut parser = Parser::new();
    parser.set_language(&tree_sitter_bash::LANGUAGE.into()).ok()?;
    let tree = parser.parse(run, None)?;
    let node = tree.root_node().descendant_for_byte_range(start, end)?;
    let mut out = Vec::new();
    for k in node.named_children(&mut node.walk()) {
        let name = k.child_by_field_name("name").map(|n| (n.start_byte(), n.end_byte()));
        out.push((k.kind().to_string(), k.start_byte(), k.end_byte(), name));
    }
    Some(out)
}

/// The query that finds Bash commands with at least one argument.
pub const BASH_COMMAND_QUERY: &'static str = "(command name: (_) @cmd argument: (_)+ @args) @span";

/// The query that finds PowerShell commands with at least one argument.
pub const PWSH_COMMAND_QUERY: &'static str =
    "(command command_name: (_) @cmd command_elements: (_ (generic_token) @args)+) @span";

/// A command query for the Bash grammar (`bourne`) or the PowerShell one,
/// with the indices of its `cmd`, `args` and `span` captures.
pub struct SpannedQuery {
    pub source: &'static str,
    pub bourne: bool,
    pub cmd_idx: u32,
    pub args_idx: u32,
    pub span_idx: u32,
}

/// The index of the capture `name` of `query` in the grammar that `bourne`
/// picks.
pub open spec fn capture_index_of(bourne: bool, query: Seq<char>, name: Seq<char>) -> Option<u32> {
    if bourne {
        bash_capture_index(query, name)
    } else {
        pwsh_capture_index(query, name)
    }
}

/// The indices of the `cmd`, `args` and `span` captures of `query`, when
/// the query compiles and has all three.
pub open spec fn query_indices(bourne: bool, query: Seq<char>) -> Option<(u32, u32, u32)> {
    match (
        capture_index_of(bourne, query, "cmd"@),
        capture_index_of(bourne, query, "args"@),
        capture_index_of(bourne, query, "span"@),
    ) {
        (Some(c), Some(a), Some(s)) => Some((c, a, s)),
        _ => None,
    }
}

/// The command query of the grammar that `bourne` picks.
pub open spec fn command_query(bourne: bool) -> Seq<char> {
    if bourne {
        BASH_COMMAND_QUERY@
    } else {
        PWSH_COMMAND_QUERY@
    }
}

/// The capture indices of the command query of the grammar that `bourne`
/// picks (meaningful when `query_indices` has them).
pub open spec fn command_query_indices(bourne: bool) -> (u32, u32, u32) {
    query_indices(bourne, command_query(bourne))->Some_0
}

/// `q` is the command query of the grammar that `bourne` picks, with the
/// indices of its captures.
pub open spec fn is_command_query(q: SpannedQuery, bourne: bool) -> bool {
    &&& q.bourne == bourne
    &&& q.source@ == command_query(bourne)
    &&& query_indices(bourne, command_query(bourne)) == Some((q.cmd_idx, q.args_idx, q.span_idx))
}

impl SpannedQuery {
    /// The command query `source` for the grammar that `bourne` picks, with
    /// the indices of its captures; `None` when it does not compile or lacks
    /// one of the three captures.
    fn new(source: &'static str, bourne: bool) -> (r: Option<SpannedQuery>)
        ensures
            r is Some <==> query_indices(bourne, source@) is Some,
            r matches Some(q) ==> q.source == source && q.bourne == bourne && query_indices(bourne, source@)
                == Some((q.cmd_idx, q.args_idx, q.span_idx)),
    {
        let cmd = if bourne { bash_query_capture_index(source, "cmd") } else { pwsh_query_capture_index(source, "cmd") };
        let args = if bourne { bash_query_capture_index(source, "args") } else { pwsh_query_capture_index(source, "args") };
        let span = if bourne { bash_query_capture_index(source, "span") } else { pwsh_query_capture_index(source, "span") };
        match (cmd, args, span) {
            (Some(cmd_idx), Some(args_idx), Some(span_idx)) => Some(
                SpannedQuery { source, bourne, cmd_idx, args_idx, span_idx },
            ),
            _ => None,
        }
    }

    /// The query that finds Bash commands.
    pub(crate) fn bash() -> (r: Option<SpannedQuery>)
        ensures
            r is Some <==> query_indices(true, command_query(true)) is Some,
            r matches Some(q) ==> is_command_query(q, true),
    {
        SpannedQuery::new(BASH_COMMAND_QUERY, true)
    }

    /// The query that finds PowerShell commands.
    pub(crate) fn pwsh() -> (r: Option<SpannedQuery>)
        ensures
            r is Some <==> query_indices(false, command_query(false)) is Some,
            r matches Some(q) ==> is_command_query(q, false),
    {
        SpannedQuery::new(PWSH_COMMAND_QUERY, false)
    }
}

/// The shell languages whose scripts the audit reads.
#[derive(Clone, Copy, Debug, PartialEq, Eq, Structural)]
pub enum Dialect {
    /// `bash`, `sh` and `zsh`.
    Bourne,
    /// `pwsh` and `powershell`.
    PowerShell,
}

/// Why the commands of a script could not be read.
#[derive(Clone, Copy, Debug, PartialEq, Eq, Structural)]
pub enum AuditError {
    /// The script could not be parsed in its dialect.
    UnparsableScript(Dialect),
    /// A match of the command query lacks a capture, or a captured range is
    /// not a piece of the script's text.
    MalformedMatch,
}

/// The part of `s` before its first space.
pub open spec fn first_word(s: Seq<char>) -> Seq<char>
    decreases s.len(),
{
    if s.len() == 0 || s[0] == ' ' {
        Seq::empty()
    } else {
        seq![s[0]] + first_word(s.drop_first())
    }
}

/// The part of `s` after its last `/`.
pub open spec fn base_name(s: Seq<char>) -> Seq<char>
    decreases s.len(),
{
    if s.contains('/') {
        base_name(s.drop_first())
    } else {
        s
    }
}

/// The program of a `shell:` value: its first word without a directory,
/// e.g. `bash` for `/usr/bin/bash -e {0}`.
pub open spec fn shell_program(shell: Seq<char>) -> Seq<char> {
    base_name(first_word(shell))
}

/// The dialect of the shell program `program`, if the audit reads it.
pub open spec fn dialect_of(program: Seq<char>) -> Option<Dialect> {
    if program == "bash"@ || program == "sh"@ || program == "zsh"@ {
        Some(Dialect::Bourne)
    } else if program == "pwsh"@ || program == "powershell"@ {
        Some(Dialect::PowerShell)
    } else {
        None
    }
}

/// The `shell:` value names a Bourne-like shell.
pub open spec fn is_bourne_shell(shell: Seq<char>) -> bool {
    dialect_of(shell_program(shell)) == Some(Dialect::Bourne)
}

/// The program of a `shell:` value: its first word without a directory.
pub fn normalize_shell(shell: &str) -> (r: &str)
    ensures
        r@ == shell_program(shell@),
{
    let n = shell.unicode_len();
    let mut end: usize = 0;
    assert(shell@.subrange(0, 0) + first_word(shell@.subrange(0, n as int)) =~= first_word(shell@)) by {
        assert(shell@.subrange(0, n as int) =~= shell@);
    }
    while end < n && shell.get_char(end) != ' '
        invariant
            n == shell@.len(),
            end <= n,
            first_word(shell@) == shell@.subrange(0, end as int) + first_word(shell@.subrange(end as int, n as int)),
        decreases n - end,
    {
        let ghost rest = shell@.subrange(end as int, n as int);
        assert(rest.drop_first() =~= shell@.subrange(end + 1, n as int));
        assert(shell@.subrange(0, end + 1) =~= shell@.subrange(0, end as int) + seq![rest[0]]);
        end = end + 1;
    }
    proof {
        let rest = shell@.subrange(end as int, n as int);
        assert(first_word(rest) =~= Seq::<char>::empty());
        assert(first_word(shell@) =~= shell@.subrange(0, end as int));
    }
    let word = shell.substring_char(0, end);
    let mut start: usize = end;
    while start > 0 && word.get_char(start - 1) != '/'
        invariant
            end == word@.len(),
            start <= end,
            forall|j: int| start <= j < end ==> word@[j] != '/',
        decreases start,
    {
        start = start - 1;
    }
    proof {
        let tail = word@.subrange(start as int, end as int);
        assert(!tail.contains('/')) by {
            if tail.contains('/') {
                let k = choose|k: int| 0 <= k < tail.len() && tail[k] == '/';
                assert(word@[start + k] == '/');
            }
        }
        lemma_base_name_suffix(word@, start as int);
    }
    word.substring_char(start, end)
}

/// When the suffix of `s` from `k` holds no `/` and `k` is 0 or follows a
/// `/`, the suffix is the base name of `s`.
proof fn lemma_base_name_suffix(s: Seq<char>, k: int)
    requires
        0 <= k <= s.len(),
        k == 0 || s[k - 1] == '/',
        !s.subrange(k, s.len() as int).contains('/'),
    ensures
        base_name(s) == s.subrange(k, s.len() as int),
    decreases s.len(),
{
    if k == 0 {
        assert(s.subrange(0, s.len() as int) =~= s);
    } else {
        assert(s.contains('/')) by {
            assert(s[k - 1] == '/');
        }
        let t = s.drop_first();
        assert(t.subrange(k - 1, t.len() as int) =~= s.subrange(k, s.len() as int));
        if k - 1 > 0 {
            assert(t[k - 2] == s[k - 1]);
        }
        lemma_base_name_suffix(t, k - 1);
    }
}

/// A child of a command node as `bash_node_children` gives it: kind, byte
/// range, and the byte range of its `name` field.
pub type NodeChild = (Seq<char>, usize, usize, Option<(usize, usize)>);

/// The matches of the command query of the grammar that `bourne` picks on
/// the script `run`.
pub open spec fn script_captures(bourne: bool, query: Seq<char>, run: Seq<char>) -> Option<Seq<Seq<(u32, usize, usize)>>> {
    if bourne {
        bash_captures(query, run)
    } else {
        pwsh_captures(query, run)
    }
}

/// The byte range of the first capture of `caps` with the name index `idx`.
pub open spec fn first_capture(caps: Seq<(u32, usize, usize)>, idx: u32) -> Option<(usize, usize)>
    decreases caps.len(),
{
    if caps.len() == 0 {
        None
    } else {
        match first_capture(caps.drop_last(), idx) {
            Some(r) => Some(r),
            None => if caps.last().0 == idx {
                Some((caps.last().1, caps.last().2))
            } else {
                None
            },
        }
    }
}

/// The byte ranges of the captures of `caps` with the name index `idx`, in
/// order.
pub open spec fn captures_with(caps: Seq<(u32, usize, usize)>, idx: u32) -> Seq<(usize, usize)>
    decreases caps.len(),
{
    if caps.len() == 0 {
        Seq::empty()
    } else {
        let before = captures_with(caps.drop_last(), idx);
        if caps.last().0 == idx {
            before.push((caps.last().1, caps.last().2))
        } else {
            before
        }
    }
}

/// `r` is a range of character boundaries of `bytes`, in order.
pub open spec fn range_ok(bytes: Seq<u8>, r: (usize, usize)) -> bool {
    r.0 <= r.1 && is_char_boundary(bytes, r.0 as int) && is_char_boundary(bytes, r.1 as int)
}

/// The bytes of `bytes` in the range `r`.
pub open spec fn bytes_in(bytes: Seq<u8>, r: (usize, usize)) -> Seq<u8> {
    bytes.subrange(r.0 as int, r.1 as int)
}

/// The child is a variable assignment.
pub open spec fn is_assignment_child(k: NodeChild) -> bool {
    k.0 == "variable_assignment"@
}

/// The children of the command of one match: in a Bourne-like script those
/// of the node its `span` capture covers, in PowerShell none.
pub open spec fn match_children(run: Seq<char>, caps: Seq<(u32, usize, usize)>, idx: (u32, u32, u32), bourne: bool) -> Option<Seq<NodeChild>> {
    if !bourne {
        Some(Seq::empty())
    } else {
        match first_capture(caps, idx.2) {
            Some(s) => bash_node_children(run, s.0, s.1),
            None => None,
        }
    }
}

/// The child's text, and its name's when it is a named assignment, can be
/// read from `bytes`.
pub open spec fn child_ok(bytes: Seq<u8>, k: NodeChild) -> bool {
    &&& range_ok(bytes, (k.1, k.2))
    &&& is_assignment_child(k) && k.3 is Some ==> range_ok(bytes, k.3->Some_0)
}

/// One match can be read from the script `run`: it has a `cmd` and a `span`
/// capture, every text it needs lies at character boundaries, and in a
/// Bourne-like script the command node's children are found.
pub open spec fn match_readable(caps: Seq<(u32, usize, usize)>, idx: (u32, u32, u32), run: &str, bourne: bool) -> bool {
    let bytes = run.spec_bytes();
    &&& first_capture(caps, idx.0) matches Some(c) && range_ok(bytes, c)
    &&& first_capture(caps, idx.2) matches Some(s) && range_ok(bytes, s)
    &&& forall|i: int| 0 <= i < captures_with(caps, idx.1).len() ==> range_ok(bytes, #[trigger] captures_with(caps, idx.1)[i])
    &&& match_children(run@, caps, idx, bourne) matches Some(kids) && forall|i: int|
        0 <= i < kids.len() ==> child_ok(bytes, #[trigger] kids[i])
}

/// The part `p` is the child `k` read from `bytes`.
pub open spec fn part_read_from(p: CommandPart, k: NodeChild, bytes: Seq<u8>) -> bool {
    &&& p.is_variable_assignment == is_assignment_child(k)
    &&& p.start == k.1
    &&& p.text.spec_bytes() == bytes_in(bytes, (k.1, k.2))
    &&& p.name is Some <==> (is_assignment_child(k) && k.3 is Some)
    &&& p.name matches Some(n) ==> n.spec_bytes() == bytes_in(bytes, k.3->Some_0)
}

/// The command match `m` is what the captures `caps` of one query match say
/// of the script `run`: the text of the first `cmd` capture, the texts of
/// the `args` captures in order, the first `span` capture's offset and text,
/// and the command node's children.
pub open spec fn match_read_from(m: CommandMatch, caps: Seq<(u32, usize, usize)>, idx: (u32, u32, u32), run: &str, bourne: bool) -> bool {
    let bytes = run.spec_bytes();
    let args = captures_with(caps, idx.1);
    &&& first_capture(caps, idx.0) matches Some(c) && m.cmd.spec_bytes() == bytes_in(bytes, c)
    &&& m.args@.len() == args.len()
    &&& forall|i: int| 0 <= i < args.len() ==> (#[trigger] m.args@[i]).spec_bytes() == bytes_in(bytes, args[i])
    &&& first_capture(caps, idx.2) matches Some(s) && range_ok(bytes, s) && m.span_start == s.0
        && m.span_text.spec_bytes() == bytes_in(bytes, s)
    &&& match_children(run@, caps, idx, bourne) matches Some(kids) && m.parts@.len() == kids.len() && forall|i: int|
        0 <= i < kids.len() ==> part_read_from(#[trigger] m.parts@[i], kids[i], bytes)
}

/// Every match of `found` can be read from `run`.
pub open spec fn all_readable(found: Seq<Seq<(u32, usize, usize)>>, idx: (u32, u32, u32), run: &str, bourne: bool) -> bool {
    forall|i: int| 0 <= i < found.len() ==> match_readable(#[trigger] found[i], idx, run, bourne)
}

/// Every match of the command query of the grammar that `bourne` picks can
/// be read from `run`.
pub open spec fn script_readable(bourne: bool, run: &str) -> bool {
    script_captures(bourne, command_query(bourne), run@) matches Some(found) && all_readable(
        found,
        command_query_indices(bourne),
        run,
        bourne,
    )
}

/// `ms` are the command matches of `run`, each read from the captures of
/// the query match at its position.
pub open spec fn script_read_from(ms: Seq<CommandMatch>, bourne: bool, run: &str) -> bool {
    let idx = command_query_indices(bourne);
    script_captures(bourne, command_query(bourne), run@) matches Some(found) && ms.len() == found.len() && forall|i: int|
        0 <= i < found.len() ==> match_read_from(#[trigger] ms[i], found[i], idx, run, bourne)
}

/// Why the commands of `run` cannot be read, when they cannot.
pub open spec fn script_error(bourne: bool, run: &str) -> AuditError {
    if script_captures(bourne, command_query(bourne), run@) is None {
        AuditError::UnparsableScript(if bourne { Dialect::Bourne } else { Dialect::PowerShell })
    } else {
        AuditError::MalformedMatch
    }
}

/// The positions and byte ranges of the captures of `caps`, as plain values.
proof fn lemma_captures_view(caps: &Vec<(u32, usize, usize)>)
    ensures
        caps.deep_view() == caps@,
{
    assert(caps.deep_view() =~= caps@);
}

/// The texts of the ranges `ranges` of `run`, in order.
fn texts_in<'t>(run: &'t str, ranges: &Vec<(usize, usize)>) -> (r: Option<Vec<&'t str>>)
    ensures
        r is Some <==> forall|i: int| 0 <= i < ranges@.len() ==> range_ok(run.spec_bytes(), #[trigger] ranges@[i]),
        r matches Some(ts) ==> ts@.len() == ranges@.len() && forall|i: int|
            0 <= i < ranges@.len() ==> (#[trigger] ts@[i]).spec_bytes() == bytes_in(run.spec_bytes(), ranges@[i]),
{
    let mut out: Vec<&'t str> = Vec::new();
    let n = ranges.len();
    let mut i: usize = 0;
    while i < n
        invariant
            n == ranges@.len(),
            i <= n,
            out@.len() == i,
            forall|j: int| 0 <= j < i ==> range_ok(run.spec_bytes(), #[trigger] ranges@[j]),
            forall|j: int| 0 <= j < i ==> (#[trigger] out@[j]).spec_bytes() == bytes_in(run.spec_bytes(), ranges@[j]),
        decreases n - i,
    {
        let (start, end) = ranges[i];
        match text_between(run, start, end) {
            Some(t) => out.push(t),
            None => return None,
        }
        i = i + 1;
    }
    Some(out)
}

/// The parts of a command read from the children `kids` of its node.
fn parts_of<'t>(run: &'t str, kids: &Vec<(String, usize, usize, Option<(usize, usize)>)>) -> (r: Option<Vec<CommandPart<'t>>>)
    ensures
        r is Some <==> forall|i: int| 0 <= i < kids.deep_view().len() ==> child_ok(run.spec_bytes(), #[trigger] kids.deep_view()[i]),
        r matches Some(ps) ==> ps@.len() == kids.deep_view().len() && forall|i: int|
            0 <= i < kids.deep_view().len() ==> part_read_from(#[trigger] ps@[i], kids.deep_view()[i], run.spec_bytes()),
{
    let ghost kv = kids.deep_view();
    let mut out: Vec<CommandPart<'t>> = Vec::new();
    let n = kids.len();
    let mut i: usize = 0;
    while i < n
        invariant
            n == kids@.len(),
            kv == kids.deep_view(),
            kv.len() == n,
            i <= n,
            out@.len() == i,
            forall|j: int| 0 <= j < i ==> child_ok(run.spec_bytes(), #[trigger] kv[j]),
            forall|j: int| 0 <= j < i ==> part_read_from(#[trigger] out@[j], kv[j], run.spec_bytes()),
        decreases n - i,
    {
        let kid = &kids[i];
        assert(kv[i as int] == (kid.0@, kid.1, kid.2, kid.3));
        let is_variable_assignment = str_eq(kid.0.as_str(), "variable_assignment");
        let name = if is_variable_assignment {
            match kid.3 {
                Some((s, e)) => match text_between(run, s, e) {
                    Some(t) => Some(t),
                    None => return None,
                },
                None => None,
            }
        } else {
            None
        };
        let text = match text_between(run, kid.1, kid.2) {
            Some(t) => t,
            None => return None,
        };
        let part = CommandPart { is_variable_assignment, name, start: kid.1, text };
        assert(part_read_from(part, kv[i as int], run.spec_bytes()));
        out.push(part);
        i = i + 1;
    }
    Some(out)
}

/// The command match that the captures `caps` of one query match describe
/// in `run`, with the capture indices `q` gives; `MalformedMatch` when it
/// cannot be read.
fn command_match<'t>(caps: &Vec<(u32, usize, usize)>, q: &SpannedQuery, run: &'t str) -> (r: Result<
    CommandMatch<'t>,
    AuditError,
>)
    ensures
        r is Ok <==> match_readable(caps@, (q.cmd_idx, q.args_idx, q.span_idx), run, q.bourne),
        r matches Err(e) ==> e == AuditError::MalformedMatch,
        r matches Ok(m) ==> match_read_from(m, caps@, (q.cmd_idx, q.args_idx, q.span_idx), run, q.bourne),
{
    let ghost idx = (q.cmd_idx, q.args_idx, q.span_idx);
    let mut cmd: Option<(usize, usize)> = None;
    let mut span: Option<(usize, usize)> = None;
    let mut arg_ranges: Vec<(usize, usize)> = Vec::new();
    let n = caps.len();
    let mut i: usize = 0;
    while i < n
        invariant
            n == caps@.len(),
            i <= n,
            cmd == first_capture(caps@.take(i as int), q.cmd_idx),
            span == first_capture(caps@.take(i as int), q.span_idx),
            arg_ranges@ == captures_with(caps@.take(i as int), q.args_idx),
        decreases n - i,
    {
        assert(caps@.take(i + 1).drop_last() =~= caps@.take(i as int));
        let (index, start, end) = caps[i];
        if index == q.cmd_idx && cmd.is_none() {
            cmd = Some((start, end));
        }
        if index == q.span_idx && span.is_none() {
            span = Some((start, end));
        }
        if index == q.args_idx {
            arg_ranges.push((start, end));
        }
        i = i + 1;
    }
    assert(caps@.take(n as int) =~= caps@);
    let (c, s) = match (cmd, span) {
        (Some(c), Some(s)) => (c, s),
        _ => return Err(AuditError::MalformedMatch),
    };
    let cmd = match text_between(run, c.0, c.1) {
        Some(t) => t,
        None => return Err(AuditError::MalformedMatch),
    };
    let span_text = match text_between(run, s.0, s.1) {
        Some(t) => t,
        None => return Err(AuditError::MalformedMatch),
    };
    let args = match texts_in(run, &arg_ranges) {
        Some(ts) => ts,
        None => {
            proof {
                let k = choose|k: int|
                    0 <= k < arg_ranges@.len() && !range_ok(run.spec_bytes(), #[trigger] arg_ranges@[k]);
                assert(captures_with(caps@, q.args_idx)[k] == arg_ranges@[k]);
                assert(!range_ok(run.spec_bytes(), captures_with(caps@, q.args_idx)[k]));
                assert(0 <= k < captures_with(caps@, idx.1).len());
                assert(!range_ok(run.spec_bytes(), captures_with(caps@, idx.1)[k]));
                assert(!match_readable(caps@, idx, run, q.bourne));
            }
            return Err(AuditError::MalformedMatch);
        },
    };
    let parts = if q.bourne {
        let kids = match bash_command_children(run, s.0, s.1) {
            Some(kids) => kids,
            None => return Err(AuditError::MalformedMatch),
        };
        assert(match_children(run@, caps@, idx, true) == Some(kids.deep_view()));
        match parts_of(run, &kids) {
            Some(ps) => ps,
            None => {
                proof {
                    let kv = kids.deep_view();
                    let k = choose|k: int| 0 <= k < kv.len() && !child_ok(run.spec_bytes(), #[trigger] kv[k]);
                    assert(!child_ok(run.spec_bytes(), kv[k]));
                }
                return Err(AuditError::MalformedMatch);
            },
        }
    } else {
        Vec::new()
    };
    let m = CommandMatch { cmd, args, span_start: s.0, span_text, parts };
    assert(match_read_from(m, caps@, idx, run, q.bourne));
    Ok(m)
}

/// The shell commands of `run` that the command query `q` finds, in order.
fn command_matches<'t>(run: &'t str, q: &SpannedQuery) -> (r: Result<Vec<CommandMatch<'t>>, AuditError>)
    ensures
        r is Ok <==> (script_captures(q.bourne, q.source@, run@) matches Some(found) && all_readable(
            found,
            (q.cmd_idx, q.args_idx, q.span_idx),
            run,
            q.bourne,
        )),
        r matches Err(e) ==> e == (if script_captures(q.bourne, q.source@, run@) is None {
            AuditError::UnparsableScript(if q.bourne { Dialect::Bourne } else { Dialect::PowerShell })
        } else {
            AuditError::MalformedMatch
        }),
        r matches Ok(ms) ==> script_captures(q.bourne, q.source@, run@) matches Some(found) && ms@.len()
            == found.len() && forall|i: int|
            0 <= i < found.len() ==> match_read_from(
                #[trigger] ms@[i],
                found[i],
                (q.cmd_idx, q.args_idx, q.span_idx),
                run,
                q.bourne,
            ),
{
    let found = if q.bourne {
        bash_query_captures(q.source, run)
    } else {
        pwsh_query_captures(q.source, run)
    };
    let found = match found {
        Some(f) => f,
        None => {
            return Err(
                AuditError::UnparsableScript(if q.bourne { Dialect::Bourne } else { Dialect::PowerShell }),
            )
        },
    };
    let ghost fv = found.deep_view();
    assert(script_captures(q.bourne, q.source@, run@) == Some(fv));
    let mut out: Vec<CommandMatch<'t>> = Vec::new();
    let n = found.len();
    let mut i: usize = 0;
    while i < n
        invariant
            n == found@.len(),
            fv == found.deep_view(),
            script_captures(q.bourne, q.source@, run@) == Some(fv),
            fv.len() == n,
            i <= n,
            out@.len() == i,
            all_readable(fv.take(i as int), (q.cmd_idx, q.args_idx, q.span_idx), run, q.bourne),
            forall|j: int| 0 <= j < i ==> match_read_from(#[trigger] out@[j], fv[j], (q.cmd_idx, q.args_idx, q.span_idx), run, q.bourne),
        decreases n - i,
    {
        proof {
            lemma_captures_view(&found[i as int]);
        }
        assert(fv[i as int] == found@[i as int]@);
        assert(fv.take(i + 1) =~= fv.take(i as int).push(fv[i as int]));
        let m = match command_match(&found[i], q, run) {
            Ok(m) => m,
            Err(e) => {
                assert(found@[i as int]@ == fv[i as int]);
                assert(!match_readable(fv[i as int], (q.cmd_idx, q.args_idx, q.span_idx), run, q.bourne));
                assert(e == AuditError::MalformedMatch);
                assert(!all_readable(fv, (q.cmd_idx, q.args_idx, q.span_idx), run, q.bourne));
                return Err(e);
            },
        };
        out.push(m);
        i = i + 1;
    }
    assert(fv.take(n as int) =~= fv);
    Ok(out)
}

impl UseTrustedPublishing {
    /// The publishing commands of the `run:` script `run`, written for the
    /// shell `shell`. Scripts for shells other than Bash, sh, zsh and
    /// PowerShell are not read, and have none. The commands of the others
    /// are read from the matches of the command query of their grammar;
    /// reading fails when the script cannot be parsed or a match cannot be
    /// read.
    pub fn trusted_publishing_command_candidates<'doc>(&self, run: &'doc str, shell: &str) -> (r: Result<
        Vec<PublishCommandCandidate<'doc>>,
        AuditError,
    >)
        ensures
            dialect_of(shell_program(shell@)) is None ==> (r matches Ok(cs) && cs@.len() == 0),
            dialect_of(shell_program(shell@)) is Some ==> (r is Ok <==> script_readable(
                is_bourne_shell(shell@),
                run,
            )),
            r matches Err(e) ==> e == script_error(is_bourne_shell(shell@), run),
            r matches Ok(cs) ==> forall|i: int|
                0 <= i < cs@.len() ==> piece_at(
                    run.spec_bytes(),
                    cs@[i].command.after as int,
                    (#[trigger] cs@[i]).command.fragment.spec_bytes(),
                ),
            r matches Ok(cs) ==> dialect_of(shell_program(shell@)) is None || exists|ms: Seq<CommandMatch<'doc>>|
                script_read_from(ms, is_bourne_shell(shell@), run) && cs@ == #[trigger] candidates_of(
                    ms,
                    is_bourne_shell(shell@),
                ),
    {
        proof {
            use_type_invariant(self);
        }
        let program = normalize_shell(shell);
        let query = if str_eq(program, "bash") || str_eq(program, "sh") || str_eq(program, "zsh") {
            &self.bash_command_query
        } else if str_eq(program, "pwsh") || str_eq(program, "powershell") {
            &self.pwsh_command_query
        } else {
            return Ok(Vec::new());
        };
        let matches = command_matches(run, query)?;
        let candidates = Self::candidates_from_matches(matches.as_slice(), query.bourne);
        assert(script_read_from(matches@, is_bourne_shell(shell@), run));
        proof {
            let ms = matches@;
            let bytes = run.spec_bytes();
            lemma_candidates_are_command_spans(ms, ms.len() as int, query.bourne);
            assert forall|i: int| 0 <= i < candidates@.len() implies piece_at(
                bytes,
                candidates@[i].command.after as int,
                (#[trigger] candidates@[i]).command.fragment.spec_bytes(),
            ) by {
                let k = choose|k: int|
                    0 <= k < ms.len() && (#[trigger] candidates_of(ms, query.bourne)[i]).command == (
                    Subfeature { after: ms[k].span_start, fragment: ms[k].span_text });
                let found = script_captures(query.bourne, query.source@, run@)->Some_0;
                assert(match_read_from(ms[k], found[k], command_query_indices(query.bourne), run, query.bourne));
                let s = first_capture(found[k], command_query_indices(query.bourne).2)->Some_0;
                assert(ms[k].span_text.spec_bytes() == bytes.subrange(s.0 as int, s.1 as int));
                encode_utf8_valid_utf8(run@);
                assert(is_char_boundary(bytes, s.1 as int));
                if s.1 != 0 {
                    assert(s.1 <= bytes.len());
                }
            }
        }
        Ok(candidates)
    }
}

} // verus!
