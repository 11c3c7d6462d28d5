//! Plain command sequences in the grammar of POSIX shells.

use crate::text;
use vstd::prelude::*;

verus! {

// ---------------------------------------------------------------------------
// Syntax trees
// ---------------------------------------------------------------------------

/// One node of a syntax tree: what it is, whether the grammar names it, where
/// it begins in the script, the text that it covers if that is text at all, and
/// how many children it has.
#[derive(Debug)]
pub struct BashNode {
    pub kind: String,
    pub named: bool,
    pub start: usize,
    pub text: Option<String>,
    pub children: usize,
}

/// A syntax tree: its nodes level by level, the root first, so that the children
/// of each node follow those of the nodes before it.
#[derive(Debug)]
pub struct BashSyntax {
    pub has_error: bool,
    pub nodes: Vec<BashNode>,
}

/// One node of a syntax tree.
pub struct NodeView {
    pub kind: Seq<char>,
    pub named: bool,
    pub start: nat,
    pub text: Option<Seq<char>>,
    pub children: nat,
}

/// A syntax tree.
pub struct SyntaxView {
    pub has_error: bool,
    pub nodes: Seq<NodeView>,
}

impl View for BashNode {
    type V = NodeView;

    open spec fn view(&self) -> NodeView {
        NodeView {
            kind: self.kind@,
            named: self.named,
            start: self.start as nat,
            text: text::opt_view(self.text),
            children: self.children as nat,
        }
    }
}

impl View for BashSyntax {
    type V = SyntaxView;

    open spec fn view(&self) -> SyntaxView {
        SyntaxView { has_error: self.has_error, nodes: node_views(self.nodes@) }
    }
}

/// The nodes of a syntax tree.
pub open spec fn node_views(nodes: Seq<BashNode>) -> Seq<NodeView> {
    Seq::new(nodes.len(), |i: int| nodes[i]@)
}

/// An optional syntax tree.
pub open spec fn syntax_view(r: Option<BashSyntax>) -> Option<SyntaxView> {
    match r {
        Some(s) => Some(s@),
        None => None,
    }
}

/// What `tree_sitter::Parser::parse` makes of a script with the grammar of
/// `tree_sitter_bash`.
pub uninterp spec fn bash_syntax(script: Seq<char>) -> Option<SyntaxView>;

/// Calls `tree_sitter::Parser::parse` with the grammar of `tree_sitter_bash` and
/// copies the nodes of the tree out, level by level. The tree is a function of
/// the script alone. How the grammar divides a script is left unsaid.
#[verifier::external_body]
fn parse_bash(script: &str) -> (r: Option<BashSyntax>)
    ensures
        syntax_view(r) == bash_syntax(script@),
{
    let mut parser = tree_sitter::Parser::new();
    parser.set_language(&tree_sitter_bash::LANGUAGE.into()).ok()?;
    let tree = parser.parse(script, None)?;
    let mut queue = std::collections::VecDeque::from([tree.root_node()]);
    let mut nodes = Vec::new();
    while let Some(n) = queue.pop_front() {
        queue.extend(n.children(&mut n.walk()));
        nodes.push(BashNode {
            kind: n.kind().to_owned(),
            named: n.is_named(),
            start: n.start_byte(),
            text: n.utf8_text(script.as_bytes()).ok().map(String::from),
            children: n.child_count() });
    }
    Some(BashSyntax { has_error: tree.root_node().has_error(), nodes })
}

// ---------------------------------------------------------------------------
// Quoted words
// ---------------------------------------------------------------------------

/// What a double-quoted string stands for, read from `i` on behind `out`: the
/// text up to the closing quote, where a backslash stands for the character
/// behind it.
pub open spec fn unquoted_from(raw: Seq<char>, i: int, out: Seq<char>) -> Option<Seq<char>>
    decreases raw.len() - i,
{
    if i < 0 || i >= raw.len() {
        None
    } else if raw[i] == '"' {
        Some(out)
    } else if raw[i] == '\\' {
        if i + 1 < raw.len() {
            unquoted_from(raw, i + 2, out.push(raw[i + 1]))
        } else {
            None
        }
    } else {
        unquoted_from(raw, i + 1, out.push(raw[i]))
    }
}

/// What a double-quoted string stands for.
pub open spec fn double_unquoted(raw: Seq<char>) -> Option<Seq<char>> {
    if raw.len() > 0 && raw[0] == '"' {
        unquoted_from(raw, 1, Seq::empty())
    } else {
        None
    }
}

/// What a single-quoted string stands for: the text between the quotes.
pub open spec fn single_unquoted(raw: Seq<char>) -> Option<Seq<char>> {
    if raw.len() >= 2 && raw[0] == '\'' && raw.last() == '\'' {
        Some(raw.subrange(1, raw.len() - 1))
    } else {
        None
    }
}

/// Takes a double-quoted string apart.
pub fn parse_double_quoted_string(raw: &str) -> (r: Option<String>)
    ensures
        text::opt_view(r) == double_unquoted(raw@),
{
    let chars = text::chars_of(raw);
    if chars.len() == 0 || chars[0] != '"' {
        return None;
    }
    let mut out = String::new();
    let mut i: usize = 1;
    while i < chars.len()
        invariant
            chars@ == raw@,
            1 <= i <= raw@.len(),
            raw@[0] == '"',
            unquoted_from(raw@, i as int, out@) == double_unquoted(raw@),
        decreases raw@.len() - i,
    {
        let c = chars[i];
        if c == '"' {
            return Some(out);
        }
        if c == '\\' {
            if chars.len() - i < 2 {
                return None;
            }
            out.push(chars[i + 1]);
            i += 2;
        } else {
            out.push(c);
            i += 1;
        }
    }
    None
}

/// Takes a single-quoted string apart.
pub fn parse_raw_string(raw: &str) -> (r: Option<String>)
    ensures
        text::opt_view(r) == single_unquoted(raw@),
{
    let chars = text::chars_of(raw);
    let n: usize = chars.len();
    if n < 2 || chars[0] != '\'' || chars[n - 1] != '\'' {
        return None;
    }
    Some(text::string_of_range(&chars, 1, n - 1))
}

// ---------------------------------------------------------------------------
// Children
// ---------------------------------------------------------------------------

/// How many nodes the children of the first `j` nodes are.
pub open spec fn child_total(nodes: Seq<NodeView>, j: int) -> nat
    decreases j,
{
    if j <= 0 {
        0
    } else {
        child_total(nodes, j - 1) + nodes[j - 1].children
    }
}

/// The named ones among the nodes from `from` on, up to `to`.
pub open spec fn named_between(nodes: Seq<NodeView>, from: int, to: int) -> Seq<NodeIndex>
    decreases to - from,
{
    if from >= to || from < 0 || from >= nodes.len() {
        Seq::empty()
    } else if nodes[from].named {
        seq![from] + named_between(nodes, from + 1, to)
    } else {
        named_between(nodes, from + 1, to)
    }
}

/// Where a node stands.
pub type NodeIndex = int;

/// The named children of node `j`: its children stand behind the root and the
/// children of the nodes before it.
pub open spec fn named_children(nodes: Seq<NodeView>, j: int) -> Seq<NodeIndex> {
    let first = 1 + child_total(nodes, j) as int;
    named_between(nodes, first, first + nodes[j].children)
}

/// Indices seen as mathematical numbers.
pub open spec fn places(v: Seq<usize>) -> Seq<NodeIndex> {
    Seq::new(v.len(), |i: int| v[i] as int)
}

/// The named children of node `j`.
fn find_named_children(nodes: &Vec<BashNode>, j: usize) -> (r: Vec<usize>)
    requires
        j < nodes@.len(),
    ensures
        places(r@) == named_children(node_views(nodes@), j as int),
        forall|k: int| 0 <= k < r@.len() ==> (#[trigger] r@[k]) < nodes@.len(),
{
    let ghost all = node_views(nodes@);
    let n: usize = nodes.len();
    let mut first: usize = 1;
    let mut i: usize = 0;
    let mut out: Vec<usize> = Vec::new();
    assert(places(out@) =~= Seq::<NodeIndex>::empty());
    while i < j
        invariant
            i <= j < n,
            n == nodes@.len(),
            all == node_views(nodes@),
            first == 1 + child_total(all, i as int),
            first <= n,
            out@.len() == 0,
        decreases j - i,
    {
        assert(all[i as int] == nodes@[i as int]@);
        let c: usize = nodes[i].children;
        if c > n - first {
            proof {
                child_total_grows(all, i + 1, j as int);
            }
            return out;
        }
        first += c;
        i += 1;
    }
    assert(all[j as int] == nodes@[j as int]@);
    let c: usize = nodes[j].children;
    let end: usize = if c > n - first {
        n
    } else {
        first + c
    };
    proof {
        named_clip(all, first as int, first + c, end as int);
    }
    let mut k: usize = first;
    while k < end
        invariant
            first <= k <= end <= n,
            n == nodes@.len(),
            all == node_views(nodes@),
            forall|m: int| 0 <= m < out@.len() ==> (#[trigger] out@[m]) < n,
            places(out@) + named_between(all, k as int, end as int) == named_between(
                all,
                first as int,
                end as int,
            ),
        decreases end - k,
    {
        let ghost before = places(out@);
        assert(all[k as int] == nodes@[k as int]@);
        if nodes[k].named {
            out.push(k);
            assert(places(out@) =~= before.push(k as int));
            assert(before + (seq![k as int] + named_between(all, k + 1, end as int)) =~= before.push(
                k as int,
            ) + named_between(all, k + 1, end as int));
        }
        k += 1;
    }
    assert(places(out@) + named_between(all, end as int, end as int) =~= places(out@));
    out
}

/// More nodes have no fewer children.
proof fn child_total_grows(nodes: Seq<NodeView>, i: int, j: int)
    requires
        0 <= i <= j,
    ensures
        child_total(nodes, i) <= child_total(nodes, j),
    decreases j - i,
{
    if i < j {
        child_total_grows(nodes, i, j - 1);
    }
}

/// There are no nodes behind the last one.
proof fn named_clip(nodes: Seq<NodeView>, from: int, to: int, end: int)
    requires
        0 <= from <= end,
        end == to || (end == nodes.len() && end <= to),
    ensures
        named_between(nodes, from, to) == named_between(nodes, from, end),
    decreases end - from,
{
    if from < end && from < nodes.len() {
        named_clip(nodes, from + 1, to, end);
    }
}

// ---------------------------------------------------------------------------
// Commands
// ---------------------------------------------------------------------------

/// The named nodes that a plain command sequence may hold.
pub open spec fn is_plain_kind(kind: Seq<char>) -> bool {
    ||| kind == "program"@
    ||| kind == "list"@
    ||| kind == "pipeline"@
    ||| kind == "command"@
    ||| kind == "command_name"@
    ||| kind == "word"@
    ||| kind == "string"@
    ||| kind == "string_content"@
    ||| kind == "raw_string"@
    ||| kind == "number"@
    ||| kind == "concatenation"@
}

/// The tokens that a plain command sequence may hold.
pub open spec fn is_plain_token(kind: Seq<char>) -> bool {
    ||| kind == "&&"@
    ||| kind == "||"@
    ||| kind == ";"@
    ||| kind == "|"@
    ||| kind == "\""@
    ||| kind == "'"@
    ||| text::trimmed(kind).len() == 0
}

/// Whether a node may stand in a plain command sequence.
pub open spec fn is_plain(node: NodeView) -> bool {
    if node.named {
        is_plain_kind(node.kind)
    } else {
        is_plain_token(node.kind)
    }
}

/// What a word, number or string stands for.
pub open spec fn literal(node: NodeView) -> Option<Seq<char>> {
    if node.kind == "word"@ || node.kind == "number"@ {
        node.text
    } else if node.kind == "string"@ {
        match node.text {
            Some(raw) => double_unquoted(raw),
            None => None,
        }
    } else if node.kind == "raw_string"@ {
        match node.text {
            Some(raw) => single_unquoted(raw),
            None => None,
        }
    } else {
        None
    }
}

/// What the nodes at the given places stand for together, from `k` on behind
/// `out`.
pub open spec fn concatenated_from(
    nodes: Seq<NodeView>,
    parts: Seq<NodeIndex>,
    k: int,
    out: Seq<char>,
) -> Option<Seq<char>>
    decreases parts.len() - k,
{
    if k < 0 || k >= parts.len() {
        Some(out)
    } else {
        match literal(nodes[parts[k]]) {
            Some(s) => concatenated_from(nodes, parts, k + 1, out + s),
            None => None,
        }
    }
}

/// The word that a part of a command stands for.
pub open spec fn word_at(nodes: Seq<NodeView>, i: int) -> Option<Seq<char>> {
    let node = nodes[i];
    if node.kind == "command_name"@ {
        let parts = named_children(nodes, i);
        if parts.len() > 0 && nodes[parts[0]].kind == "word"@ {
            nodes[parts[0]].text
        } else {
            None
        }
    } else if node.kind == "concatenation"@ {
        match concatenated_from(nodes, named_children(nodes, i), 0, Seq::empty()) {
            Some(s) => if s.len() == 0 {
                None
            } else {
                Some(s)
            },
            None => None,
        }
    } else {
        literal(node)
    }
}

/// The words of the nodes at the given places, from `k` on behind `words`.
pub open spec fn words_from(
    nodes: Seq<NodeView>,
    parts: Seq<NodeIndex>,
    k: int,
    words: Seq<Seq<char>>,
) -> Option<Seq<Seq<char>>>
    decreases parts.len() - k,
{
    if k < 0 || k >= parts.len() {
        Some(words)
    } else {
        match word_at(nodes, parts[k]) {
            Some(w) => words_from(nodes, parts, k + 1, words.push(w)),
            None => None,
        }
    }
}

/// The words of the command at node `i`.
pub open spec fn command_words(nodes: Seq<NodeView>, i: int) -> Option<Seq<Seq<char>>> {
    words_from(nodes, named_children(nodes, i), 0, Seq::empty())
}

/// `sorted` with the node `i` put behind the last one that does not begin after
/// it.
pub open spec fn placed(nodes: Seq<NodeView>, sorted: Seq<NodeIndex>, i: int) -> Seq<NodeIndex>
    decreases sorted.len(),
{
    if sorted.len() == 0 || nodes[sorted.last()].start <= nodes[i].start {
        sorted.push(i)
    } else {
        placed(nodes, sorted.drop_last(), i).push(sorted.last())
    }
}

/// The commands among the first `n` nodes, in the order in which they begin.
pub open spec fn commands_among(nodes: Seq<NodeView>, n: int) -> Seq<NodeIndex>
    decreases n,
{
    if n <= 0 {
        Seq::empty()
    } else {
        let before = commands_among(nodes, n - 1);
        if nodes[n - 1].named && nodes[n - 1].kind == "command"@ {
            placed(nodes, before, n - 1)
        } else {
            before
        }
    }
}

/// The words of the commands at the given places, from `k` on behind `done`.
pub open spec fn all_words_from(
    nodes: Seq<NodeView>,
    commands: Seq<NodeIndex>,
    k: int,
    done: Seq<Seq<Seq<char>>>,
) -> Option<Seq<Seq<Seq<char>>>>
    decreases commands.len() - k,
{
    if k < 0 || k >= commands.len() {
        Some(done)
    } else {
        match command_words(nodes, commands[k]) {
            Some(words) => all_words_from(nodes, commands, k + 1, done.push(words)),
            None => None,
        }
    }
}

/// The commands of a syntax tree, each as a list of words, if the tree holds
/// nothing but plain commands joined by `&&`, `||`, `;` and `|`.
pub open spec fn plain_commands(syntax: SyntaxView) -> Option<Seq<Seq<Seq<char>>>> {
    if syntax.has_error || exists|i: int|
        0 <= i < syntax.nodes.len() && !is_plain(#[trigger] syntax.nodes[i]) {
        None
    } else {
        all_words_from(
            syntax.nodes,
            commands_among(syntax.nodes, syntax.nodes.len() as int),
            0,
            Seq::empty(),
        )
    }
}

/// The commands of a script in the grammar of POSIX shells.
pub open spec fn script_commands(script: Seq<char>) -> Option<Seq<Seq<Seq<char>>>> {
    match bash_syntax(script) {
        Some(syntax) => plain_commands(syntax),
        None => None,
    }
}

/// The texts of optional commands.
pub open spec fn commands_view(r: Option<Vec<Vec<String>>>) -> Option<Seq<Seq<Seq<char>>>> {
    match r {
        Some(v) => Some(text::nested_views(v@)),
        None => None,
    }
}

/// Whether a node may stand in a plain command sequence.
fn node_is_plain(node: &BashNode) -> (r: bool)
    ensures
        r == is_plain(node@),
{
    let kind = node.kind.as_str();
    if node.named {
        text::same(kind, "program") || text::same(kind, "list") || text::same(kind, "pipeline")
            || text::same(kind, "command") || text::same(kind, "command_name") || text::same(
            kind,
            "word",
        ) || text::same(kind, "string") || text::same(kind, "string_content") || text::same(
            kind,
            "raw_string",
        ) || text::same(kind, "number") || text::same(kind, "concatenation")
    } else {
        text::same(kind, "&&") || text::same(kind, "||") || text::same(kind, ";") || text::same(
            kind,
            "|",
        ) || text::same(kind, "\"") || text::same(kind, "'") || text::trim(kind).as_str().is_empty()
    }
}

/// What a word, number or string stands for.
fn literal_of(node: &BashNode) -> (r: Option<String>)
    ensures
        text::opt_view(r) == literal(node@),
{
    let kind = node.kind.as_str();
    if text::same(kind, "word") || text::same(kind, "number") {
        text::copy_opt(&node.text)
    } else if text::same(kind, "string") {
        match &node.text {
            Some(raw) => parse_double_quoted_string(raw),
            None => None,
        }
    } else if text::same(kind, "raw_string") {
        match &node.text {
            Some(raw) => parse_raw_string(raw),
            None => None,
        }
    } else {
        None
    }
}

/// What the given nodes stand for together.
fn concatenate(nodes: &Vec<BashNode>, parts: &Vec<usize>) -> (r: Option<String>)
    requires
        forall|k: int| 0 <= k < parts@.len() ==> (#[trigger] parts@[k]) < nodes@.len(),
    ensures
        text::opt_view(r) == concatenated_from(
            node_views(nodes@),
            places(parts@),
            0,
            Seq::empty(),
        ),
{
    let ghost all = node_views(nodes@);
    let ghost ps = places(parts@);
    let mut out = String::new();
    let mut k: usize = 0;
    while k < parts.len()
        invariant
            k <= parts@.len(),
            all == node_views(nodes@),
            ps == places(parts@),
            forall|m: int| 0 <= m < parts@.len() ==> (#[trigger] parts@[m]) < nodes@.len(),
            concatenated_from(all, ps, k as int, out@) == concatenated_from(
                all,
                ps,
                0,
                Seq::empty(),
            ),
        decreases parts@.len() - k,
    {
        let i: usize = parts[k];
        assert(ps[k as int] == i as int);
        assert(all[i as int] == nodes@[i as int]@);
        match literal_of(&nodes[i]) {
            Some(s) => {
                out.push_str(&s);
            },
            None => return None,
        }
        k += 1;
    }
    Some(out)
}

/// The word that a part of a command stands for.
fn word_of(nodes: &Vec<BashNode>, i: usize) -> (r: Option<String>)
    requires
        i < nodes@.len(),
    ensures
        text::opt_view(r) == word_at(node_views(nodes@), i as int),
{
    let ghost all = node_views(nodes@);
    assert(all[i as int] == nodes@[i as int]@);
    let kind = nodes[i].kind.as_str();
    if text::same(kind, "command_name") {
        let parts = find_named_children(nodes, i);
        if parts.len() == 0 {
            return None;
        }
        let p: usize = parts[0];
        assert(places(parts@)[0] == p as int);
        assert(all[p as int] == nodes@[p as int]@);
        if text::same(&nodes[p].kind, "word") {
            text::copy_opt(&nodes[p].text)
        } else {
            None
        }
    } else if text::same(kind, "concatenation") {
        let parts = find_named_children(nodes, i);
        match concatenate(nodes, &parts) {
            Some(s) => {
                if s.as_str().is_empty() {
                    None
                } else {
                    Some(s)
                }
            },
            None => None,
        }
    } else {
        literal_of(&nodes[i])
    }
}

/// The texts of optional words.
pub open spec fn words_view(r: Option<Vec<String>>) -> Option<Seq<Seq<char>>> {
    match r {
        Some(v) => Some(text::views(v@)),
        None => None,
    }
}

/// The words of the command at node `i`.
fn parse_plain_command_from_node(nodes: &Vec<BashNode>, i: usize) -> (r: Option<Vec<String>>)
    requires
        i < nodes@.len(),
    ensures
        words_view(r) == command_words(node_views(nodes@), i as int),
{
    let ghost all = node_views(nodes@);
    let parts = find_named_children(nodes, i);
    let ghost ps = places(parts@);
    let mut words: Vec<String> = Vec::new();
    assert(text::views(words@) =~= Seq::<Seq<char>>::empty());
    let mut k: usize = 0;
    while k < parts.len()
        invariant
            k <= parts@.len(),
            all == node_views(nodes@),
            ps == places(parts@),
            forall|m: int| 0 <= m < parts@.len() ==> (#[trigger] parts@[m]) < nodes@.len(),
            words_from(all, ps, k as int, text::views(words@)) == command_words(all, i as int),
        decreases parts@.len() - k,
    {
        let ghost before = text::views(words@);
        assert(ps[k as int] == parts@[k as int] as int);
        match word_of(nodes, parts[k]) {
            Some(w) => {
                words.push(w);
                assert(text::views(words@) =~= before.push(w@));
            },
            None => return None,
        }
        k += 1;
    }
    Some(words)
}

/// Puts a command among sorted ones.
fn place_command(nodes: &Vec<BashNode>, sorted: &mut Vec<usize>, i: usize)
    requires
        i < nodes@.len(),
        forall|k: int| 0 <= k < old(sorted)@.len() ==> (#[trigger] old(sorted)@[k]) < nodes@.len(),
    ensures
        places(final(sorted)@) == placed(node_views(nodes@), places(old(sorted)@), i as int),
        forall|k: int|
            0 <= k < final(sorted)@.len() ==> (#[trigger] final(sorted)@[k]) < nodes@.len(),
    decreases old(sorted)@.len(),
{
    let ghost before = places(sorted@);
    let ghost all = node_views(nodes@);
    match sorted.pop() {
        None => {
            sorted.push(i);
            assert(places(sorted@) =~= before.push(i as int));
        },
        Some(last) => {
            assert(old(sorted)@[old(sorted)@.len() - 1] == last);
            assert(places(sorted@) =~= before.drop_last());
            assert(before.last() == last as int);
            assert(all[last as int] == nodes@[last as int]@);
            assert(all[i as int] == nodes@[i as int]@);
            if nodes[last].start <= nodes[i].start {
                sorted.push(last);
                sorted.push(i);
                assert(places(sorted@) =~= before.push(i as int));
            } else {
                place_command(nodes, sorted, i);
                let ghost mid = places(sorted@);
                sorted.push(last);
                assert(places(sorted@) =~= mid.push(last as int));
            }
        },
    }
}

/// The commands of a syntax tree, if it holds nothing but plain commands.
pub fn try_parse_word_only_commands_sequence(syntax: &BashSyntax) -> (r: Option<Vec<Vec<String>>>)
    ensures
        commands_view(r) == plain_commands(syntax@),
{
    if syntax.has_error {
        return None;
    }
    let nodes = &syntax.nodes;
    let ghost all = node_views(nodes@);
    let mut sorted: Vec<usize> = Vec::new();
    assert(places(sorted@) =~= Seq::<NodeIndex>::empty());
    let mut i: usize = 0;
    while i < nodes.len()
        invariant
            i <= nodes@.len(),
            all == node_views(nodes@),
            forall|k: int| 0 <= k < i ==> is_plain(#[trigger] all[k]),
            forall|k: int| 0 <= k < sorted@.len() ==> (#[trigger] sorted@[k]) < nodes@.len(),
            places(sorted@) == commands_among(all, i as int),
            !syntax.has_error,
            nodes == syntax.nodes,
        decreases nodes@.len() - i,
    {
        assert(all[i as int] == nodes@[i as int]@);
        if !node_is_plain(&nodes[i]) {
            return None;
        }
        if nodes[i].named && text::same(&nodes[i].kind, "command") {
            place_command(nodes, &mut sorted, i);
        }
        i += 1;
    }
    let ghost cs = places(sorted@);
    let mut commands: Vec<Vec<String>> = Vec::new();
    assert(text::nested_views(commands@) =~= Seq::<Seq<Seq<char>>>::empty());
    let mut k: usize = 0;
    while k < sorted.len()
        invariant
            k <= sorted@.len(),
            all == node_views(nodes@),
            cs == places(sorted@),
            forall|m: int| 0 <= m < sorted@.len() ==> (#[trigger] sorted@[m]) < nodes@.len(),
            all_words_from(all, cs, k as int, text::nested_views(commands@)) == plain_commands(
                syntax@,
            ),
        decreases sorted@.len() - k,
    {
        let ghost before = text::nested_views(commands@);
        assert(cs[k as int] == sorted@[k as int] as int);
        match parse_plain_command_from_node(nodes, sorted[k]) {
            Some(words) => {
                commands.push(words);
                assert(text::nested_views(commands@) =~= before.push(text::views(words@)));
            },
            None => return None,
        }
        k += 1;
    }
    Some(commands)
}

/// The commands of a script in the grammar of POSIX shells.
pub fn parse_shell_script_into_commands(script: &str) -> (r: Option<Vec<Vec<String>>>)
    ensures
        commands_view(r) == script_commands(script@),
{
    match parse_bash(script) {
        Some(syntax) => try_parse_word_only_commands_sequence(&syntax),
        None => None,
    }
}

/// A tree from which commands are read has no errors and holds only the named
/// nodes and tokens of plain commands: no redirect, subshell or substitution.
pub proof fn law_accepted_trees_are_plain(syntax: SyntaxView)
    ensures
        plain_commands(syntax) is Some ==> !syntax.has_error && forall|i: int|
            0 <= i < syntax.nodes.len() ==> is_plain(#[trigger] syntax.nodes[i]),
{
}

/// A text with a backslash before each double quote and each backslash.
pub open spec fn escaped(s: Seq<char>) -> Seq<char>
    decreases s.len(),
{
    if s.len() == 0 {
        Seq::empty()
    } else if s.last() == '"' || s.last() == '\\' {
        escaped(s.drop_last()) + seq!['\\', s.last()]
    } else {
        escaped(s.drop_last()).push(s.last())
    }
}

/// A quoted string stands for what was put in quotes: between single quotes all as it is, and
/// between double quotes with each double quote and each backslash behind a backslash. A double
/// quotation that is not closed stands for nothing.
pub proof fn law_quotations_are_read_back(s: Seq<char>)
    ensures
        double_unquoted(seq!['"'] + escaped(s) + seq!['"']) == Some(s),
        double_unquoted(seq!['"'] + escaped(s)) is None,
        single_unquoted(seq!['\''] + s + seq!['\'']) == Some(s),
{
    let closed = seq!['"'] + escaped(s) + seq!['"'];
    assert(closed.subrange(1, 1 + escaped(s).len() as int) =~= escaped(s));
    escaped_is_read(s, closed);
    assert(closed[1 + escaped(s).len() as int] == '"');
    let open = seq!['"'] + escaped(s);
    assert(open.subrange(1, 1 + escaped(s).len() as int) =~= escaped(s));
    escaped_is_read(s, open);
    assert((seq!['\''] + s + seq!['\'']).subrange(1, s.len() as int + 1) =~= s);
}

/// An escaped text behind the opening quote is read as what it stands for.
proof fn escaped_is_read(s: Seq<char>, raw: Seq<char>)
    requires
        raw.len() >= 1 + escaped(s).len(),
        raw.subrange(1, 1 + escaped(s).len() as int) == escaped(s),
    ensures
        unquoted_from(raw, 1, Seq::empty()) == unquoted_from(raw, 1 + escaped(s).len() as int, s),
    decreases s.len(),
{
    if s.len() == 0 {
        assert(s =~= Seq::<char>::empty());
    } else {
        let front = s.drop_last();
        let n = escaped(front).len() as int;
        let all = escaped(s);
        assert(raw.subrange(1, 1 + n) =~= escaped(front)) by {
            assert forall|k: int| 0 <= k < n implies raw.subrange(1, 1 + n)[k] == escaped(
                front,
            )[k] by {
                assert(raw.subrange(1, 1 + all.len() as int)[k] == raw[1 + k]);
                assert(all[k] == escaped(front)[k]);
            }
        }
        escaped_is_read(front, raw);
        assert(raw.subrange(1, 1 + all.len() as int)[n] == raw[1 + n]);
        assert(front.push(s.last()) =~= s);
        if s.last() == '"' || s.last() == '\\' {
            assert(all[n] == '\\');
            assert(all[n + 1] == s.last());
            assert(raw.subrange(1, 1 + all.len() as int)[n + 1] == raw[1 + n + 1]);
        } else {
            assert(all[n] == s.last());
        }
    }
}

/// A script that redirects, substitutes, expands, assigns, groups or goes to the background is
/// not read as plain commands.
pub proof fn law_only_plain_scripts_are_read(syntax: SyntaxView, i: int)
    requires
        0 <= i < syntax.nodes.len(),
    ensures
        ({
            let kind = syntax.nodes[i].kind;
            let named = syntax.nodes[i].named;
            &&& named && (kind == "file_redirect"@ || kind == "heredoc_redirect"@ || kind
                == "herestring_redirect"@ || kind == "redirected_statement"@ || kind
                == "command_substitution"@ || kind == "process_substitution"@ || kind
                == "simple_expansion"@ || kind == "expansion"@ || kind == "arithmetic_expansion"@
                || kind == "variable_assignment"@ || kind == "subshell"@ || kind
                == "compound_statement"@ || kind == "if_statement"@ || kind == "for_statement"@
                || kind == "while_statement"@ || kind == "function_definition"@ || kind
                == "negated_command"@ || kind == "ansi_c_string"@) ==> plain_commands(
                syntax,
            ) is None
            &&& !named && (kind == "&"@ || kind == ">"@ || kind == "<"@ || kind == ">>"@ || kind
                == "("@ || kind == ")"@ || kind == "$("@ || kind == "`"@ || kind == "!"@)
                ==> plain_commands(syntax) is None
        }),
{
    let kind = syntax.nodes[i].kind;
    if kind == "file_redirect"@ || kind == "heredoc_redirect"@ || kind == "herestring_redirect"@ || kind == "redirected_statement"@ || kind == "command_substitution"@ || kind == "process_substitution"@ || kind == "simple_expansion"@ || kind == "expansion"@ || kind == "arithmetic_expansion"@ || kind == "variable_assignment"@ || kind == "subshell"@ || kind == "compound_statement"@ || kind == "if_statement"@ || kind == "for_statement"@ || kind == "while_statement"@ || kind == "function_definition"@ || kind == "negated_command"@ || kind == "ansi_c_string"@ {
        other_kinds_are_not_plain(kind);
    }
    if kind == "&"@ || kind == ">"@ || kind == "<"@ || kind == ">>"@ || kind == "("@ || kind == ")"@
        || kind == "$("@ || kind == "`"@ || kind == "!"@ {
        other_tokens_are_not_plain(kind);
    }
}

/// How long the plain kinds are, and how they begin.
proof fn plain_kinds_begin(kind: Seq<char>)
    requires
        is_plain_kind(kind),
    ensures
        kind.len() == 4 || kind.len() == 6 || kind.len() == 7 || kind.len() == 8 || kind.len() == 10
            || kind.len() == 12 || kind.len() == 13 || kind.len() == 14,
        kind.len() == 8 ==> kind[0] == 'p',
        kind.len() == 12 ==> kind[0] == 'c',
        kind.len() == 13 ==> kind[0] == 'c',
{
    reveal_strlit("program");
    reveal_strlit("list");
    reveal_strlit("pipeline");
    reveal_strlit("command");
    reveal_strlit("command_name");
    reveal_strlit("word");
    reveal_strlit("string");
    reveal_strlit("string_content");
    reveal_strlit("raw_string");
    reveal_strlit("number");
    reveal_strlit("concatenation");
}

/// Kinds that are not plain.
proof fn other_kinds_are_not_plain(kind: Seq<char>)
    requires
        kind == "file_redirect"@ || kind == "heredoc_redirect"@ || kind == "herestring_redirect"@ || kind == "redirected_statement"@ || kind == "command_substitution"@ || kind == "process_substitution"@ || kind == "simple_expansion"@ || kind == "expansion"@ || kind == "arithmetic_expansion"@ || kind == "variable_assignment"@ || kind == "subshell"@ || kind == "compound_statement"@ || kind == "if_statement"@ || kind == "for_statement"@ || kind == "while_statement"@ || kind == "function_definition"@ || kind == "negated_command"@ || kind == "ansi_c_string"@,
    ensures
        !is_plain_kind(kind),
{
    reveal_strlit("file_redirect");
    reveal_strlit("heredoc_redirect");
    reveal_strlit("herestring_redirect");
    reveal_strlit("redirected_statement");
    reveal_strlit("command_substitution");
    reveal_strlit("process_substitution");
    reveal_strlit("simple_expansion");
    reveal_strlit("expansion");
    reveal_strlit("arithmetic_expansion");
    reveal_strlit("variable_assignment");
    reveal_strlit("subshell");
    reveal_strlit("compound_statement");
    reveal_strlit("if_statement");
    reveal_strlit("for_statement");
    reveal_strlit("while_statement");
    reveal_strlit("function_definition");
    reveal_strlit("negated_command");
    reveal_strlit("ansi_c_string");
    if is_plain_kind(kind) {
        plain_kinds_begin(kind);
    }
}

/// How the plain tokens begin.
proof fn plain_tokens_begin(kind: Seq<char>)
    requires
        is_plain_token(kind),
        kind.len() > 0,
        !text::is_white(kind[0]),
    ensures
        kind[0] == '&' ==> kind.len() == 2 && kind[1] == '&',
        kind[0] == '&' || kind[0] == '|' || kind[0] == ';' || kind[0] == '"' || kind[0] == '\'',
{
    reveal_strlit("&&");
    reveal_strlit("||");
    reveal_strlit(";");
    reveal_strlit("|");
    reveal_strlit("\"");
    reveal_strlit("'");
    text::law_trimming_takes_white_space_only(kind);
    let a = choose|a: int| #[trigger] text::is_core(kind, text::trimmed(kind), a);
    assert(text::is_core(kind, text::trimmed(kind), a));
}

/// Tokens that are not plain.
proof fn other_tokens_are_not_plain(kind: Seq<char>)
    requires
        kind == "&"@ || kind == ">"@ || kind == "<"@ || kind == ">>"@ || kind == "("@ || kind == ")"@
            || kind == "$("@ || kind == "`"@ || kind == "!"@,
    ensures
        !is_plain_token(kind),
{
    reveal_strlit("&");
    reveal_strlit(">");
    reveal_strlit("<");
    reveal_strlit(">>");
    reveal_strlit("(");
    reveal_strlit(")");
    reveal_strlit("$(");
    reveal_strlit("`");
    reveal_strlit("!");
    text::law_ascii_white_space(kind[0]);
    if is_plain_token(kind) {
        plain_tokens_begin(kind);
    }
}

/// Whether some nodes are all commands of a tree, each once, in the order in which they begin.
pub open spec fn are_commands_in_order(nodes: Seq<NodeView>, at: Seq<int>) -> bool {
    &&& forall|k: int|
        0 <= k < at.len() ==> 0 <= #[trigger] at[k] < nodes.len() && nodes[at[k]].named
            && nodes[at[k]].kind == "command"@
    &&& forall|j: int, k: int|
        0 <= j < k < at.len() ==> nodes[#[trigger] at[j]].start <= nodes[#[trigger] at[k]].start
            && at[j] != at[k]
    &&& forall|i: int|
        0 <= i < nodes.len() && nodes[i].named && (#[trigger] nodes[i]).kind == "command"@
            ==> at.contains(i)
}

/// Whether some words are those of a command, one for each of its parts, in order.
pub open spec fn are_words_of(nodes: Seq<NodeView>, i: int, words: Seq<Seq<char>>) -> bool {
    let parts = named_children(nodes, i);
    &&& words.len() == parts.len()
    &&& forall|j: int|
        0 <= j < words.len() ==> word_at(nodes, parts[j]) == Some(#[trigger] words[j])
}

/// The commands that are read from a tree are all the commands in it, in the order of the
/// script, each with all its words in order.
pub proof fn law_commands_are_read_in_order(syntax: SyntaxView)
    ensures
        plain_commands(syntax) matches Some(cs) ==> exists|at: Seq<int>| #[trigger]
            are_commands_in_order(syntax.nodes, at) && at.len() == cs.len() && forall|k: int|
                0 <= k < cs.len() ==> are_words_of(syntax.nodes, at[k], #[trigger] cs[k]),
{
    if let Some(cs) = plain_commands(syntax) {
        let nodes = syntax.nodes;
        let n = nodes.len() as int;
        let at = commands_among(nodes, n);
        commands_are_in_order(nodes, n);
        assert(nodes.take(n) =~= nodes);
        all_words_are_read(nodes, at, 0, Seq::empty());
        assert forall|k: int| 0 <= k < cs.len() implies are_words_of(
            nodes,
            at[k],
            #[trigger] cs[k],
        ) by {
            let parts = named_children(nodes, at[k]);
            words_are_read(nodes, parts, 0, Seq::empty());
        }
        assert(are_commands_in_order(nodes, at));
    }
}

/// The commands among the first nodes.
proof fn commands_are_in_order(nodes: Seq<NodeView>, n: int)
    requires
        0 <= n <= nodes.len(),
    ensures
        are_commands_in_order(nodes.take(n), commands_among(nodes, n)),
    decreases n,
{
    let at = commands_among(nodes, n);
    let now = nodes.take(n);
    if n > 0 {
        commands_are_in_order(nodes, n - 1);
        let before = commands_among(nodes, n - 1);
        let old_nodes = nodes.take(n - 1);
        assert forall|k: int| 0 <= k < before.len() implies 0 <= #[trigger] before[k] < n - 1
            && now[before[k]] == old_nodes[before[k]] by {}
        assert forall|j: int, k: int| 0 <= j < k < before.len() implies nodes[#[trigger] before[j]].start
            <= nodes[#[trigger] before[k]].start && before[j] != before[k] by {
            assert(old_nodes[before[j]] == nodes[before[j]]);
            assert(old_nodes[before[k]] == nodes[before[k]]);
        }
        if nodes[n - 1].named && nodes[n - 1].kind == "command"@ {
            command_is_placed(nodes, before, n - 1);
        }
        assert forall|k: int| 0 <= k < at.len() implies 0 <= #[trigger] at[k] < n && now[at[k]].named
            && now[at[k]].kind == "command"@ by {
            assert(at.contains(at[k]));
            if at[k] != n - 1 {
                assert(before.contains(at[k]));
                let m = before.index_of(at[k]);
                assert(before[m] == at[k]);
                assert(old_nodes[before[m]] == nodes[at[k]]);
            }
        }
        assert forall|j: int, k: int| 0 <= j < k < at.len() implies now[#[trigger] at[j]].start
            <= now[#[trigger] at[k]].start && at[j] != at[k] by {
            assert(now[at[j]] == nodes[at[j]]);
            assert(now[at[k]] == nodes[at[k]]);
        }
        assert forall|i: int|
            0 <= i < now.len() && now[i].named && (#[trigger] now[i]).kind == "command"@ implies at.contains(
            i,
        ) by {
            if i < n - 1 {
                assert(old_nodes[i] == now[i]);
                assert(before.contains(i));
            }
        }
    }
}

/// A command that is put among others.
proof fn command_is_placed(nodes: Seq<NodeView>, sorted: Seq<int>, i: int)
    requires
        forall|j: int, k: int|
            0 <= j < k < sorted.len() ==> nodes[#[trigger] sorted[j]].start
                <= nodes[#[trigger] sorted[k]].start && sorted[j] != sorted[k],
        forall|k: int| 0 <= k < sorted.len() ==> #[trigger] sorted[k] != i,
    ensures
        ({
            let all = placed(nodes, sorted, i);
            &&& all.len() == sorted.len() + 1
            &&& forall|x: int| #[trigger] all.contains(x) <==> x == i || sorted.contains(x)
            &&& forall|j: int, k: int|
                0 <= j < k < all.len() ==> nodes[#[trigger] all[j]].start
                    <= nodes[#[trigger] all[k]].start && all[j] != all[k]
        }),
    decreases sorted.len(),
{
    let all = placed(nodes, sorted, i);
    if sorted.len() == 0 || nodes[sorted.last()].start <= nodes[i].start {
        assert forall|x: int| #[trigger] all.contains(x) <==> x == i || sorted.contains(x) by {
            if sorted.contains(x) {
                let m = sorted.index_of(x);
                assert(all[m] == x);
            }
            if x == i {
                assert(all[sorted.len() as int] == i);
            }
        }
        assert forall|j: int, k: int| 0 <= j < k < all.len() implies nodes[#[trigger] all[j]].start
            <= nodes[#[trigger] all[k]].start && all[j] != all[k] by {
            assert(all[j] == sorted[j]);
            if k < sorted.len() {
                assert(all[k] == sorted[k]);
            } else if j < sorted.len() - 1 {
                assert(nodes[sorted[j]].start <= nodes[sorted[sorted.len() - 1]].start);
            }
        }
    } else {
        let front = sorted.drop_last();
        let last = sorted.last();
        assert forall|j: int, k: int| 0 <= j < k < front.len() implies nodes[#[trigger] front[j]].start
            <= nodes[#[trigger] front[k]].start && front[j] != front[k] by {
            assert(front[j] == sorted[j] && front[k] == sorted[k]);
        }
        assert forall|k: int| 0 <= k < front.len() implies #[trigger] front[k] != i by {
            assert(front[k] == sorted[k]);
        }
        command_is_placed(nodes, front, i);
        let part = placed(nodes, front, i);
        assert(all == part.push(last));
        assert forall|x: int| #[trigger] all.contains(x) <==> x == i || sorted.contains(x) by {
            if part.contains(x) {
                let m = part.index_of(x);
                assert(all[m] == x);
                if x != i {
                    let m2 = front.index_of(x);
                    assert(sorted[m2] == x);
                }
            }
            if x == last {
                assert(all[part.len() as int] == x);
                assert(sorted[sorted.len() - 1] == x);
            }
            if sorted.contains(x) && x != last {
                let m = sorted.index_of(x);
                assert(front[m] == x);
                assert(front.contains(x));
                assert(part.contains(x));
            }
            if x == i {
                assert(part.contains(x));
            }
            if all.contains(x) && x != last {
                let m = all.index_of(x);
                assert(part[m] == x);
                assert(part.contains(x));
            }
        }
        assert forall|j: int, k: int| 0 <= j < k < all.len() implies nodes[#[trigger] all[j]].start
            <= nodes[#[trigger] all[k]].start && all[j] != all[k] by {
            assert(all[j] == part[j]);
            assert(part.contains(part[j]));
            if k < part.len() {
                assert(all[k] == part[k]);
            } else if part[j] != i {
                let m = front.index_of(part[j]);
                assert(sorted[m] == part[j]);
                assert(nodes[sorted[m]].start <= nodes[sorted[sorted.len() - 1]].start);
            }
        }
    }
}

/// The words of the parts from `k` on.
proof fn words_are_read(nodes: Seq<NodeView>, parts: Seq<int>, k: int, done: Seq<Seq<char>>)
    requires
        0 <= k <= parts.len(),
    ensures
        words_from(nodes, parts, k, done) matches Some(ws) ==> {
            &&& ws.len() == done.len() + (parts.len() - k)
            &&& ws.take(done.len() as int) == done
            &&& forall|j: int|
                done.len() <= j < ws.len() ==> word_at(nodes, parts[k + j - done.len()]) == Some(
                    #[trigger] ws[j],
                )
        },
    decreases parts.len() - k,
{
    if k < parts.len() {
        if let Some(w) = word_at(nodes, parts[k]) {
            words_are_read(nodes, parts, k + 1, done.push(w));
            if let Some(ws) = words_from(nodes, parts, k, done) {
                let n = done.len() as int;
                assert(ws.take(n + 1)[n] == ws[n]);
                assert(ws.take(n) =~= ws.take(n + 1).take(n));
                assert(done.push(w).take(n) =~= done);
            }
        }
    } else {
        assert(done.take(done.len() as int) =~= done);
    }
}

/// The words of the commands from `k` on.
proof fn all_words_are_read(
    nodes: Seq<NodeView>,
    commands: Seq<int>,
    k: int,
    done: Seq<Seq<Seq<char>>>,
)
    requires
        0 <= k <= commands.len(),
    ensures
        all_words_from(nodes, commands, k, done) matches Some(cs) ==> {
            &&& cs.len() == done.len() + (commands.len() - k)
            &&& cs.take(done.len() as int) == done
            &&& forall|j: int|
                done.len() <= j < cs.len() ==> command_words(nodes, commands[k + j - done.len()])
                    == Some(#[trigger] cs[j])
        },
    decreases commands.len() - k,
{
    if k < commands.len() {
        if let Some(w) = command_words(nodes, commands[k]) {
            all_words_are_read(nodes, commands, k + 1, done.push(w));
            if let Some(cs) = all_words_from(nodes, commands, k, done) {
                let n = done.len() as int;
                assert(cs.take(n + 1)[n] == cs[n]);
                assert(cs.take(n) =~= cs.take(n + 1).take(n));
                assert(done.push(w).take(n) =~= done);
            }
        }
    } else {
        assert(done.take(done.len() as int) =~= done);
    }
}

} // verus!
