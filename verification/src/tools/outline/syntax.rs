//! Outlines made from syntax trees.
use vstd::prelude::*;

use crate::bytes::{byte_slice, get_range};
use crate::numerals::repeated;
use crate::text::{
    chars_of, contains_item, find, find_in, join, joined, lemma_find_from, occurs_at, split_words,
    string_of, texts, words,
};
use crate::tools::outline::lines::{entry, entry_of, heading, heading_of};

verus! {

/// The syntax trees of `tree_sitter`.
#[verifier::external_type_specification]
#[verifier::external_body]
pub struct ExTree(tree_sitter::Tree);

/// The nodes of `tree_sitter`.
#[verifier::external_type_specification]
#[verifier::external_body]
pub struct ExNode<'tree>(tree_sitter::Node<'tree>);

/// The grammars at hand.
#[derive(Debug, Clone, Copy, PartialEq, Eq, Structural)]
pub enum Grammar {
    Python,
    JavaScript,
    TypeScript,
    Tsx,
    Go,
    Java,
    C,
    Cpp,
    Swift,
    Lua,
    Ruby,
    Bash,
    Elixir,
    Json,
    Yaml,
    Html,
    Css,
}

/// A node of a syntax tree.
#[derive(Debug)]
pub struct SyntaxNode {
    pub kind: String,
    pub start_row: u32,
    pub end_row: u32,
    pub start_byte: usize,
    pub end_byte: usize,
    /// The bytes of the child that holds the node's name.
    pub named: Option<(usize, usize)>,
    pub children: Vec<SyntaxNode>,
}

/// What a node holds.
pub struct NodeView {
    pub kind: Seq<char>,
    pub start_row: int,
    pub end_row: int,
    pub start_byte: int,
    pub end_byte: int,
    pub named: Option<(int, int)>,
    pub children: Seq<NodeView>,
}

pub open spec fn node_view(n: SyntaxNode) -> NodeView
    decreases n,
{
    NodeView {
        kind: n.kind@,
        start_row: n.start_row as int,
        end_row: n.end_row as int,
        start_byte: n.start_byte as int,
        end_byte: n.end_byte as int,
        named: match n.named {
            Some((a, b)) => Some((a as int, b as int)),
            None => None,
        },
        children: Seq::new(
            n.children@.len(),
            |i: int|
                if 0 <= i < n.children@.len() {
                    node_view(n.children@[i])
                } else {
                    arbitrary()
                },
        ),
    }
}

impl View for SyntaxNode {
    type V = NodeView;

    open spec fn view(&self) -> NodeView {
        node_view(*self)
    }
}

/// What a tree of `tree_sitter` holds; `field` is the field under which a
/// node's name is looked for.
pub uninterp spec fn tree_contents(t: tree_sitter::Tree, field: Seq<char>) -> NodeView;

/// What a node of `tree_sitter` holds, its children included.
pub uninterp spec fn node_contents(n: tree_sitter::Node<'_>, field: Seq<char>) -> NodeView;

/// The tree that `tree_sitter` makes of a source; `None` where it makes none.
pub uninterp spec fn syntax_of(grammar: Grammar, source: Seq<char>, field: Seq<char>) -> Option<NodeView>;

/// What `tree_sitter` says is wrong with a grammar, if anything.
pub uninterp spec fn grammar_problem(grammar: Grammar) -> Option<Seq<char>>;

/// Whether `tree_sitter` can load a grammar.
pub open spec fn grammar_loads(grammar: Grammar) -> bool {
    grammar_problem(grammar) is None
}

/// `Parser::set_language` and `Parser::parse`: the tree depends on the grammar
/// and the source alone. Where the grammar cannot be loaded, the error is the
/// text that `LanguageError`'s `Display` writes, which depends on the grammar
/// alone.
#[verifier::external_body]
fn parse_source(grammar: Grammar, source: &str) -> (r: Result<Option<tree_sitter::Tree>, String>)
    ensures
        match r {
            Ok(Some(t)) => grammar_loads(grammar) && forall|f: Seq<char>|
                #[trigger] syntax_of(grammar, source@, f) == Some(tree_contents(t, f)),
            Ok(None) => grammar_loads(grammar) && forall|f: Seq<char>|
                #[trigger] syntax_of(grammar, source@, f) is None,
            Err(e) => grammar_problem(grammar) == Some(e@),
        },
{
    let language = match grammar {
        Grammar::Python => tree_sitter_python::LANGUAGE, Grammar::JavaScript => tree_sitter_javascript::LANGUAGE,
        Grammar::TypeScript => tree_sitter_typescript::LANGUAGE_TYPESCRIPT, Grammar::Tsx => tree_sitter_typescript::LANGUAGE_TSX,
        Grammar::Go => tree_sitter_go::LANGUAGE, Grammar::Java => tree_sitter_java::LANGUAGE,
        Grammar::C => tree_sitter_c::LANGUAGE, Grammar::Cpp => tree_sitter_cpp::LANGUAGE,
        Grammar::Swift => tree_sitter_swift::LANGUAGE, Grammar::Lua => tree_sitter_lua::LANGUAGE,
        Grammar::Ruby => tree_sitter_ruby::LANGUAGE, Grammar::Bash => tree_sitter_bash::LANGUAGE,
        Grammar::Elixir => tree_sitter_elixir::LANGUAGE, Grammar::Json => tree_sitter_json::LANGUAGE,
        Grammar::Yaml => tree_sitter_yaml::LANGUAGE, Grammar::Html => tree_sitter_html::LANGUAGE,
        Grammar::Css => tree_sitter_css::LANGUAGE,
    };
    let mut parser = tree_sitter::Parser::new();
    parser.set_language(&language.into()).map_err(|e| e.to_string())?;
    Ok(parser.parse(source.as_bytes(), None))
}

/// `Tree::root_node`: the node that holds the whole tree.
#[verifier::external_body]
fn root_of(tree: &tree_sitter::Tree) -> (r: tree_sitter::Node<'_>)
    ensures
        forall|f: Seq<char>| #[trigger] node_contents(r, f) == tree_contents(*tree, f),
{
    tree.root_node()
}

/// A node of `tree_sitter` with its children, one for one: its kind, its rows
/// and bytes, and the bytes of its child under `field`.
#[verifier::external_body]
fn copy_node(node: tree_sitter::Node<'_>, field: &str) -> (r: SyntaxNode)
    ensures
        r@ == node_contents(node, field@),
{
    SyntaxNode {
        kind: node.kind().to_string(),
        start_row: node.start_position().row as u32,
        end_row: node.end_position().row as u32,
        start_byte: node.start_byte(),
        end_byte: node.end_byte(),
        named: node.child_by_field_name(field).map(|n| (n.start_byte(), n.end_byte())),
        children: node.children(&mut node.walk()).map(|n| copy_node(n, field)).collect(),
    }
}

/// The syntax tree of a source: an error where the grammar cannot be loaded,
/// `None` where there is no tree.
fn syntax_tree(grammar: Grammar, source: &str, field: &str) -> (r: Result<Option<SyntaxNode>, String>)
    ensures
        match r {
            Ok(Some(n)) => grammar_loads(grammar) && syntax_of(grammar, source@, field@) == Some(n@),
            Ok(None) => grammar_loads(grammar) && syntax_of(grammar, source@, field@) is None,
            Err(e) => grammar_problem(grammar) == Some(e@),
        },
{
    match parse_source(grammar, source) {
        Ok(Some(tree)) => Ok(Some(copy_node(root_of(&tree), field))),
        Ok(None) => Ok(None),
        Err(e) => Err(e),
    }
}

/// What an outline shows of a language.
pub struct LangConfig {
    pub grammar: Grammar,
    /// The kinds of nodes that are shown.
    pub def_kinds: Vec<String>,
    /// The field that holds a node's name; empty where none does.
    pub name_field: String,
    /// The kinds of nodes in which a shown node's members stand.
    pub container_kinds: Vec<String>,
}

/// A shown node's name: the text of its name child, else the beginning of its
/// own text with its whitespace normalised.
pub open spec fn name_of(n: NodeView, source: Seq<char>, field: Seq<char>) -> Seq<char> {
    match n.named {
        Some((a, b)) if field.len() > 0 => match byte_slice(source, a, b) {
            Some(t) => t,
            None => "<?>"@,
        },
        _ => joined(
            words(
                head_of(
                    match byte_slice(source, n.start_byte, n.end_byte) {
                        Some(t) => t,
                        None => Seq::empty(),
                    },
                ),
            ),
            " "@,
        ),
    }
}

/// The beginning of a text: up to the first brace, or the first line feed
/// where there is no brace, and at most 120 characters.
pub open spec fn head_of(text: Seq<char>) -> Seq<char> {
    let end = match find(text, "{"@) {
        Some(i) => i,
        None => match find(text, "\n"@) {
            Some(i) => i,
            None => text.len() as int,
        },
    };
    text.take(
        if end < 120 {
            end
        } else if text.len() < 120 {
            text.len() as int
        } else {
            120
        },
    )
}

/// The entry for a shown node.
pub open spec fn node_entry(n: NodeView, source: Seq<char>, field: Seq<char>, depth: nat) -> Seq<char> {
    entry_of(
        (n.start_row + 1) as nat,
        (n.end_row + 1) as nat,
        repeated("  "@, depth) + n.kind + ": "@ + name_of(n, source, field),
    )
}

/// What an outline shows, as seen by contracts.
pub struct ShownKinds {
    pub defs: Seq<Seq<char>>,
    pub field: Seq<char>,
    pub containers: Seq<Seq<char>>,
}

impl LangConfig {
    pub open spec fn shown(&self) -> ShownKinds {
        ShownKinds {
            defs: texts(self.def_kinds@),
            field: self.name_field@,
            containers: texts(self.container_kinds@),
        }
    }
}

/// The entries for a node and what is shown in it. A shown node is followed by
/// the shown nodes in its containers, one level deeper; outside shown nodes
/// the whole tree is searched.
pub open spec fn node_entries(n: NodeView, source: Seq<char>, k: ShownKinds, depth: nat) -> Seq<char>
    decreases n, 2nat, 0nat,
{
    if k.defs.contains(n.kind) {
        node_entry(n, source, k.field, depth) + container_entries(
            n,
            source,
            k,
            depth,
            n.children.len(),
        )
    } else if depth == 0 {
        child_entries(n, source, k, n.children.len())
    } else {
        Seq::empty()
    }
}

/// The entries for the first `i` children of a node.
pub open spec fn child_entries(n: NodeView, source: Seq<char>, k: ShownKinds, i: nat) -> Seq<char>
    decreases n, 1nat, i,
{
    if i == 0 || i > n.children.len() {
        Seq::empty()
    } else {
        child_entries(n, source, k, (i - 1) as nat) + node_entries(n.children[i - 1], source, k, 0)
    }
}

/// The entries for what is shown in the containers among the first `i`
/// children of a shown node.
pub open spec fn container_entries(
    n: NodeView,
    source: Seq<char>,
    k: ShownKinds,
    depth: nat,
    i: nat,
) -> Seq<char>
    decreases n, 1nat, i,
{
    if i == 0 || i > n.children.len() {
        Seq::empty()
    } else {
        let child = n.children[i - 1];
        container_entries(n, source, k, depth, (i - 1) as nat) + if k.containers.contains(
            child.kind,
        ) {
            member_entries(child, source, k, depth, child.children.len())
        } else {
            Seq::empty()
        }
    }
}

/// The entries for the shown nodes among the first `j` children of a
/// container.
pub open spec fn member_entries(
    c: NodeView,
    source: Seq<char>,
    k: ShownKinds,
    depth: nat,
    j: nat,
) -> Seq<char>
    decreases c, 0nat, j,
{
    if j == 0 || j > c.children.len() {
        Seq::empty()
    } else {
        let inner = c.children[j - 1];
        member_entries(c, source, k, depth, (j - 1) as nat) + if k.defs.contains(inner.kind) {
            node_entries(inner, source, k, depth + 1)
        } else {
            Seq::empty()
        }
    }
}

/// The beginning of a text, as shown for a node without a name.
fn head(text: &str) -> (r: String)
    ensures
        r@ == head_of(text@),
{
    let v: Vec<char> = chars_of(text);
    let n: usize = v.len();
    let brace: Vec<char> = chars_of("{");
    let feed: Vec<char> = chars_of("\n");
    proof {
        lemma_find_from(text@, "{"@, 0);
        lemma_find_from(text@, "\n"@, 0);
    }
    let end: usize = match find_in(&v, &brace, 0) {
        Some(i) => i,
        None => match find_in(&v, &feed, 0) {
            Some(i) => i,
            None => n,
        },
    };
    let cut: usize = if end < 120 {
        end
    } else if n < 120 {
        n
    } else {
        120
    };
    assert(v@.subrange(0, cut as int) =~= text@.take(cut as int));
    string_of(&v, 0, cut)
}

/// A display name for a node: the text of its name child, else the beginning
/// of its own text with its whitespace normalised.
pub fn extract_name(node: &SyntaxNode, source: &str, field: &str) -> (r: String)
    ensures
        r@ == name_of(node@, source@, field@),
{
    if field.unicode_len() > 0 {
        match node.named {
            Some((a, b)) => {
                return match get_range(source, a, b) {
                    Some(t) => t,
                    None => "<?>".to_owned(),
                };
            },
            None => {},
        }
    }
    let text: String = match get_range(source, node.start_byte, node.end_byte) {
        Some(t) => t,
        None => String::new(),
    };
    let start: String = head(text.as_str());
    let parts: Vec<String> = split_words(start.as_str());
    join(&parts, " ")
}

/// Adds the entries for a node and what is shown in it. `indent` is that of
/// the depth; `top` says whether the depth is zero.
fn collect_nodes(
    node: &SyntaxNode,
    source: &str,
    cfg: &LangConfig,
    indent: &str,
    top: bool,
    depth: Ghost<nat>,
    out: &mut String,
)
    requires
        indent@ == repeated("  "@, depth@),
        top == (depth@ == 0),
    ensures
        final(out)@ == old(out)@ + node_entries(node@, source@, cfg.shown(), depth@),
    decreases node, 2nat,
{
    let ghost k = cfg.shown();
    let ghost n = node@;
    assert(n.children.len() == node.children@.len());
    if contains_item(&cfg.def_kinds, node.kind.as_str()) {
        let name: String = extract_name(node, source, cfg.name_field.as_str());
        let mut text: String = indent.to_owned();
        text.append(node.kind.as_str());
        text.append(": ");
        text.append(name.as_str());
        let e: String = entry(node.start_row as u64 + 1, node.end_row as u64 + 1, text.as_str());
        out.append(e.as_str());
        let ghost start = out@;
        let mut deeper: String = indent.to_owned();
        deeper.append("  ");
        let mut i: usize = 0;
        assert(start + container_entries(n, source@, k, depth@, 0) =~= start);
        while i < node.children.len()
            invariant
                i <= node.children@.len(),
                n == node@,
                n.children.len() == node.children@.len(),
                k == cfg.shown(),
                deeper@ == repeated("  "@, depth@ + 1),
                out@ == start + container_entries(n, source@, k, depth@, i as nat),
            decreases node.children@.len() - i,
        {
            assert(n.children[i as int] == node.children@[i as int]@);
            assert(decreases_to!(node => node.children@[i as int]));
            let ghost before = container_entries(n, source@, k, depth@, i as nat);
            if contains_item(&cfg.container_kinds, node.children[i].kind.as_str()) {
                collect_members(
                    &node.children[i],
                    source,
                    cfg,
                    deeper.as_str(),
                    Ghost(depth@ + 1),
                    out,
                );
                assert(out@ =~= start + (before + member_entries(
                    n.children[i as int],
                    source@,
                    k,
                    depth@,
                    n.children[i as int].children.len(),
                )));
            } else {
                assert(before + Seq::<char>::empty() =~= before);
            }
            i = i + 1;
        }
        assert(out@ =~= old(out)@ + node_entries(n, source@, k, depth@));
    } else if top {
        let ghost start = out@;
        let mut i: usize = 0;
        assert(start + child_entries(n, source@, k, 0) =~= start);
        while i < node.children.len()
            invariant
                i <= node.children@.len(),
                n == node@,
                n.children.len() == node.children@.len(),
                k == cfg.shown(),
                indent@ == repeated("  "@, depth@),
                depth@ == 0,
                out@ == start + child_entries(n, source@, k, i as nat),
            decreases node.children@.len() - i,
        {
            assert(n.children[i as int] == node.children@[i as int]@);
            assert(decreases_to!(node => node.children@[i as int]));
            let ghost before = child_entries(n, source@, k, i as nat);
            collect_nodes(&node.children[i], source, cfg, indent, true, depth, out);
            assert(out@ =~= start + (before + node_entries(n.children[i as int], source@, k, 0)));
            i = i + 1;
        }
    } else {
        assert(out@ + Seq::<char>::empty() =~= out@);
    }
}

/// Adds the entries for the shown nodes in a container.
fn collect_members(
    container: &SyntaxNode,
    source: &str,
    cfg: &LangConfig,
    indent: &str,
    depth: Ghost<nat>,
    out: &mut String,
)
    requires
        indent@ == repeated("  "@, depth@),
        depth@ > 0,
    ensures
        final(out)@ == old(out)@ + member_entries(
            container@,
            source@,
            cfg.shown(),
            (depth@ - 1) as nat,
            container@.children.len(),
        ),
    decreases container, 1nat,
{
    let ghost k = cfg.shown();
    let ghost c = container@;
    let ghost d = (depth@ - 1) as nat;
    assert(c.children.len() == container.children@.len());
    let ghost start = out@;
    let mut j: usize = 0;
    assert(start + member_entries(c, source@, k, d, 0) =~= start);
    while j < container.children.len()
        invariant
            j <= container.children@.len(),
            c == container@,
            c.children.len() == container.children@.len(),
            k == cfg.shown(),
            indent@ == repeated("  "@, depth@),
            depth@ == d + 1,
            out@ == start + member_entries(c, source@, k, d, j as nat),
        decreases container.children@.len() - j,
    {
        assert(c.children[j as int] == container.children@[j as int]@);
        assert(decreases_to!(container => container.children@[j as int]));
        let ghost before = member_entries(c, source@, k, d, j as nat);
        if contains_item(&cfg.def_kinds, container.children[j].kind.as_str()) {
            collect_nodes(&container.children[j], source, cfg, indent, false, depth, out);
            assert(out@ =~= start + (before + node_entries(
                c.children[j as int],
                source@,
                k,
                depth@,
            )));
        } else {
            assert(before + Seq::<char>::empty() =~= before);
        }
        j = j + 1;
    }
}

/// The outline of a source from its syntax tree.
pub fn tree_outline(label: &str, path: &str, source: &str, cfg: &LangConfig, root: &SyntaxNode) -> (r: String)
    ensures
        r@ == heading_of(label@, path@) + node_entries(root@, source@, cfg.shown(), 0),
{
    let mut out: String = heading(label, path);
    proof {
        reveal_strlit("");
        assert(""@ =~= repeated("  "@, 0));
    }
    collect_nodes(root, source, cfg, "", true, Ghost(0nat), &mut out);
    out
}

/// The outline of a source file in a language of `tree_sitter`.
pub fn outline_ts(label: &str, path: &str, source: &str, cfg: &LangConfig) -> (r: Result<String, String>)
    ensures
        match r {
            Ok(t) => grammar_loads(cfg.grammar) && (syntax_of(
                cfg.grammar,
                source@,
                cfg.name_field@,
            ) matches Some(root) && t@ == heading_of(label@, path@) + node_entries(
                root,
                source@,
                cfg.shown(),
                0,
            )),
            Err(e) => match grammar_problem(cfg.grammar) {
                None => syntax_of(cfg.grammar, source@, cfg.name_field@) is None && e@
                    == "tree-sitter parse returned None for "@ + path@,
                Some(why) => e@ == "tree-sitter language load error: "@ + why,
            },
        },
{
    match syntax_tree(cfg.grammar, source, cfg.name_field.as_str()) {
        Ok(Some(root)) => Ok(tree_outline(label, path, source, cfg, &root)),
        Ok(None) => {
            let mut e: String = "tree-sitter parse returned None for ".to_owned();
            e.append(path);
            Err(e)
        },
        Err(why) => {
            let mut e: String = "tree-sitter language load error: ".to_owned();
            e.append(why.as_str());
            Err(e)
        },
    }
}

/// What a node is called: what its name field spans, or a mark where that
/// cannot be cut out; without such a field, the beginning of its text.
pub proof fn law_names_of_nodes(
    node: &SyntaxNode,
    source: &str,
    field: &str,
    r: String,
    name: Option<String>,
    from: usize,
    to: usize,
)
    requires
        call_ensures(extract_name, (node, source, field), r),
        call_ensures(get_range, (source, from, to), name),
        node.named matches Some((a, b)) ==> from == a && to == b,
    ensures
        node.named is Some && field@.len() > 0 ==> r@ == match name {
            Some(t) => t@,
            None => "<?>"@,
        },
{
}

/// The beginning of a node's text: up to its first brace, or else its first line
/// break, at most 120 characters, with single spaces between its words.
pub proof fn law_beginnings_of_nodes(
    node: &SyntaxNode,
    source: &str,
    field: &str,
    r: String,
    text: Option<String>,
    lead: &str,
    parts: Vec<String>,
    space: &str,
    shown: String,
    tail: Seq<char>,
)
    requires
        call_ensures(extract_name, (node, source, field), r),
        node.named is None || field@.len() == 0,
        call_ensures(get_range, (source, node.start_byte, node.end_byte), text),
        text is Some,
        lead@.len() < 120,
        forall|i: int| 0 <= i < lead@.len() ==> #[trigger] lead@[i] != '{' && lead@[i] != '\n',
        call_ensures(split_words, (lead,), parts),
        call_ensures(join, (&parts, space), shown),
        space@ == " "@,
    ensures
        text->Some_0@ == lead@ + seq!['{'] + tail ==> r@ == shown@,
        text->Some_0@ == lead@ + seq!['\n'] + tail && (forall|i: int|
            0 <= i < tail.len() ==> #[trigger] tail[i] != '{') ==> r@ == shown@,
        text->Some_0@ == lead@ ==> r@ == shown@,
{
    let t = text->Some_0@;
    reveal_strlit("{");
    reveal_strlit("\n");
    lemma_find_from(t, "{"@, 0);
    lemma_find_from(t, "\n"@, 0);
    let k = lead@.len() as int;
    if t == lead@ + seq!['{'] + tail {
        assert(t.subrange(k, k + 1) =~= "{"@);
        assert(occurs_at(t, "{"@, k));
        let i = find(t, "{"@)->Some_0;
        if i < k {
            assert(t.subrange(i, i + 1)[0] == "{"@[0]);
            assert(lead@[i] == '{');
        }
        assert(head_of(t) =~= lead@);
    }
    if t == lead@ + seq!['\n'] + tail && (forall|i: int|
        0 <= i < tail.len() ==> #[trigger] tail[i] != '{') {
        if find(t, "{"@) is Some {
            let i = find(t, "{"@)->Some_0;
            assert(t.subrange(i, i + 1)[0] == "{"@[0]);
            if i < k {
                assert(lead@[i] == '{');
            } else if i > k {
                assert(tail[i - k - 1] == '{');
            }
        }
        assert(t.subrange(k, k + 1) =~= "\n"@);
        assert(occurs_at(t, "\n"@, k));
        let i = find(t, "\n"@)->Some_0;
        if i < k {
            assert(t.subrange(i, i + 1)[0] == "\n"@[0]);
            assert(lead@[i] == '\n');
        }
        assert(head_of(t) =~= lead@);
    }
    if t == lead@ {
        if find(t, "{"@) is Some {
            let i = find(t, "{"@)->Some_0;
            assert(t.subrange(i, i + 1)[0] == "{"@[0]);
            assert(lead@[i] == '{');
        }
        if find(t, "\n"@) is Some {
            let i = find(t, "\n"@)->Some_0;
            assert(t.subrange(i, i + 1)[0] == "\n"@[0]);
            assert(lead@[i] == '\n');
        }
        assert(head_of(t) =~= lead@);
    }
}

/// A definition without members is one entry: its lines, counted from one, its
/// kind and its name.
pub proof fn law_definitions_are_shown(
    label: &str,
    path: &str,
    source: &str,
    cfg: &LangConfig,
    root: &SyntaxNode,
    r: String,
    h: String,
    field: &str,
    name: String,
    text: &str,
    start: u64,
    end: u64,
    shown: String,
)
    requires
        call_ensures(tree_outline, (label, path, source, cfg, root), r),
        call_ensures(heading, (label, path), h),
        field@ == cfg.name_field@,
        call_ensures(extract_name, (root, source, field), name),
        text@ == root.kind@ + ": "@ + name@,
        start == root.start_row + 1,
        end == root.end_row + 1,
        call_ensures(entry, (start, end, text), shown),
        root.children@.len() == 0,
    ensures
        r@ == if texts(cfg.def_kinds@).contains(root.kind@) {
            h@ + shown@
        } else {
            h@
        },
{
    let n = root@;
    assert(n.children.len() == 0);
    let k = cfg.shown();
    let e = Seq::<char>::empty();
    assert(repeated("  "@, 0) =~= e);
    assert(e + n.kind + ": "@ + name@ =~= n.kind + ": "@ + name@);
    assert(container_entries(n, source@, k, 0, 0) =~= e);
    assert(child_entries(n, source@, k, 0) =~= e);
    assert(node_entry(n, source@, k.field, 0) == shown@);
    assert(shown@ + e =~= shown@);
    assert(h@ + e =~= h@);
}

/// The outline of a node that is no definition is that of its children, one
/// after the other.
pub proof fn law_children_are_shown_in_order(
    label: &str,
    path: &str,
    source: &str,
    cfg: &LangConfig,
    root: &SyntaxNode,
    more: &SyntaxNode,
    child: &SyntaxNode,
    r: String,
    s: String,
    c: String,
    h: String,
    own: Seq<char>,
    last: Seq<char>,
)
    requires
        call_ensures(tree_outline, (label, path, source, cfg, root), r),
        call_ensures(tree_outline, (label, path, source, cfg, more), s),
        call_ensures(tree_outline, (label, path, source, cfg, child), c),
        call_ensures(heading, (label, path), h),
        more.kind@ == root.kind@,
        !texts(cfg.def_kinds@).contains(root.kind@),
        more.children@ == root.children@.push(*child),
        r@ == h@ + own,
        c@ == h@ + last,
    ensures
        s@ == h@ + own + last,
{
    let k = cfg.shown();
    let a = root@;
    let b = more@;
    let n = a.children.len();
    assert(b.children =~= a.children.push(child@));
    lemma_same_children(a, b, source@, k, n);
    let x = child_entries(a, source@, k, n);
    let y = node_entries(child@, source@, k, 0);
    lemma_same_tail(h@, x, own);
    lemma_same_tail(h@, y, last);
    assert(b.children[n as int] == child@);
    assert(child_entries(b, source@, k, n + 1) == x + y);
    assert(h@ + (x + y) =~= h@ + own + last);
}

proof fn lemma_same_tail(h: Seq<char>, a: Seq<char>, b: Seq<char>)
    requires
        h + a == h + b,
    ensures
        a == b,
{
    assert((h + a).skip(h.len() as int) =~= a);
    assert((h + b).skip(h.len() as int) =~= b);
}

proof fn lemma_same_children(a: NodeView, b: NodeView, source: Seq<char>, k: ShownKinds, i: nat)
    requires
        i <= a.children.len(),
        i <= b.children.len(),
        forall|j: int| 0 <= j < i ==> #[trigger] a.children[j] == b.children[j],
    ensures
        child_entries(a, source, k, i) == child_entries(b, source, k, i),
    decreases i,
{
    if i > 0 {
        lemma_same_children(a, b, source, k, (i - 1) as nat);
        assert(a.children[i - 1] == b.children[i - 1]);
    }
}

/// A definition's members stand below it, two columns further in, where they
/// stand in what holds members.
pub proof fn law_members_are_shown(
    label: &str,
    path: &str,
    source: &str,
    cfg: &LangConfig,
    root: &SyntaxNode,
    r: String,
    h: String,
    field: &str,
    name: String,
    text: &str,
    start: u64,
    end: u64,
    shown: String,
    inner_name: String,
    inner_text: &str,
    inner_start: u64,
    inner_end: u64,
    inner_shown: String,
)
    requires
        call_ensures(tree_outline, (label, path, source, cfg, root), r),
        call_ensures(heading, (label, path), h),
        field@ == cfg.name_field@,
        call_ensures(extract_name, (root, source, field), name),
        text@ == root.kind@ + ": "@ + name@,
        start == root.start_row + 1,
        end == root.end_row + 1,
        call_ensures(entry, (start, end, text), shown),
        texts(cfg.def_kinds@).contains(root.kind@),
        root.children@.len() == 1,
        root.children@[0].children@.len() == 1,
        root.children@[0].children@[0].children@.len() == 0,
        call_ensures(
            extract_name,
            (&root.children@[0].children@[0], source, field),
            inner_name,
        ),
        inner_text@ == "  "@ + root.children@[0].children@[0].kind@ + ": "@ + inner_name@,
        inner_start == root.children@[0].children@[0].start_row + 1,
        inner_end == root.children@[0].children@[0].end_row + 1,
        call_ensures(entry, (inner_start, inner_end, inner_text), inner_shown),
    ensures
        r@ == if texts(cfg.container_kinds@).contains(root.children@[0].kind@) && texts(
            cfg.def_kinds@,
        ).contains(root.children@[0].children@[0].kind@) {
            h@ + (shown@ + inner_shown@)
        } else {
            h@ + shown@
        },
{
    let k = cfg.shown();
    let n = root@;
    let c = n.children[0];
    let i = c.children[0];
    let e = Seq::<char>::empty();
    assert(c == root.children@[0]@);
    assert(i == root.children@[0].children@[0]@);
    assert(i.children.len() == 0);
    assert(repeated("  "@, 0) =~= e);
    assert(repeated("  "@, 1) =~= "  "@) by {
        assert(repeated("  "@, 0) =~= e);
        assert(e + "  "@ =~= "  "@);
        assert("  "@ + e =~= "  "@);
    }
    assert(e + n.kind + ": "@ + name@ =~= n.kind + ": "@ + name@);
    assert(node_entry(n, source@, k.field, 0) == shown@);
    assert(node_entry(i, source@, k.field, 1) == inner_shown@);
    assert(container_entries(i, source@, k, 1, 0) =~= e);
    assert(k.defs.contains(i.kind) ==> node_entries(i, source@, k, 1) =~= inner_shown@);
    assert(member_entries(c, source@, k, 0, 0) =~= e);
    let inner = member_entries(c, source@, k, 0, 1);
    assert(inner =~= if k.defs.contains(i.kind) {
        inner_shown@
    } else {
        e
    });
    assert(container_entries(n, source@, k, 0, 0) =~= e);
    assert(container_entries(n, source@, k, 0, 1) =~= if k.containers.contains(c.kind) {
        inner
    } else {
        e
    });
    assert(shown@ + e =~= shown@);
}

} // verus!
