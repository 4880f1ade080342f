//! Everything that can be called, for display.
use vstd::prelude::*;

use crate::mcp::{tool_views, McpTool, McpToolView};
use crate::names::NameTable;
use crate::sorting::{
    by_text, inserted, is_total_preorder, law_stable_sorted, law_text_order, lemma_inserted_at,
    stable_sorted, text_le, text_not_after,
};
use crate::text::{
    chars_of, find, find_in, has_prefix, lemma_find_from, occurs_at, opt_text, string_of, strip_prefix,
};
use crate::tools::registry::{by_first, pair_views, ToolRegistry};
use crate::tools::ToolCategory;

verus! {

/// A tool as displayed.
#[derive(Debug, Clone)]
pub struct ToolInfo {
    pub name: String,
    pub description: String,
    pub source: String,
    pub server: Option<String>,
    pub category: Option<String>,
}

/// What a `ToolInfo` holds.
pub struct ToolInfoView {
    pub name: Seq<char>,
    pub description: Seq<char>,
    pub source: Seq<char>,
    pub server: Option<Seq<char>>,
    pub category: Option<Seq<char>>,
}

impl View for ToolInfo {
    type V = ToolInfoView;

    open spec fn view(&self) -> ToolInfoView {
        ToolInfoView {
            name: self.name@,
            description: self.description@,
            source: self.source@,
            server: opt_text(self.server),
            category: opt_text(self.category),
        }
    }
}

pub open spec fn info_views(v: Seq<ToolInfo>) -> Seq<ToolInfoView> {
    v.map_values(|t: ToolInfo| t@)
}

/// How an MCP server is displayed.
#[derive(Debug, Clone)]
pub struct McpServerMeta {
    pub friendly_name: Option<String>,
    pub description: Option<String>,
}

/// Everything that can be called.
pub struct AllTools {
    pub built_in: Vec<ToolInfo>,
    pub mcp: Vec<ToolInfo>,
    /// The display data of each MCP server, by its internal name; filled by
    /// whoever reads the stored servers.
    pub mcp_servers: NameTable<McpServerMeta>,
}

/// The name of a category.
pub open spec fn category_name(c: ToolCategory) -> Seq<char> {
    match c {
        ToolCategory::Filesystem => "filesystem"@,
        ToolCategory::Shell => "shell"@,
        ToolCategory::Subagent => "subagent"@,
        ToolCategory::Introspection => "introspection"@,
        ToolCategory::Config => "config"@,
    }
}

pub fn category_str(c: ToolCategory) -> (r: String)
    ensures
        r@ == category_name(c),
{
    match c {
        ToolCategory::Filesystem => "filesystem".to_owned(),
        ToolCategory::Shell => "shell".to_owned(),
        ToolCategory::Subagent => "subagent".to_owned(),
        ToolCategory::Introspection => "introspection".to_owned(),
        ToolCategory::Config => "config".to_owned(),
    }
}

/// A built-in tool as displayed.
pub open spec fn built_in_view(
    name: Seq<char>,
    description: Seq<char>,
    category: Option<Seq<char>>,
) -> ToolInfoView {
    ToolInfoView { name, description, source: "built-in"@, server: None, category }
}

/// The tools that the session itself carries out.
pub open spec fn synthetic_views() -> Seq<ToolInfoView> {
    seq![
        built_in_view(
            "call_agent"@,
            "Delegate a task to a specialised sub-agent."@,
            Some("subagent"@),
        ),
        built_in_view(
            "update_scratchpad"@,
            "Write a key-value note into the session scratchpad."@,
            Some("introspection"@),
        ),
        built_in_view(
            "ask_user_clarification"@,
            "Pause and ask the user a clarification question."@,
            Some("introspection"@),
        ),
    ]
}

/// The category of a registered tool.
pub open spec fn category_in(tools: ToolRegistry, name: Seq<char>) -> Option<Seq<char>> {
    if tools@.contains_key(name) {
        Some(category_name(tools@[name].category))
    } else {
        None
    }
}

/// The order of tools by name.
pub open spec fn by_tool_name() -> spec_fn(ToolInfoView, ToolInfoView) -> bool {
    |a: ToolInfoView, b: ToolInfoView| text_le(a.name, b.name)
}

/// The built-in tools, by name.
pub open spec fn built_in_views(tools: ToolRegistry) -> Seq<ToolInfoView> {
    let registered = stable_sorted(tools.listing(), by_first()).map_values(
        |p: (Seq<char>, Seq<char>)| built_in_view(p.0, p.1, category_in(tools, p.0)),
    );
    stable_sorted(registered + synthetic_views(), by_tool_name())
}

impl McpToolView {
    /// The name under which a tool of an MCP server is called.
    pub open spec fn tool_id(self) -> Seq<char> {
        "mcp__"@ + self.server_name + "__"@ + self.name
    }
}

impl McpTool {
    /// The name under which the tool is called.
    pub fn tool_id(&self) -> (r: String)
        ensures
            r@ == self@.tool_id(),
    {
        let mut t: String = "mcp__".to_owned();
        t.append(self.server_name.as_str());
        t.append("__");
        t.append(self.name.as_str());
        t
    }
}

/// The server and the tool that a name of an MCP tool stands for.
pub open spec fn mcp_parts(name: Seq<char>) -> Option<(Seq<char>, Seq<char>)> {
    if has_prefix(name, "mcp__"@) {
        let rest = name.skip("mcp__"@.len() as int);
        match find(rest, "__"@) {
            Some(i) => Some((rest.take(i), rest.skip(i + "__"@.len()))),
            None => None,
        }
    } else {
        None
    }
}

/// The server and the tool that a name of an MCP tool stands for; none for the
/// name of any other tool.
pub fn parse_mcp_tool_name(name: &str) -> (r: Option<(String, String)>)
    ensures
        match r {
            Some((server, tool)) => mcp_parts(name@) == Some((server@, tool@)),
            None => mcp_parts(name@) is None,
        },
{
    match strip_prefix(name, "mcp__") {
        None => None,
        Some(rest) => {
            let v: Vec<char> = chars_of(rest.as_str());
            let sep: Vec<char> = chars_of("__");
            let n: usize = v.len();
            proof {
                reveal_strlit("__");
                lemma_find_from(rest@, "__"@, 0);
            }
            match find_in(&v, &sep, 0) {
                None => None,
                Some(i) => {
                    assert(v@.subrange(0, i as int) =~= v@.take(i as int));
                    assert(v@.subrange(i + 2, n as int) =~= v@.skip(i + 2));
                    Some((string_of(&v, 0, i), string_of(&v, i + 2, n)))
                },
            }
        },
    }
}

/// A tool of an MCP server as displayed.
pub open spec fn mcp_view(t: McpToolView) -> ToolInfoView {
    ToolInfoView {
        name: t.tool_id(),
        description: t.description,
        source: "mcp"@,
        server: Some(t.server_name),
        category: None,
    }
}

fn built_in(name: &str, description: &str, category: Option<String>) -> (r: ToolInfo)
    ensures
        r@ == built_in_view(name@, description@, opt_text(category)),
{
    ToolInfo {
        name: name.to_owned(),
        description: description.to_owned(),
        source: "built-in".to_owned(),
        server: None,
        category,
    }
}

fn synthetic_tools() -> (r: Vec<ToolInfo>)
    ensures
        info_views(r@) == synthetic_views(),
{
    let mut v: Vec<ToolInfo> = Vec::new();
    v.push(
        built_in(
            "call_agent",
            "Delegate a task to a specialised sub-agent.",
            Some("subagent".to_owned()),
        ),
    );
    v.push(
        built_in(
            "update_scratchpad",
            "Write a key-value note into the session scratchpad.",
            Some("introspection".to_owned()),
        ),
    );
    v.push(
        built_in(
            "ask_user_clarification",
            "Pause and ask the user a clarification question.",
            Some("introspection".to_owned()),
        ),
    );
    assert(info_views(v@) =~= synthetic_views());
    v
}

fn insert_info(v: &mut Vec<ToolInfo>, x: ToolInfo)
    ensures
        info_views(final(v)@) == inserted(info_views(old(v)@), x@, by_tool_name()),
{
    let n: usize = v.len();
    let ghost all = info_views(v@);
    let ghost le = by_tool_name();
    let mut k: usize = n;
    while k > 0 && !text_not_after(v[k - 1].name.as_str(), x.name.as_str())
        invariant
            k <= n,
            n == v@.len(),
            all == info_views(v@),
            *v == *old(v),
            le == by_tool_name(),
            forall|j: int| k <= j < n ==> !le(#[trigger] all[j], x@),
        decreases k,
    {
        assert(all[k - 1] == v@[k - 1]@);
        k = k - 1;
    }
    proof {
        if k > 0 {
            assert(all[k - 1] == v@[k - 1]@);
        }
        lemma_inserted_at(all, x@, le, k as int);
    }
    v.insert(k, x);
    assert(info_views(v@) =~= all.insert(k as int, x@));
}

/// Lists everything that can be called.
pub struct ToolCatalog<'a> {
    pub tools: &'a ToolRegistry,
    pub mcp: &'a Vec<McpTool>,
}

impl<'a> ToolCatalog<'a> {
    pub fn new(tools: &'a ToolRegistry, mcp: &'a Vec<McpTool>) -> (r: ToolCatalog<'a>)
        ensures
            r.tools == tools,
            r.mcp == mcp,
    {
        ToolCatalog { tools, mcp }
    }

    /// The built-in tools by name, then those of the MCP servers.
    pub fn list_all(&self) -> (r: AllTools)
        requires
            self.tools.wf(),
        ensures
            info_views(r.built_in@) == built_in_views(*self.tools),
            info_views(r.mcp@) == tool_views(self.mcp@).map_values(|t: McpToolView| mcp_view(t)),
            r.mcp_servers.wf(),
            r.mcp_servers@ == Map::<Seq<char>, McpServerMeta>::empty(),
    {
        let listed: Vec<(String, String)> = self.tools.list_all();
        let ghost pairs = pair_views(listed@);
        let ghost registered = pairs.map_values(
            |p: (Seq<char>, Seq<char>)| built_in_view(p.0, p.1, category_in(*self.tools, p.0)),
        );
        let ghost all = registered + synthetic_views();
        let ghost le = by_tool_name();
        let mut built_in_tools: Vec<ToolInfo> = Vec::new();
        let mut i: usize = 0;
        assert(info_views(built_in_tools@) =~= stable_sorted(all.take(0), le));
        while i < listed.len()
            invariant
                self.tools.wf(),
                i <= listed@.len(),
                pairs == pair_views(listed@),
                registered == pairs.map_values(
                    |p: (Seq<char>, Seq<char>)|
                        built_in_view(p.0, p.1, category_in(*self.tools, p.0)),
                ),
                all == registered + synthetic_views(),
                le == by_tool_name(),
                info_views(built_in_tools@) == stable_sorted(all.take(i as int), le),
            decreases listed@.len() - i,
        {
            assert(all.take(i + 1).drop_last() =~= all.take(i as int));
            let category: Option<String> = match self.tools.category_of(listed[i].0.as_str()) {
                Some(c) => Some(category_str(c)),
                None => None,
            };
            let info: ToolInfo = built_in(
                listed[i].0.as_str(),
                listed[i].1.as_str(),
                category,
            );
            assert(pairs[i as int] == (listed@[i as int].0@, listed@[i as int].1@));
            assert(info@ == all[i as int]);
            insert_info(&mut built_in_tools, info);
            i = i + 1;
        }
        let mut rest: Vec<ToolInfo> = synthetic_tools();
        let ghost extra = rest@;
        let ghost mut n: int = 0;
        assert(extra.skip(0) =~= extra);
        while rest.len() > 0
            invariant
                0 <= n <= extra.len(),
                rest@ == extra.skip(n),
                info_views(extra) == synthetic_views(),
                all == registered + synthetic_views(),
                le == by_tool_name(),
                info_views(built_in_tools@) == stable_sorted(all.take(registered.len() + n), le),
            decreases rest@.len(),
        {
            let x: ToolInfo = rest.remove(0);
            proof {
                assert(x == extra[n]);
                assert(info_views(extra)[n] == x@);
                assert(all[registered.len() + n] == x@);
                assert(extra.skip(n).remove(0) =~= extra.skip(n + 1));
                assert(all.take(registered.len() + n + 1).drop_last() =~= all.take(
                    registered.len() + n,
                ));
                n = n + 1;
            }
            insert_info(&mut built_in_tools, x);
        }
        assert(info_views(extra).len() == extra.len());
        assert(all.take(registered.len() + n) =~= all);
        let ghost shown = tool_views(self.mcp@).map_values(|t: McpToolView| mcp_view(t));
        let mut mcp: Vec<ToolInfo> = Vec::new();
        let mut k: usize = 0;
        while k < self.mcp.len()
            invariant
                k <= self.mcp@.len(),
                shown == tool_views(self.mcp@).map_values(|t: McpToolView| mcp_view(t)),
                info_views(mcp@) == shown.take(k as int),
            decreases self.mcp@.len() - k,
        {
            let ghost had = info_views(mcp@);
            let t: &McpTool = &self.mcp[k];
            let info: ToolInfo = ToolInfo {
                name: t.tool_id(),
                description: t.description.clone(),
                source: "mcp".to_owned(),
                server: Some(t.server_name.clone()),
                category: None,
            };
            assert(info@ == shown[k as int]);
            mcp.push(info);
            assert(info_views(mcp@) =~= had.push(shown[k as int]));
            k = k + 1;
            assert(info_views(mcp@) =~= shown.take(k as int));
        }
        assert(shown.take(shown.len() as int) =~= shown);
        AllTools { built_in: built_in_tools, mcp, mcp_servers: NameTable::new() }
    }
}

/// The first double underscore behind a plain server name is the one that
/// separates it from the tool.
proof fn lemma_server_ends(server: Seq<char>, tool: Seq<char>)
    requires
        find(server, "__"@) is None,
        server.len() > 0 ==> server.last() != '_',
    ensures
        find(server + "__"@ + tool, "__"@) == Some(server.len() as int),
{
    reveal_strlit("__");
    let rest = server + "__"@ + tool;
    lemma_find_from(server, "__"@, 0);
    lemma_find_from(rest, "__"@, 0);
    let n = server.len() as int;
    assert(rest.subrange(n, n + 2) =~= "__"@);
    assert(occurs_at(rest, "__"@, n));
    assert forall|j: int| 0 <= j < n implies !occurs_at(rest, "__"@, j) by {
        if occurs_at(rest, "__"@, j) {
            assert(rest.subrange(j, j + 2)[0] == '_');
            assert(rest.subrange(j, j + 2)[1] == '_');
            if j + 2 <= n {
                assert(server.subrange(j, j + 2) =~= rest.subrange(j, j + 2));
                assert(occurs_at(server, "__"@, j));
            } else {
                assert(rest[j] == server[j]);
            }
        }
    }
}

/// The name of an MCP tool names its server: the approval rules see the server
/// that exposes the tool, and a call reaches that very tool. That holds of every
/// server whose name neither holds two underscores in a row nor ends in one.
pub proof fn law_tool_id_names_its_server(t: McpToolView)
    requires
        find(t.server_name, "__"@) is None,
        t.server_name.len() > 0 ==> t.server_name.last() != '_',
    ensures
        crate::approval::rules::mcp_server_of(t.tool_id()) == Some(t.server_name),
        mcp_parts(t.tool_id()) == Some((t.server_name, t.name)),
{
    reveal_strlit("__");
    reveal_strlit("mcp__");
    let id = t.tool_id();
    let rest = t.server_name + "__"@ + t.name;
    let n = t.server_name.len() as int;
    lemma_server_ends(t.server_name, t.name);
    assert(id =~= "mcp__"@ + rest);
    assert(id.take(5) =~= "mcp__"@);
    assert(id.skip(5) =~= rest);
    assert(rest.take(n) =~= t.server_name);
    assert(rest.skip(n + 2) =~= t.name);
}

/// The categories of tools by their names.
pub proof fn law_category_names(c: ToolCategory, r: String)
    requires
        call_ensures(category_str, (c,), r),
    ensures
        r@ == match c {
            ToolCategory::Filesystem => "filesystem"@,
            ToolCategory::Shell => "shell"@,
            ToolCategory::Subagent => "subagent"@,
            ToolCategory::Introspection => "introspection"@,
            ToolCategory::Config => "config"@,
        },
{
}

/// A tool of a server is known by the mark of such tools, the server, and its
/// own name; a name of that form is taken apart at the first separator behind
/// the mark.
pub proof fn law_names_of_server_tools(
    t: &McpTool,
    id: String,
    name: &str,
    r: Option<(String, String)>,
    server: Seq<char>,
    tool: Seq<char>,
)
    requires
        call_ensures(McpTool::tool_id, (t,), id),
        call_ensures(parse_mcp_tool_name, (name,), r),
    ensures
        id@ == "mcp__"@ + t.server_name@ + "__"@ + t.name@,
        r matches Some((s, n)) ==> name@ == "mcp__"@ + s@ + "__"@ + n@,
        name@ == "mcp__"@ + server + "__"@ + tool && (forall|i: int|
            0 <= i < server.len() ==> #[trigger] (server + "__"@ + tool).subrange(i, i + 2)
                != "__"@) ==> (r matches Some((s, n)) && s@ == server && n@ == tool),
{
    reveal_strlit("mcp__");
    reveal_strlit("__");
    let n = "mcp__"@.len() as int;
    let rest = name@.skip(n);
    lemma_find_from(rest, "__"@, 0);
    if r is Some {
        let i = find(rest, "__"@).unwrap();
        assert(rest =~= rest.take(i) + "__"@ + rest.skip(i + 2));
        assert(name@ =~= "mcp__"@ + rest);
        assert(name@ =~= "mcp__"@ + r->Some_0.0@ + "__"@ + r->Some_0.1@);
    }
    if name@ == "mcp__"@ + server + "__"@ + tool && (forall|i: int|
        0 <= i < server.len() ==> #[trigger] (server + "__"@ + tool).subrange(i, i + 2) != "__"@) {
        assert(name@.take(n) =~= "mcp__"@);
        assert(rest =~= server + "__"@ + tool);
        let k = server.len() as int;
        assert(rest.subrange(k, k + 2) =~= "__"@);
        assert(occurs_at(rest, "__"@, k));
        let i = find(rest, "__"@).unwrap();
        if i < k {
            assert((server + "__"@ + tool).subrange(i, i + 2) != "__"@);
        }
        assert(rest.take(k) =~= server);
        assert(rest.skip(k + 2) =~= tool);
    }
}

/// The tools of servers are listed in their order, each under its full name,
/// with its server.
pub proof fn law_listed_server_tools<'a>(c: &ToolCatalog<'a>, r: AllTools, i: int)
    requires
        call_ensures(ToolCatalog::<'a>::list_all, (c,), r),
        0 <= i < c.mcp@.len(),
    ensures
        r.mcp@.len() == c.mcp@.len(),
        r.mcp@[i].name@ == "mcp__"@ + c.mcp@[i].server_name@ + "__"@ + c.mcp@[i].name@,
        r.mcp@[i].description@ == c.mcp@[i].description@,
        r.mcp@[i].source@ == "mcp"@,
        r.mcp@[i].server is Some && r.mcp@[i].server->Some_0@ == c.mcp@[i].server_name@,
        r.mcp@[i].category is None,
{
    let v = info_views(r.mcp@);
    assert(v.len() == r.mcp@.len());
    assert(v[i] == r.mcp@[i]@);
    assert(tool_views(c.mcp@)[i] == c.mcp@[i]@);
}

/// The built-in tools are listed in the order of their names: those that are
/// registered, with their category, and the three of the session itself.
pub proof fn law_listed_built_in_tools<'a>(c: &ToolCatalog<'a>, r: AllTools, x: ToolInfoView, i: int, j: int)
    requires
        call_ensures(ToolCatalog::<'a>::list_all, (c,), r),
        0 <= i < j < r.built_in@.len(),
    ensures
        text_le(r.built_in@[i].name@, r.built_in@[j].name@),
        r.built_in@.len() == c.tools.listing().len() + 3,
        x == (ToolInfoView {
            name: "call_agent"@,
            description: "Delegate a task to a specialised sub-agent."@,
            source: "built-in"@,
            server: None,
            category: Some("subagent"@),
        }) || x == (ToolInfoView {
            name: "update_scratchpad"@,
            description: "Write a key-value note into the session scratchpad."@,
            source: "built-in"@,
            server: None,
            category: Some("introspection"@),
        }) || x == (ToolInfoView {
            name: "ask_user_clarification"@,
            description: "Pause and ask the user a clarification question."@,
            source: "built-in"@,
            server: None,
            category: Some("introspection"@),
        }) ==> info_views(r.built_in@).contains(x),
        x.source != "built-in"@ ==> !info_views(r.built_in@).contains(x),
{
    broadcast use vstd::seq_lib::group_to_multiset_ensures;

    law_text_order();
    let pairs = by_first();
    let le = by_tool_name();
    assert(is_total_preorder(le)) by {
        assert forall|a: ToolInfoView| #[trigger] le(a, a) by {
            assert(by_text()(a.name, a.name));
        }
        assert forall|a: ToolInfoView, b: ToolInfoView| #[trigger] le(a, b) || le(b, a) by {
            assert(by_text()(a.name, b.name) || by_text()(b.name, a.name));
        }
        assert forall|a: ToolInfoView, b: ToolInfoView, d: ToolInfoView| #[trigger]
            le(a, b) && #[trigger] le(b, d) implies le(a, d) by {
            assert(by_text()(a.name, b.name) && by_text()(b.name, d.name));
            assert(by_text()(a.name, d.name));
        }
    }
    assert(is_total_preorder(pairs)) by {
        assert forall|a: (Seq<char>, Seq<char>)| #[trigger] pairs(a, a) by {
            assert(by_text()(a.0, a.0));
        }
        assert forall|a: (Seq<char>, Seq<char>), b: (Seq<char>, Seq<char>)| #[trigger]
            pairs(a, b) || pairs(b, a) by {
            assert(by_text()(a.0, b.0) || by_text()(b.0, a.0));
        }
        assert forall|a: (Seq<char>, Seq<char>), b: (Seq<char>, Seq<char>), d: (Seq<char>, Seq<char>)|
            #[trigger] pairs(a, b) && #[trigger] pairs(b, d) implies pairs(a, d) by {
            assert(by_text()(a.0, b.0) && by_text()(b.0, d.0));
            assert(by_text()(a.0, d.0));
        }
    }
    law_stable_sorted(c.tools.listing(), pairs);
    let registered = stable_sorted(c.tools.listing(), pairs).map_values(
        |p: (Seq<char>, Seq<char>)| built_in_view(p.0, p.1, category_in(*c.tools, p.0)),
    );
    let all = registered + synthetic_views();
    law_stable_sorted(all, le);
    let v = info_views(r.built_in@);
    assert(v == stable_sorted(all, le));
    assert(v.len() == r.built_in@.len());
    assert(le(v[i], v[j]));
    assert(v[i] == r.built_in@[i]@ && v[j] == r.built_in@[j]@);
    assert(v.contains(x) == all.contains(x)) by {
        assert(v.contains(x) == (v.to_multiset().count(x) > 0));
        assert(all.contains(x) == (all.to_multiset().count(x) > 0));
    }
    let n = registered.len() as int;
    let own = synthetic_views();
    assert(all[n] == own[0] && all[n + 1] == own[1] && all[n + 2] == own[2]);
    if all.contains(x) {
        let k = all.index_of(x);
        if k < n {
            assert(all[k] == registered[k]);
        } else {
            assert(k == n || k == n + 1 || k == n + 2);
        }
        assert(x.source == "built-in"@);
    }
}

} // verus!
