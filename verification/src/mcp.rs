//! The MCP servers that run, and those that failed to start.
use vstd::prelude::*;

use crate::db::mcp_servers::{arguments_of, stored_value, variables_of, McpServerRow};
use crate::json::{
    json_array, json_text, pair_texts, stored_json, write_json, Json, JsonView, ObjectBuilder,
};
use crate::names::NameTable;
use crate::numerals::{decimal_nat, u64_text};
use crate::text::{contains_item, copy_opt, opt_text, or_text, str_eq, text_or, texts};

verus! {

/// How long a server may take to start, in seconds.
pub const SERVER_START_TIMEOUT_SECS: u64 = 120;

/// How a server is reached.
#[derive(Debug, Clone, Copy, PartialEq, Eq, Structural)]
pub enum McpTransport {
    Stdio,
    Http,
    Sse,
}

/// A tool that a server exposes.
#[derive(Debug)]
pub struct McpTool {
    pub server_name: String,
    pub name: String,
    pub description: String,
}

/// What an `McpTool` holds.
pub struct McpToolView {
    pub server_name: Seq<char>,
    pub name: Seq<char>,
    pub description: Seq<char>,
}

impl View for McpTool {
    type V = McpToolView;

    open spec fn view(&self) -> McpToolView {
        McpToolView {
            server_name: self.server_name@,
            name: self.name@,
            description: self.description@,
        }
    }
}

pub open spec fn tool_views(tools: Seq<McpTool>) -> Seq<McpToolView> {
    tools.map_values(|t: McpTool| t@)
}

pub open spec fn tool_names(tools: Seq<McpTool>) -> Seq<Seq<char>> {
    tools.map_values(|t: McpTool| t.name@)
}

fn copy_tool(t: &McpTool) -> (r: McpTool)
    ensures
        r@ == t@,
{
    McpTool {
        server_name: t.server_name.clone(),
        name: t.name.clone(),
        description: t.description.clone(),
    }
}

fn names_of(tools: &Vec<McpTool>) -> (r: Vec<String>)
    ensures
        texts(r@) == tool_names(tools@),
{
    let mut out: Vec<String> = Vec::new();
    let mut i: usize = 0;
    while i < tools.len()
        invariant
            i <= tools@.len(),
            texts(out@) == tool_names(tools@).take(i as int),
        decreases tools@.len() - i,
    {
        let ghost had = texts(out@);
        out.push(tools[i].name.clone());
        assert(texts(out@) =~= had.push(tools@[i as int].name@));
        i = i + 1;
        assert(texts(out@) =~= tool_names(tools@).take(i as int));
    }
    assert(tool_names(tools@).take(tools@.len() as int) =~= tool_names(tools@));
    out
}

/// What is needed to start a server.
#[derive(Debug)]
pub struct McpServerConfig {
    pub name: String,
    pub transport: McpTransport,
    pub command: Option<String>,
    pub args: Option<Vec<String>>,
    pub env: Option<Vec<(String, String)>>,
    pub url: Option<String>,
    pub api_key: Option<String>,
}

/// The transport that a stored name stands for; `stdio` for an unknown one.
pub open spec fn transport_of(name: Seq<char>) -> McpTransport {
    if name == "http"@ {
        McpTransport::Http
    } else if name == "sse"@ {
        McpTransport::Sse
    } else {
        McpTransport::Stdio
    }
}

/// How a stored server is started. No arguments and no variables are the same
/// as an empty list of them.
pub fn cfg_from_row(row: &McpServerRow) -> (r: McpServerConfig)
    ensures
        r.name@ == row.name@,
        r.transport == transport_of(row.transport@),
        opt_text(r.command) == opt_text(row.command),
        opt_text(r.url) == opt_text(row.url),
        opt_text(r.api_key) == opt_text(row.api_key),
        ({
            let args = arguments_of(stored_value(opt_text(row.args_json)));
            match r.args {
                Some(a) => args.len() > 0 && texts(a@) == args,
                None => args.len() == 0,
            }
        }),
        ({
            let env = variables_of(stored_value(opt_text(row.env_json)));
            match r.env {
                Some(e) => env.len() > 0 && pair_texts(e@) == env,
                None => env.len() == 0,
            }
        }),
{
    let transport: McpTransport = if str_eq(row.transport.as_str(), "http") {
        McpTransport::Http
    } else if str_eq(row.transport.as_str(), "sse") {
        McpTransport::Sse
    } else {
        McpTransport::Stdio
    };
    let args: Vec<String> = row.args();
    let env: Vec<(String, String)> = row.env();
    assert(args@.len() == texts(args@).len());
    assert(env@.len() == pair_texts(env@).len());
    McpServerConfig {
        name: row.name.clone(),
        transport,
        command: copy_opt(&row.command),
        args: if args.len() > 0 {
            Some(args)
        } else {
            None
        },
        env: if env.len() > 0 {
            Some(env)
        } else {
            None
        },
        url: copy_opt(&row.url),
        api_key: copy_opt(&row.api_key),
    }
}

/// How a stored server is doing.
#[derive(Debug)]
pub enum McpServerStatus {
    Running { tools: Vec<String> },
    Error { message: String },
    Disabled,
}

/// A stored server with its status.
#[derive(Debug)]
pub struct McpServerInfo {
    pub name: String,
    pub transport: String,
    pub description: Option<String>,
    pub friendly_name: Option<String>,
    pub status: McpServerStatus,
}

/// How a server fared when it was started.
#[derive(Debug)]
pub enum StartOutcome {
    Ready(Vec<McpTool>),
    Failed(String),
    TimedOut,
}

/// What goes wrong when a start takes too long.
pub open spec fn timeout_text() -> Seq<char> {
    "startup timed out after "@ + decimal_nat(SERVER_START_TIMEOUT_SECS as nat) + "s"@
}

/// The tools of the servers in `names`, in order, that are in `running`.
pub open spec fn all_tools(
    names: Seq<Seq<char>>,
    running: Map<Seq<char>, Vec<McpTool>>,
    wanted: spec_fn(Seq<char>) -> bool,
) -> Seq<McpToolView>
    decreases names.len(),
{
    if names.len() == 0 {
        Seq::empty()
    } else {
        let before = all_tools(names.drop_last(), running, wanted);
        if wanted(names.last()) {
            before + tool_views(running[names.last()]@)
        } else {
            before
        }
    }
}

/// A tool as described to a client.
pub open spec fn tool_entry(t: McpToolView) -> JsonView {
    JsonView::Object(
        seq![
            ("name"@, JsonView::Text(t.name)),
            ("description"@, JsonView::Text(t.description)),
        ],
    )
}

/// A server as described to a client.
pub open spec fn server_entry(name: Seq<char>, tools: Seq<McpTool>) -> JsonView {
    JsonView::Object(
        seq![
            ("name"@, JsonView::Text(name)),
            ("tools"@, JsonView::Array(tools.map_values(|t: McpTool| tool_entry(t@)))),
        ],
    )
}

/// The servers that run, with their tools, and the errors of those that
/// failed.
pub struct McpManager {
    servers: NameTable<Vec<McpTool>>,
    errors: NameTable<String>,
}

impl McpManager {
    pub closed spec fn wf(&self) -> bool {
        self.servers.wf() && self.errors.wf()
    }

    /// The servers that run, with their tools.
    pub closed spec fn running(&self) -> Map<Seq<char>, Vec<McpTool>> {
        self.servers@
    }

    /// The running servers' names, in the order in which they started.
    pub closed spec fn order(&self) -> Seq<Seq<char>> {
        self.servers.order()
    }

    /// The errors of servers that failed.
    pub closed spec fn failed(&self) -> Map<Seq<char>, String> {
        self.errors@
    }

    pub fn new() -> (r: McpManager)
        ensures
            r.wf(),
            r.running() == Map::<Seq<char>, Vec<McpTool>>::empty(),
            r.order() == Seq::<Seq<char>>::empty(),
            r.failed() == Map::<Seq<char>, String>::empty(),
    {
        McpManager { servers: NameTable::new(), errors: NameTable::new() }
    }

    /// Takes note of how a server fared that was started with the program.
    pub fn started(&mut self, name: String, outcome: StartOutcome)
        requires
            old(self).wf(),
        ensures
            final(self).wf(),
            match outcome {
                StartOutcome::Ready(tools) => {
                    &&& final(self).running() == old(self).running().insert(name@, tools)
                    &&& final(self).order() == if old(self).running().contains_key(name@) {
                        old(self).order()
                    } else {
                        old(self).order().push(name@)
                    }
                    &&& final(self).failed() == old(self).failed()
                },
                StartOutcome::Failed(message) => {
                    &&& final(self).running() == old(self).running()
                    &&& final(self).order() == old(self).order()
                    &&& final(self).failed() == old(self).failed().insert(name@, message)
                },
                StartOutcome::TimedOut => {
                    &&& final(self).running() == old(self).running()
                    &&& final(self).order() == old(self).order()
                    &&& final(self).failed().contains_key(name@)
                    &&& final(self).failed()[name@]@ == timeout_text()
                    &&& final(self).failed().remove(name@) == old(self).failed().remove(name@)
                },
            },
    {
        match outcome {
            StartOutcome::Ready(tools) => {
                self.servers.insert(name, tools);
            },
            StartOutcome::Failed(message) => {
                self.errors.insert(name, message);
            },
            StartOutcome::TimedOut => {
                let secs: String = u64_text(SERVER_START_TIMEOUT_SECS);
                let mut message: String = "startup timed out after ".to_owned();
                message.append(secs.as_str());
                message.append("s");
                self.errors.insert(name, message);
                assert(self.failed().remove(name@) =~= old(self).failed().remove(name@));
            },
        }
    }

    /// Takes note of how a server fared that was registered: the names of its
    /// tools, or why it does not run.
    pub fn register(&mut self, name: String, outcome: StartOutcome) -> (r: Result<
        Vec<String>,
        String,
    >)
        requires
            old(self).wf(),
        ensures
            final(self).wf(),
            match outcome {
                StartOutcome::Ready(tools) => {
                    &&& r matches Ok(names) && texts(names@) == tool_names(tools@)
                    &&& final(self).running() == old(self).running().insert(name@, tools)
                    &&& final(self).order() == if old(self).running().contains_key(name@) {
                        old(self).order()
                    } else {
                        old(self).order().push(name@)
                    }
                    &&& final(self).failed() == old(self).failed().remove(name@)
                },
                StartOutcome::Failed(e) => {
                    &&& r matches Err(t) && t@ == "MCP server '"@ + name@ + "' failed to start: "@
                        + e@
                    &&& *final(self) == *old(self)
                },
                StartOutcome::TimedOut => {
                    &&& r matches Err(t) && t@ == "MCP server '"@ + name@
                        + "' timed out during connection"@
                    &&& *final(self) == *old(self)
                },
            },
    {
        match outcome {
            StartOutcome::Ready(tools) => {
                let names: Vec<String> = names_of(&tools);
                self.errors.remove(name.as_str());
                self.servers.insert(name, tools);
                Ok(names)
            },
            StartOutcome::Failed(e) => {
                let mut t: String = "MCP server '".to_owned();
                t.append(name.as_str());
                t.append("' failed to start: ");
                t.append(e.as_str());
                Err(t)
            },
            StartOutcome::TimedOut => {
                let mut t: String = "MCP server '".to_owned();
                t.append(name.as_str());
                t.append("' timed out during connection");
                Err(t)
            },
        }
    }

    /// Forgets a server.
    pub fn unregister(&mut self, name: &str)
        requires
            old(self).wf(),
        ensures
            final(self).wf(),
            final(self).running() == old(self).running().remove(name@),
            final(self).order() == old(self).order().remove_value(name@),
            final(self).failed() == old(self).failed().remove(name@),
    {
        self.servers.remove(name);
        self.errors.remove(name);
    }

    /// Whether `status` is how a stored server is doing.
    pub open spec fn is_status(&self, row: McpServerRow, status: McpServerStatus) -> bool {
        if !row.enabled {
            status == McpServerStatus::Disabled
        } else if self.running().contains_key(row.name@) {
            match status {
                McpServerStatus::Running { tools } => texts(tools@) == tool_names(
                    self.running()[row.name@]@,
                ),
                _ => false,
            }
        } else {
            match status {
                McpServerStatus::Error { message } => message@ == if self.failed().contains_key(
                    row.name@,
                ) {
                    self.failed()[row.name@]@
                } else {
                    "not connected"@
                },
                _ => false,
            }
        }
    }

    /// How a stored server is doing.
    pub fn status(&self, row: &McpServerRow) -> (r: McpServerStatus)
        requires
            self.wf(),
        ensures
            self.is_status(*row, r),
    {
        if !row.enabled {
            McpServerStatus::Disabled
        } else {
            match self.servers.get(row.name.as_str()) {
                Some(tools) => McpServerStatus::Running { tools: names_of(tools) },
                None => match self.errors.get(row.name.as_str()) {
                    Some(e) => McpServerStatus::Error { message: e.clone() },
                    None => McpServerStatus::Error { message: "not connected".to_owned() },
                },
            }
        }
    }

    /// Lists the stored servers.
    pub fn list(&self, rows: Vec<McpServerRow>) -> (r: Vec<McpServerInfo>)
        requires
            self.wf(),
        ensures
            r@.len() == rows@.len(),
            forall|i: int|
                0 <= i < rows@.len() ==> {
                    &&& (#[trigger] r@[i]).name@ == rows@[i].name@
                    &&& r@[i].transport@ == rows@[i].transport@
                    &&& opt_text(r@[i].description) == opt_text(rows@[i].description)
                    &&& opt_text(r@[i].friendly_name) == opt_text(rows@[i].friendly_name)
                    &&& self.is_status(rows@[i], r@[i].status)
                },
    {
        let mut out: Vec<McpServerInfo> = Vec::new();
        let mut i: usize = 0;
        while i < rows.len()
            invariant
                self.wf(),
                i <= rows@.len(),
                out@.len() == i,
                forall|k: int|
                    0 <= k < i ==> {
                        &&& (#[trigger] out@[k]).name@ == rows@[k].name@
                        &&& out@[k].transport@ == rows@[k].transport@
                        &&& opt_text(out@[k].description) == opt_text(rows@[k].description)
                        &&& opt_text(out@[k].friendly_name) == opt_text(rows@[k].friendly_name)
                        &&& self.is_status(rows@[k], out@[k].status)
                    },
            decreases rows@.len() - i,
        {
            let row: &McpServerRow = &rows[i];
            let status: McpServerStatus = self.status(row);
            out.push(
                McpServerInfo {
                    name: row.name.clone(),
                    transport: row.transport.clone(),
                    description: copy_opt(&row.description),
                    friendly_name: copy_opt(&row.friendly_name),
                    status,
                },
            );
            i = i + 1;
        }
        out
    }

    /// The tools of every running server.
    pub fn tools(&self) -> (r: Vec<McpTool>)
        requires
            self.wf(),
        ensures
            tool_views(r@) == all_tools(self.order(), self.running(), |n: Seq<char>| true),
    {
        let ghost order = self.order();
        let ghost wanted = |n: Seq<char>| true;
        let mut out: Vec<McpTool> = Vec::new();
        let mut i: usize = 0;
        let n: usize = self.servers.len();
        assert(tool_views(out@) =~= all_tools(order.take(0), self.running(), wanted));
        while i < n
            invariant
                self.wf(),
                order == self.order(),
                n == order.len(),
                i <= n,
                wanted == (|n: Seq<char>| true),
                tool_views(out@) == all_tools(order.take(i as int), self.running(), wanted),
            decreases n - i,
        {
            assert(order.take(i + 1).drop_last() =~= order.take(i as int));
            let entry: (&String, &Vec<McpTool>) = self.servers.at(i);
            append_tools(&mut out, entry.1);
            i = i + 1;
        }
        assert(order.take(n as int) =~= order);
        out
    }

    /// The tools of the running servers among those named.
    pub fn tools_for(&self, names: &Vec<String>) -> (r: Vec<McpTool>)
        requires
            self.wf(),
        ensures
            tool_views(r@) == all_tools(
                self.order(),
                self.running(),
                |n: Seq<char>| texts(names@).contains(n),
            ),
    {
        let ghost order = self.order();
        let ghost wanted = |n: Seq<char>| texts(names@).contains(n);
        let mut out: Vec<McpTool> = Vec::new();
        let mut i: usize = 0;
        let n: usize = self.servers.len();
        assert(tool_views(out@) =~= all_tools(order.take(0), self.running(), wanted));
        while i < n
            invariant
                self.wf(),
                order == self.order(),
                n == order.len(),
                i <= n,
                wanted == (|n: Seq<char>| texts(names@).contains(n)),
                tool_views(out@) == all_tools(order.take(i as int), self.running(), wanted),
            decreases n - i,
        {
            assert(order.take(i + 1).drop_last() =~= order.take(i as int));
            let entry: (&String, &Vec<McpTool>) = self.servers.at(i);
            if contains_item(names, entry.0.as_str()) {
                append_tools(&mut out, entry.1);
            }
            i = i + 1;
        }
        assert(order.take(n as int) =~= order);
        out
    }

    /// The running servers with their tools, for a client.
    pub fn server_infos(&self) -> (r: Vec<Json>)
        requires
            self.wf(),
        ensures
            r@.map_values(|j: Json| j@) == self.order().map_values(
                |n: Seq<char>| server_entry(n, self.running()[n]@),
            ),
    {
        let ghost all = self.order().map_values(
            |n: Seq<char>| server_entry(n, self.running()[n]@),
        );
        let mut out: Vec<Json> = Vec::new();
        let mut i: usize = 0;
        let n: usize = self.servers.len();
        while i < n
            invariant
                self.wf(),
                n == self.order().len(),
                i <= n,
                all == self.order().map_values(
                    |n: Seq<char>| server_entry(n, self.running()[n]@),
                ),
                out@.map_values(|j: Json| j@) == all.take(i as int),
            decreases n - i,
        {
            let ghost had = out@.map_values(|j: Json| j@);
            let entry: (&String, &Vec<McpTool>) = self.servers.at(i);
            let j: Json = server_json(entry.0.as_str(), entry.1);
            out.push(j);
            assert(out@.map_values(|j: Json| j@) =~= had.push(all[i as int]));
            i = i + 1;
            assert(out@.map_values(|j: Json| j@) =~= all.take(i as int));
        }
        assert(all.take(n as int) =~= all);
        out
    }

    /// Whether a tool of a server can be called.
    pub fn call(&self, server: &str) -> (r: Result<(), String>)
        requires
            self.wf(),
        ensures
            match r {
                Ok(_) => self.running().contains_key(server@),
                Err(e) => !self.running().contains_key(server@) && e@ == "MCP server '"@ + server@
                    + "' not found"@,
            },
    {
        match self.servers.get(server) {
            Some(_) => Ok(()),
            None => {
                let mut t: String = "MCP server '".to_owned();
                t.append(server);
                t.append("' not found");
                Err(t)
            },
        }
    }
}

fn append_tools(out: &mut Vec<McpTool>, tools: &Vec<McpTool>)
    ensures
        tool_views(final(out)@) == tool_views(old(out)@) + tool_views(tools@),
{
    let ghost had = tool_views(out@);
    let ghost all = tool_views(tools@);
    let mut i: usize = 0;
    assert(had + all.take(0) =~= had);
    while i < tools.len()
        invariant
            i <= tools@.len(),
            all == tool_views(tools@),
            tool_views(out@) == had + all.take(i as int),
        decreases tools@.len() - i,
    {
        let ghost now = tool_views(out@);
        let t: McpTool = copy_tool(&tools[i]);
        out.push(t);
        assert(tool_views(out@) =~= now.push(all[i as int]));
        i = i + 1;
        assert(tool_views(out@) =~= had + all.take(i as int));
    }
    assert(all.take(all.len() as int) =~= all);
}

fn server_json(name: &str, tools: &Vec<McpTool>) -> (r: Json)
    ensures
        r@ == server_entry(name@, tools@),
{
    let ghost all = tools@.map_values(|t: McpTool| tool_entry(t@));
    let mut out: Vec<Json> = Vec::new();
    let mut i: usize = 0;
    while i < tools.len()
        invariant
            i <= tools@.len(),
            all == tools@.map_values(|t: McpTool| tool_entry(t@)),
            out@.map_values(|j: Json| j@) == all.take(i as int),
        decreases tools@.len() - i,
    {
        let ghost had = out@.map_values(|j: Json| j@);
        let b: ObjectBuilder = ObjectBuilder::new().with_text(
            "name",
            tools[i].name.as_str(),
        ).with_text("description", tools[i].description.as_str());
        assert(b.entries() =~= tool_entry(tools@[i as int]@)->Object_0);
        out.push(b.build());
        assert(out@.map_values(|j: Json| j@) =~= had.push(all[i as int]));
        i = i + 1;
        assert(out@.map_values(|j: Json| j@) =~= all.take(i as int));
    }
    assert(all.take(all.len() as int) =~= all);
    let b: ObjectBuilder = ObjectBuilder::new().with_text("name", name).with(
        "tools",
        json_array(out),
    );
    assert(b.entries() =~= server_entry(name@, tools@)->Object_0);
    b.build()
}

/// A notification of a server as it is stored: its method, and its parameters
/// as JSON text.
pub fn notification_event(payload: &Json) -> (r: (String, String))
    ensures
        r.0@ == or_text(payload@.field("method"@).as_text(), "unknown"@),
        r.1@ == json_text(stored_json(payload@.field("params"@))),
{
    let method: String = text_or(payload.text_field("method"), "unknown");
    let params: String = match payload.get("params") {
        Some(p) => write_json(p),
        None => write_json(&Json::Null),
    };
    (method, params)
}

/// A disabled server is listed as disabled, whatever runs. An enabled one is
/// listed as running exactly while it runs.
pub proof fn law_status_follows_the_servers(m: McpManager, row: McpServerRow, status: McpServerStatus)
    requires
        m.is_status(row, status),
    ensures
        status is Disabled <==> !row.enabled,
        status is Running <==> row.enabled && m.running().contains_key(row.name@),
{
}

/// A server that was registered runs until it is unregistered, and then
/// neither runs nor has an error.
pub proof fn law_unregister_undoes_register(
    before: McpManager,
    registered: McpManager,
    after: McpManager,
    name: Seq<char>,
    tools: Vec<McpTool>,
)
    requires
        registered.running() == before.running().insert(name, tools),
        registered.failed() == before.failed().remove(name),
        after.running() == registered.running().remove(name),
        after.failed() == registered.failed().remove(name),
    ensures
        registered.running().contains_key(name),
        !registered.failed().contains_key(name),
        after.running() == before.running().remove(name),
        after.failed() == before.failed().remove(name),
{
    assert(after.running() =~= before.running().remove(name));
    assert(after.failed() =~= before.failed().remove(name));
}

/// A server that starts is running, with its tools, and no longer counts as
/// failed once it is registered; one that does not start is told why. No other
/// server is touched.
pub proof fn law_servers_start(
    a: &mut McpManager,
    b: &mut McpManager,
    name: String,
    outcome: StartOutcome,
    r: Result<Vec<String>, String>,
    other: Seq<char>,
    i: int,
)
    requires
        call_ensures(McpManager::started, (a, name, outcome), ()),
        call_ensures(McpManager::register, (b, name, outcome), r),
        other != name@,
    ensures
        final(a).running().contains_key(other) == old(a).running().contains_key(other),
        final(b).running().contains_key(other) == old(b).running().contains_key(other),
        final(a).failed().contains_key(other) == old(a).failed().contains_key(other),
        outcome matches StartOutcome::Ready(tools) ==> {
            &&& final(a).running().contains_key(name@) && final(a).running()[name@] == tools
            &&& final(b).running().contains_key(name@) && final(b).running()[name@] == tools
            &&& !final(b).failed().contains_key(name@)
            &&& r is Ok && r->Ok_0@.len() == tools@.len()
            &&& 0 <= i < tools@.len() ==> r->Ok_0@[i]@ == tools@[i].name@
        },
        outcome matches StartOutcome::Failed(why) ==> {
            &&& final(a).failed().contains_key(name@) && final(a).failed()[name@]@ == why@
            &&& final(a).running() == old(a).running() && final(b).running() == old(b).running()
            &&& r is Err && r->Err_0@ == "MCP server '"@ + name@ + "' failed to start: "@ + why@
        },
        outcome is TimedOut ==> {
            &&& final(a).failed().contains_key(name@) && final(a).failed()[name@]@
                == "startup timed out after "@ + decimal_nat(120) + "s"@
            &&& final(a).running() == old(a).running() && final(b).running() == old(b).running()
            &&& r is Err && r->Err_0@ == "MCP server '"@ + name@ + "' timed out during connection"@
        },
{
    if outcome is TimedOut {
        assert(final(a).failed().remove(name@).contains_key(other) == old(a).failed().remove(
            name@,
        ).contains_key(other));
    }
    if outcome is Ready && 0 <= i < outcome->Ready_0@.len() {
        let names = r->Ok_0@;
        assert(texts(names).len() == names.len());
        assert(texts(names)[i] == names[i]@);
        assert(tool_names(outcome->Ready_0@)[i] == outcome->Ready_0@[i].name@);
    }
    if outcome is Ready {
        assert(texts(r->Ok_0@).len() == r->Ok_0@.len());
    }
}

/// A server that is unregistered is neither running nor failed, and the others
/// are as they were. A call reaches exactly the servers that run.
pub proof fn law_servers_stop(m: &mut McpManager, name: &str, other: &str, r: Result<(), String>, before: Result<(), String>)
    requires
        call_ensures(McpManager::unregister, (m, name), ()),
        call_ensures(McpManager::call, (&*final(m), other), r),
        call_ensures(McpManager::call, (&*old(m), other), before),
    ensures
        !final(m).running().contains_key(name@),
        !final(m).failed().contains_key(name@),
        other@ == name@ ==> r is Err,
        other@ != name@ ==> (r is Ok <==> before is Ok),
        r matches Err(e) ==> e@ == "MCP server '"@ + other@ + "' not found"@,
{
}

/// The state of a server: switched off, or running with the names of its tools,
/// or in error, with the reason where one is known.
pub proof fn law_states_of_servers(m: &McpManager, row: &McpServerRow, r: McpServerStatus, i: int)
    requires
        call_ensures(McpManager::status, (m, row), r),
    ensures
        r is Disabled <==> !row.enabled,
        r is Running <==> row.enabled && m.running().contains_key(row.name@),
        r matches McpServerStatus::Running { tools } ==> tools@.len()
            == m.running()[row.name@]@.len() && (0 <= i < tools@.len() ==> tools@[i]@
            == m.running()[row.name@]@[i].name@),
        r matches McpServerStatus::Error { message } ==> message@ == if m.failed().contains_key(
            row.name@,
        ) {
            m.failed()[row.name@]@
        } else {
            "not connected"@
        },
{
    if r is Running {
        let names = r->tools@;
        assert(texts(names).len() == names.len());
        if 0 <= i < names.len() {
            assert(texts(names)[i] == names[i]@);
            assert(tool_names(m.running()[row.name@]@)[i] == m.running()[row.name@]@[i].name@);
        }
    }
}

proof fn lemma_all_tools(
    names: Seq<Seq<char>>,
    running: Map<Seq<char>, Vec<McpTool>>,
    wanted: spec_fn(Seq<char>) -> bool,
    t: McpToolView,
)
    ensures
        all_tools(names, running, wanted).contains(t) <==> exists|i: int|
            0 <= i < names.len() && wanted(#[trigger] names[i]) && tool_views(
                running[names[i]]@,
            ).contains(t),
    decreases names.len(),
{
    if names.len() > 0 {
        let rest = names.drop_last();
        lemma_all_tools(rest, running, wanted, t);
        let before = all_tools(rest, running, wanted);
        let own = tool_views(running[names.last()]@);
        let all = all_tools(names, running, wanted);
        if all.contains(t) {
            let k = all.index_of(t);
            if k < before.len() {
                assert(before[k] == t);
                let i = choose|i: int|
                    0 <= i < rest.len() && wanted(#[trigger] rest[i]) && tool_views(
                        running[rest[i]]@,
                    ).contains(t);
                assert(names[i] == rest[i]);
            } else {
                assert(own[k - before.len()] == t);
                assert(wanted(names[names.len() - 1]));
            }
        }
        if exists|i: int|
            0 <= i < names.len() && wanted(#[trigger] names[i]) && tool_views(
                running[names[i]]@,
            ).contains(t) {
            let i = choose|i: int|
                0 <= i < names.len() && wanted(#[trigger] names[i]) && tool_views(
                    running[names[i]]@,
                ).contains(t);
            if i < rest.len() {
                assert(rest[i] == names[i]);
                let k = before.index_of(t);
                assert(all[k] == t);
            } else {
                let k = own.index_of(t);
                assert(all[before.len() + k] == t);
            }
        }
    }
}

/// The tools on offer are those of the running servers, and of these, where
/// servers are named, of the named ones.
pub proof fn law_tools_of_servers(m: &McpManager, names: &Vec<String>, r: Vec<McpTool>, s: Vec<McpTool>, t: McpToolView)
    requires
        call_ensures(McpManager::tools, (m,), r),
        call_ensures(McpManager::tools_for, (m, names), s),
    ensures
        tool_views(r@).contains(t) <==> exists|i: int|
            0 <= i < m.order().len() && tool_views(
                m.running()[#[trigger] m.order()[i]]@,
            ).contains(t),
        tool_views(s@).contains(t) <==> exists|i: int|
            0 <= i < m.order().len() && texts(names@).contains(#[trigger] m.order()[i])
                && tool_views(m.running()[m.order()[i]]@).contains(t),
{
    let all = |n: Seq<char>| true;
    let named = |n: Seq<char>| texts(names@).contains(n);
    lemma_all_tools(m.order(), m.running(), all, t);
    lemma_all_tools(m.order(), m.running(), named, t);
    if tool_views(r@).contains(t) {
        let i = choose|i: int|
            0 <= i < m.order().len() && all(#[trigger] m.order()[i]) && tool_views(
                m.running()[m.order()[i]]@,
            ).contains(t);
        assert(tool_views(m.running()[m.order()[i]]@).contains(t));
    }
    if exists|i: int|
        0 <= i < m.order().len() && tool_views(m.running()[#[trigger] m.order()[i]]@).contains(t) {
        let i = choose|i: int|
            0 <= i < m.order().len() && tool_views(
                m.running()[#[trigger] m.order()[i]]@,
            ).contains(t);
        assert(all(m.order()[i]));
    }
    if exists|i: int|
        0 <= i < m.order().len() && texts(names@).contains(#[trigger] m.order()[i]) && tool_views(
            m.running()[m.order()[i]]@,
        ).contains(t) {
        let i = choose|i: int|
            0 <= i < m.order().len() && texts(names@).contains(#[trigger] m.order()[i])
                && tool_views(m.running()[m.order()[i]]@).contains(t);
        assert(named(m.order()[i]));
    }
    if tool_views(s@).contains(t) {
        let i = choose|i: int|
            0 <= i < m.order().len() && named(#[trigger] m.order()[i]) && tool_views(
                m.running()[m.order()[i]]@,
            ).contains(t);
        assert(texts(names@).contains(m.order()[i]));
    }
}

/// A server is reached over HTTP or SSE where its row says so, and over standard
/// input and output else; its other settings are those of the row.
pub proof fn law_server_settings(row: &McpServerRow, r: McpServerConfig)
    requires
        call_ensures(cfg_from_row, (row,), r),
    ensures
        r.transport is Http <==> row.transport@ == "http"@,
        r.transport is Sse <==> row.transport@ == "sse"@,
        r.name@ == row.name@,
        opt_text(r.command) == opt_text(row.command),
        opt_text(r.url) == opt_text(row.url),
        opt_text(r.api_key) == opt_text(row.api_key),
{
    reveal_strlit("http");
    reveal_strlit("sse");
    assert("http"@.len() == 4 && "sse"@.len() == 3);
}

/// What a notification is filed under: its method, or `unknown`.
pub proof fn law_notifications(payload: &Json, r: (String, String))
    requires
        call_ensures(notification_event, (payload,), r),
    ensures
        r.0@ == match payload@.field("method"@) {
            JsonView::Text(t) => t,
            _ => "unknown"@,
        },
{
}

/// The servers are listed as their rows say, each with its state; a fresh
/// manager runs none.
pub proof fn law_listed_servers(m: &McpManager, rows: Vec<McpServerRow>, r: Vec<McpServerInfo>, i: int, status: McpServerStatus, fresh: McpManager)
    requires
        call_ensures(McpManager::list, (m, rows), r),
        0 <= i < rows@.len(),
        call_ensures(McpManager::status, (m, &rows@[i]), status),
        call_ensures(McpManager::new, (), fresh),
    ensures
        r@.len() == rows@.len(),
        r@[i].name@ == rows@[i].name@ && r@[i].transport@ == rows@[i].transport@,
        r@[i].status is Disabled <==> status is Disabled,
        r@[i].status is Running <==> status is Running,
        r@[i].status matches McpServerStatus::Running { tools } ==> texts(tools@) == texts(
            status->tools@,
        ),
        r@[i].status matches McpServerStatus::Error { message } ==> message@ == status->message@,
        fresh.order().len() == 0,
{
    assert(m.is_status(rows@[i], r@[i].status));
}

/// What is told of the running servers: each by its name, with the names and
/// descriptions of its tools, in order.
pub proof fn law_running_servers_are_told(m: &McpManager, r: Vec<Json>, i: int, k: int)
    requires
        call_ensures(McpManager::server_infos, (m,), r),
        0 <= i < m.order().len(),
        0 <= k < m.running()[m.order()[i]]@.len(),
    ensures
        r@.len() == m.order().len(),
        ({
            let f = r@[i]@->Object_0;
            let tools = m.running()[m.order()[i]]@;
            &&& r@[i]@ is Object && f.len() == 2
            &&& f[0] == ("name"@, JsonView::Text(m.order()[i]))
            &&& f[1].0 == "tools"@ && f[1].1 is Array && f[1].1->Array_0.len() == tools.len()
            &&& f[1].1->Array_0[k] == JsonView::Object(
                seq![
                    ("name"@, JsonView::Text(tools[k].name@)),
                    ("description"@, JsonView::Text(tools[k].description@)),
                ],
            )
        }),
{
    let v = r@.map_values(|j: Json| j@);
    assert(v.len() == r@.len());
    assert(v[i] == r@[i]@);
}

} // verus!
