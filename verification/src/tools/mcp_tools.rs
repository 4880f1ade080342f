//! The tools that register, activate and list MCP servers.
use vstd::prelude::*;

use crate::db::mcp_servers::UpsertParams;
use crate::json::{
    is_text_array, is_text_object, json_text, parsed_json, stored_json, text_items, texts_among,
    write_json, Json, JsonView,
};
use crate::numerals::{decimal, i64_text};
use crate::text::{contains_item, join, joined, opt_text, texts};
use crate::tools::{ToolCategory, MAX_LABEL_SHORT};

verus! {

/// The text of a field of a value.
fn text_at<'a>(args: &'a Json, key: &str) -> (r: Option<&'a str>)
    ensures
        match r {
            Some(t) => args@.field(key@).as_text() == Some(t@),
            None => args@.field(key@).as_text() is None,
        },
{
    match args.get(key) {
        Some(j) => match j.as_text() {
            Some(t) => Some(t.as_str()),
            None => None,
        },
        None => None,
    }
}

/// The text in an optional reference.
pub open spec fn opt_str(o: Option<&str>) -> Option<Seq<char>> {
    match o {
        Some(t) => Some(t@),
        None => None,
    }
}

/// What is stored of the arguments of a server's command: the array as JSON
/// text.
pub open spec fn stored_args(j: JsonView) -> Option<Seq<char>> {
    if j is Array {
        Some(json_text(stored_json(j)))
    } else {
        None
    }
}

/// What is stored of the environment of a server's command: the object as
/// JSON text.
pub open spec fn stored_env(j: JsonView) -> Option<Seq<char>> {
    if j is Object {
        Some(json_text(stored_json(j)))
    } else {
        None
    }
}

/// The tool that registers an MCP server.
pub struct RegisterMcp;

impl RegisterMcp {
    pub fn name(&self) -> (r: &'static str)
        ensures
            r@ == "register_mcp"@,
    {
        "register_mcp"
    }

    pub fn category(&self) -> (r: ToolCategory)
        ensures
            r == ToolCategory::Config,
    {
        ToolCategory::Config
    }

    /// Reads a call. What is stored of arguments and environment that hold
    /// texts reads back as the same texts.
    pub fn request<'a>(&self, args: &'a Json) -> (r: Result<UpsertParams<'a>, String>)
        ensures
            match (args@.field("name"@).as_text(), args@.field("transport"@).as_text()) {
                (None, _) => r matches Err(e) && e@
                    == "register_mcp: missing required argument `name`"@,
                (Some(_), None) => r matches Err(e) && e@
                    == "register_mcp: missing required argument `transport`"@,
                (Some(name), Some(transport)) => match r {
                    Ok(p) => {
                        &&& p.name@ == name
                        &&& p.transport@ == transport
                        &&& opt_str(p.command) == args@.field("command"@).as_text()
                        &&& opt_text(p.args_json) == stored_args(args@.field("args"@))
                        &&& opt_text(p.env_json) == stored_env(args@.field("env"@))
                        &&& opt_str(p.url) == args@.field("url"@).as_text()
                        &&& opt_str(p.api_key) == args@.field("api_key"@).as_text()
                        &&& opt_str(p.description) == args@.field("description"@).as_text()
                        &&& opt_str(p.friendly_name) == args@.field("friendly_name"@).as_text()
                        &&& is_text_array(args@.field("args"@)) ==> p.args_json is Some
                            && parsed_json(p.args_json->Some_0@) == Some(args@.field("args"@))
                        &&& is_text_object(args@.field("env"@)) ==> p.env_json is Some
                            && parsed_json(p.env_json->Some_0@) is Some && same_variables(
                            parsed_json(p.env_json->Some_0@)->Some_0,
                            args@.field("env"@),
                        )
                    },
                    Err(_) => false,
                },
            },
    {
        let name: &str = match text_at(args, "name") {
            Some(t) => t,
            None => {
                return Err("register_mcp: missing required argument `name`".to_owned());
            },
        };
        let transport: &str = match text_at(args, "transport") {
            Some(t) => t,
            None => {
                return Err("register_mcp: missing required argument `transport`".to_owned());
            },
        };
        let args_json: Option<String> = match args.get("args") {
            Some(j) => match j {
                Json::Array(_) => Some(write_json(j)),
                _ => None,
            },
            None => None,
        };
        let env_json: Option<String> = match args.get("env") {
            Some(j) => match j {
                Json::Object(_) => Some(write_json(j)),
                _ => None,
            },
            None => None,
        };
        Ok(
            UpsertParams {
                name,
                transport,
                command: text_at(args, "command"),
                args_json,
                env_json,
                url: text_at(args, "url"),
                api_key: text_at(args, "api_key"),
                description: text_at(args, "description"),
                friendly_name: text_at(args, "friendly_name"),
            },
        )
    }

    /// The answer of a call, given the names of the server's tools.
    pub fn reply(&self, name: &str, tools: &Vec<String>) -> (r: String)
        ensures
            r@ == "MCP server '"@ + name@ + "' registered and connected. Tools: "@ + if tools@.len()
                == 0 {
                "(none)"@
            } else {
                joined(texts(tools@), ", "@)
            },
    {
        let mut t: String = "MCP server '".to_owned();
        t.append(name);
        t.append("' registered and connected. Tools: ");
        if tools.len() == 0 {
            t.append("(none)");
        } else {
            let names: String = join(tools, ", ");
            t.append(names.as_str());
        }
        t
    }
}

/// Whether two values are objects of texts that agree on every name.
pub open spec fn same_variables(a: JsonView, b: JsonView) -> bool {
    is_text_object(a) && is_text_object(b) && forall|k: Seq<char>| #[trigger]
        a.field(k) == b.field(k)
}

/// How one name is shown in the answer of an activation.
pub open spec fn activated(name: Seq<char>, available: Seq<Seq<char>>) -> Seq<char> {
    if available.contains(name) {
        name + " ✓"@
    } else {
        name + " (registered but not yet running — tools will appear after reconnect)"@
    }
}

/// The tool that makes the tools of MCP servers available to a session, or to
/// one stack frame of it.
pub struct ShowMcpTools {
    pub stack_id: Option<i64>,
}

impl ShowMcpTools {
    pub fn name(&self) -> (r: &'static str)
        ensures
            r@ == "show_mcp_tools"@,
    {
        "show_mcp_tools"
    }

    pub fn category(&self) -> (r: ToolCategory)
        ensures
            r == ToolCategory::Config,
    {
        ToolCategory::Config
    }

    /// The label of a call, and how long it may be.
    pub fn describe(&self, args: &Json) -> (r: (String, usize))
        ensures
            r.0@ == "activate MCP ["@ + match args@.field("mcp_names"@) {
                JsonView::Array(items) => joined(texts_among(items), ", "@),
                _ => "?"@,
            } + "]"@,
            r.1 == MAX_LABEL_SHORT,
    {
        let names: String = match args.get("mcp_names") {
            Some(j) => match text_items(j) {
                Some(v) => join(&v, ", "),
                None => "?".to_owned(),
            },
            None => "?".to_owned(),
        };
        let mut t: String = "activate MCP [".to_owned();
        t.append(names.as_str());
        t.append("]");
        (t, MAX_LABEL_SHORT)
    }

    /// The servers that a call names.
    pub fn request(&self, args: &Json) -> (r: Result<Vec<String>, String>)
        ensures
            match args@.field("mcp_names"@) {
                JsonView::Array(items) => if texts_among(items).len() == 0 {
                    r matches Err(e) && e@ == "show_mcp_tools: `mcp_names` is empty"@
                } else {
                    r matches Ok(v) && texts(v@) == texts_among(items)
                },
                _ => r matches Err(e) && e@ == "show_mcp_tools: `mcp_names` must be an array"@,
            },
    {
        let names: Option<Vec<String>> = match args.get("mcp_names") {
            Some(j) => text_items(j),
            None => None,
        };
        match names {
            None => Err("show_mcp_tools: `mcp_names` must be an array".to_owned()),
            Some(v) => {
                assert(texts(v@).len() == v@.len());
                if v.len() == 0 {
                    Err("show_mcp_tools: `mcp_names` is empty".to_owned())
                } else {
                    Ok(v)
                }
            },
        }
    }

    /// The answer of a call, given the servers that have tools.
    pub fn reply(&self, names: &Vec<String>, available: &Vec<String>) -> (r: String)
        ensures
            r@ == "MCP servers activated for this "@ + match self.stack_id {
                None => "session"@,
                Some(s) => "stack "@ + decimal(s as int),
            } + ": "@ + joined(
                texts(names@).map_values(|n: Seq<char>| activated(n, texts(available@))),
                ", "@,
            ) + ". Their tools are available from the next tool-call round."@,
    {
        let ghost all = texts(names@).map_values(|n: Seq<char>| activated(n, texts(available@)));
        let mut shown: Vec<String> = Vec::new();
        let mut i: usize = 0;
        while i < names.len()
            invariant
                i <= names@.len(),
                all == texts(names@).map_values(|n: Seq<char>| activated(n, texts(available@))),
                texts(shown@) == all.take(i as int),
            decreases names@.len() - i,
        {
            let ghost had = texts(shown@);
            let mut t: String = names[i].clone();
            if contains_item(available, names[i].as_str()) {
                t.append(" ✓");
            } else {
                t.append(" (registered but not yet running — tools will appear after reconnect)");
            }
            assert(t@ == all[i as int]);
            shown.push(t);
            assert(texts(shown@) =~= had.push(all[i as int]));
            i = i + 1;
            assert(texts(shown@) =~= all.take(i as int));
        }
        assert(all.take(all.len() as int) =~= all);
        let scope: String = match self.stack_id {
            None => "session".to_owned(),
            Some(s) => {
                let number: String = i64_text(s);
                let mut t: String = "stack ".to_owned();
                t.append(number.as_str());
                t
            },
        };
        let list: String = join(&shown, ", ");
        let mut t: String = "MCP servers activated for this ".to_owned();
        t.append(scope.as_str());
        t.append(": ");
        t.append(list.as_str());
        t.append(". Their tools are available from the next tool-call round.");
        t
    }
}

/// The tool that lists the MCP servers.
pub struct ListMcp;

impl ListMcp {
    pub fn name(&self) -> (r: &'static str)
        ensures
            r@ == "list_mcp"@,
    {
        "list_mcp"
    }

    pub fn category(&self) -> (r: ToolCategory)
        ensures
            r == ToolCategory::Introspection,
    {
        ToolCategory::Introspection
    }
}

/// What registers a server: a name and a transport, which are needed, and the
/// other settings as the call gives them. Arguments and variables are stored as
/// they were written.
pub proof fn law_server_registrations<'a>(tool: &RegisterMcp, args: &'a Json, r: Result<UpsertParams<'a>, String>)
    requires
        call_ensures(RegisterMcp::request, (tool, args), r),
    ensures
        r is Ok <==> args@.field("name"@) is Text && args@.field("transport"@) is Text,
        r matches Err(e) ==> e@ == if args@.field("name"@) is Text {
            "register_mcp: missing required argument `transport`"@
        } else {
            "register_mcp: missing required argument `name`"@
        },
        r matches Ok(p) ==> {
            &&& args@.field("name"@) == JsonView::Text(p.name@)
            &&& args@.field("transport"@) == JsonView::Text(p.transport@)
            &&& match args@.field("command"@) {
                JsonView::Text(t) => p.command is Some && p.command->Some_0@ == t,
                _ => p.command is None,
            }
            &&& match args@.field("url"@) {
                JsonView::Text(t) => p.url is Some && p.url->Some_0@ == t,
                _ => p.url is None,
            }
            &&& match args@.field("api_key"@) {
                JsonView::Text(t) => p.api_key is Some && p.api_key->Some_0@ == t,
                _ => p.api_key is None,
            }
            &&& match args@.field("description"@) {
                JsonView::Text(t) => p.description is Some && p.description->Some_0@ == t,
                _ => p.description is None,
            }
            &&& match args@.field("friendly_name"@) {
                JsonView::Text(t) => p.friendly_name is Some && p.friendly_name->Some_0@ == t,
                _ => p.friendly_name is None,
            }
            &&& p.args_json is Some <==> args@.field("args"@) is Array
            &&& p.env_json is Some <==> args@.field("env"@) is Object
        },
{
}

/// What is told of a registered server: the tools that it brings, or that there
/// are none.
pub proof fn law_registered_servers_are_told(tool: &RegisterMcp, name: &str, tools: &Vec<String>, r: String, sep: &str, list: String)
    requires
        call_ensures(RegisterMcp::reply, (tool, name, tools), r),
        call_ensures(join, (tools, sep), list),
        sep@ == ", "@,
    ensures
        tools@.len() == 0 ==> r@ == "MCP server '"@ + name@
            + "' registered and connected. Tools: "@ + "(none)"@,
        tools@.len() > 0 ==> r@ == "MCP server '"@ + name@ + "' registered and connected. Tools: "@
            + list@,
{
}

/// Which servers' tools are shown: those named, of which there has to be one.
pub proof fn law_shown_servers(
    tool: &ShowMcpTools,
    args: &Json,
    r: Result<Vec<String>, String>,
    field: Option<&Json>,
    key: &str,
    items: Option<Vec<String>>,
)
    requires
        call_ensures(ShowMcpTools::request, (tool, args), r),
        call_ensures(Json::get, (args, key), field),
        key@ == "mcp_names"@,
        field matches Some(j) ==> call_ensures(text_items, (j,), items),
        field is None ==> items is None,
    ensures
        r is Ok <==> items is Some && items->Some_0@.len() > 0,
        r matches Ok(v) ==> texts(v@) == texts(items->Some_0@),
        r matches Err(e) ==> e@ == if items is Some {
            "show_mcp_tools: `mcp_names` is empty"@
        } else {
            "show_mcp_tools: `mcp_names` must be an array"@
        },
{
    if items is Some {
        assert(texts(items->Some_0@).len() == items->Some_0@.len());
    }
}

/// What is told of the servers shown: of each whether it is running, for the
/// session or for one stack.
pub proof fn law_shown_servers_are_told(
    tool: &ShowMcpTools,
    names: &Vec<String>,
    available: &Vec<String>,
    r: String,
    told: &Vec<String>,
    sep: &str,
    list: String,
)
    requires
        call_ensures(ShowMcpTools::reply, (tool, names, available), r),
        told@.len() == names@.len(),
        forall|i: int|
            0 <= i < names@.len() ==> (#[trigger] told@[i])@ == names@[i]@ + if texts(
                available@,
            ).contains(names@[i]@) {
                " ✓"@
            } else {
                " (registered but not yet running — tools will appear after reconnect)"@
            },
        call_ensures(join, (told, sep), list),
        sep@ == ", "@,
    ensures
        r@ == "MCP servers activated for this "@ + (match tool.stack_id {
            None => "session"@,
            Some(s) => "stack "@ + decimal(s as int),
        }) + ": "@ + list@ + ". Their tools are available from the next tool-call round."@,
{
    let want = texts(names@).map_values(|n: Seq<char>| activated(n, texts(available@)));
    assert forall|i: int| 0 <= i < names@.len() implies texts(told@)[i] == want[i] by {
        assert(told@[i]@ == activated(names@[i]@, texts(available@)));
    }
    assert(texts(told@) =~= want);
}

/// How the tools on servers are named and described.
pub proof fn law_described_servers(tool: &ShowMcpTools, args: &Json, r: (String, usize), names: (&'static str, &'static str), register: &RegisterMcp)
    requires
        call_ensures(ShowMcpTools::describe, (tool, args), r),
        call_ensures(ShowMcpTools::name, (tool,), names.0),
        call_ensures(RegisterMcp::name, (register,), names.1),
    ensures
        !(args@.field("mcp_names"@) is Array) ==> r.0@ == "activate MCP ["@ + "?"@ + "]"@,
        args@.field("mcp_names"@) matches JsonView::Array(items) ==> r.0@ == "activate MCP ["@
            + joined(texts_among(items), ", "@) + "]"@,
        r.1 == 60,
        names.0@ == "show_mcp_tools"@ && names.1@ == "register_mcp"@,
{
}

/// What is stored of the arguments and variables of a server reads back as they
/// were given: the arguments in order, and under each name its variable.
pub proof fn law_settings_read_back<'a>(tool: &RegisterMcp, args: &'a Json, r: Result<UpsertParams<'a>, String>, key: Seq<char>)
    requires
        call_ensures(RegisterMcp::request, (tool, args), r),
    ensures
        r matches Ok(p) ==> (args@.field("args"@) matches JsonView::Array(items) ==> ((forall|i: int|
            0 <= i < items.len() ==> (#[trigger] items[i]) is Text) ==> p.args_json is Some
            && parsed_json(p.args_json->Some_0@) == Some(JsonView::Array(items)))),
        r matches Ok(p) ==> (args@.field("env"@) matches JsonView::Object(fields) ==> ((forall|i: int|
            0 <= i < fields.len() ==> (#[trigger] fields[i]).1 is Text) ==> p.env_json is Some && (
        parsed_json(p.env_json->Some_0@) matches Some(env) && env is Object && env.field(key)
            == args@.field("env"@).field(key)))),
{
}

} // verus!
