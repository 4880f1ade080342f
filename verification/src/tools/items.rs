//! Listing and toggling configured items: MCP servers, plugins, scheduled
//! tasks and agents.
use vstd::prelude::*;

use crate::db::scheduled_jobs::ScheduledJob;
use crate::json::{
    json_array, json_pretty, opt_json, stored_json, write_pretty, Json, JsonView, ObjectBuilder,
};
use crate::numerals::{decimal, i64_text, parse_i64, parsed_i64};
use crate::text::{lemma_filter_last, opt_text, str_eq};
use crate::tools::ToolCategory;

verus! {

/// What can be listed.
#[derive(Debug, Clone, Copy, PartialEq, Eq, Structural)]
pub enum ItemType {
    Mcp,
    Plugins,
    Cron,
    Agents,
}

/// What a listing lists, or why it is refused.
pub open spec fn is_listed(r: Result<ItemType, String>, args: JsonView) -> bool {
    match args.field("type"@).as_text() {
        None => r matches Err(e) && e@ == "list_items: missing required argument `type`"@,
        Some(t) => if t == "mcp"@ {
            r == Ok::<ItemType, String>(ItemType::Mcp)
        } else if t == "plugins"@ {
            r == Ok::<ItemType, String>(ItemType::Plugins)
        } else if t == "cron"@ {
            r == Ok::<ItemType, String>(ItemType::Cron)
        } else if t == "agents"@ {
            r == Ok::<ItemType, String>(ItemType::Agents)
        } else {
            r matches Err(e) && e@ == "list_items: unknown type `"@ + t
                + "` (expected one of: mcp, plugins, cron, agents)"@
        },
    }
}

/// A job as listed.
pub open spec fn job_entry(j: ScheduledJob) -> JsonView {
    JsonView::Object(
        seq![
            ("id"@, JsonView::Number(decimal(j.id as int))),
            ("title"@, JsonView::Text(j.title@)),
            ("description"@, JsonView::Text(j.description@)),
            ("cron"@, JsonView::Text(j.cron@)),
            ("agent_id"@, JsonView::Text(j.agent_id@)),
            ("enabled"@, JsonView::Bool(j.enabled)),
            ("single_run"@, JsonView::Bool(j.single_run)),
            ("kind"@, JsonView::Text(j.kind@)),
            ("last_run_at"@, opt_json(opt_text(j.last_run_at))),
            ("next_run_at"@, opt_json(opt_text(j.next_run_at))),
            ("created_at"@, JsonView::Text(j.created_at@)),
        ],
    )
}

/// The listing of jobs.
pub open spec fn jobs_listing(jobs: Seq<ScheduledJob>) -> Seq<char> {
    if jobs.len() == 0 {
        "No tasks configured."@
    } else {
        json_pretty(
            stored_json(JsonView::Array(jobs.map_values(|j: ScheduledJob| job_entry(j)))),
        )
    }
}

fn job_json(j: &ScheduledJob) -> (r: Json)
    ensures
        r@ == job_entry(*j),
{
    let b: ObjectBuilder = ObjectBuilder::new().with_i64("id", j.id).with_text(
        "title",
        j.title.as_str(),
    ).with_text("description", j.description.as_str()).with_text("cron", j.cron.as_str()).with_text(
        "agent_id",
        j.agent_id.as_str(),
    ).with_bool("enabled", j.enabled).with_bool("single_run", j.single_run).with_text(
        "kind",
        j.kind.as_str(),
    ).with_opt_text("last_run_at", &j.last_run_at).with_opt_text("next_run_at", &j.next_run_at).with_text(
        "created_at",
        j.created_at.as_str(),
    );
    assert(b.entries() =~= job_entry(*j)->Object_0);
    b.build()
}

/// An agent that was found.
#[derive(Debug)]
pub struct AgentInfo {
    pub id: String,
    pub name: String,
    pub description: String,
    pub client: Option<String>,
    pub is_system_agent: bool,
}

/// An agent as listed: its client only where it has one.
pub open spec fn agent_entry(a: AgentInfo) -> JsonView {
    let base = seq![
        ("id"@, JsonView::Text(a.id@)),
        ("name"@, JsonView::Text(a.name@)),
        ("description"@, JsonView::Text(a.description@)),
    ];
    JsonView::Object(
        match a.client {
            Some(c) => base.push(("client"@, JsonView::Text(c@))),
            None => base,
        },
    )
}

/// Whether an agent is listed: it is neither the main agent nor one of the
/// system.
pub open spec fn is_delegate() -> spec_fn(AgentInfo) -> bool {
    |a: AgentInfo| a.id@ != "main"@ && !a.is_system_agent
}

/// The entries of those among the first `n` agents that are listed.
pub open spec fn agent_entries(agents: Seq<AgentInfo>) -> Seq<JsonView> {
    agents.filter(is_delegate()).map_values(|a: AgentInfo| agent_entry(a))
}

fn agent_json(a: &AgentInfo) -> (r: Json)
    ensures
        r@ == agent_entry(*a),
{
    let b: ObjectBuilder = ObjectBuilder::new().with_text("id", a.id.as_str()).with_text(
        "name",
        a.name.as_str(),
    ).with_text("description", a.description.as_str());
    match &a.client {
        Some(c) => {
            let b: ObjectBuilder = b.with_text("client", c.as_str());
            assert(b.entries() =~= agent_entry(*a)->Object_0);
            b.build()
        },
        None => {
            assert(b.entries() =~= agent_entry(*a)->Object_0);
            b.build()
        },
    }
}

/// The tool that lists configured items.
pub struct ListItems;

impl ListItems {
    pub fn name(&self) -> (r: &'static str)
        ensures
            r@ == "list_items"@,
    {
        "list_items"
    }

    pub fn category(&self) -> (r: ToolCategory)
        ensures
            r == ToolCategory::Introspection,
    {
        ToolCategory::Introspection
    }

    /// What a call of `list_items` lists.
    pub fn kind(&self, args: &Json) -> (r: Result<ItemType, String>)
        ensures
            is_listed(r, args@),
    {
        match args.text_field("type") {
            None => Err("list_items: missing required argument `type`".to_owned()),
            Some(t) => if str_eq(t.as_str(), "mcp") {
                Ok(ItemType::Mcp)
            } else if str_eq(t.as_str(), "plugins") {
                Ok(ItemType::Plugins)
            } else if str_eq(t.as_str(), "cron") {
                Ok(ItemType::Cron)
            } else if str_eq(t.as_str(), "agents") {
                Ok(ItemType::Agents)
            } else {
                let mut e: String = "list_items: unknown type `".to_owned();
                e.append(t.as_str());
                e.append("` (expected one of: mcp, plugins, cron, agents)");
                Err(e)
            },
        }
    }

    /// The label of a `list_items` call.
    pub fn describe(&self, args: &Json) -> (r: String)
        ensures
            r@ == "list "@ + match args@.field("type"@).as_text() {
                Some(t) => t,
                None => "?"@,
            },
    {
        let kind: String = match args.text_field("type") {
            Some(t) => t,
            None => "?".to_owned(),
        };
        let mut out: String = "list ".to_owned();
        out.append(kind.as_str());
        out
    }

    /// Lists the scheduled jobs.
    pub fn jobs(&self, jobs: &Vec<ScheduledJob>) -> (r: String)
        ensures
            r@ == jobs_listing(jobs@),
    {
        if jobs.len() == 0 {
            return "No tasks configured.".to_owned();
        }
        let ghost all = jobs@.map_values(|j: ScheduledJob| job_entry(j));
        let mut out: Vec<Json> = Vec::new();
        let mut i: usize = 0;
        while i < jobs.len()
            invariant
                i <= jobs@.len(),
                all == jobs@.map_values(|j: ScheduledJob| job_entry(j)),
                out@.map_values(|j: Json| j@) == all.take(i as int),
            decreases jobs@.len() - i,
        {
            let ghost had = out@.map_values(|j: Json| j@);
            out.push(job_json(&jobs[i]));
            assert(out@.map_values(|j: Json| j@) =~= had.push(all[i as int]));
            i = i + 1;
            assert(out@.map_values(|j: Json| j@) =~= all.take(i as int));
        }
        assert(all.take(all.len() as int) =~= all);
        let j: Json = json_array(out);
        write_pretty(&j)
    }

    /// Lists the agents that work can be delegated to.
    pub fn agents(&self, agents: &Vec<AgentInfo>) -> (r: String)
        ensures
            r@ == json_pretty(stored_json(JsonView::Array(agent_entries(agents@)))),
    {
        let mut out: Vec<Json> = Vec::new();
        let mut i: usize = 0;
        assert(out@.map_values(|j: Json| j@) =~= agent_entries(agents@.take(0))) by {
            reveal(Seq::filter);
        }
        while i < agents.len()
            invariant
                i <= agents@.len(),
                out@.map_values(|j: Json| j@) == agent_entries(agents@.take(i as int)),
            decreases agents@.len() - i,
        {
            let ghost had = out@.map_values(|j: Json| j@);
            proof {
                assert(agents@.take(i + 1).drop_last() =~= agents@.take(i as int));
                lemma_filter_last(agents@.take(i + 1), is_delegate());
            }
            let a: &AgentInfo = &agents[i];
            if !str_eq(a.id.as_str(), "main") && !a.is_system_agent {
                out.push(agent_json(a));
                assert(out@.map_values(|j: Json| j@) =~= had.push(agent_entry(agents@[i as int])));
                assert(agent_entries(agents@.take(i + 1)) =~= had.push(agent_entry(agents@[i as int])));
            } else {
                assert(agent_entries(agents@.take(i + 1)) =~= had);
            }
            i = i + 1;
        }
        assert(agents@.take(agents@.len() as int) =~= agents@);
        let j: Json = json_array(out);
        assert(j@ == JsonView::Array(agent_entries(agents@)));
        write_pretty(&j)
    }
}

/// What is toggled.
#[derive(Debug)]
pub enum ToggleTarget {
    Mcp,
    Plugin,
    /// The scheduled task of this id.
    Cron(i64),
}

/// A request to enable or disable an item.
#[derive(Debug)]
pub struct ToggleRequest {
    pub target: ToggleTarget,
    pub id: String,
    pub enabled: bool,
}

/// Why a `toggle_item` call is refused, if it is.
pub open spec fn toggle_refusal(args: JsonView) -> Option<Seq<char>> {
    match args.field("kind"@).as_text() {
        None => Some("toggle_item: missing required argument `kind`"@),
        Some(kind) => match args.field("id"@).as_text() {
            None => Some("toggle_item: missing required argument `id`"@),
            Some(id) => if args.field("enabled"@).as_bool() is None {
                Some("toggle_item: missing required argument `enabled`"@)
            } else if kind == "mcp"@ || kind == "plugin"@ {
                None
            } else if kind == "cron"@ {
                if parsed_i64(id) is None {
                    Some(
                        "toggle_item: for kind=cron, `id` must be a numeric job id (got '"@ + id
                            + "')"@,
                    )
                } else {
                    None
                }
            } else {
                Some(
                    "toggle_item: unknown kind `"@ + kind
                        + "` (expected one of: mcp, plugin, cron)"@,
                )
            },
        },
    }
}

/// What a toggled item answers. `found` says whether a task of that id exists.
pub open spec fn toggle_reply_of(q: ToggleRequest, found: bool) -> Seq<char> {
    match q.target {
        ToggleTarget::Mcp => "MCP server '"@ + q.id@ + "' is now "@ + if q.enabled {
            "enabled"@
        } else {
            "disabled"@
        } + ". Note: a restart is required for the change to take effect on running servers."@,
        ToggleTarget::Plugin => "Plugin '"@ + q.id@ + "' is now "@ + if q.enabled {
            "enabled and running"@
        } else {
            "disabled and stopped"@
        } + "."@,
        ToggleTarget::Cron(n) => if found {
            "Task "@ + decimal(n as int) + " "@ + if q.enabled {
                "enabled"@
            } else {
                "disabled"@
            } + "."@
        } else {
            "No task with id "@ + decimal(n as int) + "."@
        },
    }
}

/// The tool that enables or disables an item.
pub struct ToggleItem;

impl ToggleItem {
    pub fn name(&self) -> (r: &'static str)
        ensures
            r@ == "toggle_item"@,
    {
        "toggle_item"
    }

    pub fn category(&self) -> (r: ToolCategory)
        ensures
            r == ToolCategory::Config,
    {
        ToolCategory::Config
    }

    /// Reads a `toggle_item` call.
    pub fn request(&self, args: &Json) -> (r: Result<ToggleRequest, String>)
        ensures
            match r {
                Ok(q) => {
                    let kind = args@.field("kind"@).as_text();
                    &&& toggle_refusal(args@) is None
                    &&& args@.field("id"@).as_text() == Some(q.id@)
                    &&& args@.field("enabled"@).as_bool() == Some(q.enabled)
                    &&& match q.target {
                        ToggleTarget::Mcp => kind == Some("mcp"@),
                        ToggleTarget::Plugin => kind == Some("plugin"@),
                        ToggleTarget::Cron(n) => kind == Some("cron"@) && parsed_i64(q.id@) == Some(
                            n as int,
                        ),
                    }
                },
                Err(e) => toggle_refusal(args@) == Some(e@),
            },
    {
        let kind: String = match args.text_field("kind") {
            Some(t) => t,
            None => {
                return Err("toggle_item: missing required argument `kind`".to_owned());
            },
        };
        let id: String = match args.text_field("id") {
            Some(t) => t,
            None => {
                return Err("toggle_item: missing required argument `id`".to_owned());
            },
        };
        let enabled: bool = match args.bool_field("enabled") {
            Some(b) => b,
            None => {
                return Err("toggle_item: missing required argument `enabled`".to_owned());
            },
        };
        proof {
            reveal_strlit("mcp");
            reveal_strlit("plugin");
            reveal_strlit("cron");
            assert("mcp"@.len() == 3 && "plugin"@.len() == 6 && "cron"@.len() == 4);
        }
        if str_eq(kind.as_str(), "mcp") {
            Ok(ToggleRequest { target: ToggleTarget::Mcp, id, enabled })
        } else if str_eq(kind.as_str(), "plugin") {
            Ok(ToggleRequest { target: ToggleTarget::Plugin, id, enabled })
        } else if str_eq(kind.as_str(), "cron") {
            match parse_i64(id.as_str()) {
                Some(n) => Ok(ToggleRequest { target: ToggleTarget::Cron(n), id, enabled }),
                None => {
                    let mut e: String =
                        "toggle_item: for kind=cron, `id` must be a numeric job id (got '".to_owned();
                    e.append(id.as_str());
                    e.append("')");
                    Err(e)
                },
            }
        } else {
            let mut e: String = "toggle_item: unknown kind `".to_owned();
            e.append(kind.as_str());
            e.append("` (expected one of: mcp, plugin, cron)");
            Err(e)
        }
    }

    /// The answer of a `toggle_item` call that was carried out.
    pub fn reply(&self, q: &ToggleRequest, found: bool) -> (r: String)
        ensures
            r@ == toggle_reply_of(*q, found),
    {
        match q.target {
            ToggleTarget::Mcp => {
                let mut t: String = "MCP server '".to_owned();
                t.append(q.id.as_str());
                t.append("' is now ");
                if q.enabled {
                    t.append("enabled");
                } else {
                    t.append("disabled");
                }
                t.append(
                    ". Note: a restart is required for the change to take effect on running servers.",
                );
                t
            },
            ToggleTarget::Plugin => {
                let mut t: String = "Plugin '".to_owned();
                t.append(q.id.as_str());
                t.append("' is now ");
                if q.enabled {
                    t.append("enabled and running");
                } else {
                    t.append("disabled and stopped");
                }
                t.append(".");
                t
            },
            ToggleTarget::Cron(n) => {
                let number: String = i64_text(n);
                if found {
                    let mut t: String = "Task ".to_owned();
                    t.append(number.as_str());
                    t.append(" ");
                    if q.enabled {
                        t.append("enabled");
                    } else {
                        t.append("disabled");
                    }
                    t.append(".");
                    t
                } else {
                    let mut t: String = "No task with id ".to_owned();
                    t.append(number.as_str());
                    t.append(".");
                    t
                }
            },
        }
    }

    /// The label of a `toggle_item` call.
    pub fn describe(&self, args: &Json) -> (r: String)
        ensures
            r@ == if args@.field("enabled"@).as_bool() == Some(false) {
                "disable"@
            } else {
                "enable"@
            } + " "@ + match args@.field("kind"@).as_text() {
                Some(t) => t,
                None => "?"@,
            } + " `"@ + match args@.field("id"@).as_text() {
                Some(t) => t,
                None => "?"@,
            } + "`"@,
    {
        let enabled: bool = match args.bool_field("enabled") {
            Some(b) => b,
            None => true,
        };
        let mut t: String = if enabled {
            "enable".to_owned()
        } else {
            "disable".to_owned()
        };
        let kind: String = match args.text_field("kind") {
            Some(k) => k,
            None => "?".to_owned(),
        };
        let id: String = match args.text_field("id") {
            Some(k) => k,
            None => "?".to_owned(),
        };
        t.append(" ");
        t.append(kind.as_str());
        t.append(" `");
        t.append(id.as_str());
        t.append("`");
        t
    }
}

/// What is to be listed, by its name; another name, and none at all, is
/// refused.
pub proof fn law_what_is_listed(tool: &ListItems, args: &Json, r: Result<ItemType, String>)
    requires
        call_ensures(ListItems::kind, (tool, args), r),
    ensures
        r matches Ok(k) ==> args@.field("type"@) == JsonView::Text(
            match k {
                ItemType::Mcp => "mcp"@,
                ItemType::Plugins => "plugins"@,
                ItemType::Cron => "cron"@,
                ItemType::Agents => "agents"@,
            },
        ),
        r is Ok <==> args@.field("type"@) == JsonView::Text("mcp"@) || args@.field("type"@)
            == JsonView::Text("plugins"@) || args@.field("type"@) == JsonView::Text("cron"@)
            || args@.field("type"@) == JsonView::Text("agents"@),
        r matches Err(e) ==> e@ == match args@.field("type"@) {
            JsonView::Text(t) => "list_items: unknown type `"@ + t
                + "` (expected one of: mcp, plugins, cron, agents)"@,
            _ => "list_items: missing required argument `type`"@,
        },
{
}

/// The list of jobs: a sentence where there are none, else each job in turn
/// with all that is told of it.
pub proof fn law_listed_jobs(tool: &ListItems, jobs: &Vec<ScheduledJob>, r: String, list: &Json, written: String)
    requires
        call_ensures(ListItems::jobs, (tool, jobs), r),
        call_ensures(write_pretty, (list,), written),
        list@ is Array,
        list@->Array_0.len() == jobs@.len(),
        forall|i: int|
            0 <= i < jobs@.len() ==> (#[trigger] list@->Array_0[i]) == JsonView::Object(
                seq![
                    ("id"@, JsonView::Number(decimal(jobs@[i].id as int))),
                    ("title"@, JsonView::Text(jobs@[i].title@)),
                    ("description"@, JsonView::Text(jobs@[i].description@)),
                    ("cron"@, JsonView::Text(jobs@[i].cron@)),
                    ("agent_id"@, JsonView::Text(jobs@[i].agent_id@)),
                    ("enabled"@, JsonView::Bool(jobs@[i].enabled)),
                    ("single_run"@, JsonView::Bool(jobs@[i].single_run)),
                    ("kind"@, JsonView::Text(jobs@[i].kind@)),
                    ("last_run_at"@, match jobs@[i].last_run_at {
                        Some(t) => JsonView::Text(t@),
                        None => JsonView::Null,
                    }),
                    ("next_run_at"@, match jobs@[i].next_run_at {
                        Some(t) => JsonView::Text(t@),
                        None => JsonView::Null,
                    }),
                    ("created_at"@, JsonView::Text(jobs@[i].created_at@)),
                ],
            ),
    ensures
        jobs@.len() == 0 ==> r@ == "No tasks configured."@,
        jobs@.len() > 0 ==> r@ == written@,
{
    let want = jobs@.map_values(|j: ScheduledJob| job_entry(j));
    assert forall|i: int| 0 <= i < jobs@.len() implies list@->Array_0[i] == want[i] by {
        let have = list@->Array_0[i]->Object_0;
        let entry = job_entry(jobs@[i])->Object_0;
        assert(have[8] == entry[8] && have[9] == entry[9]);
        assert(have =~= entry);
    }
    assert(list@->Array_0 =~= want);
    assert(list@ == JsonView::Array(want));
}

/// The agents that may be called: all but `main` and the system's own.
pub proof fn law_listed_agents(tool: &ListItems, agents: &Vec<AgentInfo>, more: &Vec<AgentInfo>, a: AgentInfo, r: String, s: String, list: &Json, longer: &Json, written: String, written_longer: String)
    requires
        call_ensures(ListItems::agents, (tool, agents), r),
        call_ensures(ListItems::agents, (tool, more), s),
        more@ == agents@.push(a),
        list@ == JsonView::Array(agent_entries(agents@)),
        call_ensures(write_pretty, (list,), written),
        call_ensures(write_pretty, (longer,), written_longer),
        longer@ == JsonView::Array(
            if a.id@ == "main"@ || a.is_system_agent {
                agent_entries(agents@)
            } else {
                agent_entries(agents@).push(
                    JsonView::Object(
                        match a.client {
                            Some(c) => seq![
                                ("id"@, JsonView::Text(a.id@)),
                                ("name"@, JsonView::Text(a.name@)),
                                ("description"@, JsonView::Text(a.description@)),
                                ("client"@, JsonView::Text(c@)),
                            ],
                            None => seq![
                                ("id"@, JsonView::Text(a.id@)),
                                ("name"@, JsonView::Text(a.name@)),
                                ("description"@, JsonView::Text(a.description@)),
                            ],
                        },
                    ),
                )
            },
        ),
    ensures
        r@ == written@,
        s@ == written_longer@,
        agents@.len() == 0 ==> agent_entries(agents@).len() == 0,
{
    lemma_filter_last(more@, is_delegate());
    assert(more@.drop_last() =~= agents@);
    let before = agents@.filter(is_delegate());
    let base = seq![
        ("id"@, JsonView::Text(a.id@)),
        ("name"@, JsonView::Text(a.name@)),
        ("description"@, JsonView::Text(a.description@)),
    ];
    if a.client is Some {
        assert(base.push(("client"@, JsonView::Text(a.client->Some_0@))) =~= seq![
            ("id"@, JsonView::Text(a.id@)),
            ("name"@, JsonView::Text(a.name@)),
            ("description"@, JsonView::Text(a.description@)),
            ("client"@, JsonView::Text(a.client->Some_0@)),
        ]);
    }
    assert(before.push(a).map_values(|x: AgentInfo| agent_entry(x)) =~= agent_entries(agents@).push(
        agent_entry(a),
    ));
    assert(longer@ == JsonView::Array(agent_entries(more@)));
    if agents@.len() == 0 {
        reveal(Seq::filter);
    }
}

/// What is switched: a server or a plugin by its id, a job by its number. All
/// three arguments are needed, and no other kind can be switched.
pub proof fn law_what_is_switched(tool: &ToggleItem, args: &Json, r: Result<ToggleRequest, String>)
    requires
        call_ensures(ToggleItem::request, (tool, args), r),
    ensures
        r matches Ok(q) ==> args@.field("id"@) == JsonView::Text(q.id@) && args@.field("enabled"@)
            == JsonView::Bool(q.enabled) && (match q.target {
            ToggleTarget::Mcp => args@.field("kind"@) == JsonView::Text("mcp"@),
            ToggleTarget::Plugin => args@.field("kind"@) == JsonView::Text("plugin"@),
            ToggleTarget::Cron(n) => args@.field("kind"@) == JsonView::Text("cron"@) && parsed_i64(
                q.id@,
            ) == Some(n as int),
        }),
        r is Ok <==> args@.field("id"@) is Text && args@.field("enabled"@) is Bool && (
        args@.field("kind"@) == JsonView::Text("mcp"@) || args@.field("kind"@) == JsonView::Text(
            "plugin"@,
        ) || (args@.field("kind"@) == JsonView::Text("cron"@) && parsed_i64(
            args@.field("id"@)->Text_0,
        ) is Some)),
        r matches Err(e) ==> e@ == if !(args@.field("kind"@) is Text) {
            "toggle_item: missing required argument `kind`"@
        } else if !(args@.field("id"@) is Text) {
            "toggle_item: missing required argument `id`"@
        } else if !(args@.field("enabled"@) is Bool) {
            "toggle_item: missing required argument `enabled`"@
        } else if args@.field("kind"@) == JsonView::Text("cron"@) {
            "toggle_item: for kind=cron, `id` must be a numeric job id (got '"@
                + args@.field("id"@)->Text_0 + "')"@
        } else {
            "toggle_item: unknown kind `"@ + args@.field("kind"@)->Text_0
                + "` (expected one of: mcp, plugin, cron)"@
        },
{
    reveal_strlit("mcp");
    reveal_strlit("plugin");
    reveal_strlit("cron");
    assert("mcp"@.len() == 3 && "plugin"@.len() == 6 && "cron"@.len() == 4);
}

/// What is told of a switch.
pub proof fn law_switches_are_told(tool: &ToggleItem, q: &ToggleRequest, found: bool, r: String)
    requires
        call_ensures(ToggleItem::reply, (tool, q, found), r),
    ensures
        q.target is Mcp ==> r@ == "MCP server '"@ + q.id@ + "' is now "@ + (if q.enabled {
            "enabled"@
        } else {
            "disabled"@
        }) + ". Note: a restart is required for the change to take effect on running servers."@,
        q.target is Plugin ==> r@ == "Plugin '"@ + q.id@ + "' is now "@ + (if q.enabled {
            "enabled and running"@
        } else {
            "disabled and stopped"@
        }) + "."@,
        q.target matches ToggleTarget::Cron(n) ==> r@ == if found {
            "Task "@ + decimal(n as int) + " "@ + (if q.enabled {
                "enabled"@
            } else {
                "disabled"@
            }) + "."@
        } else {
            "No task with id "@ + decimal(n as int) + "."@
        },
{
}

/// How the tools on items are named and described.
pub proof fn law_described_items(a: &ListItems, b: &ToggleItem, args: &Json, x: String, y: String, name: &'static str, other: &'static str)
    requires
        call_ensures(ListItems::describe, (a, args), x),
        call_ensures(ToggleItem::describe, (b, args), y),
        call_ensures(ListItems::name, (a,), name),
        call_ensures(ToggleItem::name, (b,), other),
    ensures
        x@ == "list "@ + (match args@.field("type"@) {
            JsonView::Text(t) => t,
            _ => "?"@,
        }),
        y@ == (if args@.field("enabled"@) == JsonView::Bool(false) {
            "disable"@
        } else {
            "enable"@
        }) + " "@ + (match args@.field("kind"@) {
            JsonView::Text(t) => t,
            _ => "?"@,
        }) + " `"@ + (match args@.field("id"@) {
            JsonView::Text(t) => t,
            _ => "?"@,
        }) + "`"@,
        name@ == "list_items"@ && other@ == "toggle_item"@,
{
}

} // verus!
