//! The tool that configures a plugin.
use vstd::prelude::*;

use crate::json::{copy_json, Json, JsonView};
use crate::text::{or_text, text_or};
use crate::tools::ToolCategory;

verus! {

/// A plugin to configure.
#[derive(Debug)]
pub struct PluginRequest {
    pub id: String,
    pub enabled: bool,
    /// The configuration, an object.
    pub config: Json,
}

/// Whether a call leaves the plugin enabled: unless it says otherwise.
pub open spec fn plugin_enabled(args: JsonView) -> bool {
    match args.field("enabled"@).as_bool() {
        Some(b) => b,
        None => true,
    }
}

/// The tool that configures a plugin and restarts it.
pub struct ConfigurePlugin;

impl ConfigurePlugin {
    pub fn name(&self) -> (r: &'static str)
        ensures
            r@ == "configure_plugin"@,
    {
        "configure_plugin"
    }

    pub fn category(&self) -> (r: ToolCategory)
        ensures
            r == ToolCategory::Config,
    {
        ToolCategory::Config
    }

    /// The label of a call.
    pub fn describe(&self, args: &Json) -> (r: String)
        ensures
            r@ == if plugin_enabled(args@) {
                "configure"@
            } else {
                "disable"@
            } + " plugin `"@ + or_text(args@.field("id"@).as_text(), "?"@) + "`"@,
    {
        let id: String = text_or(args.text_field("id"), "?");
        let mut t: String = if self.enabled(args) {
            "configure".to_owned()
        } else {
            "disable".to_owned()
        };
        t.append(" plugin `");
        t.append(id.as_str());
        t.append("`");
        t
    }

    fn enabled(&self, args: &Json) -> (r: bool)
        ensures
            r == plugin_enabled(args@),
    {
        match args.bool_field("enabled") {
            Some(b) => b,
            None => true,
        }
    }

    /// Reads a call.
    pub fn request(&self, args: &Json) -> (r: Result<PluginRequest, String>)
        ensures
            match args@.field("id"@).as_text() {
                None => r matches Err(e) && e@
                    == "configure_plugin: missing required argument `id`"@,
                Some(id) => if args@.field("config"@) is Object {
                    r matches Ok(q) && q.id@ == id && q.enabled == plugin_enabled(args@) && q.config@
                        == args@.field("config"@)
                } else {
                    r matches Err(e) && e@ == "configure_plugin: `config` must be an object"@
                },
            },
    {
        let id: String = match args.text_field("id") {
            Some(t) => t,
            None => {
                return Err("configure_plugin: missing required argument `id`".to_owned());
            },
        };
        match args.get("config") {
            Some(j) => match j {
                Json::Object(_) => Ok(
                    PluginRequest { id, enabled: self.enabled(args), config: copy_json(j) },
                ),
                _ => Err("configure_plugin: `config` must be an object".to_owned()),
            },
            None => Err("configure_plugin: `config` must be an object".to_owned()),
        }
    }

    /// The answer of a call that was carried out.
    pub fn reply(&self, q: &PluginRequest) -> (r: String)
        ensures
            r@ == "Plugin '"@ + q.id@ + "' configured and "@ + if q.enabled {
                "started"@
            } else {
                "stopped"@
            } + "."@,
    {
        let mut t: String = "Plugin '".to_owned();
        t.append(q.id.as_str());
        t.append("' configured and ");
        if q.enabled {
            t.append("started");
        } else {
            t.append("stopped");
        }
        t.append(".");
        t
    }
}

/// A plugin is configured by its id and an object of settings, and switched on
/// unless the call says otherwise.
pub proof fn law_plugin_requests(tool: &ConfigurePlugin, args: &Json, r: Result<PluginRequest, String>, q: &PluginRequest, told: String)
    requires
        call_ensures(ConfigurePlugin::request, (tool, args), r),
        call_ensures(ConfigurePlugin::reply, (tool, q), told),
    ensures
        r is Ok <==> args@.field("id"@) is Text && args@.field("config"@) is Object,
        r matches Ok(p) ==> args@.field("id"@) == JsonView::Text(p.id@) && p.config@
            == args@.field("config"@) && (!p.enabled <==> args@.field("enabled"@)
            == JsonView::Bool(false)),
        r matches Err(e) ==> e@ == if args@.field("id"@) is Text {
            "configure_plugin: `config` must be an object"@
        } else {
            "configure_plugin: missing required argument `id`"@
        },
        told@ == "Plugin '"@ + q.id@ + "' configured and "@ + (if q.enabled {
            "started"@
        } else {
            "stopped"@
        }) + "."@,
{
}

/// How the tool on plugins is named and described.
pub proof fn law_described_plugins(tool: &ConfigurePlugin, args: &Json, r: String, name: &'static str)
    requires
        call_ensures(ConfigurePlugin::describe, (tool, args), r),
        call_ensures(ConfigurePlugin::name, (tool,), name),
    ensures
        r@ == (if args@.field("enabled"@) == JsonView::Bool(false) {
            "disable"@
        } else {
            "configure"@
        }) + " plugin `"@ + (match args@.field("id"@) {
            JsonView::Text(t) => t,
            _ => "?"@,
        }) + "`"@,
        name@ == "configure_plugin"@,
{
}

} // verus!
