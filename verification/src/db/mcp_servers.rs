//! The stored MCP servers.
use vstd::prelude::*;

use crate::json::{
    array_texts, is_text_array, is_text_object, object_texts, pair_texts, parse_json, parsed_json,
    text_entries, text_list, Json, JsonView,
};
use crate::text::{opt_text, texts};

verus! {

/// A stored MCP server.
#[derive(Debug, Clone)]
pub struct McpServerRow {
    pub id: i64,
    pub name: String,
    pub transport: String,
    pub command: Option<String>,
    pub args_json: Option<String>,
    pub env_json: Option<String>,
    pub url: Option<String>,
    pub api_key: Option<String>,
    pub description: Option<String>,
    pub friendly_name: Option<String>,
    pub enabled: bool,
}

/// What a stored text reads as, if it is there and is JSON.
pub open spec fn stored_value(text: Option<Seq<char>>) -> Option<JsonView> {
    match text {
        Some(t) => parsed_json(t),
        None => None,
    }
}

/// The arguments that a stored value holds: none unless it is an array of
/// texts.
pub open spec fn arguments_of(value: Option<JsonView>) -> Seq<Seq<char>> {
    match value {
        Some(j) => if is_text_array(j) {
            array_texts(j)
        } else {
            Seq::empty()
        },
        None => Seq::empty(),
    }
}

/// The variables that a stored value holds: none unless it is an object of
/// texts.
pub open spec fn variables_of(value: Option<JsonView>) -> Seq<(Seq<char>, Seq<char>)> {
    match value {
        Some(j) => if is_text_object(j) {
            object_texts(j)
        } else {
            Seq::empty()
        },
        None => Seq::empty(),
    }
}

/// The arguments that a parsed value holds.
pub fn arguments_in(value: &Option<Json>) -> (r: Vec<String>)
    ensures
        texts(r@) == arguments_of(
            match *value {
                Some(j) => Some(j@),
                None => None,
            },
        ),
{
    match value {
        Some(j) => match text_list(j) {
            Some(v) => v,
            None => {
                let v: Vec<String> = Vec::new();
                assert(texts(v@) =~= Seq::empty());
                v
            },
        },
        None => {
            let v: Vec<String> = Vec::new();
            assert(texts(v@) =~= Seq::empty());
            v
        },
    }
}

/// The variables that a parsed value holds.
pub fn variables_in(value: &Option<Json>) -> (r: Vec<(String, String)>)
    ensures
        pair_texts(r@) == variables_of(
            match *value {
                Some(j) => Some(j@),
                None => None,
            },
        ),
{
    match value {
        Some(j) => match text_entries(j) {
            Some(v) => v,
            None => {
                let v: Vec<(String, String)> = Vec::new();
                assert(pair_texts(v@) =~= Seq::empty());
                v
            },
        },
        None => {
            let v: Vec<(String, String)> = Vec::new();
            assert(pair_texts(v@) =~= Seq::empty());
            v
        },
    }
}

fn parse_stored(text: &Option<String>) -> (r: Option<Json>)
    ensures
        match r {
            Some(j) => stored_value(opt_text(*text)) == Some(j@),
            None => stored_value(opt_text(*text)) is None,
        },
{
    match text {
        Some(t) => parse_json(t.as_str()),
        None => None,
    }
}

impl McpServerRow {
    /// The arguments of the server's command.
    pub fn args(&self) -> (r: Vec<String>)
        ensures
            texts(r@) == arguments_of(stored_value(opt_text(self.args_json))),
    {
        let value: Option<Json> = parse_stored(&self.args_json);
        arguments_in(&value)
    }

    /// The environment of the server's command. Of two variables of one name
    /// the later one counts.
    pub fn env(&self) -> (r: Vec<(String, String)>)
        ensures
            pair_texts(r@) == variables_of(stored_value(opt_text(self.env_json))),
    {
        let value: Option<Json> = parse_stored(&self.env_json);
        variables_in(&value)
    }
}

/// A row as read from the database.
pub struct RawRow {
    pub id: i64,
    pub name: String,
    pub transport: String,
    pub command: Option<String>,
    pub args_json: Option<String>,
    pub env_json: Option<String>,
    pub url: Option<String>,
    pub api_key: Option<String>,
    pub description: Option<String>,
    pub friendly_name: Option<String>,
    pub enabled: i64,
}

/// A server from its row: enabled unless the column holds zero.
pub fn from_raw(r: RawRow) -> (row: McpServerRow)
    ensures
        row == (McpServerRow {
            id: r.id,
            name: r.name,
            transport: r.transport,
            command: r.command,
            args_json: r.args_json,
            env_json: r.env_json,
            url: r.url,
            api_key: r.api_key,
            description: r.description,
            friendly_name: r.friendly_name,
            enabled: r.enabled != 0,
        }),
{
    McpServerRow {
        id: r.id,
        name: r.name,
        transport: r.transport,
        command: r.command,
        args_json: r.args_json,
        env_json: r.env_json,
        url: r.url,
        api_key: r.api_key,
        description: r.description,
        friendly_name: r.friendly_name,
        enabled: r.enabled != 0,
    }
}

/// A server to store, in place of one of the same name.
pub struct UpsertParams<'a> {
    pub name: &'a str,
    pub transport: &'a str,
    pub command: Option<&'a str>,
    pub args_json: Option<String>,
    pub env_json: Option<String>,
    pub url: Option<&'a str>,
    pub api_key: Option<&'a str>,
    pub description: Option<&'a str>,
    pub friendly_name: Option<&'a str>,
}

/// The stored arguments are those of a list of texts, and the stored variables
/// those of an object of texts; anything else counts as none.
pub proof fn law_stored_settings(value: &Option<Json>, args: Vec<String>, env: Vec<(String, String)>, i: int)
    requires
        call_ensures(arguments_in, (value,), args),
        call_ensures(variables_in, (value,), env),
    ensures
        value is None ==> args@.len() == 0 && env@.len() == 0,
        value matches Some(Json::Array(items)) ==> {
            &&& env@.len() == 0
            &&& (forall|k: int| 0 <= k < items@.len() ==> (#[trigger] items@[k])@ is Text)
                ==> args@.len() == items@.len() && (0 <= i < items@.len() ==> items@[i]@
                == JsonView::Text(args@[i]@))
            &&& (exists|k: int| 0 <= k < items@.len() && !((#[trigger] items@[k])@ is Text))
                ==> args@.len() == 0
        },
        value matches Some(Json::Object(fields)) ==> {
            &&& args@.len() == 0
            &&& (forall|k: int| 0 <= k < fields@.len() ==> (#[trigger] fields@[k]).1@ is Text)
                ==> env@.len() == fields@.len() && (0 <= i < fields@.len() ==> fields@[i].0@
                == env@[i].0@ && fields@[i].1@ == JsonView::Text(env@[i].1@))
            &&& (exists|k: int| 0 <= k < fields@.len() && !((#[trigger] fields@[k]).1@ is Text))
                ==> env@.len() == 0
        },
{
    assert(texts(args@).len() == args@.len());
    assert(pair_texts(env@).len() == env@.len());
    match *value {
        Some(Json::Array(items)) => {
            let j = value->Some_0@;
            let v = j->Array_0;
            assert forall|k: int| 0 <= k < items@.len() implies v[k] == (#[trigger] items@[k])@ by {}
            if forall|k: int| 0 <= k < items@.len() ==> (#[trigger] items@[k])@ is Text {
                assert forall|k: int| 0 <= k < v.len() implies (#[trigger] v[k]) is Text by {
                    assert(items@[k]@ is Text);
                }
                assert(is_text_array(j));
                if 0 <= i < items@.len() {
                    assert(texts(args@)[i] == args@[i]@);
                    assert(array_texts(j)[i] == v[i]->Text_0);
                    assert(items@[i]@ is Text);
                }
            }
            if exists|k: int| 0 <= k < items@.len() && !((#[trigger] items@[k])@ is Text) {
                let k = choose|k: int| 0 <= k < items@.len() && !((#[trigger] items@[k])@ is Text);
                assert(!(v[k] is Text));
                assert(!is_text_array(j));
            }
        },
        Some(Json::Object(fields)) => {
            let j = value->Some_0@;
            let v = j->Object_0;
            assert forall|k: int| 0 <= k < fields@.len() implies v[k] == (
                (#[trigger] fields@[k]).0@,
                fields@[k].1@,
            ) by {}
            if forall|k: int| 0 <= k < fields@.len() ==> (#[trigger] fields@[k]).1@ is Text {
                assert forall|k: int| 0 <= k < v.len() implies (#[trigger] v[k]).1 is Text by {
                    assert(fields@[k].1@ is Text);
                }
                assert(is_text_object(j));
                if 0 <= i < fields@.len() {
                    assert(pair_texts(env@)[i] == (env@[i].0@, env@[i].1@));
                    assert(object_texts(j)[i] == (v[i].0, v[i].1->Text_0));
                    assert(fields@[i].1@ is Text);
                }
            }
            if exists|k: int| 0 <= k < fields@.len() && !((#[trigger] fields@[k]).1@ is Text) {
                let k = choose|k: int|
                    0 <= k < fields@.len() && !((#[trigger] fields@[k]).1@ is Text);
                assert(!(v[k].1 is Text));
                assert(!is_text_object(j));
            }
        },
        _ => {},
    }
}

/// A server is enabled unless its row says zero.
pub proof fn law_enabled_servers(raw: RawRow, r: McpServerRow)
    requires
        call_ensures(from_raw, (raw,), r),
    ensures
        r.enabled <==> raw.enabled != 0,
        r.name == raw.name && r.transport == raw.transport && r.command == raw.command && r.args_json
            == raw.args_json && r.env_json == raw.env_json && r.url == raw.url && r.api_key
            == raw.api_key,
{
}

/// The arguments and variables of a server are what its row stores of them.
pub proof fn law_settings_of_rows(row: &McpServerRow, args: Vec<String>, env: Vec<(String, String)>, a: &Option<Json>, b: &Option<Json>, x: Vec<String>, y: Vec<(String, String)>)
    requires
        call_ensures(McpServerRow::args, (row,), args),
        call_ensures(McpServerRow::env, (row,), env),
        call_ensures(arguments_in, (a,), x),
        call_ensures(variables_in, (b,), y),
        match (row.args_json, *a) {
            (Some(t), Some(j)) => parsed_json(t@) == Some(j@),
            (Some(t), None) => parsed_json(t@) is None,
            (None, Some(_)) => false,
            (None, None) => true,
        },
        match (row.env_json, *b) {
            (Some(t), Some(j)) => parsed_json(t@) == Some(j@),
            (Some(t), None) => parsed_json(t@) is None,
            (None, Some(_)) => false,
            (None, None) => true,
        },
    ensures
        texts(args@) == texts(x@),
        pair_texts(env@) == pair_texts(y@),
{
}

} // verus!
