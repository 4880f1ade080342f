//! The parts of the prompt around the conversation: the static system prompt,
//! the list of MCP servers, and the line on date and place.
use vstd::prelude::*;

use crate::config::DatetimeConfig;
use crate::paths::{
    components, is_absolute, law_relative_path_leads_back, join_text, path_join, path_text,
    relative_text, under,
};
use crate::session::dispatch::{find_name, name_index};
use crate::sorting::{by_text, dedup_texts, deduped, sort_texts, stable_sorted};
use crate::text::{opt_text, replace, replaced, str_eq, texts};

verus! {

/// A memory file of an agent: the path shown and what it holds, if it exists.
#[derive(Debug)]
pub struct MemoryFile {
    pub path: String,
    pub content: Option<String>,
}

/// The blocks for memory files, in order.
pub open spec fn memory_blocks(files: Seq<MemoryFile>) -> Seq<char>
    decreases files.len(),
{
    if files.len() == 0 {
        Seq::empty()
    } else {
        memory_blocks(files.drop_last()) + ("\n<memory_file path=\""@ + files.last().path@ + "\">\n"@
            + match files.last().content {
            Some(c) => c@,
            None => "(file not created yet)"@,
        } + "\n</memory_file>\n"@)
    }
}

/// The section on memory files; none where the agent has none.
pub open spec fn memory_section(files: Seq<MemoryFile>) -> Seq<char> {
    if files.len() == 0 {
        Seq::empty()
    } else {
        "\n\n---\nThe following memory files have been loaded automatically. You can edit them with `edit_file` or `write_file` using the path shown.\n"@
            + memory_blocks(files)
    }
}

/// The section on installed skills: the path shown and the index.
pub open spec fn skills_section(skills: Option<(String, String)>) -> Seq<char> {
    match skills {
        Some((path, index)) => "\n\n---\nInstalled skills you can use (read the linked `SKILL.md` before running a skill):\n\n<skills_index path=\""@
            + path@ + "\">\n"@ + index@ + "\n</skills_index>\n"@,
        None => Seq::empty(),
    }
}

/// The section the interface adds.
pub open spec fn extra_section(extra: Option<String>) -> Seq<char> {
    match extra {
        Some(t) => "\n\n---\n"@ + t@,
        None => Seq::empty(),
    }
}

/// A text with each key, between double underscores, replaced by its value,
/// one after the other.
pub open spec fn substituted(s: Seq<char>, subs: Seq<(String, String)>) -> Seq<char>
    decreases subs.len(),
{
    if subs.len() == 0 {
        s
    } else {
        replaced(
            substituted(s, subs.drop_last()),
            "__"@ + subs.last().0@ + "__"@,
            subs.last().1@,
        )
    }
}

/// What goes into the static system prompt.
pub struct StaticParts {
    /// The agent's own prompt.
    pub prompt: String,
    pub memory: Vec<MemoryFile>,
    /// The path and the content of the skills index, where it is injected and
    /// exists.
    pub skills: Option<(String, String)>,
    pub extra: Option<String>,
    /// What stands for `__MCP_LIST__`.
    pub mcp_list: String,
    pub substitutions: Vec<(String, String)>,
}

/// The static system prompt.
pub open spec fn static_prompt_of(p: StaticParts) -> Seq<char> {
    let body = p.prompt@ + memory_section(p.memory@) + skills_section(p.skills) + extra_section(
        p.extra,
    );
    substituted(replaced(body, "__MCP_LIST__"@, p.mcp_list@), p.substitutions@)
}

pub fn render_memory(files: &Vec<MemoryFile>) -> (r: String)
    ensures
        r@ == memory_section(files@),
{
    if files.len() == 0 {
        return String::new();
    }
    let mut blocks: String = String::new();
    let mut i: usize = 0;
    assert(blocks@ =~= memory_blocks(files@.take(0)));
    while i < files.len()
        invariant
            i <= files@.len(),
            blocks@ == memory_blocks(files@.take(i as int)),
        decreases files@.len() - i,
    {
        assert(files@.take(i + 1).drop_last() =~= files@.take(i as int));
        let mut block: String = "\n<memory_file path=\"".to_owned();
        block.append(files[i].path.as_str());
        block.append("\">\n");
        match &files[i].content {
            Some(c) => {
                block.append(c.as_str());
            },
            None => {
                block.append("(file not created yet)");
            },
        }
        block.append("\n</memory_file>\n");
        blocks.append(block.as_str());
        i = i + 1;
    }
    assert(files@.take(files@.len() as int) =~= files@);
    let mut out: String =
        "\n\n---\nThe following memory files have been loaded automatically. You can edit them with `edit_file` or `write_file` using the path shown.\n".to_owned();
    out.append(blocks.as_str());
    out
}

fn render_skills(skills: &Option<(String, String)>) -> (r: String)
    ensures
        r@ == skills_section(*skills),
{
    match skills {
        Some(s) => {
            let mut out: String =
                "\n\n---\nInstalled skills you can use (read the linked `SKILL.md` before running a skill):\n\n<skills_index path=\"".to_owned();
            out.append(s.0.as_str());
            out.append("\">\n");
            out.append(s.1.as_str());
            out.append("\n</skills_index>\n");
            out
        },
        None => String::new(),
    }
}

fn render_extra(extra: &Option<String>) -> (r: String)
    ensures
        r@ == extra_section(*extra),
{
    match extra {
        Some(t) => {
            let mut out: String = "\n\n---\n".to_owned();
            out.append(t.as_str());
            out
        },
        None => String::new(),
    }
}

/// Assembles the static system prompt.
pub fn static_prompt(p: &StaticParts) -> (r: String)
    ensures
        r@ == static_prompt_of(*p),
{
    let mut body: String = p.prompt.clone();
    let memory: String = render_memory(&p.memory);
    body.append(memory.as_str());
    let skills: String = render_skills(&p.skills);
    body.append(skills.as_str());
    let extra: String = render_extra(&p.extra);
    body.append(extra.as_str());
    proof {
        reveal_strlit("__MCP_LIST__");
        reveal_strlit("__");
    }
    let mut out: String = replace(body.as_str(), "__MCP_LIST__", p.mcp_list.as_str());
    let ghost listed = out@;
    let mut i: usize = 0;
    assert(p.substitutions@.take(0) =~= Seq::<(String, String)>::empty());
    while i < p.substitutions.len()
        invariant
            i <= p.substitutions@.len(),
            "__"@.len() == 2,
            out@ == substituted(listed, p.substitutions@.take(i as int)),
        decreases p.substitutions@.len() - i,
    {
        assert(p.substitutions@.take(i + 1).drop_last() =~= p.substitutions@.take(i as int));
        let mut sentinel: String = "__".to_owned();
        sentinel.append(p.substitutions[i].0.as_str());
        sentinel.append("__");
        out = replace(out.as_str(), sentinel.as_str(), p.substitutions[i].1.as_str());
        i = i + 1;
    }
    assert(p.substitutions@.take(p.substitutions@.len() as int) =~= p.substitutions@);
    out
}

/// Where an agent's memory file lies and how its path is shown.
#[derive(Debug)]
pub struct MemoryPath {
    pub absolute: String,
    pub shown: String,
}

/// A memory path with the working directory in the place of `$WD`, taken from
/// the process directory where it is relative.
pub open spec fn memory_path_text(path: Seq<char>, wd: Seq<char>, cwd: Seq<char>) -> Seq<char> {
    join_text(cwd, replaced(path, "$WD"@, wd))
}

/// Resolves a memory path. It is shown relative to the working directory where
/// it lies under it, so that a tool which takes it back finds the same file;
/// else as it is.
pub fn resolve_memory_path(path: &str, wd: &str, cwd: &str) -> (r: MemoryPath)
    ensures
        r.absolute@ == memory_path_text(path@, wd@, cwd@),
        r.shown@ == if under(r.absolute@, wd@) {
            path_text(components(r.absolute@).skip(components(wd@).len() as int))
        } else {
            r.absolute@
        },
{
    proof {
        reveal_strlit("$WD");
    }
    let expanded: String = replace(path, "$WD", wd);
    let absolute: String = path_join(cwd, expanded.as_str());
    let shown: String = match relative_text(absolute.as_str(), wd) {
        Some(rel) => rel,
        None => absolute.clone(),
    };
    MemoryPath { absolute, shown }
}

/// A tool that is given the path under which a memory file is shown, and takes
/// it from the working directory, finds that very file.
pub proof fn law_shown_memory_path_leads_back(path: Seq<char>, wd: Seq<char>, cwd: Seq<char>)
    requires
        is_absolute(cwd),
    ensures
        ({
            let file = memory_path_text(path, wd, cwd);
            let shown = if under(file, wd) {
                path_text(components(file).skip(components(wd).len() as int))
            } else {
                file
            };
            components(join_text(wd, shown)) == components(file)
        }),
{
    let file = memory_path_text(path, wd, cwd);
    assert(is_absolute(file));
    if under(file, wd) {
        law_relative_path_leads_back(file, wd);
    }
}

/// The MCP servers behind a list of tools: each once, in order.
pub open spec fn server_set(servers: Seq<Seq<char>>) -> Seq<Seq<char>> {
    deduped(stable_sorted(servers, by_text()))
}

/// The description of a server, or a dash where it has none.
pub open spec fn description_of(name: Seq<char>, descriptions: Seq<(String, Option<String>)>) -> Seq<char>
    decreases descriptions.len(),
{
    if descriptions.len() == 0 {
        "—"@
    } else if descriptions.last().0@ == name {
        match descriptions.last().1 {
            Some(d) => d@,
            None => "—"@,
        }
    } else {
        description_of(name, descriptions.drop_last())
    }
}

/// The table rows of the servers that are not granted.
pub open spec fn hidden_rows(
    names: Seq<Seq<char>>,
    grants: Seq<Seq<char>>,
    descriptions: Seq<(String, Option<String>)>,
) -> Seq<char>
    decreases names.len(),
{
    if names.len() == 0 {
        Seq::empty()
    } else if name_index(grants, names.last()) is Some {
        hidden_rows(names.drop_last(), grants, descriptions)
    } else {
        hidden_rows(names.drop_last(), grants, descriptions) + ("| `"@ + names.last() + "` | "@
            + description_of(names.last(), descriptions) + " |\n"@)
    }
}

/// The list items of the servers that are granted.
pub open spec fn active_rows(names: Seq<Seq<char>>, grants: Seq<Seq<char>>) -> Seq<char>
    decreases names.len(),
{
    if names.len() == 0 {
        Seq::empty()
    } else if name_index(grants, names.last()) is Some {
        active_rows(names.drop_last(), grants) + ("- `"@ + names.last() + "`\n"@)
    } else {
        active_rows(names.drop_last(), grants)
    }
}

/// The list of MCP servers: a table of those that can be activated, then those
/// that are active; empty where there is no server.
pub open spec fn mcp_list_of(
    servers: Seq<Seq<char>>,
    grants: Seq<Seq<char>>,
    descriptions: Seq<(String, Option<String>)>,
) -> Seq<char> {
    let names = server_set(servers);
    let hidden = hidden_rows(names, grants, descriptions);
    let active = active_rows(names, grants);
    if names.len() == 0 {
        Seq::empty()
    } else {
        "## MCP servers\n"@ + if hidden.len() == 0 {
            Seq::empty()
        } else {
            "\n**Available** — call `show_mcp_tools([\"name\"])` to load tools:\n\n| Server | Description |\n|--------|-------------|\n"@
                + hidden
        } + if active.len() == 0 {
            Seq::empty()
        } else {
            "\n**Active** — tools callable as `mcp__<name>__<tool>`:\n"@ + active
        }
    }
}

fn describe_server(name: &str, descriptions: &Vec<(String, Option<String>)>) -> (r: String)
    ensures
        r@ == description_of(name@, descriptions@),
{
    let mut i: usize = descriptions.len();
    assert(descriptions@.take(i as int) =~= descriptions@);
    while i > 0
        invariant
            i <= descriptions@.len(),
            description_of(name@, descriptions@) == description_of(
                name@,
                descriptions@.take(i as int),
            ),
        decreases i,
    {
        i = i - 1;
        assert(descriptions@.take(i + 1).drop_last() =~= descriptions@.take(i as int));
        if str_eq(descriptions[i].0.as_str(), name) {
            return match &descriptions[i].1 {
                Some(d) => d.clone(),
                None => "—".to_owned(),
            };
        }
    }
    "—".to_owned()
}

/// Renders the list of MCP servers. `servers` holds the server of each known
/// tool.
pub fn render_mcp_list(
    servers: Vec<String>,
    grants: &Vec<String>,
    descriptions: &Vec<(String, Option<String>)>,
) -> (r: String)
    ensures
        r@ == mcp_list_of(texts(servers@), texts(grants@), descriptions@),
{
    let names: Vec<String> = dedup_texts(sort_texts(servers));
    let ghost all = texts(names@);
    let ghost granted = texts(grants@);
    assert(all.len() == names@.len());
    if names.len() == 0 {
        return String::new();
    }
    let mut hidden: String = String::new();
    let mut active: String = String::new();
    let mut i: usize = 0;
    assert(hidden@ =~= hidden_rows(all.take(0), granted, descriptions@));
    assert(active@ =~= active_rows(all.take(0), granted));
    while i < names.len()
        invariant
            i <= names@.len(),
            all == texts(names@),
            granted == texts(grants@),
            hidden@ == hidden_rows(all.take(i as int), granted, descriptions@),
            active@ == active_rows(all.take(i as int), granted),
        decreases names@.len() - i,
    {
        assert(all.take(i + 1).drop_last() =~= all.take(i as int));
        assert(all.take(i + 1).last() == names@[i as int]@);
        let name: &str = names[i].as_str();
        if find_name(grants, name).is_some() {
            let mut row: String = "- `".to_owned();
            row.append(name);
            row.append("`\n");
            active.append(row.as_str());
        } else {
            let description: String = describe_server(name, descriptions);
            let mut row: String = "| `".to_owned();
            row.append(name);
            row.append("` | ");
            row.append(description.as_str());
            row.append(" |\n");
            hidden.append(row.as_str());
        }
        i = i + 1;
    }
    assert(all.take(all.len() as int) =~= all);
    let mut first: String = String::new();
    if hidden.as_str().unicode_len() > 0 {
        first.append(
            "\n**Available** — call `show_mcp_tools([\"name\"])` to load tools:\n\n| Server | Description |\n|--------|-------------|\n",
        );
        first.append(hidden.as_str());
        assert(first@ =~= "\n**Available** — call `show_mcp_tools([\"name\"])` to load tools:\n\n| Server | Description |\n|--------|-------------|\n"@
            + hidden@);
    }
    let mut second: String = String::new();
    if active.as_str().unicode_len() > 0 {
        second.append("\n**Active** — tools callable as `mcp__<name>__<tool>`:\n");
        second.append(active.as_str());
        assert(second@ =~= "\n**Active** — tools callable as `mcp__<name>__<tool>`:\n"@ + active@);
    }
    let mut out: String = "## MCP servers\n".to_owned();
    out.append(first.as_str());
    out.append(second.as_str());
    out
}

/// The name of a time zone that `chrono_tz` knows under a text.
pub uninterp spec fn zone_name_of(text: Seq<char>) -> Option<Seq<char>>;

/// What `chrono` writes for a time in a time zone, in the form
/// `%Y-%m-%dT%H:%M:%S%:z`; `None` where the zone is unknown or the time out of
/// range.
pub uninterp spec fn zone_time_of(zone: Seq<char>, secs: int) -> Option<Seq<char>>;

/// `chrono_tz::Tz::from_str` and `Tz::name`: the zones are compiled in, so the
/// result depends on the text alone.
#[verifier::external_body]
pub(crate) fn zone_name(text: &str) -> (r: Option<String>)
    ensures
        opt_text(r) == zone_name_of(text@),
{
    text.parse::<chrono_tz::Tz>().ok().map(|tz| tz.name().to_string())
}

/// `TimeZone::timestamp_opt` and `DateTime::format` in a zone of `chrono_tz`:
/// the zone's rules are compiled in, so the text depends on the zone and the
/// time alone.
#[verifier::external_body]
fn zone_time(zone: &str, secs: i64) -> (r: Option<String>)
    ensures
        opt_text(r) == zone_time_of(zone@, secs as int),
{
    let tz = zone.parse::<chrono_tz::Tz>().ok()?;
    let time = chrono::TimeZone::timestamp_opt(&tz, secs, 0).single()?;
    Some(time.format("%Y-%m-%dT%H:%M:%S%:z").to_string())
}

/// A time rounded towards zero to a multiple of so many minutes.
pub open spec fn rounded(secs: int, round_minutes: Option<u32>) -> int {
    match round_minutes {
        Some(m) if m > 0 => if secs >= 0 {
            secs / (m * 60) * (m * 60)
        } else {
            -((-secs) / (m * 60) * (m * 60))
        },
        _ => secs,
    }
}

/// Rounds a time down to a multiple of the configured minutes.
pub fn round_secs(secs: i64, round_minutes: Option<u32>) -> (r: i64)
    ensures
        r == rounded(secs as int, round_minutes),
{
    match round_minutes {
        Some(m) => if m > 0 {
            let bucket: i128 = m as i128 * 60;
            let magnitude: i128 = if secs >= 0 {
                secs as i128
            } else {
                -(secs as i128)
            };
            let q: i128 = magnitude / bucket;
            proof {
                vstd::arithmetic::div_mod::lemma_fundamental_div_mod(
                    magnitude as int,
                    bucket as int,
                );
                vstd::arithmetic::mul::lemma_mul_is_commutative(q as int, bucket as int);
                vstd::arithmetic::mul::lemma_mul_nonnegative(q as int, bucket as int);
            }
            let down: i128 = q * bucket;
            if secs >= 0 {
                down as i64
            } else {
                (-down) as i64
            }
        } else {
            secs
        },
        None => secs,
    }
}

/// The time zone that is shown: the configured one, else the system's, as far
/// as it is known. The arguments are the names under which each is known.
pub open spec fn effective_zone(
    configured: Option<Seq<char>>,
    system: Option<Seq<char>>,
) -> Option<Seq<char>> {
    match configured {
        Some(z) => Some(z),
        None => system,
    }
}

/// The date line: the time, and the zone's name where there is one.
pub open spec fn date_line_of(time: Seq<char>, zone: Option<Seq<char>>) -> Seq<char> {
    match zone {
        Some(z) => "Current date and time: "@ + time + " ("@ + z + ")"@,
        None => "Current date and time: "@ + time,
    }
}

/// The block on date, system and working directory.
pub open spec fn place_block(date_line: Seq<char>, os: Seq<char>, cwd: Seq<char>) -> Seq<char> {
    date_line + "\nOperating system: "@ + os + "\nWorking directory: "@ + cwd
        + "\nFilesystem tools and execute_cmd use this working directory for relative paths — no need to `cd` into it first."@
}

/// The date line for a time that is written out, in a zone.
pub fn date_line(time: &str, zone: Option<&str>) -> (r: String)
    ensures
        r@ == date_line_of(
            time@,
            match zone {
                Some(z) => Some(z@),
                None => None,
            },
        ),
{
    let mut out: String = "Current date and time: ".to_owned();
    out.append(time);
    match zone {
        Some(z) => {
            out.append(" (");
            out.append(z);
            out.append(")");
        },
        None => {},
    }
    out
}

/// The local time, as the system writes it.
pub struct LocalTime {
    /// The rounded time in the system's zone, where it can be written.
    pub at: Option<String>,
    /// The present time in the system's zone.
    pub now: String,
}

/// The zone's name under which a text is known, if any.
pub open spec fn known_zone(text: Option<Seq<char>>) -> Option<Seq<char>> {
    match text {
        Some(t) => zone_name_of(t),
        None => None,
    }
}

/// The time as shown: in the zone where there is one, else local; the present
/// local time where the rounded time cannot be written.
pub open spec fn shown_time(zone: Option<Seq<char>>, secs: int, local: LocalTime) -> Seq<char> {
    match zone {
        Some(z) => match zone_time_of(z, secs) {
            Some(t) => t,
            None => local.now@,
        },
        None => match local.at {
            Some(t) => t@,
            None => local.now@,
        },
    }
}

/// The block that tells the model the date, the system and the working
/// directory; `None` where the configuration switches it off. `now` is the
/// time in seconds and `system_zone` the system's time zone.
pub fn datetime_line(
    cfg: &DatetimeConfig,
    now: i64,
    system_zone: Option<&str>,
    local: &LocalTime,
    os: &str,
    cwd: &str,
) -> (r: Option<String>)
    ensures
        opt_text(r) == if cfg.enabled {
            let zone = effective_zone(
                known_zone(opt_text(cfg.timezone)),
                known_zone(
                    match system_zone {
                        Some(z) => Some(z@),
                        None => None,
                    },
                ),
            );
            Some(
                place_block(
                    date_line_of(
                        shown_time(zone, rounded(now as int, cfg.round_minutes), *local),
                        zone,
                    ),
                    os@,
                    cwd@,
                ),
            )
        } else {
            None
        },
{
    if !cfg.enabled {
        return None;
    }
    let secs: i64 = round_secs(now, cfg.round_minutes);
    let configured: Option<String> = match &cfg.timezone {
        Some(t) => zone_name(t.as_str()),
        None => None,
    };
    let zone: Option<String> = match configured {
        Some(z) => Some(z),
        None => match system_zone {
            Some(s) => zone_name(s),
            None => None,
        },
    };
    let line: String = match &zone {
        Some(z) => {
            let time: String = match zone_time(z.as_str(), secs) {
                Some(t) => t,
                None => local.now.clone(),
            };
            date_line(time.as_str(), Some(z.as_str()))
        },
        None => {
            let time: String = match &local.at {
                Some(t) => t.clone(),
                None => local.now.clone(),
            };
            date_line(time.as_str(), None)
        },
    };
    let mut out: String = line;
    out.append("\nOperating system: ");
    out.append(os);
    out.append("\nWorking directory: ");
    out.append(cwd);
    out.append(
        "\nFilesystem tools and execute_cmd use this working directory for relative paths — no need to `cd` into it first.",
    );
    Some(out)
}

/// Rounding down is stable: all times within the same span of minutes give the
/// same text, so what a provider cached stays valid for that long.
pub proof fn law_rounding_is_stable(a: int, b: int, m: u32)
    requires
        m > 0,
        0 <= a,
        0 <= b,
        a / (m * 60) == b / (m * 60),
    ensures
        rounded(a, Some(m)) == rounded(b, Some(m)),
        rounded(a, Some(m)) <= a < rounded(a, Some(m)) + m * 60,
        rounded(a, Some(m)) % (m * 60) == 0,
{
    let n = (m * 60) as int;
    vstd::arithmetic::div_mod::lemma_fundamental_div_mod(a, n);
    vstd::arithmetic::mul::lemma_mul_is_commutative(a / n, n);
    vstd::arithmetic::div_mod::lemma_mod_multiples_basic(a / n, n);
}

/// The block of memory files: nothing where there are none, else an
/// introduction and each file in turn, under its path, with what it holds or a
/// note that it does not exist yet.
pub proof fn law_memory_files(files: &Vec<MemoryFile>, more: &Vec<MemoryFile>, f: MemoryFile, r: String, s: String)
    requires
        call_ensures(render_memory, (files,), r),
        call_ensures(render_memory, (more,), s),
        more@ == files@.push(f),
    ensures
        files@.len() == 0 ==> r@.len() == 0,
        s@ == (if files@.len() == 0 {
            "\n\n---\nThe following memory files have been loaded automatically. You can edit them with `edit_file` or `write_file` using the path shown.\n"@
        } else {
            r@
        }) + ("\n<memory_file path=\""@ + f.path@ + "\">\n"@ + (match f.content {
            Some(c) => c@,
            None => "(file not created yet)"@,
        }) + "\n</memory_file>\n"@),
{
    assert(more@.drop_last() =~= files@);
    let lead = "\n\n---\nThe following memory files have been loaded automatically. You can edit them with `edit_file` or `write_file` using the path shown.\n"@;
    let block = "\n<memory_file path=\""@ + f.path@ + "\">\n"@ + (match f.content {
        Some(c) => c@,
        None => "(file not created yet)"@,
    }) + "\n</memory_file>\n"@;
    assert(s@ == lead + (memory_blocks(files@) + block));
    if files@.len() == 0 {
        assert(memory_blocks(files@) + block =~= block);
    } else {
        assert(lead + (memory_blocks(files@) + block) =~= lead + memory_blocks(files@) + block);
    }
}

/// The static prompt is the agent's own, then the memory files, the skills and
/// what the caller adds, with the list of servers put in at its mark; each
/// substitution then replaces its own mark, in their order.
pub proof fn law_the_static_prompt(
    p: &StaticParts,
    r: String,
    memory: String,
    skills: Seq<char>,
    extra: Seq<char>,
    body: &str,
    mark: &str,
    list: &str,
    filled: String,
)
    requires
        call_ensures(static_prompt, (p,), r),
        call_ensures(render_memory, (&p.memory,), memory),
        skills == match p.skills {
            Some((path, index)) => "\n\n---\nInstalled skills you can use (read the linked `SKILL.md` before running a skill):\n\n<skills_index path=\""@
                + path@ + "\">\n"@ + index@ + "\n</skills_index>\n"@,
            None => Seq::empty(),
        },
        extra == match p.extra {
            Some(t) => "\n\n---\n"@ + t@,
            None => Seq::empty(),
        },
        body@ == p.prompt@ + memory@ + skills + extra,
        mark@ == "__MCP_LIST__"@,
        list@ == p.mcp_list@,
        call_ensures(replace, (body, mark, list), filled),
        p.substitutions@.len() == 0,
    ensures
        r@ == filled@,
{
}

/// One more substitution replaces its mark, its name between double
/// underscores, in what the others left.
pub proof fn law_substitutions(
    p: &StaticParts,
    q: &StaticParts,
    r: String,
    s: String,
    name: String,
    value: String,
    before: &str,
    mark: &str,
    with: &str,
    filled: String,
)
    requires
        call_ensures(static_prompt, (p,), r),
        call_ensures(static_prompt, (q,), s),
        q.prompt == p.prompt,
        q.memory == p.memory,
        q.skills == p.skills,
        q.extra == p.extra,
        q.mcp_list == p.mcp_list,
        q.substitutions@ == p.substitutions@.push((name, value)),
        before@ == r@,
        mark@ == "__"@ + name@ + "__"@,
        with@ == value@,
        call_ensures(replace, (before, mark, with), filled),
    ensures
        s@ == filled@,
{
    assert(q.substitutions@.drop_last() =~= p.substitutions@);
}

/// A memory path is taken from the current directory, with the working
/// directory in place of its mark. What is shown of it leads back to it from the
/// working directory.
pub proof fn law_memory_paths(
    path: &str,
    wd: &str,
    cwd: &str,
    r: MemoryPath,
    mark: &str,
    filled: String,
    text: &str,
    full: String,
)
    requires
        call_ensures(resolve_memory_path, (path, wd, cwd), r),
        mark@ == "$WD"@,
        call_ensures(replace, (path, mark, wd), filled),
        text@ == filled@,
        call_ensures(path_join, (cwd, text), full),
        cwd@.len() > 0 && cwd@[0] == '/',
    ensures
        r.absolute@ == full@,
        components(join_text(wd@, r.shown@)) == components(r.absolute@),
        !under(r.absolute@, wd@) ==> r.shown@ == r.absolute@,
{
    law_shown_memory_path_leads_back(path@, wd@, cwd@);
}

proof fn lemma_description_of(name: Seq<char>, all: Seq<(String, Option<String>)>, i: int)
    requires
        0 <= i < all.len(),
        all[i].0@ == name,
        forall|k: int| i < k < all.len() ==> (#[trigger] all[k]).0@ != name,
    ensures
        description_of(name, all) == match all[i].1 {
            Some(d) => d@,
            None => "—"@,
        },
    decreases all.len(),
{
    if i < all.len() - 1 {
        assert(all[all.len() - 1].0@ != name);
        let rest = all.drop_last();
        assert forall|k: int| i < k < rest.len() implies (#[trigger] rest[k]).0@ != name by {
            assert(all[k].0@ != name);
        }
        lemma_description_of(name, rest, i);
    }
}

/// The list with one server: the server with its description, and how to load
/// its tools, where they are not granted; the server under those whose tools can
/// be called where they are. Without servers there is no list.
pub proof fn law_list_of_one_server(
    servers: Vec<String>,
    grants: &Vec<String>,
    descriptions: &Vec<(String, Option<String>)>,
    r: String,
    i: int,
    name: &str,
    granted: Option<usize>,
)
    requires
        call_ensures(render_mcp_list, (servers, grants, descriptions), r),
        servers@.len() == 1 ==> name@ == servers@[0]@,
        call_ensures(find_name, (grants, name), granted),
        0 <= i < descriptions@.len(),
        descriptions@[i].0@ == name@,
        forall|k: int| i < k < descriptions@.len() ==> (#[trigger] descriptions@[k]).0@ != name@,
    ensures
        servers@.len() == 0 ==> r@.len() == 0,
        servers@.len() == 1 && granted is Some ==> r@ == "## MCP servers\n"@
            + ("\n**Active** — tools callable as `mcp__<name>__<tool>`:\n"@ + ("- `"@ + name@
            + "`\n"@)),
        servers@.len() == 1 && granted is None ==> r@ == "## MCP servers\n"@
            + ("\n**Available** — call `show_mcp_tools([\"name\"])` to load tools:\n\n| Server | Description |\n|--------|-------------|\n"@
            + ("| `"@ + name@ + "` | "@ + (match descriptions@[i].1 {
            Some(d) => d@,
            None => "—"@,
        }) + " |\n"@)),
{
    let all = texts(servers@);
    let e = Seq::<char>::empty();
    lemma_description_of(name@, descriptions@, i);
    if servers@.len() == 0 {
        assert(all.len() == 0);
        assert(server_set(all).len() == 0);
    }
    if servers@.len() == 1 {
        assert(all =~= seq![name@]);
        assert(all.drop_last() =~= Seq::<Seq<char>>::empty());
        assert(stable_sorted(all.drop_last(), by_text()) =~= Seq::<Seq<char>>::empty());
        assert(stable_sorted(all, by_text()) =~= seq![name@]);
        let names = server_set(all);
        assert(names =~= seq![name@]);
        assert(names.drop_last() =~= Seq::<Seq<char>>::empty());
        let row = "- `"@ + name@ + "`\n"@;
        reveal_strlit("- `");
        if granted is Some {
            assert(hidden_rows(names.drop_last(), texts(grants@), descriptions@) =~= e);
            assert(hidden_rows(names, texts(grants@), descriptions@) =~= e);
            assert(active_rows(names.drop_last(), texts(grants@)) =~= e);
            assert(active_rows(names, texts(grants@)) =~= row);
            assert(row.len() > 0);
            let lead = "## MCP servers\n"@;
            let tail = "\n**Active** — tools callable as `mcp__<name>__<tool>`:\n"@ + row;
            assert(lead + e =~= lead);
        } else {
            assert(hidden_rows(names.drop_last(), texts(grants@), descriptions@) =~= e);
            let shown = "| `"@ + name@ + "` | "@ + description_of(name@, descriptions@) + " |\n"@;
            reveal_strlit("| `");
            assert(hidden_rows(names, texts(grants@), descriptions@) =~= shown);
            assert(shown.len() > 0);
            assert(active_rows(names.drop_last(), texts(grants@)) =~= e);
            assert(active_rows(names, texts(grants@)) =~= e);
            let head = "## MCP servers\n"@
                + ("\n**Available** — call `show_mcp_tools([\"name\"])` to load tools:\n\n| Server | Description |\n|--------|-------------|\n"@
                + shown);
            assert(head + e =~= head);
        }
    }
}

/// Rounding a time takes it to the last full step before it, of that many
/// minutes; without a step it stays.
pub proof fn law_rounded_times(secs: i64, minutes: Option<u32>, r: i64)
    requires
        call_ensures(round_secs, (secs, minutes), r),
    ensures
        minutes is None || minutes == Some(0u32) ==> r == secs,
        minutes matches Some(m) ==> (m > 0 && secs >= 0 ==> r <= secs && secs < r + m * 60 && r as int
            % (m * 60) == 0),
        minutes matches Some(m) ==> (m > 0 && secs < 0 ==> secs <= r && r - m * 60 < secs && r <= 0),
{
    match minutes {
        Some(m) => {
            if m > 0 {
                let step = m * 60;
                if secs >= 0 {
                    law_rounding_is_stable(secs as int, secs as int, m);
                } else {
                    law_rounding_is_stable(-secs, -secs, m);
                }
            }
        },
        None => {},
    }
}

/// The line on date and place: none where it is switched off; else the time,
/// with its zone where one is known, the system, and the directory. The zone is
/// the configured one, else the system's. The time is that of the zone, else
/// the machine's own.
pub proof fn law_date_and_place(
    cfg: &DatetimeConfig,
    now: i64,
    system_zone: Option<&str>,
    local: &LocalTime,
    os: &str,
    cwd: &str,
    r: Option<String>,
    secs: i64,
    configured: Option<Seq<char>>,
    system: Option<Seq<char>>,
    time: Seq<char>,
)
    requires
        call_ensures(datetime_line, (cfg, now, system_zone, local, os, cwd), r),
        call_ensures(round_secs, (now, cfg.round_minutes), secs),
        configured == match cfg.timezone {
            Some(z) => zone_name_of(z@),
            None => None,
        },
        system == match system_zone {
            Some(z) => zone_name_of(z@),
            None => None,
        },
        time == match (configured, system, local.at) {
            (Some(z), _, _) => match zone_time_of(z, secs as int) {
                Some(t) => t,
                None => local.now@,
            },
            (None, Some(z), _) => match zone_time_of(z, secs as int) {
                Some(t) => t,
                None => local.now@,
            },
            (None, None, Some(t)) => t@,
            (None, None, None) => local.now@,
        },
    ensures
        r is Some <==> cfg.enabled,
        r matches Some(t) ==> t@ == (match (configured, system) {
            (Some(z), _) => "Current date and time: "@ + time + " ("@ + z + ")"@,
            (None, Some(z)) => "Current date and time: "@ + time + " ("@ + z + ")"@,
            (None, None) => "Current date and time: "@ + time,
        }) + "\nOperating system: "@ + os@ + "\nWorking directory: "@ + cwd@
            + "\nFilesystem tools and execute_cmd use this working directory for relative paths — no need to `cd` into it first."@,
{
}

/// The line on the date: the time, and the zone where one is known.
pub proof fn law_date_lines(time: &str, zone: Option<&str>, r: String)
    requires
        call_ensures(date_line, (time, zone), r),
    ensures
        zone is None ==> r@ == "Current date and time: "@ + time@,
        zone matches Some(z) ==> r@ == "Current date and time: "@ + time@ + " ("@ + z@ + ")"@,
{
}

} // verus!
