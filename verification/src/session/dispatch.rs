//! Where a tool call goes, and with which arguments.
use vstd::prelude::*;

use crate::json::{
    copy_json, law_set_field, named_otherwise, set_field, with_text, Json, JsonView,
};
use crate::numerals::{decimal, i64_text};
use crate::paths::{is_absolute, join_text, path_join};
use crate::text::{opt_text, str_eq, texts};

verus! {

broadcast use vstd::seq_lib::group_seq_properties;

/// The fields to set in a call's arguments before it runs.
#[derive(Debug)]
pub struct ArgPatch {
    pub path: Option<String>,
    pub workdir: Option<String>,
}

/// The path argument to use instead of a relative one.
pub open spec fn patched_path(args: JsonView, wd: Option<Seq<char>>) -> Option<Seq<char>> {
    match (wd, args.field("path"@).as_text()) {
        (Some(dir), Some(p)) if !is_absolute(p) => Some(join_text(dir, p)),
        _ => None,
    }
}

/// Whether an object has a field, with whatever value.
pub open spec fn has_field(args: JsonView, key: Seq<char>) -> bool {
    match args {
        JsonView::Object(fields) => exists|i: int|
            0 <= i < fields.len() && (#[trigger] fields[i]).0 == key,
        _ => false,
    }
}

/// The working directory to add to a shell command that names none.
pub open spec fn patched_workdir(name: Seq<char>, args: JsonView, wd: Option<Seq<char>>) -> Option<Seq<char>> {
    match wd {
        Some(dir) if name == "execute_cmd"@ && !has_field(args, "workdir"@) => Some(dir),
        _ => None,
    }
}

pub fn object_has(args: &Json, key: &str) -> (r: bool)
    ensures
        r == has_field(args@, key@),
{
    match args {
        Json::Object(fields) => {
            let ghost all = args@->Object_0;
            let mut i: usize = 0;
            while i < fields.len()
                invariant
                    i <= fields@.len(),
                    args@ == JsonView::Object(all),
                    all == crate::json::json_view(Json::Object(*fields))->Object_0,
                    forall|j: int| 0 <= j < i ==> (#[trigger] all[j]).0 != key@,
                decreases fields@.len() - i,
            {
                assert(all[i as int].0 == fields@[i as int].0@);
                if str_eq(fields[i].0.as_str(), key) {
                    return true;
                }
                i = i + 1;
            }
            false
        },
        _ => false,
    }
}

/// Resolves relative paths against the session's working directory, and gives
/// a shell command that directory where it names none. Without a working
/// directory nothing is set.
pub fn working_dir_patch(name: &str, args: &Json, wd: Option<&str>) -> (r: ArgPatch)
    ensures
        opt_text(r.path) == patched_path(
            args@,
            match wd {
                Some(d) => Some(d@),
                None => None,
            },
        ),
        opt_text(r.workdir) == patched_workdir(
            name@,
            args@,
            match wd {
                Some(d) => Some(d@),
                None => None,
            },
        ),
{
    match wd {
        None => ArgPatch { path: None, workdir: None },
        Some(dir) => {
            let path: Option<String> = match args.text_field("path") {
                Some(p) => if crate::paths::is_absolute_path(p.as_str()) {
                    None
                } else {
                    Some(path_join(dir, p.as_str()))
                },
                None => None,
            };
            let workdir: Option<String> = if str_eq(name, "execute_cmd") && !object_has(
                args,
                "workdir",
            ) {
                Some(dir.to_owned())
            } else {
                None
            };
            ArgPatch { path, workdir }
        },
    }
}

/// Arguments with a text field set, where one is to be set.
pub open spec fn patched(args: JsonView, key: Seq<char>, value: Option<Seq<char>>) -> Option<
    JsonView,
> {
    match value {
        Some(v) => set_field(args, key, JsonView::Text(v)),
        None => Some(args),
    }
}

/// The arguments with which a call runs; none where a field would have to be
/// set in something that is no object.
pub open spec fn effective_arguments(name: Seq<char>, args: JsonView, wd: Option<Seq<char>>) -> Option<
    JsonView,
> {
    match patched(args, "path"@, patched_path(args, wd)) {
        Some(a) => patched(a, "workdir"@, patched_workdir(name, a, wd)),
        None => None,
    }
}

fn patch(args: &Json, key: &str, value: &Option<String>) -> (r: Option<Json>)
    ensures
        match r {
            Some(j) => patched(args@, key@, opt_text(*value)) == Some(j@),
            None => patched(args@, key@, opt_text(*value)) is None,
        },
{
    match value {
        Some(v) => with_text(args, key, v.as_str()),
        None => Some(copy_json(args)),
    }
}

/// The arguments with which a call runs: a relative path is taken from the
/// session's working directory, and a shell command runs there unless it says
/// otherwise.
pub fn effective_args(name: &str, args: &Json, wd: Option<&str>) -> (r: Option<Json>)
    ensures
        ({
            let dir = match wd {
                Some(d) => Some(d@),
                None => None,
            };
            match r {
                Some(j) => effective_arguments(name@, args@, dir) == Some(j@),
                None => effective_arguments(name@, args@, dir) is None,
            }
        }),
{
    let first: ArgPatch = working_dir_patch(name, args, wd);
    match patch(args, "path", &first.path) {
        Some(a) => {
            let second: ArgPatch = working_dir_patch(name, &a, wd);
            patch(&a, "workdir", &second.workdir)
        },
        None => None,
    }
}

/// What runs a tool call.
#[derive(Debug)]
pub enum DispatchTarget {
    /// The process is restarted.
    Restart,
    /// A sub-agent runs it.
    SubAgent,
    /// A shell command, which a cancellation stops.
    ExecuteCmd,
    UpdateScratchpad,
    WriteTodos,
    AskUser,
    /// The result is this text at once.
    Answer(String),
    /// The interface tool at this position.
    Interface(usize),
    /// The memory tool at this position.
    Memory(usize),
    /// The image tool at this position.
    Image(usize),
    /// The MCP servers or the registry.
    Registry,
}

/// The same, as seen by contracts.
pub enum TargetView {
    Restart,
    SubAgent,
    ExecuteCmd,
    UpdateScratchpad,
    WriteTodos,
    AskUser,
    Answer(Seq<char>),
    Interface(int),
    Memory(int),
    Image(int),
    Registry,
}

impl View for DispatchTarget {
    type V = TargetView;

    open spec fn view(&self) -> TargetView {
        match self {
            DispatchTarget::Restart => TargetView::Restart,
            DispatchTarget::SubAgent => TargetView::SubAgent,
            DispatchTarget::ExecuteCmd => TargetView::ExecuteCmd,
            DispatchTarget::UpdateScratchpad => TargetView::UpdateScratchpad,
            DispatchTarget::WriteTodos => TargetView::WriteTodos,
            DispatchTarget::AskUser => TargetView::AskUser,
            DispatchTarget::Answer(t) => TargetView::Answer(t@),
            DispatchTarget::Interface(i) => TargetView::Interface(*i as int),
            DispatchTarget::Memory(i) => TargetView::Memory(*i as int),
            DispatchTarget::Image(i) => TargetView::Image(*i as int),
            DispatchTarget::Registry => TargetView::Registry,
        }
    }
}

/// The position of the first name equal to `name`.
pub open spec fn name_index(names: Seq<Seq<char>>, name: Seq<char>) -> Option<int>
    decreases names.len(),
{
    if names.len() == 0 {
        None
    } else {
        match name_index(names.drop_last(), name) {
            Some(i) => Some(i),
            None => if names.last() == name {
                Some(names.len() - 1)
            } else {
                None
            },
        }
    }
}

/// The answer to a model that calls `task_completed` itself.
pub open spec fn task_completed_answer(args: JsonView) -> Seq<char> {
    let id = match args.field("task_id"@).as_i64() {
        Some(n) => n,
        None => 0,
    };
    "{\"status\":\"not_ready\",\"task_id\":"@ + decimal(id)
        + ",\"message\":\"This tool is invoked by the system, not by you. Do not call it again — the result will arrive automatically as a new message in this conversation.\"}"@
}

/// Whether a call hands work to a sub-agent and waits for it.
pub open spec fn runs_sub_agent(name: Seq<char>, args: JsonView) -> bool {
    ||| name == "run_subtask"@
    ||| name == "execute_task"@ && args.field("mode"@).as_text() == Some("sync"@) && has_field(
        args,
        "agent_id"@,
    )
}

/// What runs a tool call: built-in names first, then the interface's tools,
/// the memory tools and the image tools in order, the registry last.
pub open spec fn target_of(
    name: Seq<char>,
    args: JsonView,
    interface: Seq<Seq<char>>,
    memory: Seq<Seq<char>>,
    image: Seq<Seq<char>>,
) -> TargetView {
    if name == "restart"@ {
        TargetView::Restart
    } else if runs_sub_agent(name, args) {
        TargetView::SubAgent
    } else if name == "execute_cmd"@ {
        TargetView::ExecuteCmd
    } else if name == "update_scratchpad"@ {
        TargetView::UpdateScratchpad
    } else if name == "write_todos"@ {
        TargetView::WriteTodos
    } else if name == "ask_user_clarification"@ {
        TargetView::AskUser
    } else if name == "task_completed"@ {
        TargetView::Answer(task_completed_answer(args))
    } else {
        match name_index(interface, name) {
            Some(i) => TargetView::Interface(i),
            None => match name_index(memory, name) {
                Some(i) => TargetView::Memory(i),
                None => match name_index(image, name) {
                    Some(i) => TargetView::Image(i),
                    None => TargetView::Registry,
                },
            },
        }
    }
}

proof fn lemma_name_index_stays(names: Seq<Seq<char>>, name: Seq<char>, k: int)
    requires
        0 <= k <= names.len(),
        name_index(names.take(k), name) is Some,
    ensures
        name_index(names, name) == name_index(names.take(k), name),
    decreases names.len(),
{
    if k < names.len() {
        assert(names.drop_last().take(k) =~= names.take(k));
        lemma_name_index_stays(names.drop_last(), name, k);
    } else {
        assert(names.take(k) =~= names);
    }
}

/// The position of the first tool of that name.
pub fn find_name(names: &Vec<String>, name: &str) -> (r: Option<usize>)
    ensures
        match r {
            Some(i) => name_index(texts(names@), name@) == Some(i as int),
            None => name_index(texts(names@), name@) is None,
        },
{
    let ghost all = texts(names@);
    let mut i: usize = 0;
    while i < names.len()
        invariant
            i <= names@.len(),
            all == texts(names@),
            name_index(all.take(i as int), name@) is None,
        decreases names@.len() - i,
    {
        assert(all.take(i + 1).drop_last() =~= all.take(i as int));
        if str_eq(names[i].as_str(), name) {
            proof {
                lemma_name_index_stays(all, name@, i + 1);
            }
            return Some(i);
        }
        i = i + 1;
    }
    assert(all.take(all.len() as int) =~= all);
    None
}

/// Decides what runs an approved tool call.
pub fn dispatch_target(
    name: &str,
    args: &Json,
    interface: &Vec<String>,
    memory: &Vec<String>,
    image: &Vec<String>,
) -> (r: DispatchTarget)
    ensures
        r@ == target_of(name@, args@, texts(interface@), texts(memory@), texts(image@)),
{
    if str_eq(name, "restart") {
        return DispatchTarget::Restart;
    }
    let sync: bool = match args.text_field("mode") {
        Some(m) => str_eq(m.as_str(), "sync"),
        None => false,
    };
    if str_eq(name, "run_subtask") || (str_eq(name, "execute_task") && sync && object_has(
        args,
        "agent_id",
    )) {
        return DispatchTarget::SubAgent;
    }
    if str_eq(name, "execute_cmd") {
        return DispatchTarget::ExecuteCmd;
    }
    if str_eq(name, "update_scratchpad") {
        return DispatchTarget::UpdateScratchpad;
    }
    if str_eq(name, "write_todos") {
        return DispatchTarget::WriteTodos;
    }
    if str_eq(name, "ask_user_clarification") {
        return DispatchTarget::AskUser;
    }
    if str_eq(name, "task_completed") {
        let id: i64 = match args.i64_field("task_id") {
            Some(n) => n,
            None => 0,
        };
        let mut t: String = "{\"status\":\"not_ready\",\"task_id\":".to_owned();
        let id_text: String = i64_text(id);
        t.append(id_text.as_str());
        t.append(
            ",\"message\":\"This tool is invoked by the system, not by you. Do not call it again — the result will arrive automatically as a new message in this conversation.\"}",
        );
        return DispatchTarget::Answer(t);
    }
    match find_name(interface, name) {
        Some(i) => {
            return DispatchTarget::Interface(i);
        },
        None => {},
    }
    match find_name(memory, name) {
        Some(i) => {
            return DispatchTarget::Memory(i);
        },
        None => {},
    }
    match find_name(image, name) {
        Some(i) => DispatchTarget::Image(i),
        None => DispatchTarget::Registry,
    }
}

proof fn lemma_name_index(names: Seq<Seq<char>>, name: Seq<char>)
    ensures
        name_index(names, name) is Some <==> names.contains(name),
        name_index(names, name) matches Some(i) ==> 0 <= i < names.len() && names[i] == name
            && forall|k: int| 0 <= k < i ==> #[trigger] names[k] != name,
    decreases names.len(),
{
    if names.len() > 0 {
        let rest = names.drop_last();
        lemma_name_index(rest, name);
        if names.contains(name) && name_index(rest, name) is None {
            let k = names.index_of(name);
            if k < rest.len() {
                assert(rest[k] == name);
            }
        }
        match name_index(rest, name) {
            Some(i) => {
                assert(names[i] == rest[i]);
                assert forall|k: int| 0 <= k < i implies #[trigger] names[k] != name by {
                    assert(rest[k] == names[k]);
                }
            },
            None => {
                if names.last() == name {
                    assert(names[names.len() - 1] == name);
                    assert forall|k: int| 0 <= k < rest.len() implies #[trigger] names[k] != name by {
                        assert(rest[k] == names[k]);
                    }
                }
            },
        }
    }
}

/// A name is found where it occurs first, and only where it occurs.
pub proof fn law_names_are_found(names: &Vec<String>, name: &str, r: Option<usize>)
    requires
        call_ensures(find_name, (names, name), r),
    ensures
        r is None <==> forall|k: int| 0 <= k < names@.len() ==> (#[trigger] names@[k])@ != name@,
        r matches Some(i) ==> i < names@.len() && names@[i as int]@ == name@ && forall|k: int|
            0 <= k < i ==> (#[trigger] names@[k])@ != name@,
{
    let all = texts(names@);
    lemma_name_index(all, name@);
    assert forall|k: int| 0 <= k < names@.len() implies all[k] == (#[trigger] names@[k])@ by {}
    if r is None {
        assert forall|k: int| 0 <= k < names@.len() implies (#[trigger] names@[k])@ != name@ by {
            if names@[k]@ == name@ {
                assert(all[k] == name@);
            }
        }
    } else {
        let i = r->Some_0 as int;
        assert forall|k: int| 0 <= k < i implies (#[trigger] names@[k])@ != name@ by {
            assert(all[k] != name@);
        }
    }
}

/// Where a call goes. The tools that a session runs itself are known by their
/// names; a task is a sub-agent's where it is asked for in sync and names an
/// agent. Any other name is looked for among the tools of the interface, then
/// of the memory, then of images, and is left to the registry else.
pub proof fn law_where_calls_go(
    name: &str,
    args: &Json,
    interface: &Vec<String>,
    memory: &Vec<String>,
    image: &Vec<String>,
    r: DispatchTarget,
    i: Option<usize>,
    m: Option<usize>,
    g: Option<usize>,
    names_agent: bool,
    key: &str,
)
    requires
        call_ensures(dispatch_target, (name, args, interface, memory, image), r),
        call_ensures(find_name, (interface, name), i),
        call_ensures(find_name, (memory, name), m),
        call_ensures(find_name, (image, name), g),
        call_ensures(object_has, (args, key), names_agent),
        key@ == "agent_id"@,
    ensures
        name@ == "restart"@ ==> r is Restart,
        name@ == "run_subtask"@ ==> r is SubAgent,
        name@ == "execute_task"@ && args@.field("mode"@) == JsonView::Text("sync"@) && names_agent
            ==> r is SubAgent,
        name@ == "execute_cmd"@ ==> r is ExecuteCmd,
        name@ == "update_scratchpad"@ ==> r is UpdateScratchpad,
        name@ == "write_todos"@ ==> r is WriteTodos,
        name@ == "ask_user_clarification"@ ==> r is AskUser,
        name@ == "task_completed"@ ==> r is Answer,
        !is_own_tool(name@) && !(name@ == "execute_task"@ && args@.field("mode"@) == JsonView::Text(
            "sync"@,
        ) && names_agent) ==> match (i, m, g) {
            (Some(k), _, _) => r == DispatchTarget::Interface(k),
            (None, Some(k), _) => r == DispatchTarget::Memory(k),
            (None, None, Some(k)) => r == DispatchTarget::Image(k),
            (None, None, None) => r is Registry,
        },
{
    reveal_strlit("restart");
    reveal_strlit("run_subtask");
    reveal_strlit("execute_task");
    reveal_strlit("execute_cmd");
    reveal_strlit("update_scratchpad");
    reveal_strlit("write_todos");
    reveal_strlit("ask_user_clarification");
    reveal_strlit("task_completed");
    assert("restart"@.len() == 7 && "run_subtask"@.len() == 11 && "execute_task"@.len() == 12
        && "execute_cmd"@.len() == 11 && "update_scratchpad"@.len() == 17 && "write_todos"@.len()
        == 11 && "ask_user_clarification"@.len() == 22 && "task_completed"@.len() == 14);
    assert("run_subtask"@[0] == 'r' && "execute_cmd"@[0] == 'e' && "write_todos"@[0] == 'w');
}

/// The tools that a session runs itself, whatever their arguments.
pub open spec fn is_own_tool(name: Seq<char>) -> bool {
    ||| name == "restart"@
    ||| name == "run_subtask"@
    ||| name == "execute_cmd"@
    ||| name == "update_scratchpad"@
    ||| name == "write_todos"@
    ||| name == "ask_user_clarification"@
    ||| name == "task_completed"@
}

/// Whether an object has a field of a name.
pub proof fn law_fields_of_an_object(args: &Json, key: &str, r: bool)
    requires
        call_ensures(object_has, (args, key), r),
    ensures
        !(args is Object) ==> !r,
        args matches Json::Object(fields) ==> (r <==> exists|i: int|
            0 <= i < fields@.len() && (#[trigger] fields@[i]).0@ == key@),
{
    match *args {
        Json::Object(fields) => {
            let v = args@->Object_0;
            assert forall|i: int| 0 <= i < fields@.len() implies v[i].0 == (#[trigger] fields@[i]).0@ by {}
            if r {
                let i = choose|i: int| 0 <= i < v.len() && (#[trigger] v[i]).0 == key@;
                assert(fields@[i].0@ == key@);
            }
            if exists|i: int| 0 <= i < fields@.len() && (#[trigger] fields@[i]).0@ == key@ {
                let i = choose|i: int|
                    0 <= i < fields@.len() && (#[trigger] fields@[i]).0@ == key@;
                assert(v[i].0 == key@);
            }
        },
        _ => {},
    }
}

/// A task that reports itself completed is told that it is not ready, under its
/// own number, or zero where it gives none.
pub proof fn law_completed_tasks_are_answered(
    name: &str,
    args: &Json,
    interface: &Vec<String>,
    memory: &Vec<String>,
    image: &Vec<String>,
    r: DispatchTarget,
    id: Option<i64>,
    key: &str,
)
    requires
        call_ensures(dispatch_target, (name, args, interface, memory, image), r),
        name@ == "task_completed"@,
        call_ensures(Json::i64_field, (args, key), id),
        key@ == "task_id"@,
    ensures
        r matches DispatchTarget::Answer(t) && t@ == "{\"status\":\"not_ready\",\"task_id\":"@
            + decimal(
            match id {
                Some(n) => n as int,
                None => 0,
            },
        )
            + ",\"message\":\"This tool is invoked by the system, not by you. Do not call it again — the result will arrive automatically as a new message in this conversation.\"}"@,
{
    reveal_strlit("restart");
    reveal_strlit("run_subtask");
    reveal_strlit("execute_task");
    reveal_strlit("execute_cmd");
    reveal_strlit("update_scratchpad");
    reveal_strlit("write_todos");
    reveal_strlit("ask_user_clarification");
    reveal_strlit("task_completed");
    assert("restart"@.len() == 7 && "run_subtask"@.len() == 11 && "execute_task"@.len() == 12
        && "execute_cmd"@.len() == 11 && "update_scratchpad"@.len() == 17 && "write_todos"@.len()
        == 11 && "ask_user_clarification"@.len() == 22 && "task_completed"@.len() == 14);
}

/// A relative path is taken from the working directory, an absolute one as it
/// is; a command without a directory of its own runs in the working directory.
/// Without a working directory nothing is patched.
pub proof fn law_working_directories(name: &str, args: &Json, wd: Option<&str>, r: ArgPatch, own_dir: bool, key: &str, path: &str, full: String)
    requires
        call_ensures(working_dir_patch, (name, args, wd), r),
        call_ensures(object_has, (args, key), own_dir),
        key@ == "workdir"@,
        wd matches Some(d) ==> call_ensures(path_join, (d, path), full),
    ensures
        wd is None ==> r.path is None && r.workdir is None,
        r.path is Some ==> args@.field("path"@) is Text,
        wd is Some && args@.field("path"@) == JsonView::Text(path@) ==> (r.path is Some <==> !(
        path@.len() > 0 && path@[0] == '/')),
        wd is Some && args@.field("path"@) == JsonView::Text(path@) && r.path is Some
            ==> r.path->Some_0@ == full@,
        r.workdir is Some <==> wd is Some && name@ == "execute_cmd"@ && !own_dir,
        r.workdir matches Some(w) ==> w@ == wd->Some_0@,
{
}

/// What a call runs with: its own arguments, with the patched fields and no
/// other change.
pub proof fn law_what_calls_run_with(
    name: &str,
    args: &Json,
    wd: Option<&str>,
    r: Option<Json>,
    p: ArgPatch,
    other: Seq<char>,
)
    requires
        call_ensures(effective_args, (name, args, wd), r),
        call_ensures(working_dir_patch, (name, args, wd), p),
        args@ is Object,
        other != "path"@,
        other != "workdir"@,
    ensures
        r is Some,
        r->Some_0@.field(other) == args@.field(other),
        p.path matches Some(t) ==> r->Some_0@.field("path"@) == JsonView::Text(t@),
        p.path is None ==> r->Some_0@.field("path"@) == args@.field("path"@),
        p.workdir is None ==> r->Some_0@.field("workdir"@) == args@.field("workdir"@),
        p.workdir matches Some(t) ==> r->Some_0@.field("workdir"@) == JsonView::Text(t@),
{
    reveal_strlit("path");
    reveal_strlit("workdir");
    assert("path"@.len() == 4 && "workdir"@.len() == 7);
    let dir = match wd {
        Some(d) => Some(d@),
        None => None,
    };
    let first = patched(args@, "path"@, patched_path(args@, dir));
    match patched_path(args@, dir) {
        Some(v) => {
            law_set_field(args@, "path"@, JsonView::Text(v), "workdir"@);
            law_set_field(args@, "path"@, JsonView::Text(v), other);
            lemma_kept_fields(args@, "path"@, JsonView::Text(v), "workdir"@);
        },
        None => {},
    }
    let a = first->Some_0;
    match patched_workdir(name@, a, dir) {
        Some(v) => {
            law_set_field(a, "workdir"@, JsonView::Text(v), "path"@);
            law_set_field(a, "workdir"@, JsonView::Text(v), other);
        },
        None => {},
    }
}

proof fn lemma_has_field(fields: Seq<(Seq<char>, JsonView)>, i: int, key: Seq<char>)
    requires
        0 <= i < fields.len(),
        fields[i].0 == key,
    ensures
        has_field(JsonView::Object(fields), key),
{
    let j = JsonView::Object(fields);
    assert(j->Object_0 == fields);
    assert((j->Object_0[i]).0 == key);
}

proof fn lemma_kept_fields(args: JsonView, key: Seq<char>, value: JsonView, other: Seq<char>)
    requires
        args is Object,
        other != key,
    ensures
        set_field(args, key, value) is Some,
        set_field(args, key, value)->Some_0 is Object,
        has_field(set_field(args, key, value)->Some_0, other) == has_field(args, other),
{
    broadcast use vstd::seq_lib::group_filter_ensures;

    let fields = args->Object_0;
    let kept = fields.filter(named_otherwise(key));
    let all = kept.push((key, value));
    assert(set_field(args, key, value)->Some_0 == JsonView::Object(all));
    if has_field(args, other) {
        let i = choose|i: int| 0 <= i < fields.len() && (#[trigger] fields[i]).0 == other;
        assert(fields.contains(fields[i]));
        assert(named_otherwise(key)(fields[i]));
        assert(kept.contains(fields[i]));
        let k = kept.index_of(fields[i]);
        assert(kept[k] == fields[i]);
        assert(0 <= k < all.len() && all[k] == kept[k]);
        lemma_has_field(all, k, other);
    }
    if exists|i: int| 0 <= i < all.len() && (#[trigger] all[i]).0 == other {
        let i = choose|i: int| 0 <= i < all.len() && (#[trigger] all[i]).0 == other;
        assert(all[i] == kept[i]);
        fields.lemma_filter_contains_rev(named_otherwise(key), kept[i]);
        let k = fields.index_of(kept[i]);
        assert(fields[k] == kept[i]);
        lemma_has_field(fields, k, other);
    }
}

} // verus!
