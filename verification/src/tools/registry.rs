//! The registered tools.
use vstd::prelude::*;

use crate::names::NameTable;
use crate::sorting::{
    by_text, inserted, is_total_preorder, law_stable_sorted, law_text_order, lemma_inserted_at,
    stable_sorted, text_le, text_not_after,
};
use crate::text::{lemma_filter_last, texts};
use crate::tools::ToolCategory;

verus! {

/// What the registry knows of a tool.
#[derive(Debug)]
pub struct ToolMeta {
    pub name: String,
    pub description: String,
    pub category: ToolCategory,
    /// Offered to sub-agents only.
    pub sub_agents_only: bool,
    /// Offered to root agents only.
    pub root_agent_only: bool,
    /// Offered in interactive sessions only.
    pub interactive_only: bool,
}

/// A name and a description.
pub open spec fn pair_views(v: Seq<(String, String)>) -> Seq<(Seq<char>, Seq<char>)> {
    v.map_values(|p: (String, String)| (p.0@, p.1@))
}

/// The order of pairs by name.
pub open spec fn by_first() -> spec_fn((Seq<char>, Seq<char>), (Seq<char>, Seq<char>)) -> bool {
    |a: (Seq<char>, Seq<char>), b: (Seq<char>, Seq<char>)| text_le(a.0, b.0)
}

/// Which tools are offered to a root agent.
pub open spec fn offered_to_root() -> spec_fn(ToolMeta) -> bool {
    |t: ToolMeta| !t.sub_agents_only
}

/// Which tools are offered to sub-agents only.
pub open spec fn for_sub_agents() -> spec_fn(ToolMeta) -> bool {
    |t: ToolMeta| t.sub_agents_only
}

/// Which tools are offered to root agents only.
pub open spec fn for_root_agents() -> spec_fn(ToolMeta) -> bool {
    |t: ToolMeta| t.root_agent_only
}

/// Which tools are offered in interactive sessions only.
pub open spec fn for_interactive() -> spec_fn(ToolMeta) -> bool {
    |t: ToolMeta| t.interactive_only
}

/// The tools behind references to them.
pub open spec fn referred(v: Seq<&ToolMeta>) -> Seq<ToolMeta> {
    v.map_values(|t: &ToolMeta| *t)
}

/// The tools by name. A tool takes the place of an earlier one of its name.
pub struct ToolRegistry {
    tools: NameTable<ToolMeta>,
}

impl ToolRegistry {
    /// Each tool stands under its own name.
    pub closed spec fn wf(&self) -> bool {
        &&& self.tools.wf()
        &&& forall|i: int|
            0 <= i < self.order().len() ==> self@.contains_key(#[trigger] self.order()[i])
        &&& forall|n: Seq<char>| #[trigger] self@.contains_key(n) ==> self@[n].name@ == n
    }

    /// The tools' names, in the order of their registration.
    pub closed spec fn order(&self) -> Seq<Seq<char>> {
        self.tools.order()
    }

    /// The tools, in the order of their registration.
    pub open spec fn all(&self) -> Seq<ToolMeta> {
        self.order().map_values(|n: Seq<char>| self@[n])
    }

    pub fn new() -> (r: ToolRegistry)
        ensures
            r.wf(),
            r@ == Map::<Seq<char>, ToolMeta>::empty(),
            r.order() == Seq::<Seq<char>>::empty(),
    {
        ToolRegistry { tools: NameTable::new() }
    }

    /// Registers a tool.
    pub fn register(&mut self, tool: ToolMeta)
        requires
            old(self).wf(),
        ensures
            final(self).wf(),
            final(self)@ == old(self)@.insert(tool.name@, tool),
            final(self).order() == if old(self)@.contains_key(tool.name@) {
                old(self).order()
            } else {
                old(self).order().push(tool.name@)
            },
    {
        let ghost had = self.order();
        let name: String = tool.name.clone();
        self.tools.insert(name, tool);
        assert forall|i: int| 0 <= i < self.order().len() implies self@.contains_key(
            #[trigger] self.order()[i],
        ) by {
            if i < had.len() {
                assert(self.order()[i] == had[i]);
                assert(old(self)@.contains_key(had[i]));
            }
        }
    }

    fn tool_at(&self, i: usize) -> (r: &ToolMeta)
        requires
            self.wf(),
            i < self.order().len(),
        ensures
            *r == self.all()[i as int],
            r.name@ == self.order()[i as int],
    {
        self.tools.at(i).1
    }

    /// The tools whose definitions are offered to a root agent.
    pub fn openai_definitions(&self) -> (r: Vec<&ToolMeta>)
        requires
            self.wf(),
        ensures
            referred(r@) == self.all().filter(offered_to_root()),
    {
        self.with_sub_agents_only(false, Ghost(offered_to_root()))
    }

    /// The tools whose definitions are offered to sub-agents besides.
    pub fn openai_definitions_sub_agents_only(&self) -> (r: Vec<&ToolMeta>)
        requires
            self.wf(),
        ensures
            referred(r@) == self.all().filter(for_sub_agents()),
    {
        self.with_sub_agents_only(true, Ghost(for_sub_agents()))
    }

    fn with_sub_agents_only(&self, flag: bool, pred: Ghost<spec_fn(ToolMeta) -> bool>) -> (r: Vec<
        &ToolMeta,
    >)
        requires
            self.wf(),
            forall|t: ToolMeta| #[trigger] pred@(t) == (t.sub_agents_only == flag),
        ensures
            referred(r@) == self.all().filter(pred@),
    {
        let ghost all = self.all();
        let n: usize = self.tools.len();
        let mut out: Vec<&ToolMeta> = Vec::new();
        let mut i: usize = 0;
        assert(referred(out@) =~= all.take(0).filter(pred@)) by {
            reveal(Seq::filter);
        }
        while i < n
            invariant
                self.wf(),
                all == self.all(),
                n == all.len(),
                n == self.order().len(),
                i <= n,
                forall|t: ToolMeta| #[trigger] pred@(t) == (t.sub_agents_only == flag),
                referred(out@) == all.take(i as int).filter(pred@),
            decreases n - i,
        {
            let ghost had = referred(out@);
            proof {
                assert(all.take(i + 1).drop_last() =~= all.take(i as int));
                lemma_filter_last(all.take(i + 1), pred@);
            }
            let t: &ToolMeta = self.tool_at(i);
            if t.sub_agents_only == flag {
                out.push(t);
                assert(referred(out@) =~= had.push(all[i as int]));
            }
            i = i + 1;
        }
        assert(all.take(n as int) =~= all);
        out
    }

    /// The names of the tools for root agents only.
    pub fn root_agent_only_names(&self) -> (r: Vec<String>)
        requires
            self.wf(),
        ensures
            texts(r@) == self.all().filter(for_root_agents()).map_values(|t: ToolMeta| t.name@),
    {
        let ghost all = self.all();
        let n: usize = self.tools.len();
        let mut out: Vec<String> = Vec::new();
        let mut i: usize = 0;
        let ghost pred = for_root_agents();
        assert(texts(out@) =~= all.take(0).filter(pred).map_values(|t: ToolMeta| t.name@)) by {
            reveal(Seq::filter);
        }
        while i < n
            invariant
                self.wf(),
                all == self.all(),
                n == all.len(),
                n == self.order().len(),
                i <= n,
                pred == for_root_agents(),
                texts(out@) == all.take(i as int).filter(pred).map_values(|t: ToolMeta| t.name@),
            decreases n - i,
        {
            let ghost had = texts(out@);
            proof {
                assert(all.take(i + 1).drop_last() =~= all.take(i as int));
                lemma_filter_last(all.take(i + 1), pred);
            }
            let t: &ToolMeta = self.tool_at(i);
            if t.root_agent_only {
                out.push(t.name.clone());
                assert(texts(out@) =~= had.push(t.name@));
                assert(all.take(i + 1).filter(pred).map_values(|t: ToolMeta| t.name@) =~= had.push(
                    t.name@,
                ));
            }
            i = i + 1;
        }
        assert(all.take(n as int) =~= all);
        out
    }

    /// The names of the tools for interactive sessions only.
    pub fn interactive_only_names(&self) -> (r: Vec<String>)
        requires
            self.wf(),
        ensures
            texts(r@) == self.all().filter(for_interactive()).map_values(|t: ToolMeta| t.name@),
    {
        let ghost all = self.all();
        let n: usize = self.tools.len();
        let mut out: Vec<String> = Vec::new();
        let mut i: usize = 0;
        let ghost pred = for_interactive();
        assert(texts(out@) =~= all.take(0).filter(pred).map_values(|t: ToolMeta| t.name@)) by {
            reveal(Seq::filter);
        }
        while i < n
            invariant
                self.wf(),
                all == self.all(),
                n == all.len(),
                n == self.order().len(),
                i <= n,
                pred == for_interactive(),
                texts(out@) == all.take(i as int).filter(pred).map_values(|t: ToolMeta| t.name@),
            decreases n - i,
        {
            let ghost had = texts(out@);
            proof {
                assert(all.take(i + 1).drop_last() =~= all.take(i as int));
                lemma_filter_last(all.take(i + 1), pred);
            }
            let t: &ToolMeta = self.tool_at(i);
            if t.interactive_only {
                out.push(t.name.clone());
                assert(texts(out@) =~= had.push(t.name@));
                assert(all.take(i + 1).filter(pred).map_values(|t: ToolMeta| t.name@) =~= had.push(
                    t.name@,
                ));
            }
            i = i + 1;
        }
        assert(all.take(n as int) =~= all);
        out
    }

    /// The name and description of each tool.
    pub open spec fn listing(&self) -> Seq<(Seq<char>, Seq<char>)> {
        self.all().map_values(|t: ToolMeta| (t.name@, t.description@))
    }

    /// The name and description of every tool, by name.
    pub fn list_all(&self) -> (r: Vec<(String, String)>)
        requires
            self.wf(),
        ensures
            pair_views(r@) == stable_sorted(self.listing(), by_first()),
    {
        let ghost all = self.listing();
        let n: usize = self.tools.len();
        let mut out: Vec<(String, String)> = Vec::new();
        let mut i: usize = 0;
        assert(pair_views(out@) =~= stable_sorted(all.take(0), by_first()));
        while i < n
            invariant
                self.wf(),
                all == self.listing(),
                n == all.len(),
                n == self.order().len(),
                i <= n,
                pair_views(out@) == stable_sorted(all.take(i as int), by_first()),
            decreases n - i,
        {
            assert(all.take(i + 1).drop_last() =~= all.take(i as int));
            let t: &ToolMeta = self.tool_at(i);
            insert_pair(&mut out, (t.name.clone(), t.description.clone()));
            i = i + 1;
        }
        assert(all.take(n as int) =~= all);
        out
    }

    /// The label of a call, given the label that the tool itself gives it. An
    /// unregistered tool is shown by its name.
    pub fn describe_call(&self, name: &str, label: &str) -> (r: String)
        requires
            self.wf(),
        ensures
            r@ == if self@.contains_key(name@) {
                label@
            } else {
                name@
            },
    {
        match self.tools.get(name) {
            Some(_) => label.to_owned(),
            None => name.to_owned(),
        }
    }

    /// The category of a registered tool.
    pub fn category_of(&self, name: &str) -> (r: Option<ToolCategory>)
        requires
            self.wf(),
        ensures
            r == if self@.contains_key(name@) {
                Some(self@[name@].category)
            } else {
                None
            },
    {
        match self.tools.get(name) {
            Some(t) => Some(t.category),
            None => None,
        }
    }

    /// The tool that a call runs.
    pub fn dispatch(&self, name: &str) -> (r: Result<&ToolMeta, String>)
        requires
            self.wf(),
        ensures
            match r {
                Ok(t) => self@.contains_key(name@) && *t == self@[name@] && t.name@ == name@,
                Err(e) => !self@.contains_key(name@) && e@ == "Unknown tool: "@ + name@,
            },
    {
        match self.tools.get(name) {
            Some(t) => Ok(t),
            None => {
                let mut e: String = "Unknown tool: ".to_owned();
                e.append(name);
                Err(e)
            },
        }
    }
}

impl View for ToolRegistry {
    type V = Map<Seq<char>, ToolMeta>;

    closed spec fn view(&self) -> Map<Seq<char>, ToolMeta> {
        self.tools@
    }
}

fn insert_pair(v: &mut Vec<(String, String)>, x: (String, String))
    ensures
        pair_views(final(v)@) == inserted(pair_views(old(v)@), (x.0@, x.1@), by_first()),
{
    let n: usize = v.len();
    let ghost all = pair_views(v@);
    let ghost le = by_first();
    let ghost new = (x.0@, x.1@);
    let mut k: usize = n;
    while k > 0 && !text_not_after(v[k - 1].0.as_str(), x.0.as_str())
        invariant
            k <= n,
            n == v@.len(),
            all == pair_views(v@),
            *v == *old(v),
            le == by_first(),
            new == (x.0@, x.1@),
            forall|j: int| k <= j < n ==> !le(#[trigger] all[j], new),
        decreases k,
    {
        assert(all[k - 1] == (v@[k - 1].0@, v@[k - 1].1@));
        k = k - 1;
    }
    proof {
        if k > 0 {
            assert(all[k - 1] == (v@[k - 1].0@, v@[k - 1].1@));
        }
        lemma_inserted_at(all, new, le, k as int);
    }
    v.insert(k, x);
    assert(pair_views(v@) =~= all.insert(k as int, new));
}

/// A registered tool can be dispatched, and its registration hides no other
/// tool than an earlier one of its name.
pub proof fn law_registered_tools_are_found(before: ToolRegistry, after: ToolRegistry, tool: ToolMeta)
    requires
        after@ == before@.insert(tool.name@, tool),
    ensures
        after@.contains_key(tool.name@),
        after@[tool.name@] == tool,
        forall|n: Seq<char>|
            n != tool.name@ && #[trigger] before@.contains_key(n) ==> after@.contains_key(n)
                && after@[n] == before@[n],
{
}

/// The tools offered to a root agent and those offered to sub-agents besides
/// are all tools, and none is both.
pub proof fn law_each_tool_is_offered_once(r: ToolRegistry, t: ToolMeta)
    requires
        r.all().contains(t),
    ensures
        r.all().filter(offered_to_root()).contains(t) != r.all().filter(for_sub_agents()).contains(
            t,
        ),
{
    broadcast use vstd::seq_lib::group_filter_ensures;

    let all = r.all();
    let root = all.filter(offered_to_root());
    let sub = all.filter(for_sub_agents());
    if t.sub_agents_only {
        assert(sub.contains(t));
        if root.contains(t) {
            let i = choose|i: int| 0 <= i < root.len() && root[i] == t;
            assert(offered_to_root()(root[i]));
        }
    } else {
        assert(root.contains(t));
        if sub.contains(t) {
            let i = choose|i: int| 0 <= i < sub.len() && sub[i] == t;
            assert(for_sub_agents()(sub[i]));
        }
    }
}

/// A tool that is registered is found under its name, before and behind any
/// others; a name that nobody registered is unknown.
pub proof fn law_tools_are_found(
    reg: &mut ToolRegistry,
    tool: ToolMeta,
    name: &str,
    r: Result<&ToolMeta, String>,
    before: Result<&ToolMeta, String>,
    category: Option<ToolCategory>,
    label: &str,
    described: String,
)
    requires
        call_ensures(ToolRegistry::register, (reg, tool), ()),
        call_ensures(ToolRegistry::dispatch, (&*final(reg), name), r),
        call_ensures(ToolRegistry::dispatch, (&*old(reg), name), before),
        call_ensures(ToolRegistry::category_of, (&*final(reg), name), category),
        call_ensures(ToolRegistry::describe_call, (&*final(reg), name, label), described),
    ensures
        name@ == tool.name@ ==> r is Ok && *r->Ok_0 == tool,
        name@ != tool.name@ ==> (r is Ok <==> before is Ok) && (r is Ok ==> *r->Ok_0
            == *before->Ok_0),
        r matches Err(e) ==> e@ == "Unknown tool: "@ + name@,
        category == if r is Ok {
            Some(r->Ok_0.category)
        } else {
            None
        },
        described@ == if r is Ok {
            label@
        } else {
            name@
        },
{
}

proof fn lemma_meta_among(s: Seq<ToolMeta>, keep: spec_fn(ToolMeta) -> bool, x: ToolMeta)
    ensures
        s.filter(keep).contains(x) == (s.contains(x) && keep(x)),
{
    broadcast use vstd::seq_lib::group_filter_ensures;

    let kept = s.filter(keep);
    if kept.contains(x) {
        s.lemma_filter_contains_rev(keep, x);
        let k = kept.index_of(x);
        assert(keep(kept[k]));
    }
    if s.contains(x) && keep(x) {
        assert(kept.contains(x));
    }
}

/// Which tools are offered to whom: those marked for sub-agents only to
/// sub-agents, all others to everyone.
pub proof fn law_tools_on_offer(reg: &ToolRegistry, r: Vec<&ToolMeta>, s: Vec<&ToolMeta>, t: ToolMeta)
    requires
        call_ensures(ToolRegistry::openai_definitions, (reg,), r),
        call_ensures(ToolRegistry::openai_definitions_sub_agents_only, (reg,), s),
    ensures
        referred(r@).contains(t) <==> reg.all().contains(t) && !t.sub_agents_only,
        referred(s@).contains(t) <==> reg.all().contains(t) && t.sub_agents_only,
{
    lemma_meta_among(reg.all(), offered_to_root(), t);
    lemma_meta_among(reg.all(), for_sub_agents(), t);
}

/// The names of the tools for the root agent alone, and of those for
/// conversations with somebody.
pub proof fn law_marked_tools(reg: &ToolRegistry, r: Vec<String>, s: Vec<String>, t: ToolMeta)
    requires
        call_ensures(ToolRegistry::root_agent_only_names, (reg,), r),
        call_ensures(ToolRegistry::interactive_only_names, (reg,), s),
        reg.all().contains(t),
    ensures
        t.root_agent_only ==> texts(r@).contains(t.name@),
        t.interactive_only ==> texts(s@).contains(t.name@),
        r@.len() == reg.all().filter(|m: ToolMeta| m.root_agent_only).len(),
        s@.len() == reg.all().filter(|m: ToolMeta| m.interactive_only).len(),
{
    lemma_meta_among(reg.all(), for_root_agents(), t);
    lemma_meta_among(reg.all(), for_interactive(), t);
    let a = reg.all().filter(for_root_agents());
    let b = reg.all().filter(for_interactive());
    if t.root_agent_only {
        let k = a.index_of(t);
        assert(texts(r@)[k] == t.name@);
    }
    if t.interactive_only {
        let k = b.index_of(t);
        assert(texts(s@)[k] == t.name@);
    }
    assert(texts(r@).len() == r@.len() && texts(s@).len() == s@.len());
    assert(for_root_agents() =~= (|m: ToolMeta| m.root_agent_only));
    assert(for_interactive() =~= (|m: ToolMeta| m.interactive_only));
}

/// All tools are listed with what they do, in the order of their names.
pub proof fn law_listed_tools(reg: &ToolRegistry, r: Vec<(String, String)>, i: int, j: int)
    requires
        call_ensures(ToolRegistry::list_all, (reg,), r),
        0 <= i < j < r@.len(),
    ensures
        r@.len() == reg.order().len(),
        text_le(r@[i].0@, r@[j].0@),
        pair_views(r@).to_multiset() == reg.all().map_values(
            |t: ToolMeta| (t.name@, t.description@),
        ).to_multiset(),
{
    law_text_order();
    let le = by_first();
    assert(is_total_preorder(le)) by {
        assert forall|a: (Seq<char>, Seq<char>)| #[trigger] le(a, a) by {
            assert(by_text()(a.0, a.0));
        }
        assert forall|a: (Seq<char>, Seq<char>), b: (Seq<char>, Seq<char>)| #[trigger]
            le(a, b) || le(b, a) by {
            assert(by_text()(a.0, b.0) || by_text()(b.0, a.0));
        }
        assert forall|a: (Seq<char>, Seq<char>), b: (Seq<char>, Seq<char>), c: (Seq<char>, Seq<char>)|
            #[trigger] le(a, b) && #[trigger] le(b, c) implies le(a, c) by {
            assert(by_text()(a.0, b.0) && by_text()(b.0, c.0));
            assert(by_text()(a.0, c.0));
        }
    }
    law_stable_sorted(reg.listing(), le);
    let v = pair_views(r@);
    assert(v.len() == r@.len());
    assert(le(v[i], v[j]));
}

/// A fresh registry knows no tool.
pub proof fn law_fresh_registries(r: ToolRegistry, name: &str, found: Result<&ToolMeta, String>)
    requires
        call_ensures(ToolRegistry::new, (), r),
        call_ensures(ToolRegistry::dispatch, (&r, name), found),
    ensures
        found is Err,
{
}

} // verus!
