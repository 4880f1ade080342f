//! Walking directories: which entries are visited, and in which order.
use vstd::prelude::*;

use crate::json::{array_text, json_texts, Json};
use crate::paths::{join_text, path_join};
use crate::sorting::{
    by_text, is_sorted, is_total_preorder, law_stable_sorted, law_text_order, lemma_inserted_at,
    sort_texts, stable_sorted, text_le, text_not_after,
};
use crate::text::{lemma_filter_last, str_eq, texts};
use crate::tools::{ToolCategory, MAX_LABEL_SHORT};

verus! {

/// An entry of a directory.
#[derive(Debug)]
pub struct DirEntry {
    pub name: String,
    pub path: String,
    pub is_dir: bool,
}

/// The directories that a search does not enter.
pub open spec fn search_skips() -> Seq<Seq<char>> {
    seq!["target"@, ".git"@, "node_modules"@, ".venv"@, "__pycache__"@, "secrets"@]
}

/// The directories that a listing leaves out.
pub open spec fn listing_skips() -> Seq<Seq<char>> {
    seq![".git"@, "target"@, "node_modules"@, ".cache"@, "secrets"@]
}

/// Whether a search stays out of a directory. `secrets` is among them, so a
/// search rooted above it never shows what it holds.
pub fn is_search_skipped(name: &str) -> (r: bool)
    ensures
        r == search_skips().contains(name@),
{
    let ghost all = search_skips();
    if str_eq(name, "target") {
        assert(all[0] == name@);
        return true;
    }
    if str_eq(name, ".git") {
        assert(all[1] == name@);
        return true;
    }
    if str_eq(name, "node_modules") {
        assert(all[2] == name@);
        return true;
    }
    if str_eq(name, ".venv") {
        assert(all[3] == name@);
        return true;
    }
    if str_eq(name, "__pycache__") {
        assert(all[4] == name@);
        return true;
    }
    if str_eq(name, "secrets") {
        assert(all[5] == name@);
        return true;
    }
    false
}

/// Whether a listing leaves a directory out.
pub fn is_listing_skipped(name: &str) -> (r: bool)
    ensures
        r == listing_skips().contains(name@),
{
    let ghost all = listing_skips();
    if str_eq(name, ".git") {
        assert(all[0] == name@);
        return true;
    }
    if str_eq(name, "target") {
        assert(all[1] == name@);
        return true;
    }
    if str_eq(name, "node_modules") {
        assert(all[2] == name@);
        return true;
    }
    if str_eq(name, ".cache") {
        assert(all[3] == name@);
        return true;
    }
    if str_eq(name, "secrets") {
        assert(all[4] == name@);
        return true;
    }
    false
}

/// Entries in the order of their names.
pub open spec fn by_name() -> spec_fn(DirEntry, DirEntry) -> bool {
    |a: DirEntry, b: DirEntry| text_le(a.name@, b.name@)
}

/// Whether a search visits an entry.
pub open spec fn visited() -> spec_fn(DirEntry) -> bool {
    |e: DirEntry| !(e.is_dir && search_skips().contains(e.name@))
}

/// The walk of a search: what is left to visit, in order. A directory's
/// entries are visited where the directory stood.
pub struct SearchWalk {
    /// What is left, the next one last.
    pub pending: Vec<DirEntry>,
}

impl SearchWalk {
    /// What is left to visit, in order.
    pub open spec fn order(&self) -> Seq<DirEntry> {
        self.pending@.reverse()
    }

    pub fn new(root: DirEntry) -> (r: SearchWalk)
        ensures
            r.order() == seq![root],
    {
        let mut pending: Vec<DirEntry> = Vec::new();
        pending.push(root);
        let r: SearchWalk = SearchWalk { pending };
        assert(r.order() =~= seq![root]);
        r
    }

    /// Takes the next entry. Where it is a directory, its entries are to be
    /// handed to [`SearchWalk::enter`] before the next one is taken.
    pub fn next(&mut self) -> (r: Option<DirEntry>)
        ensures
            match r {
                Some(e) => old(self).order().len() > 0 && e == old(self).order()[0] && final(self).order() == old(self).order().skip(1),
                None => old(self).order().len() == 0 && final(self).order() == old(self).order(),
            },
    {
        let ghost before = self.pending@;
        let r: Option<DirEntry> = self.pending.pop();
        proof {
            if before.len() > 0 {
                assert(self.pending@.reverse() =~= before.reverse().skip(1));
            }
        }
        r
    }

    /// Puts the entries of a directory before everything that is left, in the
    /// order of their names and without the directories that are skipped.
    pub fn enter(&mut self, entries: Vec<DirEntry>)
        ensures
            final(self).order() == stable_sorted(entries@, by_name()).filter(visited()) + old(self).order(),
    {
        let ghost start = self.order();
        let sorted: Vec<DirEntry> = sort_entries(entries);
        let ghost all = sorted@;
        let mut rest: Vec<DirEntry> = sorted;
        assert(all.take(all.len() as int) =~= all);
        assert(all.skip(all.len() as int) =~= Seq::<DirEntry>::empty());
        assert(Seq::<DirEntry>::empty().filter(visited()) =~= Seq::<DirEntry>::empty()) by {
            reveal(Seq::filter);
        }
        assert(self.order() =~= all.skip(all.len() as int).filter(visited()) + start);
        while rest.len() > 0
            invariant
                rest@.len() <= all.len(),
                rest@ == all.take(rest@.len() as int),
                self.order() == all.skip(rest@.len() as int).filter(visited()) + start,
            decreases rest@.len(),
        {
            let ghost k = rest@.len() - 1;
            let ghost before = self.pending@;
            match rest.pop() {
                Some(e) => {
                    assert(e == all[k]);
                    assert(rest@ =~= all.take(k));
                    proof {
                        assert(all.skip(k) =~= seq![e] + all.skip(k + 1));
                        Seq::filter_distributes_over_add(seq![e], all.skip(k + 1), visited());
                        lemma_filter_one(e, visited());
                    }
                    if !(e.is_dir && is_search_skipped(e.name.as_str())) {
                        self.pending.push(e);
                        assert(self.pending@.reverse() =~= seq![e] + before.reverse());
                        assert(self.order() =~= all.skip(k).filter(visited()) + start);
                    } else {
                        assert(self.order() =~= all.skip(k).filter(visited()) + start);
                    }
                },
                None => {},
            }
        }
        assert(all.skip(0) =~= all);
    }
}

proof fn lemma_filter_one<A>(x: A, pred: spec_fn(A) -> bool)
    ensures
        seq![x].filter(pred) == if pred(x) {
            seq![x]
        } else {
            Seq::empty()
        },
{
    reveal(Seq::filter);
    assert(seq![x].drop_last() =~= Seq::<A>::empty());
    assert(Seq::<A>::empty().filter(pred) =~= Seq::<A>::empty());
    assert(Seq::<A>::empty().push(x) =~= seq![x]);
}

/// Entries in the order of their names.
pub fn sort_entries(entries: Vec<DirEntry>) -> (r: Vec<DirEntry>)
    ensures
        r@ == stable_sorted(entries@, by_name()),
{
    let ghost all = entries@;
    let ghost le = by_name();
    let mut rest: Vec<DirEntry> = entries;
    let mut out: Vec<DirEntry> = Vec::new();
    let ghost mut n: int = 0;
    assert(all.skip(0) =~= all);
    assert(out@ =~= stable_sorted(all.take(0), le));
    while rest.len() > 0
        invariant
            0 <= n <= all.len(),
            rest@ == all.skip(n),
            le == by_name(),
            out@ == stable_sorted(all.take(n), le),
        decreases rest@.len(),
    {
        let x: DirEntry = rest.remove(0);
        proof {
            assert(x == all[n]);
            assert(all.skip(n).remove(0) =~= all.skip(n + 1));
            assert(all.take(n + 1).drop_last() =~= all.take(n));
            n = n + 1;
        }
        let mut k: usize = out.len();
        while k > 0 && !text_not_after(out[k - 1].name.as_str(), x.name.as_str())
            invariant
                k <= out@.len(),
                le == by_name(),
                forall|j: int| k <= j < out@.len() ==> !le(#[trigger] out@[j], x),
            decreases k,
        {
            k = k - 1;
        }
        proof {
            lemma_inserted_at(out@, x, le, k as int);
        }
        out.insert(k, x);
    }
    assert(all.take(n) =~= all);
    out
}

/// No directory that a search skips is ever visited below its root.
pub proof fn law_skipped_directories_are_not_entered(entries: Seq<DirEntry>, e: DirEntry)
    requires
        e.is_dir,
        search_skips().contains(e.name@),
    ensures
        !stable_sorted(entries, by_name()).filter(visited()).contains(e),
{
    broadcast use vstd::seq_lib::group_filter_ensures;

    let kept = stable_sorted(entries, by_name()).filter(visited());
    if kept.contains(e) {
        let i = choose|i: int| 0 <= i < kept.len() && kept[i] == e;
        assert(visited()(kept[i]));
    }
}

/// The tool that lists files.
#[derive(Debug)]
pub struct ListFiles;

/// The arguments of a listing.
#[derive(Debug)]
pub struct ListArgs {
    pub path: String,
    pub max_depth: u64,
    pub dirs_only: bool,
}

/// What a listing does with an entry.
#[derive(Debug, Clone, Copy, PartialEq, Eq, Structural)]
pub struct ListStep {
    /// The entry is listed.
    pub listed: bool,
    /// The entry is a directory whose entries come next.
    pub entered: bool,
}

/// What a listing does with an entry found at a depth, the root's own entries
/// being at depth zero: files and directories are listed, or directories alone
/// where the call asks for that.
pub open spec fn list_step(
    name: Seq<char>,
    is_dir: bool,
    is_file: bool,
    depth: u64,
    args: ListArgs,
) -> ListStep {
    if is_dir {
        let seen = !listing_skips().contains(name);
        ListStep { listed: seen, entered: seen && depth + 1 < args.max_depth }
    } else {
        ListStep { listed: is_file && !args.dirs_only, entered: false }
    }
}

impl ListFiles {
    pub fn new() -> (r: ListFiles)
        ensures
            r == ListFiles,
    {
        ListFiles
    }

    pub fn name(&self) -> (r: &'static str)
        ensures
            r@ == "list_files"@,
    {
        "list_files"
    }

    pub fn category(&self) -> (r: ToolCategory)
        ensures
            r == ToolCategory::Filesystem,
    {
        ToolCategory::Filesystem
    }

    /// The label of a call, and how long it may be.
    pub fn describe(&self, args: &Json) -> (r: (String, usize))
        ensures
            r.0@ == "list_files `"@ + match args@.field("path"@).as_text() {
                Some(p) => p,
                None => "."@,
            } + "`"@,
            r.1 == MAX_LABEL_SHORT,
    {
        let path: String = match args.text_field("path") {
            Some(p) => p,
            None => ".".to_owned(),
        };
        let mut t: String = "list_files `".to_owned();
        t.append(path.as_str());
        t.append("`");
        (t, MAX_LABEL_SHORT)
    }

    /// The arguments of a call, with their defaults.
    pub fn arguments(&self, args: &Json) -> (r: ListArgs)
        ensures
            r.path@ == match args@.field("path"@).as_text() {
                Some(p) => p,
                None => "."@,
            },
            r.max_depth == match args@.field("depth"@).as_u64() {
                Some(n) => n,
                None => 3,
            },
            r.dirs_only == (args@.field("dirs_only"@).as_bool() == Some(true)),
    {
        let path: String = match args.text_field("path") {
            Some(p) => p,
            None => ".".to_owned(),
        };
        let max_depth: u64 = match args.u64_field("depth") {
            Some(n) => n,
            None => 3,
        };
        let dirs_only: bool = match args.bool_field("dirs_only") {
            Some(b) => b,
            None => false,
        };
        ListArgs { path, max_depth, dirs_only }
    }

    /// What a listing does with an entry found at a depth.
    pub fn visit(
        &self,
        name: &str,
        is_dir: bool,
        is_file: bool,
        depth: u64,
        args: &ListArgs,
    ) -> (r: ListStep)
        ensures
            r == list_step(name@, is_dir, is_file, depth, *args),
    {
        if is_dir {
            if is_listing_skipped(name) {
                ListStep { listed: false, entered: false }
            } else {
                ListStep {
                    listed: true,
                    entered: args.max_depth > 0 && depth < args.max_depth - 1,
                }
            }
        } else {
            ListStep { listed: is_file && !args.dirs_only, entered: false }
        }
    }

    /// The result of a listing: the paths in order, as a JSON array.
    pub fn render(&self, paths: Vec<String>) -> (r: String)
        ensures
            r@ == json_texts(stable_sorted(texts(paths@), by_text())),
    {
        let sorted: Vec<String> = sort_texts(paths);
        array_text(&sorted)
    }
}

/// An entry that a listing comes across.
#[derive(Debug)]
pub struct ListEntry {
    pub name: String,
    pub is_dir: bool,
    pub is_file: bool,
}

/// What a listing does with an entry.
pub open spec fn entry_step(e: ListEntry, depth: u64, args: ListArgs) -> ListStep {
    list_step(e.name@, e.is_dir, e.is_file, depth, args)
}

/// Which entries are listed.
pub open spec fn is_listed(depth: u64, args: ListArgs) -> spec_fn(ListEntry) -> bool {
    |e: ListEntry| entry_step(e, depth, args).listed
}

/// A listing shows every directory that is not left out, and every file unless
/// the call asks for directories alone. What lies in a directory that is left
/// out is never read.
pub proof fn law_listing_shows_files_and_directories(e: ListEntry, depth: u64, args: ListArgs)
    ensures
        e.is_dir ==> is_listed(depth, args)(e) == !listing_skips().contains(e.name@),
        e.is_file && !e.is_dir ==> is_listed(depth, args)(e) == !args.dirs_only,
        !e.is_file && !e.is_dir ==> !is_listed(depth, args)(e),
        is_entered(depth, args)(e) ==> e.is_dir && is_listed(depth, args)(e) && depth + 1
            < args.max_depth,
{
}

/// Which directories are read.
pub open spec fn is_entered(depth: u64, args: ListArgs) -> spec_fn(ListEntry) -> bool {
    |e: ListEntry| entry_step(e, depth, args).entered
}

/// The paths of entries of a directory.
pub open spec fn paths_in(dir: Seq<char>, entries: Seq<ListEntry>) -> Seq<Seq<char>> {
    entries.map_values(|e: ListEntry| join_text(dir, e.name@))
}

/// Directories of a depth that are still to be read.
pub open spec fn dirs_at(paths: Seq<Seq<char>>, depth: int) -> Seq<(Seq<char>, int)> {
    paths.map_values(|p: Seq<char>| (p, depth))
}

/// A listing in progress.
pub struct ListRun {
    pub args: ListArgs,
    /// The paths listed so far, relative to the root of the listing.
    pub found: Vec<String>,
    /// The directories to read, with their depths.
    pub pending: Vec<(String, u64)>,
}

impl ListRun {
    /// The directories to read.
    pub open spec fn to_read(&self) -> Seq<(Seq<char>, int)> {
        self.pending@.map_values(|d: (String, u64)| (d.0@, d.1 as int))
    }

    /// Starts a listing with its root, whose path is empty.
    pub fn start(args: ListArgs) -> (r: ListRun)
        ensures
            r.args == args,
            r.found@.len() == 0,
            r.to_read() == seq![(Seq::<char>::empty(), 0int)],
    {
        let mut pending: Vec<(String, u64)> = Vec::new();
        pending.push((String::new(), 0));
        let r: ListRun = ListRun { args, found: Vec::new(), pending };
        assert(r.to_read() =~= seq![(Seq::<char>::empty(), 0int)]);
        r
    }

    /// A directory to read next, with its depth; none once all were read.
    pub fn next(&mut self) -> (r: Option<(String, u64)>)
        ensures
            *final(self) == (ListRun { pending: final(self).pending, ..*old(self) }),
            match r {
                Some(d) => {
                    &&& old(self).to_read().len() > 0
                    &&& old(self).to_read().last() == (d.0@, d.1 as int)
                    &&& final(self).to_read() == old(self).to_read().drop_last()
                },
                None => {
                    &&& old(self).to_read().len() == 0
                    &&& final(self).to_read() == old(self).to_read()
                },
            },
    {
        let ghost had = self.to_read();
        let r: Option<(String, u64)> = self.pending.pop();
        if r.is_some() {
            assert(self.to_read() =~= had.drop_last());
        }
        r
    }

    /// Adds the entries of a directory: those that are listed are found, and
    /// those that are entered are read in turn.
    pub fn read(&mut self, dir: &str, depth: u64, entries: &Vec<ListEntry>)
        ensures
            final(self).args == old(self).args,
            texts(final(self).found@) == texts(old(self).found@) + paths_in(
                dir@,
                entries@.filter(is_listed(depth, old(self).args)),
            ),
            final(self).to_read() == old(self).to_read() + dirs_at(
                paths_in(dir@, entries@.filter(is_entered(depth, old(self).args))),
                depth + 1,
            ),
    {
        let ghost listed = is_listed(depth, self.args);
        let ghost entered = is_entered(depth, self.args);
        let ghost found = texts(self.found@);
        let ghost pending = self.to_read();
        let tool: ListFiles = ListFiles;
        let mut i: usize = 0;
        proof {
            reveal(Seq::filter);
            assert(entries@.take(0).filter(listed) =~= Seq::<ListEntry>::empty());
            assert(entries@.take(0).filter(entered) =~= Seq::<ListEntry>::empty());
        }
        assert(found =~= found + paths_in(dir@, entries@.take(0).filter(listed)));
        assert(pending =~= pending + dirs_at(
            paths_in(dir@, entries@.take(0).filter(entered)),
            depth + 1,
        ));
        while i < entries.len()
            invariant
                i <= entries@.len(),
                self.args == old(self).args,
                listed == is_listed(depth, self.args),
                entered == is_entered(depth, self.args),
                texts(self.found@) == found + paths_in(
                    dir@,
                    entries@.take(i as int).filter(listed),
                ),
                self.to_read() == pending + dirs_at(
                    paths_in(dir@, entries@.take(i as int).filter(entered)),
                    depth + 1,
                ),
            decreases entries@.len() - i,
        {
            let e: &ListEntry = &entries[i];
            proof {
                assert(entries@.take(i + 1).drop_last() =~= entries@.take(i as int));
                assert(entries@.take(i + 1).last() == entries@[i as int]);
                lemma_filter_last(entries@.take(i + 1), listed);
                lemma_filter_last(entries@.take(i + 1), entered);
            }
            let step: ListStep = tool.visit(e.name.as_str(), e.is_dir, e.is_file, depth, &self.args);
            let ghost had = texts(self.found@);
            let ghost left = self.to_read();
            if step.listed {
                self.found.push(path_join(dir, e.name.as_str()));
                assert(texts(self.found@) =~= had.push(join_text(dir@, e.name@)));
            }
            if step.entered {
                self.pending.push((path_join(dir, e.name.as_str()), depth + 1));
                assert(self.to_read() =~= left.push((join_text(dir@, e.name@), depth + 1)));
            }
            i = i + 1;
            assert(texts(self.found@) =~= found + paths_in(
                dir@,
                entries@.take(i as int).filter(listed),
            ));
            assert(self.to_read() =~= pending + dirs_at(
                paths_in(dir@, entries@.take(i as int).filter(entered)),
                depth + 1,
            ));
        }
        assert(entries@.take(entries@.len() as int) =~= entries@);
    }

    /// The result of the listing: the paths in order, as a JSON array.
    pub fn result(self) -> (r: String)
        ensures
            r@ == json_texts(stable_sorted(texts(self.found@), by_text())),
    {
        let tool: ListFiles = ListFiles;
        tool.render(self.found)
    }
}

/// The directories in a directory that are read.
pub open spec fn dirs_in(
    tree: spec_fn(Seq<char>) -> Seq<ListEntry>,
    args: ListArgs,
    dir: Seq<char>,
    depth: int,
) -> Seq<Seq<char>> {
    paths_in(dir, tree(dir).filter(is_entered(depth as u64, args)))
}

/// Whether a listing of a directory at a depth shows a path: that of an entry
/// of the directory that is listed, or one that the listing of a directory in
/// it shows. `tree` gives the entries of each directory.
pub open spec fn shows(
    tree: spec_fn(Seq<char>) -> Seq<ListEntry>,
    args: ListArgs,
    dir: Seq<char>,
    depth: int,
    path: Seq<char>,
) -> bool
    decreases args.max_depth - depth,
{
    ||| paths_in(dir, tree(dir).filter(is_listed(depth as u64, args))).contains(path)
    ||| depth + 1 < args.max_depth && exists|i: int|
        0 <= i < dirs_in(tree, args, dir, depth).len() && shows(
            tree,
            args,
            #[trigger] dirs_in(tree, args, dir, depth)[i],
            depth + 1,
            path,
        )
}

/// Whether a listing in progress has found a path or is going to.
pub open spec fn will_show(
    tree: spec_fn(Seq<char>) -> Seq<ListEntry>,
    args: ListArgs,
    found: Seq<Seq<char>>,
    to_read: Seq<(Seq<char>, int)>,
    path: Seq<char>,
) -> bool {
    ||| found.contains(path)
    ||| exists|i: int|
        0 <= i < to_read.len() && #[trigger] shows(tree, args, to_read[i].0, to_read[i].1, path)
}

/// Reading a directory changes nothing of what a listing shows in the end. So
/// once nothing is left to read, a listing has found exactly what the listing
/// of its root shows.
pub proof fn law_listing_is_complete(
    tree: spec_fn(Seq<char>) -> Seq<ListEntry>,
    args: ListArgs,
    found: Seq<Seq<char>>,
    to_read: Seq<(Seq<char>, int)>,
    path: Seq<char>,
)
    requires
        to_read.len() > 0,
        0 <= to_read.last().1 <= u64::MAX,
    ensures
        ({
            let (dir, depth) = to_read.last();
            let listed = paths_in(dir, tree(dir).filter(is_listed(depth as u64, args)));
            let entered = dirs_in(tree, args, dir, depth);
            will_show(
                tree,
                args,
                found + listed,
                to_read.drop_last() + dirs_at(entered, depth + 1),
                path,
            ) == will_show(tree, args, found, to_read, path)
        }),
        will_show(tree, args, found, Seq::empty(), path) == found.contains(path),
        will_show(tree, args, Seq::empty(), seq![(Seq::<char>::empty(), 0int)], path) == shows(
            tree,
            args,
            Seq::empty(),
            0,
            path,
        ),
{
    let (dir, depth) = to_read.last();
    let listed = paths_in(dir, tree(dir).filter(is_listed(depth as u64, args)));
    let entered = dirs_in(tree, args, dir, depth);
    let after_found = found + listed;
    let after = to_read.drop_last() + dirs_at(entered, depth + 1);
    let n = to_read.len() - 1;
    if will_show(tree, args, after_found, after, path) {
        if after_found.contains(path) {
            let k = choose|k: int| 0 <= k < after_found.len() && after_found[k] == path;
            if k < found.len() {
                assert(found[k] == path);
            } else {
                assert(listed[k - found.len()] == path);
                assert(shows(tree, args, to_read[n].0, to_read[n].1, path));
            }
        } else {
            let i = choose|i: int|
                0 <= i < after.len() && #[trigger] shows(tree, args, after[i].0, after[i].1, path);
            if i < n {
                assert(after[i] == to_read[i]);
                assert(shows(tree, args, to_read[i].0, to_read[i].1, path));
            } else {
                let j = i - n;
                assert(after[i] == (entered[j], depth + 1));
                lemma_entered_deeper(tree(dir), depth as u64, args, j);
                assert(shows(tree, args, entered[j], depth + 1, path));
                assert(shows(tree, args, to_read[n].0, to_read[n].1, path));
            }
        }
    }
    if will_show(tree, args, found, to_read, path) {
        if found.contains(path) {
            let k = choose|k: int| 0 <= k < found.len() && found[k] == path;
            assert(after_found[k] == path);
        } else {
            let i = choose|i: int|
                0 <= i < to_read.len() && #[trigger] shows(
                    tree,
                    args,
                    to_read[i].0,
                    to_read[i].1,
                    path,
                );
            if i < n {
                assert(after[i] == to_read[i]);
                assert(shows(tree, args, after[i].0, after[i].1, path));
            } else if listed.contains(path) {
                let k = choose|k: int| 0 <= k < listed.len() && listed[k] == path;
                assert(after_found[found.len() + k] == path);
            } else {
                let j = choose|j: int|
                    0 <= j < entered.len() && shows(
                        tree,
                        args,
                        #[trigger] entered[j],
                        depth + 1,
                        path,
                    );
                assert(after[n + j] == (entered[j], depth + 1));
                assert(shows(tree, args, after[n + j].0, after[n + j].1, path));
            }
        }
    }
    let root = seq![(Seq::<char>::empty(), 0int)];
    if shows(tree, args, Seq::empty(), 0, path) {
        assert(shows(tree, args, root[0].0, root[0].1, path));
    }
}

proof fn lemma_entered_deeper(entries: Seq<ListEntry>, depth: u64, args: ListArgs, j: int)
    requires
        0 <= j < entries.filter(is_entered(depth, args)).len(),
    ensures
        depth + 1 < args.max_depth,
{
    broadcast use vstd::seq_lib::group_filter_ensures;

    assert(is_entered(depth, args)(entries.filter(is_entered(depth, args))[j]));
}

/// The directories that a search does not enter, and those that a listing does
/// not show.
pub proof fn law_skipped_directories(name: &str, searched: bool, listed: bool)
    requires
        call_ensures(is_search_skipped, (name,), searched),
        call_ensures(is_listing_skipped, (name,), listed),
    ensures
        searched <==> name@ == "target"@ || name@ == ".git"@ || name@ == "node_modules"@ || name@
            == ".venv"@ || name@ == "__pycache__"@ || name@ == "secrets"@,
        listed <==> name@ == ".git"@ || name@ == "target"@ || name@ == "node_modules"@ || name@
            == ".cache"@ || name@ == "secrets"@,
{
    let a = search_skips();
    let b = listing_skips();
    assert(a[0] == "target"@ && a[1] == ".git"@ && a[2] == "node_modules"@ && a[3] == ".venv"@
        && a[4] == "__pycache__"@ && a[5] == "secrets"@ && a.len() == 6);
    assert(b[0] == ".git"@ && b[1] == "target"@ && b[2] == "node_modules"@ && b[3] == ".cache"@
        && b[4] == "secrets"@ && b.len() == 5);
    if a.contains(name@) {
        let i = a.index_of(name@);
        assert(a[i] == name@);
    }
    if b.contains(name@) {
        let i = b.index_of(name@);
        assert(b[i] == name@);
    }
}

/// A walk goes through what a directory holds before it goes on with what was
/// left: every entry but the directories that are skipped, each as often as it
/// occurs, in the order of their names.
pub proof fn law_a_walk_enters(
    walk: &mut SearchWalk,
    entries: Vec<DirEntry>,
    e: DirEntry,
    name: &str,
    skipped: bool,
    i: int,
    j: int,
)
    requires
        call_ensures(SearchWalk::enter, (walk, entries), ()),
        name@ == e.name@,
        call_ensures(is_search_skipped, (name,), skipped),
        0 <= i < j < final(walk).pending@.len() - old(walk).pending@.len(),
    ensures
        ({
            let n = old(walk).pending@.len();
            let added = final(walk).order().take(final(walk).pending@.len() - n);
            &&& final(walk).order().skip(final(walk).pending@.len() - n) == old(walk).order()
            &&& added.contains(e) <==> entries@.contains(e) && !(e.is_dir && skipped)
            &&& text_le(added[i].name@, added[j].name@)
        }),
{
    broadcast use {
        vstd::seq_lib::group_to_multiset_ensures,
        vstd::seq_lib::group_filter_ensures,
    };

    law_text_order();
    let le = by_name();
    assert(is_total_preorder(le)) by {
        assert forall|a: DirEntry| #[trigger] le(a, a) by {
            assert(by_text()(a.name@, a.name@));
        }
        assert forall|a: DirEntry, b: DirEntry| #[trigger] le(a, b) || le(b, a) by {
            assert(by_text()(a.name@, b.name@) || by_text()(b.name@, a.name@));
        }
        assert forall|a: DirEntry, b: DirEntry, c: DirEntry| #[trigger]
            le(a, b) && #[trigger] le(b, c) implies le(a, c) by {
            assert(by_text()(a.name@, b.name@) && by_text()(b.name@, c.name@));
            assert(by_text()(a.name@, c.name@));
        }
    }
    law_stable_sorted(entries@, le);
    let sorted = stable_sorted(entries@, le);
    let kept = sorted.filter(visited());
    let n = old(walk).pending@.len();
    let all = final(walk).order();
    assert(all == kept + old(walk).order());
    assert(all.len() == final(walk).pending@.len());
    assert(old(walk).order().len() == n);
    let added = all.take(all.len() - n);
    assert(added =~= kept);
    assert(all.skip(all.len() - n) =~= old(walk).order());
    assert(sorted.contains(e) == entries@.contains(e)) by {
        assert(sorted.contains(e) == (sorted.to_multiset().count(e) > 0));
        assert(entries@.contains(e) == (entries@.to_multiset().count(e) > 0));
    }
    if kept.contains(e) {
        sorted.lemma_filter_contains_rev(visited(), e);
        let k = kept.index_of(e);
        assert(visited()(kept[k]));
    }
    if sorted.contains(e) && visited()(e) {
        assert(kept.contains(e));
    }
    lemma_filter_sorted(sorted, le, visited());
    assert(le(kept[i], kept[j]));
}

proof fn lemma_filter_sorted(
    s: Seq<DirEntry>,
    le: spec_fn(DirEntry, DirEntry) -> bool,
    keep: spec_fn(DirEntry) -> bool,
)
    requires
        is_sorted(s, le),
    ensures
        is_sorted(s.filter(keep), le),
        forall|i: int| 0 <= i < s.filter(keep).len() ==> s.contains(#[trigger] s.filter(keep)[i]),
    decreases s.len(),
{
    let kept = s.filter(keep);
    if s.len() == 0 {
        reveal(Seq::filter);
    } else {
        let rest = s.drop_last();
        lemma_filter_last(s, keep);
        assert forall|i: int, j: int| 0 <= i <= j < rest.len() implies le(
            #[trigger] rest[i],
            #[trigger] rest[j],
        ) by {
            assert(le(s[i], s[j]));
        }
        lemma_filter_sorted(rest, le, keep);
        let before = rest.filter(keep);
        assert forall|i: int| 0 <= i < kept.len() implies s.contains(#[trigger] kept[i]) by {
            if i < before.len() {
                assert(kept[i] == before[i]);
                let k = rest.index_of(before[i]);
                assert(s[k] == before[i]);
            } else {
                assert(s[s.len() - 1] == kept[i]);
            }
        }
        assert forall|i: int, j: int| 0 <= i <= j < kept.len() implies le(
            #[trigger] kept[i],
            #[trigger] kept[j],
        ) by {
            if j < before.len() {
                assert(le(before[i], before[j]));
            } else {
                let k = s.index_of(kept[i]);
                assert(le(s[k], s[s.len() - 1]));
            }
        }
    }
}

/// What a listing asks for: three levels of the current directory, files and
/// directories, unless the call says otherwise.
pub proof fn law_listing_arguments(tool: &ListFiles, args: &Json, r: ListArgs)
    requires
        call_ensures(ListFiles::arguments, (tool, args), r),
    ensures
        args@.field("path"@).as_text() is None ==> r.path@ == "."@,
        args@.field("path"@).as_text() matches Some(p) ==> r.path@ == p,
        args@.field("depth"@).as_u64() is None ==> r.max_depth == 3,
        args@.field("depth"@).as_u64() matches Some(n) ==> r.max_depth == n,
        r.dirs_only <==> args@.field("dirs_only"@).as_bool() == Some(true),
{
}

/// What becomes of an entry: a directory is shown, and entered while the next
/// level is within the depth asked for, unless it is one that is skipped; a
/// file is shown unless only directories are asked for.
pub proof fn law_a_listing_visits(
    tool: &ListFiles,
    name: &str,
    is_dir: bool,
    is_file: bool,
    depth: u64,
    args: &ListArgs,
    r: ListStep,
    skipped: bool,
)
    requires
        call_ensures(ListFiles::visit, (tool, name, is_dir, is_file, depth, args), r),
        call_ensures(is_listing_skipped, (name,), skipped),
    ensures
        is_dir ==> r.listed == !skipped,
        is_dir ==> r.entered == (!skipped && depth + 1 < args.max_depth),
        !is_dir ==> r.listed == (is_file && !args.dirs_only) && !r.entered,
{
}

/// A listing begins at its root, and reads on as long as there is something
/// left, what was added last first.
pub proof fn law_a_listing_goes_on(args: ListArgs, fresh: ListRun, run: &mut ListRun, r: Option<(String, u64)>)
    requires
        call_ensures(ListRun::start, (args,), fresh),
        call_ensures(ListRun::next, (run,), r),
    ensures
        fresh.args == args && fresh.found@.len() == 0 && fresh.pending@.len() == 1,
        fresh.pending@[0].0@.len() == 0 && fresh.pending@[0].1 == 0,
        r is None <==> old(run).pending@.len() == 0,
        r matches Some(d) ==> d.0@ == old(run).pending@.last().0@ && d.1
            == old(run).pending@.last().1 && final(run).pending@.len() == old(run).pending@.len()
            - 1,
        final(run).found == old(run).found,
{
    assert(fresh.to_read().len() == fresh.pending@.len());
    assert(fresh.to_read()[0] == (Seq::<char>::empty(), 0int));
    assert(old(run).to_read().len() == old(run).pending@.len());
    assert(final(run).to_read().len() == final(run).pending@.len());
}

/// Reading a directory finds the path of each entry that is shown, and puts the
/// directories to enter, one level deeper, behind what is still to be read.
pub proof fn law_a_listing_reads(
    run: &mut ListRun,
    dir: &str,
    depth: u64,
    entries: &Vec<ListEntry>,
    tool: &ListFiles,
    i: int,
    name: &str,
    step: ListStep,
    path: String,
)
    requires
        call_ensures(ListRun::read, (run, dir, depth, entries), ()),
        0 <= i < entries@.len(),
        name@ == entries@[i].name@,
        call_ensures(
            ListFiles::visit,
            (tool, name, entries@[i].is_dir, entries@[i].is_file, depth, &old(run).args),
            step,
        ),
        call_ensures(path_join, (dir, name), path),
    ensures
        step.listed ==> texts(final(run).found@).skip(old(run).found@.len() as int).contains(path@),
        step.entered ==> final(run).to_read().skip(old(run).pending@.len() as int).contains(
            (path@, depth + 1),
        ),
        texts(final(run).found@).take(old(run).found@.len() as int) == texts(old(run).found@),
        final(run).to_read().take(old(run).pending@.len() as int) == old(run).to_read(),
        final(run).found@.len() - old(run).found@.len() <= entries@.len(),
{
    broadcast use vstd::seq_lib::group_filter_ensures;

    let shown = entries@.filter(is_listed(depth, old(run).args));
    let deeper = entries@.filter(is_entered(depth, old(run).args));
    let a = paths_in(dir@, shown);
    let b = dirs_at(paths_in(dir@, deeper), depth + 1);
    let had = texts(old(run).found@);
    let left = old(run).to_read();
    assert((had + a).skip(had.len() as int) =~= a);
    assert((had + a).take(had.len() as int) =~= had);
    assert((left + b).skip(left.len() as int) =~= b);
    assert((left + b).take(left.len() as int) =~= left);
    assert(texts(final(run).found@).len() == final(run).found@.len());
    assert(entries@.contains(entries@[i]));
    if step.listed {
        assert(is_listed(depth, old(run).args)(entries@[i]));
        assert(shown.contains(entries@[i]));
        let k = shown.index_of(entries@[i]);
        assert(a[k] == path@);
    }
    if step.entered {
        assert(is_entered(depth, old(run).args)(entries@[i]));
        assert(deeper.contains(entries@[i]));
        let k = deeper.index_of(entries@[i]);
        assert(b[k] == (path@, depth + 1));
    }
}

/// The result of a listing is the paths found, in their order, as a list.
pub proof fn law_the_listing(run: ListRun, r: String, v: Vec<String>, sorted: Vec<String>, written: String)
    requires
        call_ensures(ListRun::result, (run,), r),
        call_ensures(sort_texts, (v,), sorted),
        call_ensures(array_text, (&sorted,), written),
        texts(v@) == texts(run.found@),
    ensures
        r@ == written@,
{
}

/// A walk begins at its root and goes through what is left in turn.
pub proof fn law_a_walk_goes_on(root: DirEntry, fresh: SearchWalk, walk: &mut SearchWalk, r: Option<DirEntry>)
    requires
        call_ensures(SearchWalk::new, (root,), fresh),
        call_ensures(SearchWalk::next, (walk,), r),
    ensures
        fresh.pending@ == seq![root],
        r is None <==> old(walk).pending@.len() == 0,
        r matches Some(e) ==> e == old(walk).pending@.last() && final(walk).pending@.len()
            == old(walk).pending@.len() - 1,
{
    let left = fresh.pending@;
    assert(left.reverse() == seq![root]);
    assert(left.len() == 1);
    assert(left.reverse()[0] == left[0]);
    assert(left =~= seq![root]);
    assert(old(walk).order().len() == old(walk).pending@.len());
    assert(final(walk).order().len() == final(walk).pending@.len());
    if r is Some {
        assert(old(walk).pending@.reverse()[0] == old(walk).pending@.last());
    }
}

/// How a listing is named, described and rendered.
pub proof fn law_described_listings(tool: &ListFiles, args: &Json, r: (String, usize), name: &'static str, paths: Vec<String>, text: String, sorted: Vec<String>, written: String)
    requires
        call_ensures(ListFiles::describe, (tool, args), r),
        call_ensures(ListFiles::name, (tool,), name),
        call_ensures(ListFiles::render, (tool, paths), text),
        call_ensures(sort_texts, (paths,), sorted),
        call_ensures(array_text, (&sorted,), written),
    ensures
        r.0@ == "list_files `"@ + (match args@.field("path"@).as_text() {
            Some(p) => p,
            None => "."@,
        }) + "`"@,
        r.1 == 60,
        name@ == "list_files"@,
        text@ == written@,
{
}

} // verus!
