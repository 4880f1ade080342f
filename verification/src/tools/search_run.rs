//! A search from its start to its result: which entry is looked at next, what
//! a file adds, and what is returned in the end.
use vstd::prelude::*;
use vstd::utf8::decode_utf8;

use crate::patterns::{glob_accepts, regex_problem, FileGlob, TextPattern};
use crate::text::{lines_of, texts};
use crate::tools::grep::{file_scan, is_full, GrepState, MAX_CONTEXT};
use crate::tools::search::{
    count_file_matches, count_set, counts_text, file_has_match, files_text, grep_file, is_included,
    is_searchable, line_flags, matches_text, pattern_text, render_counts, render_files,
    render_matches, GrepArgs, GrepFiles, OutputMode,
};
use crate::tools::walk::{by_name, visited, DirEntry, SearchWalk};
use crate::sorting::stable_sorted;

verus! {

/// A search under way.
pub struct SearchRun {
    pub args: GrepArgs,
    pub pattern: TextPattern,
    pub glob: Option<FileGlob>,
    pub walk: SearchWalk,
    /// The files that match, where these are wanted.
    pub files: Vec<String>,
    /// The files that match with their number of matching lines, where these
    /// are wanted.
    pub counts: Vec<(String, usize)>,
    /// The matching lines, where these are wanted.
    pub state: GrepState,
}

impl SearchRun {
    /// How many results are gathered: those of the page and those before it.
    pub open spec fn limit(&self) -> int {
        self.args.max_results + self.args.offset
    }

    pub open spec fn wf(&self) -> bool {
        self.args.context_lines <= MAX_CONTEXT && self.state.wf(self.limit())
    }

    /// Whether enough was found.
    pub open spec fn is_done(&self) -> bool {
        match self.args.mode {
            OutputMode::FilesOnly => self.files@.len() >= self.limit(),
            OutputMode::Count => self.counts@.len() >= self.limit(),
            OutputMode::Content => is_full(self.state@, self.limit()),
        }
    }

    /// Starts a search at a root. An error says what is wrong with the pattern;
    /// a glob that is none restricts nothing.
    pub fn start(args: GrepArgs, root: DirEntry) -> (r: Result<SearchRun, String>)
        requires
            args.context_lines <= MAX_CONTEXT,
        ensures
            match r {
                Ok(run) => {
                    &&& run.wf()
                    &&& run.args == args
                    &&& regex_problem(pattern_text(args.pattern@, args.case_sensitive)) is None
                    &&& run.pattern.text() == pattern_text(args.pattern@, args.case_sensitive)
                    &&& match (args.include_glob, run.glob) {
                        (Some(g), Some(p)) => glob_accepts(g@) && p.text() == g@,
                        (Some(g), None) => !glob_accepts(g@),
                        (None, Some(_)) => false,
                        (None, None) => true,
                    }
                    &&& run.walk.order() == seq![root]
                    &&& run.files@.len() == 0
                    &&& run.counts@.len() == 0
                    &&& run.state@.matches.len() == 0
                    &&& run.state@.bytes == 0
                    &&& !run.state@.truncated
                },
                Err(e) => match regex_problem(pattern_text(args.pattern@, args.case_sensitive)) {
                    Some(why) => e@ == "Invalid regex: "@ + why,
                    None => false,
                },
            },
    {
        let tool: GrepFiles = GrepFiles::new();
        let pattern: TextPattern = match tool.compile(args.pattern.as_str(), args.case_sensitive) {
            Ok(p) => p,
            Err(e) => {
                return Err(e);
            },
        };
        let glob: Option<FileGlob> = match &args.include_glob {
            Some(g) => tool.compile_glob(Some(g.as_str())),
            None => None,
        };
        Ok(
            SearchRun {
                args,
                pattern,
                glob,
                walk: SearchWalk::new(root),
                files: Vec::new(),
                counts: Vec::new(),
                state: GrepState::new(),
            },
        )
    }

    fn done(&self) -> (r: bool)
        ensures
            r == self.is_done(),
    {
        let limit: u128 = self.args.max_results as u128 + self.args.offset as u128;
        match self.args.mode {
            OutputMode::FilesOnly => self.files.len() as u128 >= limit,
            OutputMode::Count => self.counts.len() as u128 >= limit,
            OutputMode::Content => self.state.full(limit),
        }
    }

    /// The entry to look at next; none once enough was found or nothing is
    /// left.
    pub fn next(&mut self) -> (r: Option<DirEntry>)
        requires
            old(self).wf(),
        ensures
            final(self).wf(),
            if old(self).is_done() || old(self).walk.order().len() == 0 {
                r is None && final(self).walk.order() == old(self).walk.order()
            } else {
                r == Some(old(self).walk.order()[0]) && final(self).walk.order()
                    == old(self).walk.order().skip(1)
            },
            *final(self) == (SearchRun { walk: final(self).walk, ..*old(self) }),
    {
        if self.done() {
            return None;
        }
        self.walk.next()
    }

    /// Goes on with the entries of a directory, in the order of their names
    /// and without the directories that are skipped.
    pub fn enter(&mut self, entries: Vec<DirEntry>)
        requires
            old(self).wf(),
        ensures
            final(self).wf(),
            final(self).walk.order() == stable_sorted(entries@, by_name()).filter(visited())
                + old(self).walk.order(),
            *final(self) == (SearchRun { walk: final(self).walk, ..*old(self) }),
    {
        self.walk.enter(entries);
    }

    /// How many lines of a file match; none where the file is not searched.
    pub open spec fn matches_in(&self, file: DirEntry, bytes: Seq<u8>) -> nat {
        if is_included(self.glob, file.name@) && is_searchable(bytes) {
            count_set(line_flags(self.pattern.text(), lines_of(decode_utf8(bytes))))
        } else {
            0
        }
    }

    /// Adds what a file holds.
    pub fn found(&mut self, file: &DirEntry, bytes: Vec<u8>)
        requires
            old(self).wf(),
        ensures
            final(self).wf(),
            match old(self).args.mode {
                OutputMode::FilesOnly => {
                    &&& *final(self) == (SearchRun { files: final(self).files, ..*old(self) })
                    &&& texts(final(self).files@) == if old(self).matches_in(*file, bytes@) > 0 {
                        texts(old(self).files@).push(file.path@)
                    } else {
                        texts(old(self).files@)
                    }
                },
                OutputMode::Count => {
                    let n = old(self).matches_in(*file, bytes@);
                    &&& *final(self) == (SearchRun { counts: final(self).counts, ..*old(self) })
                    &&& if n > 0 {
                        &&& final(self).counts@.len() == old(self).counts@.len() + 1
                        &&& final(self).counts@.drop_last() == old(self).counts@
                        &&& final(self).counts@.last().0@ == file.path@
                        &&& final(self).counts@.last().1 == n
                    } else {
                        final(self).counts@ == old(self).counts@
                    }
                },
                OutputMode::Content => {
                    let lines = lines_of(decode_utf8(bytes@));
                    &&& *final(self) == (SearchRun { state: final(self).state, ..*old(self) })
                    &&& final(self).state@ == if is_included(old(self).glob, file.name@)
                        && is_searchable(bytes@) {
                        file_scan(
                            old(self).state@,
                            file.path@,
                            lines,
                            line_flags(old(self).pattern.text(), lines),
                            old(self).limit(),
                            old(self).args.context_lines as int,
                        )
                    } else {
                        old(self).state@
                    }
                },
            },
    {
        match self.args.mode {
            OutputMode::FilesOnly => {
                let ghost had = texts(self.files@);
                if file_has_match(&self.pattern, &self.glob, file.name.as_str(), bytes) {
                    self.files.push(file.path.clone());
                    assert(texts(self.files@) =~= had.push(file.path@));
                }
            },
            OutputMode::Count => {
                match count_file_matches(&self.pattern, &self.glob, file.name.as_str(), bytes) {
                    Some(n) => if n > 0 {
                        self.counts.push((file.path.clone(), n));
                        assert(self.counts@.drop_last() =~= old(self).counts@);
                    },
                    None => {},
                }
            },
            OutputMode::Content => {
                let limit: u128 = self.args.max_results as u128 + self.args.offset as u128;
                grep_file(
                    &mut self.state,
                    &self.pattern,
                    &self.glob,
                    file.path.as_str(),
                    file.name.as_str(),
                    bytes,
                    limit,
                    self.args.context_lines,
                );
            },
        }
    }

    /// The result of the search. `root` is the directory that the paths are
    /// shown from.
    pub fn result(&self, root: &str) -> (r: String)
        ensures
            r@ == match self.args.mode {
                OutputMode::FilesOnly => files_text(texts(self.files@), self.args, root@),
                OutputMode::Count => counts_text(self.counts@, self.args, root@),
                OutputMode::Content => matches_text(self.state@, self.args, root@),
            },
    {
        match self.args.mode {
            OutputMode::FilesOnly => render_files(&self.files, &self.args, root),
            OutputMode::Count => render_counts(&self.counts, &self.args, root),
            OutputMode::Content => render_matches(&self.state, &self.args, root),
        }
    }
}

/// A search goes on until it has found as many results as were asked for behind
/// the offset, or its output was cut, or nothing is left to look at; it looks
/// at the entries in turn.
pub proof fn law_a_search_goes_on(run: &mut SearchRun, r: Option<DirEntry>)
    requires
        call_ensures(SearchRun::next, (run,), r),
    ensures
        ({
            let wanted = old(run).args.max_results + old(run).args.offset;
            let over = match old(run).args.mode {
                OutputMode::FilesOnly => old(run).files@.len() >= wanted,
                OutputMode::Count => old(run).counts@.len() >= wanted,
                OutputMode::Content => old(run).state.matches@.len() >= wanted || old(run).state.truncated,
            };
            let left = old(run).walk.pending@;
            &&& r is None <==> over || left.len() == 0
            &&& r matches Some(e) ==> e == left.last() && final(run).walk.order() =~= old(run).walk.order().skip(1)
        }),
        final(run).files == old(run).files && final(run).counts == old(run).counts && final(run).state == old(run).state,
{
    assert(old(run).state@.matches.len() == old(run).state.matches@.len());
    let left = old(run).walk.pending@;
    if left.len() > 0 {
        assert(left.reverse()[0] == left.last());
    }
}

/// A file adds its path, or its path with the number of its matching lines,
/// exactly where a line of it matches, and nothing to the other kinds of
/// result.
pub proof fn law_what_a_file_adds(
    run: &mut SearchRun,
    file: &DirEntry,
    name: &str,
    bytes: Vec<u8>,
    count: Option<usize>,
    state: &mut GrepState,
    display: &str,
    limit: u128,
)
    requires
        call_ensures(SearchRun::found, (run, file, bytes), ()),
        call_ensures(count_file_matches, (&old(run).pattern, &old(run).glob, name, bytes), count),
        call_ensures(
            grep_file,
            (
                state,
                &old(run).pattern,
                &old(run).glob,
                display,
                name,
                bytes,
                limit,
                old(run).args.context_lines,
            ),
            (),
        ),
        name@ == file.name@,
        display@ == file.path@,
        limit == old(run).args.max_results + old(run).args.offset,
        *old(state) == old(run).state,
    ensures
        ({
            let matching = count is Some && count->Some_0 > 0;
            match old(run).args.mode {
                OutputMode::FilesOnly => texts(final(run).files@) == (if matching {
                    texts(old(run).files@).push(file.path@)
                } else {
                    texts(old(run).files@)
                }) && final(run).counts == old(run).counts && final(run).state == old(run).state,
                OutputMode::Count => final(run).files == old(run).files && final(run).state == old(run).state && final(run).counts@.len() == old(run).counts@.len() + (if matching {
                    1int
                } else {
                    0int
                }) && final(run).counts@.take(old(run).counts@.len() as int) == old(run).counts@
                    && (matching ==> final(run).counts@.last().0@ == file.path@ && final(run).counts@.last().1 == count->Some_0),
                OutputMode::Content => final(run).files == old(run).files && final(run).counts
                    == old(run).counts && final(run).state@ == final(state)@,
            }
        }),
        final(run).walk == old(run).walk,
        final(run).args == old(run).args,
{
    if old(run).args.mode == OutputMode::Count {
        assert(final(run).counts@.take(old(run).counts@.len() as int) =~= old(run).counts@);
    }
}

/// The result of a search is shown in the way that was asked for.
pub proof fn law_the_result(run: &SearchRun, root: &str, r: String, files: String, counts: String, matches: String)
    requires
        call_ensures(SearchRun::result, (run, root), r),
        call_ensures(render_files, (&run.files, &run.args, root), files),
        call_ensures(render_counts, (&run.counts, &run.args, root), counts),
        call_ensures(render_matches, (&run.state, &run.args, root), matches),
    ensures
        r@ == match run.args.mode {
            OutputMode::FilesOnly => files@,
            OutputMode::Count => counts@,
            OutputMode::Content => matches@,
        },
{
}

/// A search starts at its root with nothing found, and does not start where the
/// pattern is refused.
pub proof fn law_a_search_starts(
    args: GrepArgs,
    root: DirEntry,
    r: Result<SearchRun, String>,
    tool: &GrepFiles,
    pattern: &str,
    compiled: Result<TextPattern, String>,
)
    requires
        call_ensures(SearchRun::start, (args, root), r),
        call_ensures(GrepFiles::compile, (tool, pattern, args.case_sensitive), compiled),
        pattern@ == args.pattern@,
    ensures
        r is Ok <==> compiled is Ok,
        r matches Err(e) ==> e@ == compiled->Err_0@,
        r matches Ok(run) ==> {
            &&& run.args == args
            &&& run.pattern.text() == compiled->Ok_0.text()
            &&& run.glob is Some <==> args.include_glob is Some && glob_accepts(
                args.include_glob->Some_0@,
            )
            &&& run.glob matches Some(g) ==> g.text() == args.include_glob->Some_0@
            &&& run.walk.pending@ == seq![root]
            &&& run.files@.len() == 0 && run.counts@.len() == 0
            &&& run.state.matches@.len() == 0 && run.state.output_bytes == 0
                && !run.state.truncated
        },
{
    if r is Ok {
        let left = r->Ok_0.walk.pending@;
        assert(left.reverse() == seq![root]);
        assert(left.len() == 1);
        assert(left.reverse()[0] == left[0]);
        assert(left =~= seq![root]);
        assert(r->Ok_0.state@.matches.len() == r->Ok_0.state.matches@.len());
    }
}

/// Entering a directory goes through what it holds next, as a walk does.
pub proof fn law_a_search_enters(run: &mut SearchRun, walk: &mut SearchWalk, entries: Vec<DirEntry>)
    requires
        call_ensures(SearchRun::enter, (run, entries), ()),
        call_ensures(SearchWalk::enter, (walk, entries), ()),
        *old(walk) == old(run).walk,
    ensures
        final(run).walk.order() == final(walk).order(),
        final(run).files == old(run).files && final(run).counts == old(run).counts && final(
            run).state == old(run).state,
{
}

} // verus!
