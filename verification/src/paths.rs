//! File paths as text: components, lexical normalisation, containment, and
//! the form in which policy rules see a path.
use vstd::prelude::*;

use crate::text::{
    chars_of, join, joined, lemma_filter_all, lemma_filter_last, lemma_pieces_hold_no_separator,
    lemma_split_append, lemma_split_plain, opt_text, split_at_char, split_char, str_eq, string_of, texts,
};

verus! {

broadcast use vstd::seq_lib::group_seq_properties;

/// Whether a path starts at the root.
pub open spec fn is_absolute(p: Seq<char>) -> bool {
    p.len() > 0 && p[0] == '/'
}

/// Whether a piece between slashes names something.
pub open spec fn is_named(piece: Seq<char>) -> bool {
    piece.len() > 0 && piece != "."@
}

/// The components of a path: `/` first where it is absolute, `.` first where
/// it starts with one, then the pieces between slashes that name something.
pub open spec fn components(p: Seq<char>) -> Seq<Seq<char>> {
    let pieces = split_at_char(p, '/');
    let named = pieces.filter(|c: Seq<char>| is_named(c));
    if is_absolute(p) {
        seq!["/"@] + named
    } else if pieces[0] == "."@ {
        seq!["."@] + named
    } else {
        named
    }
}

/// `Path::components`.
pub fn split_path(p: &str) -> (r: Vec<String>)
    ensures
        texts(r@) == components(p@),
{
    let ghost named = |c: Seq<char>| is_named(c);
    let pieces: Vec<String> = split_char(p, '/');
    let ghost all = texts(pieces@);
    let mut out: Vec<String> = Vec::new();
    let ghost mut head: Seq<Seq<char>> = Seq::empty();
    if is_absolute_path(p) {
        out.push("/".to_owned());
        proof {
            head = seq!["/"@];
        }
    } else if str_eq(pieces[0].as_str(), ".") {
        out.push(".".to_owned());
        proof {
            head = seq!["."@];
        }
    }
    assert(texts(out@) =~= head);
    let mut i: usize = 0;
    assert(all.take(0).filter(named) =~= Seq::<Seq<char>>::empty()) by {
        reveal(Seq::filter);
    }
    assert(texts(out@) =~= head + all.take(0).filter(named));
    while i < pieces.len()
        invariant
            i <= pieces@.len(),
            all == texts(pieces@),
            named == (|c: Seq<char>| is_named(c)),
            texts(out@) == head + all.take(i as int).filter(named),
        decreases pieces@.len() - i,
    {
        proof {
            assert(all.take(i + 1).drop_last() =~= all.take(i as int));
            lemma_filter_last(all.take(i + 1), named);
        }
        let piece: &str = pieces[i].as_str();
        if piece.unicode_len() > 0 && !str_eq(piece, ".") {
            let ghost had = texts(out@);
            out.push(pieces[i].clone());
            assert(texts(out@) =~= had.push(all[i as int]));
            assert(texts(out@) =~= head + all.take(i + 1).filter(named));
        }
        i = i + 1;
    }
    assert(all.take(all.len() as int) =~= all);
    assert(head + all.filter(named) =~= components(p@));
    out
}

/// `Path::is_absolute`.
pub fn is_absolute_path(p: &str) -> (r: bool)
    ensures
        r == is_absolute(p@),
{
    p.unicode_len() > 0 && p.get_char(0) == '/'
}

/// Components with `.` dropped and each `..` taken together with the
/// component before it, the root excepted.
pub open spec fn normalized(parts: Seq<Seq<char>>) -> Seq<Seq<char>>
    decreases parts.len(),
{
    if parts.len() == 0 {
        Seq::empty()
    } else {
        let before = normalized(parts.drop_last());
        let c = parts.last();
        if c == ".."@ {
            if before.len() > 0 && before.last() != "/"@ {
                before.drop_last()
            } else {
                before
            }
        } else if c == "."@ {
            before
        } else {
            before.push(c)
        }
    }
}

/// The text of a path with these components.
pub open spec fn path_text(parts: Seq<Seq<char>>) -> Seq<char> {
    if parts.len() > 0 && parts[0] == "/"@ {
        "/"@ + joined(parts.skip(1), "/"@)
    } else {
        joined(parts, "/"@)
    }
}

fn normalize_parts(parts: &Vec<String>) -> (r: Vec<String>)
    ensures
        texts(r@) == normalized(texts(parts@)),
{
    let ghost all = texts(parts@);
    let mut out: Vec<String> = Vec::new();
    let mut i: usize = 0;
    assert(texts(out@) =~= normalized(all.take(0)));
    while i < parts.len()
        invariant
            i <= parts@.len(),
            all == texts(parts@),
            texts(out@) == normalized(all.take(i as int)),
        decreases parts@.len() - i,
    {
        assert(all.take(i + 1).drop_last() =~= all.take(i as int));
        let ghost had = texts(out@);
        let c: &str = parts[i].as_str();
        if str_eq(c, "..") {
            let n: usize = out.len();
            if n > 0 && !str_eq(out[n - 1].as_str(), "/") {
                out.pop();
                assert(texts(out@) =~= had.drop_last());
            }
        } else if !str_eq(c, ".") {
            out.push(parts[i].clone());
            assert(texts(out@) =~= had.push(all[i as int]));
        }
        i = i + 1;
    }
    assert(all.take(all.len() as int) =~= all);
    out
}

/// The text of the components from `from` to `to`.
pub fn render_parts(parts: &Vec<String>, from: usize, to: usize) -> (r: String)
    requires
        from <= to <= parts@.len(),
    ensures
        r@ == path_text(texts(parts@).subrange(from as int, to as int)),
{
    let ghost all = texts(parts@).subrange(from as int, to as int);
    let rooted: bool = from < to && str_eq(parts[from].as_str(), "/");
    let start: usize = if rooted {
        from + 1
    } else {
        from
    };
    let mut body: Vec<String> = Vec::new();
    let mut i: usize = start;
    assert(texts(body@) =~= texts(parts@).subrange(start as int, i as int));
    while i < to
        invariant
            start <= i <= to <= parts@.len(),
            texts(body@) == texts(parts@).subrange(start as int, i as int),
        decreases to - i,
    {
        let ghost had = texts(body@);
        body.push(parts[i].clone());
        assert(texts(body@) =~= had.push(texts(parts@)[i as int]));
        i = i + 1;
        assert(texts(body@) =~= texts(parts@).subrange(start as int, i as int));
    }
    let rest: String = join(&body, "/");
    if rooted {
        assert(all.skip(1) =~= texts(body@));
        let mut out: String = "/".to_owned();
        out.append(rest.as_str());
        out
    } else {
        assert(all =~= texts(body@));
        rest
    }
}

/// A path with `.` and `..` resolved as text.
pub open spec fn normal_text(p: Seq<char>) -> Seq<char> {
    path_text(normalized(components(p)))
}

/// Resolves `.` and `..` without touching the file system.
pub fn lexical_normalize(p: &str) -> (r: String)
    ensures
        r@ == normal_text(p@),
{
    let parts: Vec<String> = split_path(p);
    let out: Vec<String> = normalize_parts(&parts);
    let n: usize = out.len();
    assert(texts(out@).subrange(0, n as int) =~= texts(out@));
    render_parts(&out, 0, n)
}

/// Whether one path is another or lies inside it, component by component.
pub open spec fn under(child: Seq<char>, base: Seq<char>) -> bool {
    components(base).is_prefix_of(components(child))
}

/// True if `child` is `base` itself or lies inside it. The comparison is by
/// component, so `/a/bc` is not under `/a/b`.
pub fn path_under(child: &str, base: &str) -> (r: bool)
    ensures
        r == under(child@, base@),
{
    let c: Vec<String> = split_path(child);
    let b: Vec<String> = split_path(base);
    parts_start_with(&c, &b)
}

fn parts_start_with(c: &Vec<String>, b: &Vec<String>) -> (r: bool)
    ensures
        r == texts(b@).is_prefix_of(texts(c@)),
{
    if b.len() > c.len() {
        return false;
    }
    let mut i: usize = 0;
    while i < b.len()
        invariant
            i <= b@.len() <= c@.len(),
            forall|k: int| 0 <= k < i ==> texts(b@)[k] == texts(c@)[k],
        decreases b@.len() - i,
    {
        if !str_eq(b[i].as_str(), c[i].as_str()) {
            assert(texts(b@)[i as int] != texts(c@)[i as int]);
            assert(texts(c@).take(b@.len() as int)[i as int] == texts(c@)[i as int]);
            return false;
        }
        i = i + 1;
    }
    assert(texts(b@) =~= texts(c@).subrange(0, b@.len() as int));
    true
}

/// The text of a path joined to a base: an absolute path replaces the base,
/// any other is set behind it with one slash between.
pub open spec fn join_text(base: Seq<char>, p: Seq<char>) -> Seq<char> {
    if is_absolute(p) {
        p
    } else if base.len() == 0 || base.last() == '/' {
        base + p
    } else {
        base + "/"@ + p
    }
}

/// `Path::join`.
pub fn path_join(base: &str, p: &str) -> (r: String)
    ensures
        r@ == join_text(base@, p@),
{
    if is_absolute_path(p) {
        return p.to_owned();
    }
    let n: usize = base.unicode_len();
    let mut out: String = base.to_owned();
    if n > 0 && base.get_char(n - 1) != '/' {
        out.append("/");
    }
    out.append(p);
    out
}

/// Resolves a path that a user gave: an absolute one is used as it is, any
/// other is taken from the working directory.
pub fn resolve(user_path: &str, cwd: &str) -> (r: String)
    ensures
        r@ == join_text(cwd@, user_path@),
{
    path_join(cwd, user_path)
}

/// The components of `path`, taken from `base` where it is relative, once
/// `.` and `..` are resolved.
pub open spec fn policy_parts(path: Seq<char>, base: Seq<char>) -> Seq<Seq<char>> {
    normalized(components(join_text(base, path)))
}

/// How many ancestors a path has, itself counted.
pub open spec fn ancestor_count(parts: Seq<Seq<char>>) -> int {
    if parts.len() > 0 && parts[0] == "/"@ {
        parts.len() as int
    } else {
        (parts.len() + 1) as int
    }
}

/// The paths to try to canonicalise for a policy decision on `path`: the
/// normalised path, then each of its parents in turn.
pub fn policy_ancestors(path: &str, base: &str) -> (r: Vec<String>)
    ensures
        r@.len() == ancestor_count(policy_parts(path@, base@)),
        forall|i: int|
            0 <= i < r@.len() ==> (#[trigger] r@[i])@ == path_text(
                policy_parts(path@, base@).take(policy_parts(path@, base@).len() - i),
            ),
{
    let raw: String = path_join(base, path);
    let parts: Vec<String> = normalize_parts(&split_path(raw.as_str()));
    let ghost all = policy_parts(path@, base@);
    let rooted: bool = parts.len() > 0 && str_eq(parts[0].as_str(), "/");
    let n: usize = parts.len();
    let least: usize = if rooted {
        1
    } else {
        0
    };
    let mut out: Vec<String> = Vec::new();
    let mut i: usize = 0;
    while i < n - least
        invariant
            all == texts(parts@),
            n == parts@.len(),
            least <= n,
            i <= n - least,
            out@.len() == i,
            forall|j: int|
                0 <= j < out@.len() ==> (#[trigger] out@[j])@ == path_text(all.take(n - j)),
        decreases n - least - i,
    {
        assert(all.subrange(0, n - i) =~= all.take(n - i));
        out.push(render_parts(&parts, 0, n - i));
        i = i + 1;
    }
    assert(all.subrange(0, least as int) =~= all.take(least as int));
    out.push(render_parts(&parts, 0, least));
    out
}

/// The position of the first answer that is a path.
pub open spec fn first_answer(answers: Seq<Option<String>>) -> Option<int>
    decreases answers.len(),
{
    if answers.len() == 0 {
        None
    } else {
        match first_answer(answers.drop_last()) {
            Some(i) => Some(i),
            None => if answers.last() is Some {
                Some(answers.len() - 1)
            } else {
                None
            },
        }
    }
}

/// The policy form of a path: the canonical form of its longest ancestor that
/// has one, with the rest of the path behind it as far as there is any; the
/// normalised path itself where no ancestor has one.
pub open spec fn policy_form(
    parts: Seq<Seq<char>>,
    answers: Seq<Option<String>>,
) -> Seq<char> {
    match first_answer(answers) {
        Some(i) => if i == 0 {
            answers[0].unwrap()@
        } else {
            join_text(answers[i].unwrap()@, path_text(parts.skip(parts.len() - i)))
        },
        None => path_text(parts),
    }
}

/// Resolves `path` (from `base` where it is relative) for prefix matching.
/// `answers` holds what canonicalising each of [`policy_ancestors`] gave, as
/// far as that was asked.
pub fn canonicalize_for_policy(path: &str, base: &str, answers: &Vec<Option<String>>) -> (r: String)
    requires
        answers@.len() <= ancestor_count(policy_parts(path@, base@)),
    ensures
        r@ == policy_form(policy_parts(path@, base@), answers@),
{
    let raw: String = path_join(base, path);
    let parts: Vec<String> = normalize_parts(&split_path(raw.as_str()));
    let ghost all = policy_parts(path@, base@);
    let n: usize = parts.len();
    let mut i: usize = 0;
    while i < answers.len()
        invariant
            all == texts(parts@),
            all == policy_parts(path@, base@),
            n == parts@.len(),
            i <= answers@.len() <= ancestor_count(all),
            first_answer(answers@.take(i as int)) is None,
        decreases answers@.len() - i,
    {
        assert(answers@.take(i + 1).drop_last() =~= answers@.take(i as int));
        match &answers[i] {
            Some(canon) => {
                proof {
                    lemma_first_answer_stays(answers@, i + 1);
                    assert(all.subrange(n - i, n as int) =~= all.skip(n - i));
                }
                if i == 0 {
                    return canon.clone();
                }
                let tail: String = render_parts(&parts, n - i, n);
                return path_join(canon.as_str(), tail.as_str());
            },
            None => {},
        }
        i = i + 1;
    }
    assert(answers@.take(answers@.len() as int) =~= answers@);
    assert(all.subrange(0, n as int) =~= all);
    render_parts(&parts, 0, n)
}

proof fn lemma_first_answer_stays(answers: Seq<Option<String>>, k: int)
    requires
        0 <= k <= answers.len(),
        first_answer(answers.take(k)) is Some,
    ensures
        first_answer(answers) == first_answer(answers.take(k)),
    decreases answers.len(),
{
    if k < answers.len() {
        assert(answers.drop_last().take(k) =~= answers.take(k));
        lemma_first_answer_stays(answers.drop_last(), k);
    } else {
        assert(answers.take(k) =~= answers);
    }
}

/// `s` without its leading slashes.
pub open spec fn without_leading_slashes(s: Seq<char>) -> Seq<char>
    decreases s.len(),
{
    if s.len() > 0 && s[0] == '/' {
        without_leading_slashes(s.skip(1))
    } else {
        s
    }
}

/// The form in which rules see a canonical path: relative to the working
/// directory where it lies under it, else without its leading slashes.
pub open spec fn rule_form(canon: Seq<char>, cwd: Seq<char>) -> Seq<char> {
    if under(canon, cwd) {
        path_text(components(canon).skip(components(cwd).len() as int))
    } else {
        without_leading_slashes(canon)
    }
}

/// A path relative to a base that contains it, by its components.
pub fn relative_text(p: &str, base: &str) -> (r: Option<String>)
    ensures
        match r {
            Some(t) => under(p@, base@) && t@ == path_text(
                components(p@).skip(components(base@).len() as int),
            ),
            None => !under(p@, base@),
        },
{
    let c: Vec<String> = split_path(p);
    let b: Vec<String> = split_path(base);
    if parts_start_with(&c, &b) {
        let n: usize = c.len();
        assert(texts(c@).subrange(b@.len() as int, n as int) =~= texts(c@).skip(b@.len() as int));
        Some(render_parts(&c, b.len(), n))
    } else {
        None
    }
}

/// Normalises a canonical path to the project-relative form that rules match.
pub fn normalize_path(canon: &str, cwd: &str) -> (r: String)
    ensures
        r@ == rule_form(canon@, cwd@),
{
    match relative_text(canon, cwd) {
        Some(t) => {
            return t;
        },
        None => {},
    }
    let v: Vec<char> = chars_of(canon);
    let mut i: usize = 0;
    assert(v@.skip(0) =~= v@);
    while i < v.len() && v[i] == '/'
        invariant
            i <= v@.len(),
            without_leading_slashes(v@) == without_leading_slashes(v@.skip(i as int)),
        decreases v@.len() - i,
    {
        assert(v@.skip(i as int).skip(1) =~= v@.skip(i + 1));
        i = i + 1;
    }
    assert(v@.subrange(i as int, v@.len() as int) =~= v@.skip(i as int));
    string_of(&v, i, v.len())
}

/// No `.` or `..` is left among normalised components, and only the first
/// can be the root.
pub proof fn law_normalized_is_clean(parts: Seq<Seq<char>>)
    requires
        forall|i: int| 1 <= i < parts.len() ==> #[trigger] parts[i] != "/"@,
    ensures
        forall|i: int|
            0 <= i < normalized(parts).len() ==> #[trigger] normalized(parts)[i] != "."@
                && normalized(parts)[i] != ".."@,
        forall|i: int|
            1 <= i < normalized(parts).len() ==> #[trigger] normalized(parts)[i] != "/"@,
        parts.len() > 0 && parts[0] == "/"@ ==> normalized(parts).len() > 0 && normalized(parts)[0]
            == "/"@,
    decreases parts.len(),
{
    reveal_strlit(".");
    reveal_strlit("..");
    reveal_strlit("/");
    assert("/"@ != "."@) by {
        assert("/"@[0] != "."@[0]);
    }
    assert("/"@ != ".."@) by {
        assert("/"@[0] != ".."@[0]);
    }
    if parts.len() > 0 {
        let init = parts.drop_last();
        let before = normalized(init);
        let after = normalized(parts);
        assert forall|i: int| 1 <= i < init.len() implies #[trigger] init[i] != "/"@ by {
            assert(init[i] == parts[i]);
        }
        law_normalized_is_clean(init);
        if parts.len() == 1 {
            assert(before =~= Seq::<Seq<char>>::empty());
        } else {
            assert(parts.last() == parts[parts.len() - 1]);
            assert(init[0] == parts[0]);
        }
        assert forall|i: int| 0 <= i < after.len() implies #[trigger] after[i] != "."@ && after[i]
            != ".."@ && (i > 0 ==> after[i] != "/"@) by {
            if i < before.len() {
                assert(after[i] == before[i]);
            }
        }
    }
}

/// Normalising normalised components changes nothing.
pub proof fn law_normalized_idempotent(parts: Seq<Seq<char>>)
    requires
        forall|i: int| 1 <= i < parts.len() ==> #[trigger] parts[i] != "/"@,
    ensures
        normalized(normalized(parts)) == normalized(parts),
{
    law_normalized_is_clean(parts);
    lemma_clean_is_normalized(normalized(parts));
}

proof fn lemma_clean_is_normalized(parts: Seq<Seq<char>>)
    requires
        forall|i: int|
            0 <= i < parts.len() ==> #[trigger] parts[i] != "."@ && parts[i] != ".."@,
    ensures
        normalized(parts) == parts,
    decreases parts.len(),
{
    if parts.len() > 0 {
        lemma_clean_is_normalized(parts.drop_last());
        assert(parts.drop_last().push(parts.last()) =~= parts);
    }
}

/// Containment is reflexive and transitive.
pub proof fn law_under_is_a_preorder(a: Seq<char>, b: Seq<char>, c: Seq<char>)
    ensures
        under(a, a),
        under(a, b) && under(b, c) ==> under(a, c),
{
    assert(components(a).subrange(0, components(a).len() as int) =~= components(a));
    if under(a, b) && under(b, c) {
        assert(components(a).subrange(0, components(c).len() as int) =~= components(b).subrange(
            0,
            components(c).len() as int,
        ));
    }
}

/// The last component of a path, where it names something.
pub open spec fn file_name_of(p: Seq<char>) -> Option<Seq<char>> {
    let parts = components(p);
    if parts.len() == 0 || parts.last() == "/"@ || parts.last() == "."@ || parts.last() == ".."@ {
        None
    } else {
        Some(parts.last())
    }
}

/// The position of the last dot of a name.
pub open spec fn last_dot(name: Seq<char>) -> Option<int>
    decreases name.len(),
{
    if name.len() == 0 {
        None
    } else if name.last() == '.' {
        Some(name.len() - 1)
    } else {
        last_dot(name.drop_last())
    }
}

pub proof fn lemma_last_dot(name: Seq<char>)
    ensures
        last_dot(name) matches Some(i) ==> 0 <= i < name.len() && name[i] == '.',
    decreases name.len(),
{
    if name.len() > 0 && name.last() != '.' {
        lemma_last_dot(name.drop_last());
    }
}

/// What stands behind the last dot of a path's file name, unless the name
/// begins with it.
pub open spec fn extension_of(p: Seq<char>) -> Option<Seq<char>> {
    match file_name_of(p) {
        Some(name) => match last_dot(name) {
            Some(i) if i > 0 => Some(name.skip(i + 1)),
            _ => None,
        },
        None => None,
    }
}

/// A path's file name without its extension.
pub open spec fn file_stem_of(p: Seq<char>) -> Option<Seq<char>> {
    match file_name_of(p) {
        Some(name) => match last_dot(name) {
            Some(i) if i > 0 => Some(name.take(i)),
            _ => Some(name),
        },
        None => None,
    }
}

/// `Path::file_name`.
pub fn file_name(p: &str) -> (r: Option<String>)
    ensures
        opt_text(r) == file_name_of(p@),
{
    let parts: Vec<String> = split_path(p);
    let n: usize = parts.len();
    assert(texts(parts@).len() == n);
    if n == 0 {
        return None;
    }
    assert(texts(parts@).last() == parts@[n - 1]@);
    let last: &str = parts[n - 1].as_str();
    if str_eq(last, "/") || str_eq(last, ".") || str_eq(last, "..") {
        None
    } else {
        Some(last.to_owned())
    }
}

fn find_last_dot(name: &Vec<char>) -> (r: Option<usize>)
    ensures
        match r {
            Some(i) => last_dot(name@) == Some(i as int) && i < name@.len(),
            None => last_dot(name@) is None,
        },
{
    let mut i: usize = name.len();
    assert(name@.take(i as int) =~= name@);
    while i > 0
        invariant
            i <= name@.len(),
            last_dot(name@) == last_dot(name@.take(i as int)),
        decreases i,
    {
        i = i - 1;
        assert(name@.take(i + 1).drop_last() =~= name@.take(i as int));
        if name[i] == '.' {
            return Some(i);
        }
    }
    None
}

/// `Path::extension`.
pub fn extension(p: &str) -> (r: Option<String>)
    ensures
        opt_text(r) == extension_of(p@),
{
    match file_name(p) {
        None => None,
        Some(name) => {
            let v: Vec<char> = chars_of(name.as_str());
            match find_last_dot(&v) {
                Some(i) => if i > 0 {
                    let n: usize = v.len();
                    assert(v@.subrange(i + 1, n as int) =~= v@.skip(i + 1));
                    Some(string_of(&v, i + 1, n))
                } else {
                    None
                },
                None => None,
            }
        },
    }
}

/// `Path::file_stem`.
pub fn file_stem(p: &str) -> (r: Option<String>)
    ensures
        opt_text(r) == file_stem_of(p@),
{
    match file_name(p) {
        None => None,
        Some(name) => {
            let v: Vec<char> = chars_of(name.as_str());
            match find_last_dot(&v) {
                Some(i) => if i > 0 {
                    assert(v@.subrange(0, i as int) =~= v@.take(i as int));
                    Some(string_of(&v, 0, i))
                } else {
                    Some(name)
                },
                None => Some(name),
            }
        },
    }
}

/// The pieces of a text between slashes that name something.
pub open spec fn named_pieces(p: Seq<char>) -> Seq<Seq<char>> {
    split_at_char(p, '/').filter(|c: Seq<char>| is_named(c))
}

/// Whether components are plain: each names something and holds no slash.
pub open spec fn is_plain(parts: Seq<Seq<char>>) -> bool {
    forall|i: int| 0 <= i < parts.len() ==> is_named(#[trigger] parts[i]) && has_no_slash(parts[i])
}

pub open spec fn has_no_slash(part: Seq<char>) -> bool {
    forall|j: int| 0 <= j < part.len() ==> #[trigger] part[j] != '/'
}

proof fn lemma_named_pieces_are_plain(p: Seq<char>)
    ensures
        is_plain(named_pieces(p)),
{
    broadcast use vstd::seq_lib::group_filter_ensures;

    let pieces = split_at_char(p, '/');
    let pred = |c: Seq<char>| is_named(c);
    lemma_pieces_hold_no_separator(p, '/');
    assert forall|i: int| 0 <= i < named_pieces(p).len() implies is_named(
        #[trigger] named_pieces(p)[i],
    ) && has_no_slash(named_pieces(p)[i]) by {
        let part = pieces.filter(pred)[i];
        assert(pred(part));
        assert(pieces.filter(pred).contains(part));
        pieces.lemma_filter_contains_rev(pred, part);
        let at = choose|at: int| 0 <= at < pieces.len() && pieces[at] == part;
        assert forall|j: int| 0 <= j < part.len() implies #[trigger] part[j] != '/' by {
            assert(pieces[at][j] != '/');
        }
    }
}

proof fn lemma_split_joined(parts: Seq<Seq<char>>)
    requires
        parts.len() > 0,
        forall|i: int| 0 <= i < parts.len() ==> has_no_slash(#[trigger] parts[i]),
    ensures
        split_at_char(joined(parts, "/"@), '/') == parts,
    decreases parts.len(),
{
    reveal_strlit("/");
    assert("/"@ =~= seq!['/']);
    if parts.len() == 1 {
        assert(has_no_slash(parts[0]));
        lemma_split_plain(parts[0], '/');
        assert(parts =~= seq![parts[0]]);
    } else {
        let init = parts.drop_last();
        assert forall|i: int| 0 <= i < init.len() implies has_no_slash(#[trigger] init[i]) by {
            assert(has_no_slash(parts[i]));
        }
        assert(has_no_slash(parts[parts.len() - 1]));
        lemma_split_joined(init);
        lemma_split_plain(parts.last(), '/');
        lemma_split_append(joined(init, "/"@), parts.last(), '/');
        assert(init + seq![parts.last()] =~= parts);
    }
}

proof fn lemma_named_pieces_of_joined(parts: Seq<Seq<char>>)
    requires
        is_plain(parts),
    ensures
        named_pieces(joined(parts, "/"@)) == parts,
        !is_absolute(joined(parts, "/"@)),
        split_at_char(joined(parts, "/"@), '/')[0] != "."@,
{
    reveal_strlit("/");
    reveal_strlit(".");
    let p = joined(parts, "/"@);
    let pred = |c: Seq<char>| is_named(c);
    if parts.len() == 0 {
        reveal(Seq::filter);
        assert(p =~= Seq::<char>::empty());
        let pieces = split_at_char(p, '/');
        assert(pieces =~= seq![Seq::<char>::empty()]);
        assert(pieces.drop_last() =~= Seq::<Seq<char>>::empty());
        assert(pieces.drop_last().filter(pred) =~= Seq::<Seq<char>>::empty());
        assert(named_pieces(p) =~= parts);
    } else {
        assert forall|i: int| 0 <= i < parts.len() implies has_no_slash(#[trigger] parts[i]) by {}
        lemma_split_joined(parts);
        assert forall|i: int| 0 <= i < parts.len() implies pred(#[trigger] parts[i]) by {}
        lemma_filter_all(parts, pred);
        lemma_joined_start(parts);
        assert(is_named(parts[0]) && has_no_slash(parts[0]));
        assert(parts[0][0] != '/');
    }
}

proof fn lemma_joined_start(parts: Seq<Seq<char>>)
    requires
        parts.len() > 0,
        parts[0].len() > 0,
    ensures
        joined(parts, "/"@).len() > 0,
        joined(parts, "/"@)[0] == parts[0][0],
    decreases parts.len(),
{
    if parts.len() > 1 {
        lemma_joined_start(parts.drop_last());
    }
}

/// Components written as a path are read back as they were.
pub proof fn law_components_round_trip(p: Seq<char>)
    ensures
        components(path_text(components(p))) == components(p),
{
    reveal_strlit("/");
    reveal_strlit(".");
    assert("/"@ =~= seq!['/']);
    let named = named_pieces(p);
    let pred = |c: Seq<char>| is_named(c);
    let pieces = split_at_char(p, '/');
    lemma_named_pieces_are_plain(p);
    lemma_named_pieces_of_joined(named);
    let parts = components(p);
    let rest = joined(named, "/"@);
    if is_absolute(p) {
        assert(parts.skip(1) =~= named);
        lemma_rooted(rest);
        assert("/"@ + rest =~= Seq::<char>::empty() + seq!['/'] + rest);
    } else if pieces[0] == "."@ {
        assert(parts[0] == "."@);
        assert("."@[0] == '.');
        assert forall|i: int| 0 <= i < parts.len() implies has_no_slash(#[trigger] parts[i]) by {
            if i == 0 {
                assert(parts[0] =~= seq!['.']);
            } else {
                assert(parts[i] == named[i - 1]);
            }
        }
        lemma_split_joined(parts);
        lemma_joined_start(parts);
        assert(named_pieces(path_text(parts)) == parts.filter(pred));
        assert(parts.filter(pred) == named) by {
            lemma_filter_all(named, pred);
            Seq::filter_distributes_over_add(seq!["."@], named, pred);
            lemma_filter_one("."@);
            assert(seq!["."@].filter(pred) + named =~= named);
        }
    } else {
        assert(parts == named);
        if named.len() > 0 {
            assert(has_no_slash(named[0]) && is_named(named[0]));
            assert(named[0][0] != '/');
            assert(named[0] != "/"@) by {
                if named[0] == "/"@ {
                    assert(named[0][0] == '/');
                }
            }
        }
    }
}

proof fn lemma_filter_one(part: Seq<char>)
    requires
        !is_named(part),
    ensures
        seq![part].filter(|c: Seq<char>| is_named(c)) == Seq::<Seq<char>>::empty(),
{
    reveal(Seq::filter);
    let pred = |c: Seq<char>| is_named(c);
    assert(seq![part].drop_last() =~= Seq::<Seq<char>>::empty());
    assert(seq![part].drop_last().filter(pred) =~= Seq::<Seq<char>>::empty());
}

/// A slash in front makes a relative text absolute and adds no name.
proof fn lemma_rooted(rest: Seq<char>)
    ensures
        components(Seq::<char>::empty() + seq!['/'] + rest) == seq!["/"@] + named_pieces(rest),
{
    let p = Seq::<char>::empty() + seq!['/'] + rest;
    let pred = |c: Seq<char>| is_named(c);
    lemma_split_append(Seq::<char>::empty(), rest, '/');
    let empty = split_at_char(Seq::<char>::empty(), '/');
    assert(empty =~= seq![Seq::<char>::empty()]);
    Seq::filter_distributes_over_add(empty, split_at_char(rest, '/'), pred);
    lemma_filter_one(Seq::<char>::empty());
    assert(Seq::<Seq<char>>::empty() + named_pieces(rest) =~= named_pieces(rest));
    assert(p[0] == '/');
}

/// Joining a relative path to an absolute one adds its names.
pub proof fn law_join_adds_the_names(base: Seq<char>, p: Seq<char>)
    requires
        is_absolute(base),
        !is_absolute(p),
    ensures
        components(join_text(base, p)) == components(base) + named_pieces(p),
{
    reveal_strlit("/");
    assert("/"@ =~= seq!['/']);
    let pred = |c: Seq<char>| is_named(c);
    let full = join_text(base, p);
    if base.last() == '/' {
        let b = base.drop_last();
        assert(base =~= b + seq!['/'] + Seq::<char>::empty());
        assert(full =~= b + seq!['/'] + p);
        lemma_split_append(b, p, '/');
        lemma_split_append(b, Seq::<char>::empty(), '/');
        let empty = split_at_char(Seq::<char>::empty(), '/');
        assert(empty =~= seq![Seq::<char>::empty()]);
        Seq::filter_distributes_over_add(split_at_char(b, '/'), split_at_char(p, '/'), pred);
        Seq::filter_distributes_over_add(split_at_char(b, '/'), empty, pred);
        lemma_filter_one(Seq::<char>::empty());
        assert(named_pieces(base) =~= named_pieces(b));
        assert(full[0] == base[0]);
        assert(components(full) =~= components(base) + named_pieces(p));
    } else {
        assert(full =~= base + seq!['/'] + p);
        lemma_split_append(base, p, '/');
        Seq::filter_distributes_over_add(split_at_char(base, '/'), split_at_char(p, '/'), pred);
        assert(components(full) =~= components(base) + named_pieces(p));
    }
}

/// The part of a path below a directory, joined to the directory again, leads
/// to the path.
pub proof fn law_relative_path_leads_back(p: Seq<char>, dir: Seq<char>)
    requires
        is_absolute(p),
        under(p, dir),
    ensures
        components(
            join_text(dir, path_text(components(p).skip(components(dir).len() as int))),
        ) == components(p),
{
    reveal_strlit("/");
    reveal_strlit(".");
    assert("/"@ =~= seq!['/']);
    let all = components(p);
    let top = components(dir);
    let rest = all.skip(top.len() as int);
    lemma_named_pieces_are_plain(p);
    assert(all[0] == "/"@);
    if top.len() == 0 {
        assert(rest =~= all);
        law_components_round_trip(p);
        assert(path_text(all)[0] == '/');
    } else {
        assert(top[0] == all[0]);
        assert(is_absolute(dir)) by {
            if !is_absolute(dir) {
                lemma_named_pieces_are_plain(dir);
                if split_at_char(dir, '/')[0] == "."@ {
                    assert(top[0] == "."@);
                    assert("."@[0] != "/"@[0]);
                } else {
                    assert(top[0] == named_pieces(dir)[0]);
                    assert(has_no_slash(named_pieces(dir)[0]));
                    assert(top[0][0] == '/');
                }
            }
        }
        assert forall|i: int| 0 <= i < rest.len() implies is_named(#[trigger] rest[i])
            && has_no_slash(rest[i]) by {
            assert(rest[i] == named_pieces(p)[i + top.len() - 1]);
        }
        lemma_named_pieces_of_joined(rest);
        if rest.len() > 0 {
            assert(is_named(rest[0]) && has_no_slash(rest[0]));
            assert(rest[0][0] != '/');
            assert(rest[0] != "/"@) by {
                if rest[0] == "/"@ {
                    assert(rest[0][0] == '/');
                }
            }
        }
        law_join_adds_the_names(dir, joined(rest, "/"@));
        assert(top + rest =~= all);
    }
}

/// Whether no component leads up or stays in place.
pub open spec fn holds_no_steps(parts: Seq<Seq<char>>) -> bool {
    forall|i: int| 0 <= i < parts.len() ==> #[trigger] parts[i] != "."@ && parts[i] != ".."@
}

proof fn lemma_normalized_stays_plain(parts: Seq<Seq<char>>)
    requires
        parts.len() > 0,
        parts[0] == "/"@,
        is_plain(parts.skip(1)),
    ensures
        normalized(parts).len() > 0,
        normalized(parts)[0] == "/"@,
        is_plain(normalized(parts).skip(1)),
        holds_no_steps(normalized(parts)),
    decreases parts.len(),
{
    reveal_strlit("/");
    reveal_strlit(".");
    reveal_strlit("..");
    assert("/"@ != "."@) by {
        assert("/"@[0] != "."@[0]);
    }
    assert("/"@ != ".."@) by {
        assert("/"@[0] != ".."@[0]);
    }
    let after = normalized(parts);
    if parts.len() == 1 {
        assert(normalized(parts.drop_last()) =~= Seq::<Seq<char>>::empty());
        assert(after =~= seq!["/"@]);
        assert(after.skip(1).len() == 0);
    } else {
        let init = parts.drop_last();
        assert forall|i: int| 0 <= i < init.skip(1).len() implies is_named(#[trigger] init.skip(1)[i])
            && has_no_slash(init.skip(1)[i]) by {
            assert(init.skip(1)[i] == parts.skip(1)[i]);
        }
        lemma_normalized_stays_plain(init);
        let before = normalized(init);
        let c = parts.last();
        assert(parts.skip(1)[parts.len() - 2] == c);
        assert(is_named(c) && has_no_slash(c));
        assert forall|i: int| 0 <= i < after.skip(1).len() implies is_named(
            #[trigger] after.skip(1)[i],
        ) && has_no_slash(after.skip(1)[i]) by {
            if i + 1 < before.len() {
                assert(after.skip(1)[i] == before.skip(1)[i]);
            } else {
                assert(after.skip(1)[i] == c);
            }
        }
        assert forall|i: int| 0 <= i < after.len() implies #[trigger] after[i] != "."@ && after[i]
            != ".."@ by {
            if i < before.len() {
                assert(after[i] == before[i]);
            }
        }
    }
}

proof fn lemma_rooted_text(parts: Seq<Seq<char>>)
    requires
        parts.len() > 0,
        parts[0] == "/"@,
        is_plain(parts.skip(1)),
    ensures
        components(path_text(parts)) == parts,
{
    reveal_strlit("/");
    assert("/"@ =~= seq!['/']);
    let rest = parts.skip(1);
    lemma_named_pieces_of_joined(rest);
    lemma_rooted(joined(rest, "/"@));
    assert("/"@ + joined(rest, "/"@) =~= Seq::<char>::empty() + seq!['/'] + joined(rest, "/"@));
    assert(seq!["/"@] + rest =~= parts);
}

/// No detour is left in the policy form of a path, so that a prefix of it
/// tells where the path leads: `docs/../secrets/x` lies under `secrets`, not
/// under `docs`. That holds wherever a canonical ancestor has none either.
pub proof fn law_policy_form_has_no_detour(
    path: Seq<char>,
    base: Seq<char>,
    answers: Seq<Option<String>>,
)
    requires
        is_absolute(base),
        answers.len() <= ancestor_count(policy_parts(path, base)),
        first_answer(answers) matches Some(i) ==> is_absolute(answers[i]->Some_0@)
            && holds_no_steps(components(answers[i]->Some_0@)),
    ensures
        holds_no_steps(components(policy_form(policy_parts(path, base), answers))),
        first_answer(answers) is None ==> components(
            policy_form(policy_parts(path, base), answers),
        ) == policy_parts(path, base),
{
    reveal_strlit("/");
    let full = join_text(base, path);
    assert(is_absolute(full));
    lemma_named_pieces_are_plain(full);
    assert(components(full).skip(1) =~= named_pieces(full));
    lemma_normalized_stays_plain(components(full));
    let parts = policy_parts(path, base);
    lemma_first_answer(answers);
    match first_answer(answers) {
        None => {
            lemma_rooted_text(parts);
        },
        Some(i) => {
            let tail = parts.skip(parts.len() - i);
            assert forall|k: int| 0 <= k < tail.len() implies is_named(#[trigger] tail[k])
                && has_no_slash(tail[k]) by {
                assert(tail[k] == parts.skip(1)[parts.len() - i - 1 + k]);
            }
            lemma_named_pieces_of_joined(tail);
            if tail.len() > 0 {
                assert(is_named(tail[0]) && has_no_slash(tail[0]));
                assert(tail[0][0] != '/');
                assert(tail[0] != "/"@) by {
                    if tail[0] == "/"@ {
                        assert(tail[0][0] == '/');
                    }
                }
            }
            let top = answers[i]->Some_0@;
            law_join_adds_the_names(top, joined(tail, "/"@));
            let out = components(policy_form(parts, answers));
            if i == 0 {
                assert(components(top) + tail =~= components(top));
            }
            assert(out == components(top) + tail);
            assert forall|k: int| 0 <= k < out.len() implies #[trigger] out[k] != "."@ && out[k]
                != ".."@ by {
                if k < components(top).len() {
                    assert(out[k] == components(top)[k]);
                } else {
                    let j = k - components(top).len();
                    assert(out[k] == tail[j]);
                    assert(tail[j] == parts[parts.len() - i + j]);
                }
            }
        },
    }
}

proof fn lemma_first_answer(answers: Seq<Option<String>>)
    ensures
        match first_answer(answers) {
            Some(i) => 0 <= i < answers.len() && answers[i] is Some,
            None => true,
        },
    decreases answers.len(),
{
    if answers.len() > 0 {
        lemma_first_answer(answers.drop_last());
    }
}

proof fn lemma_normalized_is_inside(parts: Seq<Seq<char>>)
    ensures
        forall|i: int|
            0 <= i < normalized(parts).len() ==> parts.contains(#[trigger] normalized(parts)[i]),
    decreases parts.len(),
{
    if parts.len() > 0 {
        let init = parts.drop_last();
        let before = normalized(init);
        let after = normalized(parts);
        lemma_normalized_is_inside(init);
        assert forall|i: int| 0 <= i < after.len() implies parts.contains(#[trigger] after[i]) by {
            if i < before.len() {
                assert(after[i] == before[i]);
                let at = choose|at: int| 0 <= at < init.len() && init[at] == before[i];
                assert(parts[at] == before[i]);
            } else {
                assert(parts[parts.len() - 1] == parts.last());
            }
        }
    }
}

/// A file name holds no slash, and is the whole path where the path holds
/// none.
pub proof fn lemma_file_name(p: Seq<char>)
    ensures
        file_name_of(p) matches Some(name) ==> has_no_slash(name) && (has_no_slash(p) ==> name
            == p),
{
    reveal_strlit("/");
    let parts = components(p);
    let named = named_pieces(p);
    let pred = |c: Seq<char>| is_named(c);
    lemma_named_pieces_are_plain(p);
    if file_name_of(p) is Some {
        let name = parts.last();
        assert(named.len() > 0 && name == named.last());
        assert(has_no_slash(named[named.len() - 1]));
        if has_no_slash(p) {
            lemma_split_plain(p, '/');
            if is_named(p) {
                lemma_filter_all(seq![p], pred);
            } else {
                lemma_filter_one(p);
            }
        }
    }
}

/// A normalised path holds no `.` and no `..`, is absolute where the path is,
/// and is not changed by normalising it again.
pub proof fn law_normal_text(p: Seq<char>)
    ensures
        components(normal_text(p)) == normalized(components(p)),
        forall|i: int|
            0 <= i < components(normal_text(p)).len() ==> #[trigger] components(normal_text(p))[i]
                != "."@ && components(normal_text(p))[i] != ".."@,
        is_absolute(normal_text(p)) == is_absolute(p),
        normal_text(normal_text(p)) == normal_text(p),
{
    reveal_strlit("/");
    reveal_strlit(".");
    assert("/"@ =~= seq!['/']);
    let parts = components(p);
    let named = named_pieces(p);
    let out = normalized(parts);
    lemma_named_pieces_are_plain(p);
    assert forall|i: int| 1 <= i < parts.len() implies #[trigger] parts[i] != "/"@ by {
        let k = i - (parts.len() - named.len());
        assert(parts[i] == named[k]);
        assert(is_named(named[k]) && has_no_slash(named[k]));
        assert(named[k][0] != '/');
    }
    law_normalized_is_clean(parts);
    lemma_normalized_is_inside(parts);
    lemma_clean_is_normalized(out);
    let start: int = if is_absolute(p) {
        1
    } else {
        0
    };
    let rest = out.skip(start);
    assert forall|i: int| 0 <= i < rest.len() implies is_named(#[trigger] rest[i]) && has_no_slash(
        rest[i],
    ) by {
        let c = out[i + start];
        assert(parts.contains(c));
        let at = choose|at: int| 0 <= at < parts.len() && parts[at] == c;
        if named.len() == parts.len() {
            assert(c == named[at]);
        } else {
            assert(at > 0);
            assert(c == named[at - 1]);
        }
    }
    lemma_named_pieces_of_joined(rest);
    if is_absolute(p) {
        lemma_rooted(joined(rest, "/"@));
        assert("/"@ + joined(rest, "/"@) =~= Seq::<char>::empty() + seq!['/'] + joined(rest, "/"@));
        assert(out =~= seq!["/"@] + rest);
        assert(normal_text(p)[0] == '/');
    } else {
        assert(rest =~= out);
        if out.len() > 0 {
            assert(is_named(rest[0]) && has_no_slash(rest[0]));
            assert(rest[0][0] != '/');
            assert(out[0] != "/"@);
        }
    }
}

proof fn lemma_normalized_append(a: Seq<Seq<char>>, b: Seq<Seq<char>>, rest: Seq<Seq<char>>)
    requires
        normalized(a) == normalized(b),
    ensures
        normalized(a + rest) == normalized(b + rest),
    decreases rest.len(),
{
    if rest.len() == 0 {
        assert(a + rest =~= a);
        assert(b + rest =~= b);
    } else {
        lemma_normalized_append(a, b, rest.drop_last());
        assert((a + rest).drop_last() =~= a + rest.drop_last());
        assert((b + rest).drop_last() =~= b + rest.drop_last());
    }
}

/// A `..` at the root or at the start of a relative path is dropped, so an
/// absolute path never leads out of the root.
pub proof fn law_leading_parents_are_dropped(p: Seq<char>)
    ensures
        normal_text("/../"@ + p) == normal_text("/"@ + p),
        !is_absolute(p) ==> normal_text("../"@ + p) == normal_text(p),
{
    reveal_strlit("/");
    reveal_strlit(".");
    reveal_strlit("..");
    reveal_strlit("/../");
    reveal_strlit("../");
    let pred = |c: Seq<char>| is_named(c);
    let up = "../"@ + p;
    let named = named_pieces(p);
    let none = Seq::<Seq<char>>::empty();
    assert("/"@ != ".."@) by {
        assert("/"@.len() != ".."@.len());
    }
    assert(up =~= ".."@ + seq!['/'] + p);
    lemma_split_plain(".."@, '/');
    lemma_split_append(".."@, p, '/');
    Seq::filter_distributes_over_add(seq![".."@], split_at_char(p, '/'), pred);
    assert(".."@ != "."@) by {
        assert(".."@.len() != "."@.len());
    }
    lemma_filter_all(seq![".."@], pred);
    assert(named_pieces(up) =~= seq![".."@] + named);
    lemma_rooted(up);
    lemma_rooted(p);
    assert("/../"@ + p =~= Seq::<char>::empty() + seq!['/'] + up);
    assert("/"@ + p =~= Seq::<char>::empty() + seq!['/'] + p);
    let root = seq!["/"@];
    let stuck = seq!["/"@, ".."@];
    assert(root.drop_last() =~= none);
    assert(stuck.drop_last() =~= root);
    assert(normalized(none) == none);
    assert(normalized(root) == none.push("/"@)) by {
        assert("/"@[0] != "."@[0]);
    }
    assert(normalized(stuck) == normalized(root));
    lemma_normalized_append(stuck, root, named);
    assert(stuck + named =~= root + (seq![".."@] + named));
    if !is_absolute(p) {
        assert(up[0] == '.');
        let parent = seq![".."@];
        let dot = seq!["."@];
        assert(parent.drop_last() =~= none);
        assert(dot.drop_last() =~= none);
        lemma_normalized_append(parent, none, named);
        lemma_normalized_append(dot, none, named);
        assert(none + named =~= named);
        assert(split_at_char(up, '/')[0] == ".."@);
    }
}

/// The form in which rules see a path that a call names, taken from the working
/// directory where it is relative.
pub open spec fn rule_path(path: Seq<char>, cwd: Seq<char>, answers: Seq<Option<String>>) -> Seq<char> {
    rule_form(policy_form(policy_parts(path, cwd), answers), cwd)
}

/// A step into a directory and out of it again changes nothing of where a path
/// leads.
pub proof fn law_detours_are_dropped(dir: Seq<char>, p: Seq<char>, base: Seq<char>)
    requires
        is_absolute(base),
        is_named(dir),
        has_no_slash(dir),
        dir != ".."@,
        !is_absolute(p),
    ensures
        policy_parts(dir + "/../"@ + p, base) == policy_parts(p, base),
{
    reveal_strlit("/");
    reveal_strlit(".");
    reveal_strlit("..");
    reveal_strlit("/../");
    let pred = |c: Seq<char>| is_named(c);
    let up = ".."@ + seq!['/'] + p;
    let path = dir + "/../"@ + p;
    let named = named_pieces(p);
    let top = components(base);
    let dots = seq![".."@];
    let step = seq![dir];
    assert(path =~= dir + seq!['/'] + up);
    assert(path[0] == dir[0]);
    lemma_split_plain(".."@, '/');
    lemma_split_append(".."@, p, '/');
    Seq::filter_distributes_over_add(dots, split_at_char(p, '/'), pred);
    assert(".."@ != "."@) by {
        assert(".."@.len() != "."@.len());
    }
    lemma_filter_all(dots, pred);
    assert(named_pieces(up) =~= dots + named);
    lemma_split_plain(dir, '/');
    lemma_split_append(dir, up, '/');
    Seq::filter_distributes_over_add(step, split_at_char(up, '/'), pred);
    lemma_filter_all(step, pred);
    assert(named_pieces(path) =~= step + (dots + named));
    law_join_adds_the_names(base, path);
    law_join_adds_the_names(base, p);
    let inside = top + step;
    let back = top + step + dots;
    assert(inside.drop_last() =~= top);
    assert(back.drop_last() =~= inside);
    assert(dir != "/"@) by {
        if dir == "/"@ {
            assert(dir[0] == '/');
        }
    }
    assert(normalized(inside) == normalized(top).push(dir));
    assert(normalized(back) =~= normalized(top));
    lemma_normalized_append(back, top, named);
    assert(top + (step + (dots + named)) =~= back + named);
}

/// A file in a directory of the project is seen under that directory, however
/// a call steps into another one and out of it on the way. `answers` tells of
/// a tree without links: each ancestor is its own canonical form.
pub proof fn law_detours_are_seen_through(
    detour: Seq<char>,
    dir: Seq<char>,
    name: Seq<char>,
    cwd: Seq<char>,
    answers: Seq<Option<String>>,
)
    requires
        is_absolute(cwd),
        holds_no_steps(components(cwd)),
        is_plain(seq![detour, dir, name]),
        holds_no_steps(seq![detour, dir, name]),
        answers.len() <= components(cwd).len() + 2,
        first_answer(answers) matches Some(i) ==> components(answers[i]->Some_0@) == (
        components(cwd) + seq![dir, name]).take(components(cwd).len() + 2 - i),
    ensures
        rule_path(detour + "/../"@ + dir + "/"@ + name, cwd, answers) == dir + "/"@ + name,
        rule_path(dir + "/"@ + name, cwd, answers) == dir + "/"@ + name,
{
    reveal_strlit("/");
    reveal_strlit("/../");
    assert("/"@ =~= seq!['/']);
    let all = seq![detour, dir, name];
    assert(is_named(all[0]) && has_no_slash(all[0]) && all[0] != ".."@);
    assert(is_named(all[1]) && has_no_slash(all[1]) && all[1] != "."@ && all[1] != ".."@);
    assert(is_named(all[2]) && has_no_slash(all[2]) && all[2] != "."@ && all[2] != ".."@);
    let two = seq![dir, name];
    let p = dir + "/"@ + name;
    let top = components(cwd);
    assert(is_plain(two)) by {
        assert forall|i: int| 0 <= i < two.len() implies is_named(#[trigger] two[i])
            && has_no_slash(two[i]) by {
            assert(two[i] == all[i + 1]);
        }
    }
    assert(two.drop_last() =~= seq![dir]);
    assert(joined(seq![dir], "/"@) == dir);
    assert(joined(two, "/"@) =~= p);
    lemma_named_pieces_of_joined(two);
    law_detours_are_dropped(detour, p, cwd);
    assert(detour + "/../"@ + dir + "/"@ + name =~= detour + "/../"@ + p);
    law_join_adds_the_names(cwd, p);
    let parts = top + two;
    assert forall|i: int| 0 <= i < parts.len() implies #[trigger] parts[i] != "."@ && parts[i]
        != ".."@ by {
        if i < top.len() {
            assert(parts[i] == top[i]);
        } else {
            assert(parts[i] == all[i - top.len() + 1]);
        }
    }
    lemma_clean_is_normalized(parts);
    assert(policy_parts(p, cwd) == parts);
    lemma_named_pieces_are_plain(cwd);
    assert(parts[0] == "/"@);
    assert(is_plain(parts.skip(1))) by {
        assert forall|i: int| 0 <= i < parts.skip(1).len() implies is_named(
            #[trigger] parts.skip(1)[i],
        ) && has_no_slash(parts.skip(1)[i]) by {
            if i < top.len() - 1 {
                assert(parts.skip(1)[i] == named_pieces(cwd)[i]);
            } else {
                assert(parts.skip(1)[i] == two[i - top.len() + 1]);
            }
        }
    }
    let canon = policy_form(parts, answers);
    lemma_first_answer(answers);
    assert(components(canon) == parts) by {
        match first_answer(answers) {
            None => {
                lemma_rooted_text(parts);
            },
            Some(i) => {
                let known = answers[i]->Some_0@;
                if i == 0 {
                    assert(parts.take(parts.len() as int) =~= parts);
                } else {
                    lemma_known_ancestor(parts, known, i);
                }
            },
        }
    }
    assert(parts.subrange(0, top.len() as int) =~= top);
    assert(parts.skip(top.len() as int) =~= two);
    assert(two[0] != "/"@) by {
        assert(two[0][0] != '/');
    }
}

proof fn lemma_known_ancestor(parts: Seq<Seq<char>>, known: Seq<char>, i: int)
    requires
        0 < i < parts.len(),
        parts[0] == "/"@,
        is_plain(parts.skip(1)),
        components(known) == parts.take(parts.len() - i),
    ensures
        components(join_text(known, path_text(parts.skip(parts.len() - i)))) == parts,
{
    reveal_strlit("/");
    reveal_strlit(".");
    assert("/"@ =~= seq!['/']);
    let tail = parts.skip(parts.len() - i);
    assert forall|k: int| 0 <= k < tail.len() implies is_named(#[trigger] tail[k])
        && has_no_slash(tail[k]) by {
        assert(tail[k] == parts.skip(1)[parts.len() - i - 1 + k]);
    }
    lemma_named_pieces_of_joined(tail);
    assert(is_named(tail[0]) && has_no_slash(tail[0]));
    assert(tail[0][0] != '/');
    assert(tail[0] != "/"@);
    assert(components(known)[0] == "/"@);
    assert(is_absolute(known)) by {
        if !is_absolute(known) {
            lemma_named_pieces_are_plain(known);
            if split_at_char(known, '/')[0] == "."@ {
                assert(components(known)[0] == "."@);
                assert("."@[0] != "/"@[0]);
            } else {
                assert(components(known)[0] == named_pieces(known)[0]);
                assert(has_no_slash(named_pieces(known)[0]));
                assert(components(known)[0][0] == '/');
            }
        }
    }
    law_join_adds_the_names(known, joined(tail, "/"@));
    assert(parts.take(parts.len() - i) + tail =~= parts);
}

/// A path is absolute exactly where it begins with a slash.
pub proof fn law_absolute_paths(p: &str, r: bool)
    requires
        call_ensures(is_absolute_path, (p,), r),
    ensures
        r <==> p@.len() > 0 && p@[0] == '/',
{
}

/// Joining two paths: an absolute one stands for itself; any other follows the
/// base, behind a slash, unless the base is empty or ends in one.
pub proof fn law_joined_paths(base: &str, p: &str, r: String, s: String)
    requires
        call_ensures(path_join, (base, p), r),
        call_ensures(resolve, (p, base), s),
    ensures
        p@.len() > 0 && p@[0] == '/' ==> r@ == p@,
        !(p@.len() > 0 && p@[0] == '/') && (base@.len() == 0 || base@.last() == '/') ==> r@ == base@
            + p@,
        !(p@.len() > 0 && p@[0] == '/') && base@.len() > 0 && base@.last() != '/' ==> r@ == base@
            + "/"@ + p@,
        s@ == r@,
{
}

proof fn lemma_components_push(base: Seq<char>, name: Seq<char>)
    requires
        base.len() > 0,
        is_named(name),
        has_no_slash(name),
    ensures
        components(base + "/"@ + name) == components(base).push(name),
{
    let whole = base + "/"@ + name;
    let pred = |c: Seq<char>| is_named(c);
    reveal_strlit("/");
    assert("/"@ =~= seq!['/']);
    lemma_split_append(base, name, '/');
    lemma_split_plain(name, '/');
    let pieces = split_at_char(base, '/');
    let all = split_at_char(whole, '/');
    assert(all =~= pieces.push(name));
    lemma_split_some(base);
    lemma_filter_last(all, pred);
    assert(all.drop_last() =~= pieces);
    assert(whole[0] == base[0]);
    assert(all[0] == pieces[0]);
    let named = pieces.filter(pred);
    assert(all.filter(pred) =~= named.push(name));
    assert(components(whole) =~= components(base).push(name));
}

proof fn lemma_split_some(p: Seq<char>)
    ensures
        split_at_char(p, '/').len() > 0,
    decreases p.len(),
{
    if p.len() > 0 {
        lemma_split_some(p.drop_last());
    }
}

proof fn lemma_components_one(name: Seq<char>)
    requires
        is_named(name),
        has_no_slash(name),
    ensures
        components(name) == seq![name],
{
    let pred = |c: Seq<char>| is_named(c);
    lemma_split_plain(name, '/');
    let all = split_at_char(name, '/');
    lemma_filter_last(all, pred);
    assert(all.drop_last() =~= Seq::<Seq<char>>::empty());
    reveal(Seq::filter);
    assert(all.drop_last().filter(pred) =~= Seq::<Seq<char>>::empty());
    assert(all.filter(pred) =~= seq![name]);
}

/// A path is taken apart at its slashes: a name behind a slash is one more
/// part, and a name alone the only one. The root is a part of its own, and an
/// empty path has none.
pub proof fn law_parts_of_paths(
    base: &str,
    whole: &str,
    alone: &str,
    root: &str,
    r: Vec<String>,
    s: Vec<String>,
    one: Vec<String>,
    top: Vec<String>,
    name: Seq<char>,
)
    requires
        call_ensures(split_path, (base,), r),
        call_ensures(split_path, (whole,), s),
        call_ensures(split_path, (alone,), one),
        call_ensures(split_path, (root,), top),
        name.len() > 0,
        name != "."@,
        forall|i: int| 0 <= i < name.len() ==> #[trigger] name[i] != '/',
        whole@ == base@ + "/"@ + name,
        alone@ == name,
        root@ == "/"@,
    ensures
        base@.len() > 0 ==> texts(s@) == texts(r@).push(name),
        base@.len() == 0 ==> texts(s@) == seq!["/"@, name],
        base@.len() == 0 ==> r@.len() == 0,
        texts(one@) == seq![name],
        texts(top@) == seq!["/"@],
{
    reveal_strlit("/");
    assert("/"@ =~= seq!['/']);
    lemma_components_one(name);
    let empty = Seq::<char>::empty();
    let pred = |c: Seq<char>| is_named(c);
    lemma_split_plain(empty, '/');
    lemma_split_append(empty, empty, '/');
    assert(empty + seq!['/'] + empty =~= "/"@);
    reveal(Seq::filter);
    assert(seq![empty].filter(pred) =~= Seq::<Seq<char>>::empty()) by {
        lemma_filter_last(seq![empty], pred);
        assert(seq![empty].drop_last() =~= Seq::<Seq<char>>::empty());
    }
    let two = seq![empty, empty];
    assert(seq![empty] + seq![empty] =~= two);
    assert(two.filter(pred) =~= Seq::<Seq<char>>::empty()) by {
        lemma_filter_last(two, pred);
        assert(two.drop_last() =~= seq![empty]);
    }
    assert(components("/"@) =~= seq!["/"@]);
    if base@.len() > 0 {
        lemma_components_push(base@, name);
    } else {
        assert(base@ =~= empty);
        assert(whole@ =~= "/"@ + name);
        lemma_split_append(empty, name, '/');
        lemma_split_plain(name, '/');
        assert(empty + seq!['/'] + name =~= whole@);
        let all = seq![empty] + seq![name];
        lemma_filter_last(all, pred);
        assert(all.drop_last() =~= seq![empty]);
        assert(all.filter(pred) =~= seq![name]);
        assert(components(whole@) =~= seq!["/"@, name]);
        reveal_strlit(".");
        assert(split_at_char(empty, '/') =~= seq![empty]);
        assert(components(empty) =~= Seq::<Seq<char>>::empty());
        assert(texts(r@).len() == r@.len());
    }
}

/// Normalising a path keeps a name behind it, and takes the last name away for a
/// step up, unless nothing or only the root is left.
pub proof fn law_normalised_paths(
    base: &str,
    down: &str,
    up: &str,
    r: String,
    s: String,
    t: String,
    name: Seq<char>,
)
    requires
        call_ensures(lexical_normalize, (base,), r),
        call_ensures(lexical_normalize, (down,), s),
        call_ensures(lexical_normalize, (up,), t),
        base@.len() > 0,
        name.len() > 0,
        name != "."@,
        name != ".."@,
        forall|i: int| 0 <= i < name.len() ==> #[trigger] name[i] != '/',
        down@ == base@ + "/"@ + name,
        up@ == base@ + "/"@ + ".."@,
    ensures
        components(s@) == components(r@).push(name),
        components(r@).len() == 0 || components(r@).last() == "/"@ ==> t@ == r@,
        components(r@).len() > 0 && components(r@).last() != "/"@ ==> components(t@) == components(
            r@,
        ).drop_last(),
{
    reveal_strlit("..");
    reveal_strlit(".");
    reveal_strlit("/");
    assert(".."@.len() == 2 && "."@.len() == 1 && "/"@.len() == 1);
    assert(".."@[0] == '.' && ".."@[1] == '.');
    law_normal_text(base@);
    law_normal_text(down@);
    law_normal_text(up@);
    lemma_components_push(base@, name);
    lemma_components_push(base@, ".."@);
    let parts = components(base@);
    assert(parts.push(name).drop_last() =~= parts);
    assert(parts.push(".."@).drop_last() =~= parts);
}

/// A path lies under another exactly where it begins with all of its parts.
pub proof fn law_paths_below(child: &str, base: &str, r: bool, a: Vec<String>, b: Vec<String>)
    requires
        call_ensures(path_under, (child, base), r),
        call_ensures(split_path, (child,), a),
        call_ensures(split_path, (base,), b),
    ensures
        r <==> b@.len() <= a@.len() && forall|i: int|
            0 <= i < b@.len() ==> (#[trigger] b@[i])@ == a@[i]@,
{
    let x = texts(a@);
    let y = texts(b@);
    assert(x.len() == a@.len() && y.len() == b@.len());
    assert forall|i: int| 0 <= i < b@.len() implies y[i] == (#[trigger] b@[i])@ by {}
    assert forall|i: int| 0 <= i < a@.len() implies x[i] == (#[trigger] a@[i])@ by {}
    if r {
        assert forall|i: int| 0 <= i < b@.len() implies (#[trigger] b@[i])@ == a@[i]@ by {
            assert(y[i] == x[i]);
        }
    }
    if b@.len() <= a@.len() && (forall|i: int|
        0 <= i < b@.len() ==> (#[trigger] b@[i])@ == a@[i]@) {
        assert forall|i: int| 0 <= i < y.len() implies y[i] == x[i] by {
            assert(b@[i]@ == a@[i]@);
        }
        assert(y =~= x.take(y.len() as int));
    }
}

/// The name of a file is what stands behind its last slash; its extension what
/// stands behind the last dot of that, unless the dot is first or there is none.
pub proof fn law_names_of_files(
    dir: Seq<char>,
    p: &str,
    name: Seq<char>,
    stem: Seq<char>,
    ext: Seq<char>,
    r: Option<String>,
    e: Option<String>,
    s: Option<String>,
)
    requires
        call_ensures(file_name, (p,), r),
        call_ensures(extension, (p,), e),
        call_ensures(file_stem, (p,), s),
        dir.len() > 0,
        name.len() > 0,
        name != "."@,
        name != ".."@,
        forall|i: int| 0 <= i < name.len() ==> #[trigger] name[i] != '/',
        p@ == name || p@ == dir + "/"@ + name,
    ensures
        r is Some && r->Some_0@ == name,
        s is Some,
        (forall|i: int| 0 <= i < name.len() ==> #[trigger] name[i] != '.') ==> e is None
            && s->Some_0@ == name,
        name == stem + "."@ + ext && stem.len() > 0 && (forall|i: int|
            0 <= i < ext.len() ==> #[trigger] ext[i] != '.') ==> e is Some && e->Some_0@ == ext
            && s->Some_0@ == stem,
        name == "."@ + ext && (forall|i: int| 0 <= i < ext.len() ==> #[trigger] ext[i] != '.') ==> e
            is None && s->Some_0@ == name,
{
    reveal_strlit(".");
    reveal_strlit("/");
    assert("."@.len() == 1 && "."@[0] == '.');
    assert("/"@.len() == 1 && "/"@[0] == '/');
    if p@ == name {
        lemma_components_one(name);
    } else {
        lemma_components_push(dir, name);
    }
    assert(components(p@).last() == name);
    if name == "/"@ {
        assert(name[0] == '/');
    }
    assert(file_name_of(p@) == Some(name));
    if forall|i: int| 0 <= i < name.len() ==> #[trigger] name[i] != '.' {
        lemma_no_dots(name);
    }
    if name == stem + "."@ + ext && (forall|i: int|
        0 <= i < ext.len() ==> #[trigger] ext[i] != '.') {
        let k = stem.len() as int;
        assert(name[k] == '.');
        assert forall|i: int| k < i < name.len() implies #[trigger] name[i] != '.' by {
            assert(name[i] == ext[i - k - 1]);
        }
        lemma_dot_at(name, k);
        assert(name.skip(k + 1) =~= ext);
        assert(name.take(k) =~= stem);
    }
    if name == "."@ + ext && (forall|i: int| 0 <= i < ext.len() ==> #[trigger] ext[i] != '.') {
        assert(name[0] == '.');
        assert forall|i: int| 0 < i < name.len() implies #[trigger] name[i] != '.' by {
            assert(name[i] == ext[i - 1]);
        }
        lemma_dot_at(name, 0);
    }
}

proof fn lemma_dot_at(name: Seq<char>, k: int)
    requires
        0 <= k < name.len(),
        name[k] == '.',
        forall|i: int| k < i < name.len() ==> #[trigger] name[i] != '.',
    ensures
        last_dot(name) == Some(k),
    decreases name.len(),
{
    if k < name.len() - 1 {
        let rest = name.drop_last();
        assert(name[name.len() - 1] != '.');
        assert forall|i: int| k < i < rest.len() implies #[trigger] rest[i] != '.' by {
            assert(name[i] != '.');
        }
        lemma_dot_at(rest, k);
    }
}

proof fn lemma_no_dots(name: Seq<char>)
    requires
        forall|i: int| 0 <= i < name.len() ==> #[trigger] name[i] != '.',
    ensures
        last_dot(name) is None,
    decreases name.len(),
{
    if name.len() > 0 {
        let rest = name.drop_last();
        assert(name[name.len() - 1] != '.');
        assert forall|i: int| 0 <= i < rest.len() implies #[trigger] rest[i] != '.' by {
            assert(name[i] != '.');
        }
        lemma_no_dots(rest);
    }
}

/// What a rule sees of a path: what follows the working directory where it lies
/// below it, else the path without the slashes at its beginning.
pub proof fn law_paths_in_rules(
    canon: &str,
    cwd: &str,
    r: String,
    below: bool,
    rest: Option<String>,
    tail: Seq<char>,
)
    requires
        call_ensures(normalize_path, (canon, cwd), r),
        call_ensures(path_under, (canon, cwd), below),
        call_ensures(relative_text, (canon, cwd), rest),
        tail.len() == 0 || tail[0] != '/',
    ensures
        rest is Some <==> below,
        below ==> r@ == rest->Some_0@,
        !below && (canon@ == tail || canon@ == "/"@ + tail) ==> r@ == tail,
{
    reveal_strlit("/");
    assert("/"@.len() == 1 && "/"@[0] == '/');
    if canon@ == "/"@ + tail {
        assert(canon@.skip(1) =~= tail);
        assert(without_leading_slashes(canon@) == without_leading_slashes(canon@.skip(1)));
    }
}

/// The places to ask for where a path leads: the path itself and each directory
/// above it, the nearest first.
pub proof fn law_directories_above(path: &str, base: &str, r: Vec<String>, i: int, full: String, text: &str, normal: String)
    requires
        call_ensures(policy_ancestors, (path, base), r),
        call_ensures(path_join, (base, path), full),
        text@ == full@,
        call_ensures(lexical_normalize, (text,), normal),
        0 <= i < r@.len(),
    ensures
        i == 0 ==> r@[0]@ == normal@,
        i > 0 ==> r@[i]@ == path_text(components(normal@).take(components(normal@).len() - i)),
        r@.len() == components(normal@).len() + if components(normal@).len() > 0 && components(
            normal@,
        )[0] == "/"@ {
            0int
        } else {
            1int
        },
{
    law_normal_text(full@);
    let parts = policy_parts(path@, base@);
    assert(parts == components(normal@));
    assert(parts.take(parts.len() as int) =~= parts);
}

/// Where a path leads for the rules: where the file system says, or, where it
/// knows only a directory above, what it says of that with the rest behind it.
pub proof fn law_where_paths_lead(
    path: &str,
    base: &str,
    answers: &Vec<Option<String>>,
    r: String,
    full: String,
    text: &str,
    normal: String,
)
    requires
        call_ensures(canonicalize_for_policy, (path, base, answers), r),
        call_ensures(path_join, (base, path), full),
        text@ == full@,
        call_ensures(lexical_normalize, (text,), normal),
    ensures
        (forall|i: int| 0 <= i < answers@.len() ==> (#[trigger] answers@[i]) is None) ==> r@
            == normal@,
        answers@.len() > 0 && answers@[0] is Some ==> r@ == answers@[0]->Some_0@,
        forall|k: int|
            0 < k < answers@.len() && (#[trigger] answers@[k]) is Some && (forall|i: int|
                0 <= i < k ==> (#[trigger] answers@[i]) is None) ==> r@ == join_text(
                answers@[k]->Some_0@,
                path_text(components(normal@).skip(components(normal@).len() - k)),
            ),
{
    law_normal_text(full@);
    let parts = policy_parts(path@, base@);
    assert(parts == components(normal@));
    lemma_first_of_answers(answers@);
    if forall|i: int| 0 <= i < answers@.len() ==> (#[trigger] answers@[i]) is None {
        assert(first_answer(answers@) is None) by {
            lemma_first_answer(answers@);
        }
    }
    if answers@.len() > 0 && answers@[0] is Some {
        assert(first_answer(answers@) == Some(0int));
    }
}

proof fn lemma_first_of_answers(answers: Seq<Option<String>>)
    ensures
        forall|k: int|
            0 <= k < answers.len() && (#[trigger] answers[k]) is Some && (forall|i: int|
                0 <= i < k ==> (#[trigger] answers[i]) is None) ==> first_answer(answers) == Some(k),
    decreases answers.len(),
{
    if answers.len() > 0 {
        let rest = answers.drop_last();
        lemma_first_of_answers(rest);
        lemma_first_answer(rest);
        assert forall|k: int|
            0 <= k < answers.len() && (#[trigger] answers[k]) is Some && (forall|i: int|
                0 <= i < k ==> (#[trigger] answers[i]) is None) implies first_answer(answers)
            == Some(k) by {
            if k < rest.len() {
                assert(rest[k] == answers[k]);
                assert forall|i: int| 0 <= i < k implies (#[trigger] rest[i]) is None by {
                    assert(answers[i] is None);
                }
            } else {
                if first_answer(rest) is Some {
                    let i = first_answer(rest)->Some_0;
                    assert(answers[i] is None);
                    assert(rest[i] == answers[i]);
                }
            }
        }
    }
}

} // verus!
