//! Where uploaded files go.
use vstd::prelude::*;

use crate::db::chat_history::Attachment;
use crate::numerals::{decimal, decimal_nat, i64_text, is_digit, lemma_decimal_nat_value, u64_text};
use crate::paths::{
    components, extension, extension_of, file_name, file_name_of, file_stem, file_stem_of, is_named,
    lemma_file_name, lemma_last_dot,
};
use crate::text::{
    contains_item, lemma_pieces_hold_no_separator, lemma_trimmed_is_inside, or_text, split_at_char, str_eq,
    text_or, texts, trim, trimmed,
};

verus! {

/// The directory for the uploads of a session, from the project root.
pub open spec fn upload_dir(session_id: int) -> Seq<char> {
    "data/uploads/"@ + decimal(session_id)
}

pub fn upload_directory(session_id: i64) -> (r: String)
    ensures
        r@ == upload_dir(session_id as int),
{
    let number: String = i64_text(session_id);
    let mut t: String = "data/uploads/".to_owned();
    t.append(number.as_str());
    t
}

/// A client's file name without directories; `file` where nothing is left of
/// it.
pub open spec fn safe_name(raw: Seq<char>) -> Seq<char> {
    let base = trimmed(or_text(file_name_of(raw), ""@));
    if base.len() == 0 || base == "."@ || base == ".."@ {
        "file"@
    } else {
        base
    }
}

/// Reduces a client's file name to a plain one.
pub fn sanitize_filename(raw: &str) -> (r: String)
    ensures
        r@ == safe_name(raw@),
{
    let name: String = text_or(file_name(raw), "");
    let base: String = trim(name.as_str());
    if base.as_str().unicode_len() == 0 || str_eq(base.as_str(), ".") || str_eq(
        base.as_str(),
        "..",
    ) {
        "file".to_owned()
    } else {
        base
    }
}

/// An upload never leaves its directory: its name is not empty, names neither
/// the directory nor the one above, and holds no slash.
pub proof fn law_upload_names_are_plain(raw: Seq<char>)
    ensures
        safe_name(raw).len() > 0,
        safe_name(raw) != "."@,
        safe_name(raw) != ".."@,
        forall|i: int| 0 <= i < safe_name(raw).len() ==> #[trigger] safe_name(raw)[i] != '/',
{
    reveal_strlit("file");
    reveal_strlit(".");
    reveal_strlit("..");
    reveal_strlit("");
    reveal_strlit("/");
    let base = or_text(file_name_of(raw), ""@);
    assert forall|i: int| 0 <= i < base.len() implies #[trigger] base[i] != '/' by {
        let parts = components(raw);
        let pieces = split_at_char(raw, '/');
        let named = pieces.filter(|c: Seq<char>| is_named(c));
        lemma_pieces_hold_no_separator(raw, '/');
        assert(parts.last() == base);
        if named.len() > 0 && base == named.last() {
            let k = named.len() - 1;
            assert(named.contains(named[k]));
            pieces.lemma_filter_contains_rev(|c: Seq<char>| is_named(c), named[k]);
            let at = choose|at: int| 0 <= at < pieces.len() && pieces[at] == named[k];
            assert(pieces[at][i] != '/');
        } else {
            assert(parts.last() == "/"@ || parts.last() == "."@);
        }
    }
    lemma_trimmed_is_inside(base, '/');
    assert("file"@[0] == 'f' && "file"@[1] == 'i' && "file"@[2] == 'l' && "file"@[3] == 'e');
    assert("file"@.len() == 4 && "."@.len() == 1 && ".."@.len() == 2);
}

/// The name to try after `n` others were taken: the name itself first, then
/// with `_1`, `_2` and so on in front of its extension.
pub open spec fn candidate_name(name: Seq<char>, n: nat) -> Seq<char> {
    if n == 0 {
        name
    } else {
        let stem = or_text(file_stem_of(name), name);
        match extension_of(name) {
            Some(ext) => stem + "_"@ + decimal_nat(n) + "."@ + ext,
            None => stem + "_"@ + decimal_nat(n),
        }
    }
}

fn candidate(name: &str, n: u64) -> (r: String)
    ensures
        r@ == candidate_name(name@, n as nat),
{
    if n == 0 {
        return name.to_owned();
    }
    let number: String = u64_text(n);
    let mut t: String = text_or(file_stem(name), name);
    t.append("_");
    t.append(number.as_str());
    match extension(name) {
        Some(ext) => {
            t.append(".");
            t.append(ext.as_str());
            t
        },
        None => t,
    }
}

/// What stands behind the number of a candidate.
pub open spec fn candidate_tail(name: Seq<char>) -> Seq<char> {
    match extension_of(name) {
        Some(ext) => "."@ + ext,
        None => Seq::empty(),
    }
}

proof fn lemma_candidate(name: Seq<char>, n: nat)
    requires
        0 < n,
    ensures
        candidate_name(name, n) == or_text(file_stem_of(name), name) + "_"@ + decimal_nat(n)
            + candidate_tail(name),
        candidate_name(name, n) != name,
{
    reveal_strlit("_");
    reveal_strlit(".");
    let stem = or_text(file_stem_of(name), name);
    let tail = candidate_tail(name);
    let x = candidate_name(name, n);
    assert(x =~= stem + "_"@ + decimal_nat(n) + tail);
    lemma_decimal_nat_value(n);
    lemma_file_name(name);
    match file_name_of(name) {
        None => {},
        Some(f) => {
            lemma_last_dot(f);
            assert(stem.len() + tail.len() == f.len());
            assert forall|j: int| 0 <= j < x.len() implies #[trigger] x[j] != '/' by {
                let k = j - stem.len() - 1;
                if j < stem.len() {
                    assert(x[j] == f[j]);
                } else if 0 <= k < decimal_nat(n).len() {
                    assert(is_digit(decimal_nat(n)[k]));
                } else if k >= 0 {
                    assert(x[j] == f[k - decimal_nat(n).len() + stem.len()]);
                }
            }
        },
    }
}

/// No name is tried twice, so among more names than a directory holds files
/// one is free.
pub proof fn law_candidates_differ(name: Seq<char>, m: nat, n: nat)
    requires
        m != n,
    ensures
        candidate_name(name, m) != candidate_name(name, n),
{
    let stem = or_text(file_stem_of(name), name);
    let a = decimal_nat(m);
    let b = decimal_nat(n);
    lemma_decimal_nat_value(m);
    lemma_decimal_nat_value(n);
    if m > 0 {
        lemma_candidate(name, m);
    }
    if n > 0 {
        lemma_candidate(name, n);
    }
    let tail = candidate_tail(name);
    let x = candidate_name(name, m);
    let y = candidate_name(name, n);
    let k = (stem + "_"@).len() as int;
    if m > 0 && n > 0 && x == y {
        assert(x.len() == k + a.len() + tail.len());
        assert(y.len() == k + b.len() + tail.len());
        assert(x.subrange(k, k + a.len()) =~= a);
        assert(y.subrange(k, k + b.len()) =~= b);
    }
}

/// Only as many candidates as there are names can be taken.
proof fn lemma_taken_candidates(name: Seq<char>, taken: Seq<Seq<char>>, n: nat)
    requires
        forall|m: nat| m < n ==> taken.contains(#[trigger] candidate_name(name, m)),
    ensures
        n <= taken.len(),
{
    let tried = Seq::new(n, |m: int| candidate_name(name, m as nat));
    assert forall|i: int, j: int| 0 <= i < tried.len() && 0 <= j < tried.len() && i
        != j implies tried[i] != tried[j] by {
        law_candidates_differ(name, i as nat, j as nat);
    }
    tried.unique_seq_to_set();
    taken.lemma_cardinality_of_set();
    assert(tried.to_set().subset_of(taken.to_set())) by {
        assert forall|c: Seq<char>| tried.to_set().contains(c) implies taken.to_set().contains(c) by {
            let i = choose|i: int| 0 <= i < tried.len() && tried[i] == c;
            assert(taken.contains(candidate_name(name, i as nat)));
        }
    }
    vstd::set_lib::lemma_len_subset(tried.to_set(), taken.to_set());
}

/// The name under which an upload is saved: the first candidate that is not
/// among the names that are taken.
pub fn unique_target(name: &str, taken: &Vec<String>) -> (r: String)
    ensures
        !texts(taken@).contains(r@),
        exists|n: nat|
            r@ == #[trigger] candidate_name(name@, n) && forall|m: nat|
                m < n ==> texts(taken@).contains(#[trigger] candidate_name(name@, m)),
{
    let ghost all = texts(taken@);
    let total: usize = taken.len();
    let mut n: u64 = 0;
    let mut next: String = candidate(name, 0);
    while contains_item(taken, next.as_str())
        invariant
            all == texts(taken@),
            next@ == candidate_name(name@, n as nat),
            n <= all.len(),
            all.len() == total,
            forall|m: nat| m < n ==> all.contains(#[trigger] candidate_name(name@, m)),
        decreases all.len() - n,
    {
        proof {
            assert forall|m: nat| m < n + 1 implies all.contains(
                #[trigger] candidate_name(name@, m),
            ) by {
                if m == n {
                    assert(all.contains(next@));
                }
            }
            lemma_taken_candidates(name@, all, (n + 1) as nat);
        }
        n = n + 1;
        next = candidate(name, n);
    }
    next
}

/// A saved upload.
pub fn saved_attachment(session_id: i64, name: String, mimetype: Option<String>, size: u64) -> (r:
    Attachment)
    ensures
        r.path@ == upload_dir(session_id as int) + "/"@ + name@,
        r.name@ == name@,
        r.mimetype == mimetype,
        r.filesize == Some(size),
{
    let mut path: String = upload_directory(session_id);
    path.append("/");
    path.append(name.as_str());
    Attachment { path, name, mimetype, filesize: Some(size) }
}

/// Where uploads lie: in a directory of the session's own, under their names.
pub proof fn law_where_uploads_lie(session_id: i64, name: String, mimetype: Option<String>, size: u64, r: Attachment, dir: String)
    requires
        call_ensures(saved_attachment, (session_id, name, mimetype, size), r),
        call_ensures(upload_directory, (session_id,), dir),
    ensures
        dir@ == "data/uploads/"@ + decimal(session_id as int),
        r.path@ == dir@ + "/"@ + name@,
        r.name@ == name@ && r.mimetype == mimetype && r.filesize == Some(size),
{
}

/// The name under which an upload is stored has something in it, leads nowhere
/// else, and is `file` where the given one has no such part.
pub proof fn law_stored_names(raw: &str, r: String, bare: Seq<char>)
    requires
        call_ensures(sanitize_filename, (raw,), r),
        bare == trimmed(
            match file_name_of(raw@) {
                Some(t) => t,
                None => ""@,
            },
        ),
    ensures
        r@.len() > 0,
        r@ != "."@ && r@ != ".."@,
        forall|i: int| 0 <= i < r@.len() ==> #[trigger] r@[i] != '/',
        bare.len() == 0 || bare == "."@ || bare == ".."@ ==> r@ == "file"@,
        bare.len() > 0 && bare != "."@ && bare != ".."@ ==> r@ == bare,
{
    law_upload_names_are_plain(raw@);
}

/// An upload never takes a name that is taken; it keeps its own where that is
/// free, and else gets the first free number behind its stem.
pub proof fn law_names_are_not_taken_twice(name: &str, taken: &Vec<String>, r: String)
    requires
        call_ensures(unique_target, (name, taken), r),
    ensures
        !texts(taken@).contains(r@),
        !texts(taken@).contains(name@) ==> r@ == name@,
        r@ != name@ ==> exists|n: nat|
            n > 0 && r@ == #[trigger] numbered(name@, n) && forall|m: nat|
                0 < m < n ==> texts(taken@).contains(#[trigger] numbered(name@, m)),
{
    let n = choose|n: nat|
        r@ == #[trigger] candidate_name(name@, n) && forall|m: nat|
            m < n ==> texts(taken@).contains(#[trigger] candidate_name(name@, m));
    if n > 0 {
        assert(candidate_name(name@, 0) == name@);
        assert(texts(taken@).contains(candidate_name(name@, 0)));
        lemma_numbered(name@, n);
        assert forall|m: nat| 0 < m < n implies texts(taken@).contains(
            #[trigger] numbered(name@, m),
        ) by {
            lemma_numbered(name@, m);
            assert(texts(taken@).contains(candidate_name(name@, m)));
        }
    }
}

proof fn lemma_numbered(name: Seq<char>, n: nat)
    requires
        n > 0,
    ensures
        numbered(name, n) == candidate_name(name, n),
{
    assert(numbered(name, n) =~= candidate_name(name, n));
}

/// A name with a number between its stem and its extension.
pub open spec fn numbered(name: Seq<char>, n: nat) -> Seq<char> {
    (match file_stem_of(name) {
        Some(stem) => stem,
        None => name,
    }) + "_"@ + decimal_nat(n) + (match extension_of(name) {
        Some(ext) => "."@ + ext,
        None => Seq::empty(),
    })
}

} // verus!
