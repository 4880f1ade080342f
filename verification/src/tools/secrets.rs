//! Storing and listing secrets.
use vstd::prelude::*;

use crate::json::{
    array_of_texts, json_pretty, stored_json, text_array, write_pretty, Json, JsonView,
};
use crate::patterns::{glob_match, matches_glob};
use crate::text::{lemma_filter_all, lemma_filter_last, opt_text, or_text, text_or, texts};
use crate::tools::ToolCategory;

verus! {

/// What a `set_secret` call does to the store.
#[derive(Debug)]
pub enum SecretChange {
    Store(String, String),
    Delete(String),
}

/// The tool that stores or deletes a secret.
pub struct SetSecret;

impl SetSecret {
    pub fn name(&self) -> (r: &'static str)
        ensures
            r@ == "set_secret"@,
    {
        "set_secret"
    }

    pub fn category(&self) -> (r: ToolCategory)
        ensures
            r == ToolCategory::Config,
    {
        ToolCategory::Config
    }

    /// The label of a call.
    pub fn describe(&self, args: &Json) -> (r: String)
        ensures
            r@ == "set secret "@ + or_text(args@.field("key"@).as_text(), "?"@),
    {
        let key: String = text_or(args.text_field("key"), "?");
        let mut t: String = "set secret ".to_owned();
        t.append(key.as_str());
        t
    }

    /// Reads a call. Without a value, or with an empty one, the key is deleted.
    pub fn request(&self, args: &Json) -> (r: Result<SecretChange, String>)
        ensures
            match args@.field("key"@).as_text() {
                None => r matches Err(e) && e@ == "set_secret: missing required argument `key`"@,
                Some(key) => match args@.field("value"@).as_text() {
                    Some(value) if value.len() > 0 => r matches Ok(SecretChange::Store(k, v)) && k@
                        == key && v@ == value,
                    _ => r matches Ok(SecretChange::Delete(k)) && k@ == key,
                },
            },
    {
        let key: String = match args.text_field("key") {
            Some(k) => k,
            None => {
                return Err("set_secret: missing required argument `key`".to_owned());
            },
        };
        match args.text_field("value") {
            Some(v) => if v.as_str().unicode_len() > 0 {
                Ok(SecretChange::Store(key, v))
            } else {
                Ok(SecretChange::Delete(key))
            },
            None => Ok(SecretChange::Delete(key)),
        }
    }

    /// The answer of a call that was carried out.
    pub fn reply(&self, change: &SecretChange) -> (r: String)
        ensures
            r@ == match *change {
                SecretChange::Store(k, _) => "Secret '"@ + k@ + "' set."@,
                SecretChange::Delete(k) => "Secret '"@ + k@ + "' deleted."@,
            },
    {
        let mut t: String = "Secret '".to_owned();
        match change {
            SecretChange::Store(k, _) => {
                t.append(k.as_str());
                t.append("' set.");
            },
            SecretChange::Delete(k) => {
                t.append(k.as_str());
                t.append("' deleted.");
            },
        }
        t
    }
}

/// Whether a key fits a pattern.
pub open spec fn fits_pattern(pattern: Option<Seq<char>>) -> spec_fn(Seq<char>) -> bool {
    |k: Seq<char>|
        match pattern {
            None => true,
            Some(p) => matches_glob(p, k),
        }
}

/// The tool that lists the names of the stored secrets.
pub struct ListSecrets;

impl ListSecrets {
    pub fn name(&self) -> (r: &'static str)
        ensures
            r@ == "list_secrets"@,
    {
        "list_secrets"
    }

    pub fn category(&self) -> (r: ToolCategory)
        ensures
            r == ToolCategory::Config,
    {
        ToolCategory::Config
    }

    /// The label of a call.
    pub fn describe(&self, args: &Json) -> (r: String)
        ensures
            r@ == match args@.field("pattern"@).as_text() {
                Some(p) => "list secrets ("@ + p + ")"@,
                None => "list secrets"@,
            },
    {
        match args.text_field("pattern") {
            Some(p) => {
                let mut t: String = "list secrets (".to_owned();
                t.append(p.as_str());
                t.append(")");
                t
            },
            None => "list secrets".to_owned(),
        }
    }

    /// The keys that a call asks for, in order.
    pub fn filter(&self, args: &Json, keys: &Vec<String>) -> (r: Vec<String>)
        ensures
            texts(r@) == texts(keys@).filter(fits_pattern(args@.field("pattern"@).as_text())),
    {
        let pattern: Option<String> = args.text_field("pattern");
        let ghost all = texts(keys@);
        let ghost pred = fits_pattern(opt_text(pattern));
        let mut out: Vec<String> = Vec::new();
        let mut i: usize = 0;
        assert(texts(out@) =~= all.take(0).filter(pred)) by {
            reveal(Seq::filter);
        }
        while i < keys.len()
            invariant
                i <= keys@.len(),
                all == texts(keys@),
                pred == fits_pattern(opt_text(pattern)),
                texts(out@) == all.take(i as int).filter(pred),
            decreases keys@.len() - i,
        {
            let ghost had = texts(out@);
            proof {
                assert(all.take(i + 1).drop_last() =~= all.take(i as int));
                lemma_filter_last(all.take(i + 1), pred);
            }
            let kept: bool = match &pattern {
                None => true,
                Some(p) => glob_match(p.as_str(), keys[i].as_str()),
            };
            if kept {
                out.push(keys[i].clone());
                assert(texts(out@) =~= had.push(all[i as int]));
            }
            i = i + 1;
        }
        assert(all.take(all.len() as int) =~= all);
        out
    }

    /// Lists the keys among those stored that a call asks for.
    pub fn execute(&self, args: &Json, keys: &Vec<String>) -> (r: String)
        ensures
            r@ == json_pretty(
                stored_json(
                    text_array(
                        texts(keys@).filter(fits_pattern(args@.field("pattern"@).as_text())),
                    ),
                ),
            ),
    {
        let kept: Vec<String> = self.filter(args, keys);
        let j: Json = array_of_texts(&kept);
        write_pretty(&j)
    }
}

/// A secret with a value is stored, one without is deleted; a key is needed.
pub proof fn law_secrets_are_set(tool: &SetSecret, args: &Json, r: Result<SecretChange, String>, change: &SecretChange, told: String)
    requires
        call_ensures(SetSecret::request, (tool, args), r),
        call_ensures(SetSecret::reply, (tool, change), told),
    ensures
        r is Ok <==> args@.field("key"@) is Text,
        r matches Ok(SecretChange::Store(k, v)) ==> args@.field("key"@) == JsonView::Text(k@)
            && args@.field("value"@) == JsonView::Text(v@) && v@.len() > 0,
        r matches Ok(SecretChange::Delete(k)) ==> args@.field("key"@) == JsonView::Text(k@) && !(
        args@.field("value"@) is Text && args@.field("value"@)->Text_0.len() > 0),
        r matches Err(e) ==> e@ == "set_secret: missing required argument `key`"@,
        change matches SecretChange::Store(k, _) ==> told@ == "Secret '"@ + k@ + "' set."@,
        change matches SecretChange::Delete(k) ==> told@ == "Secret '"@ + k@ + "' deleted."@,
{
}

/// The secrets listed are the keys that match the pattern, or all of them where
/// there is none; never a value.
pub proof fn law_secrets_are_listed(
    tool: &ListSecrets,
    args: &Json,
    keys: &Vec<String>,
    r: Vec<String>,
    key: &str,
    pattern: &str,
    fits: bool,
)
    requires
        call_ensures(ListSecrets::filter, (tool, args, keys), r),
        call_ensures(glob_match, (pattern, key), fits),
        args@.field("pattern"@) is Text ==> args@.field("pattern"@) == JsonView::Text(pattern@),
    ensures
        texts(r@).contains(key@) <==> texts(keys@).contains(key@) && (!(args@.field(
            "pattern"@,
        ) is Text) || fits),
        !(args@.field("pattern"@) is Text) ==> texts(r@) == texts(keys@),
{
    broadcast use vstd::seq_lib::group_filter_ensures;

    let keep = fits_pattern(args@.field("pattern"@).as_text());
    let all = texts(keys@);
    let kept = all.filter(keep);
    if kept.contains(key@) {
        all.lemma_filter_contains_rev(keep, key@);
        let k = kept.index_of(key@);
        assert(keep(kept[k]));
    }
    if all.contains(key@) && keep(key@) {
        assert(kept.contains(key@));
    }
    if !(args@.field("pattern"@) is Text) {
        lemma_filter_all(all, keep);
    }
}

/// What is told of the secrets is the list of their keys.
pub proof fn law_secrets_are_told(tool: &ListSecrets, args: &Json, keys: &Vec<String>, r: String, kept: Vec<String>, list: Json, written: String)
    requires
        call_ensures(ListSecrets::execute, (tool, args, keys), r),
        call_ensures(ListSecrets::filter, (tool, args, keys), kept),
        call_ensures(array_of_texts, (&kept,), list),
        call_ensures(write_pretty, (&list,), written),
    ensures
        r@ == written@,
{
}

/// How the tools on secrets are named and described.
pub proof fn law_described_secrets(a: &SetSecret, b: &ListSecrets, args: &Json, x: String, y: String, name: &'static str, other: &'static str)
    requires
        call_ensures(SetSecret::describe, (a, args), x),
        call_ensures(ListSecrets::describe, (b, args), y),
        call_ensures(SetSecret::name, (a,), name),
        call_ensures(ListSecrets::name, (b,), other),
    ensures
        x@ == "set secret "@ + (match args@.field("key"@) {
            JsonView::Text(t) => t,
            _ => "?"@,
        }),
        y@ == match args@.field("pattern"@) {
            JsonView::Text(t) => "list secrets ("@ + t + ")"@,
            _ => "list secrets"@,
        },
        name@ == "set_secret"@ && other@ == "list_secrets"@,
{
}

} // verus!
