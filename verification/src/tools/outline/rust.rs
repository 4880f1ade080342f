//! The outline of a Rust source file.
use quote::ToTokens;
use syn::spanned::Spanned;
use vstd::prelude::*;

use crate::numerals::{repeat, repeated};
use crate::text::{opt_text, replace, replaced, trim, trimmed};
use crate::tools::outline::lines::{entry, entry_of, heading, heading_of};

verus! {

/// The source files of `syn`.
#[verifier::external_type_specification]
#[verifier::external_body]
pub struct ExFile(syn::File);

/// The kinds of items that are shown.
#[derive(Debug, Clone, Copy, PartialEq, Eq, Structural)]
pub enum ItemKind {
    Fn,
    Struct,
    Enum,
    Trait,
    Impl,
    Type,
    Const,
    Mod,
    /// Anything else.
    Other,
}

/// A member of an item.
#[derive(Debug)]
pub struct RustMember {
    /// Whether it is shown: a function, or a variant of an enum.
    pub shown: bool,
    pub start: usize,
    pub end: usize,
    pub vis: String,
    pub text: String,
}

/// An item of a source file. Its tokens are as `quote` writes them.
#[derive(Debug)]
pub struct RustItem {
    pub kind: ItemKind,
    pub start: usize,
    pub end: usize,
    pub vis: String,
    pub name: String,
    /// The signature, the generics or the type.
    pub detail: String,
    /// The trait that an implementation is for.
    pub trait_name: Option<String>,
    /// Whether a module has its content here.
    pub inline: bool,
    pub members: Vec<RustMember>,
}

/// What a member holds.
pub struct MemberView {
    pub shown: bool,
    pub start: int,
    pub end: int,
    pub vis: Seq<char>,
    pub text: Seq<char>,
}

/// What an item holds.
pub struct ItemView {
    pub kind: ItemKind,
    pub start: int,
    pub end: int,
    pub vis: Seq<char>,
    pub name: Seq<char>,
    pub detail: Seq<char>,
    pub trait_name: Option<Seq<char>>,
    pub inline: bool,
    pub members: Seq<MemberView>,
}

impl View for RustMember {
    type V = MemberView;

    open spec fn view(&self) -> MemberView {
        MemberView {
            shown: self.shown,
            start: self.start as int,
            end: self.end as int,
            vis: self.vis@,
            text: self.text@,
        }
    }
}

pub open spec fn member_views(v: Seq<RustMember>) -> Seq<MemberView> {
    v.map_values(|m: RustMember| m@)
}

impl View for RustItem {
    type V = ItemView;

    open spec fn view(&self) -> ItemView {
        ItemView {
            kind: self.kind,
            start: self.start as int,
            end: self.end as int,
            vis: self.vis@,
            name: self.name@,
            detail: self.detail@,
            trait_name: opt_text(self.trait_name),
            inline: self.inline,
            members: member_views(self.members@),
        }
    }
}

/// The items of a file of `syn`.
pub uninterp spec fn file_items(f: syn::File) -> Seq<ItemView>;

/// The items that `syn` finds in a source, or what it says is wrong with the
/// source.
pub uninterp spec fn rust_items(source: Seq<char>) -> Result<Seq<ItemView>, Seq<char>>;

/// `syn::parse_file`: what it finds, or the text that the error's `Display`
/// writes, depends on the source alone.
#[verifier::external_body]
fn parse_rust(source: &str) -> (r: Result<syn::File, String>)
    ensures
        match r {
            Ok(f) => rust_items(source@) == Ok::<Seq<ItemView>, Seq<char>>(file_items(f)),
            Err(e) => rust_items(source@) == Err::<Seq<ItemView>, Seq<char>>(e@),
        },
{
    syn::parse_file(source).map_err(|e| e.to_string())
}

/// The number of items of a `syn::File`.
#[verifier::external_body]
fn item_count(f: &syn::File) -> (r: usize)
    ensures
        r == file_items(*f).len(),
{
    f.items.len()
}

/// The variant of an item of a `syn::File`.
#[verifier::external_body]
fn item_kind(f: &syn::File, i: usize) -> (r: ItemKind)
    requires
        i < file_items(*f).len(),
    ensures
        r == file_items(*f)[i as int].kind,
{
    match &f.items[i] {
        syn::Item::Fn(_) => ItemKind::Fn,
        syn::Item::Struct(_) => ItemKind::Struct,
        syn::Item::Enum(_) => ItemKind::Enum,
        syn::Item::Trait(_) => ItemKind::Trait,
        syn::Item::Impl(_) => ItemKind::Impl,
        syn::Item::Type(_) => ItemKind::Type,
        syn::Item::Const(_) => ItemKind::Const,
        syn::Item::Mod(_) => ItemKind::Mod,
        _ => ItemKind::Other,
    }
}

/// The tokens and lines of a function; `None` for any other item.
#[verifier::external_body]
fn fn_item(f: &syn::File, i: usize) -> (r: Option<RustItem>)
    requires
        i < file_items(*f).len(),
    ensures
        match r {
            Some(item) => item@ == file_items(*f)[i as int],
            None => file_items(*f)[i as int].kind != ItemKind::Fn,
        },
{
    let syn::Item::Fn(x) = &f.items[i] else { return None };
    Some(RustItem {
        kind: ItemKind::Fn, start: x.sig.fn_token.span().start().line, end: x.span().end().line,
        vis: x.vis.to_token_stream().to_string(), name: x.sig.ident.to_string(),
        detail: x.sig.to_token_stream().to_string(), trait_name: None, inline: true, members: Vec::new(),
    })
}

/// The tokens and lines of a struct; `None` for any other item.
#[verifier::external_body]
fn struct_item(f: &syn::File, i: usize) -> (r: Option<RustItem>)
    requires
        i < file_items(*f).len(),
    ensures
        match r {
            Some(item) => item@ == file_items(*f)[i as int],
            None => file_items(*f)[i as int].kind != ItemKind::Struct,
        },
{
    let syn::Item::Struct(x) = &f.items[i] else { return None };
    Some(RustItem {
        kind: ItemKind::Struct, start: x.struct_token.span().start().line, end: x.span().end().line,
        vis: x.vis.to_token_stream().to_string(), name: x.ident.to_string(),
        detail: x.generics.to_token_stream().to_string(), trait_name: None, inline: true, members: Vec::new(),
    })
}

/// The tokens and lines of an enum and its variants; `None` for any other item.
#[verifier::external_body]
fn enum_item(f: &syn::File, i: usize) -> (r: Option<RustItem>)
    requires
        i < file_items(*f).len(),
    ensures
        match r {
            Some(item) => item@ == file_items(*f)[i as int],
            None => file_items(*f)[i as int].kind != ItemKind::Enum,
        },
{
    let syn::Item::Enum(x) = &f.items[i] else { return None };
    Some(RustItem {
        kind: ItemKind::Enum, start: x.enum_token.span().start().line, end: x.span().end().line,
        vis: x.vis.to_token_stream().to_string(), name: x.ident.to_string(),
        detail: x.generics.to_token_stream().to_string(), trait_name: None, inline: true,
        members: x.variants.iter().map(|v| RustMember {
            shown: true, start: v.ident.span().start().line, end: v.span().end().line,
            vis: String::new(), text: v.ident.to_string(),
        }).collect(),
    })
}

/// The tokens and lines of a trait, without its items; `None` for any other
/// item.
#[verifier::external_body]
fn trait_head(f: &syn::File, i: usize) -> (r: Option<RustItem>)
    requires
        i < file_items(*f).len(),
    ensures
        match r {
            Some(item) => item@ == (ItemView {
                members: Seq::empty(),
                ..file_items(*f)[i as int]
            }),
            None => file_items(*f)[i as int].kind != ItemKind::Trait,
        },
{
    let syn::Item::Trait(x) = &f.items[i] else { return None };
    Some(RustItem {
        kind: ItemKind::Trait, start: x.trait_token.span().start().line, end: x.span().end().line,
        vis: x.vis.to_token_stream().to_string(), name: x.ident.to_string(),
        detail: x.generics.to_token_stream().to_string(), trait_name: None, inline: true, members: Vec::new(),
    })
}

/// The tokens and lines of the items of a trait; `None` for any other item.
#[verifier::external_body]
fn trait_members(f: &syn::File, i: usize) -> (r: Option<Vec<RustMember>>)
    requires
        i < file_items(*f).len(),
    ensures
        match r {
            Some(v) => member_views(v@) == file_items(*f)[i as int].members,
            None => file_items(*f)[i as int].kind != ItemKind::Trait,
        },
{
    let syn::Item::Trait(x) = &f.items[i] else { return None };
    Some(x.items.iter().map(|m| match m {
        syn::TraitItem::Fn(m) => RustMember { shown: true, start: m.sig.fn_token.span().start().line,
            end: m.span().end().line, vis: String::new(), text: m.sig.to_token_stream().to_string() },
        _ => RustMember { shown: false, start: 0, end: 0, vis: String::new(), text: String::new() },
    }).collect())
}

/// The tokens and lines of an implementation, without its items; `None` for
/// any other item.
#[verifier::external_body]
fn impl_head(f: &syn::File, i: usize) -> (r: Option<RustItem>)
    requires
        i < file_items(*f).len(),
    ensures
        match r {
            Some(item) => item@ == (ItemView {
                members: Seq::empty(),
                ..file_items(*f)[i as int]
            }),
            None => file_items(*f)[i as int].kind != ItemKind::Impl,
        },
{
    let syn::Item::Impl(x) = &f.items[i] else { return None };
    Some(RustItem {
        kind: ItemKind::Impl, start: x.impl_token.span().start().line, end: x.span().end().line, vis: String::new(),
        name: String::new(), detail: x.self_ty.to_token_stream().to_string(),
        trait_name: x.trait_.as_ref().map(|t| t.1.to_token_stream().to_string()), inline: true, members: Vec::new(),
    })
}

/// The tokens and lines of the items of an implementation; `None` for any
/// other item.
#[verifier::external_body]
fn impl_members(f: &syn::File, i: usize) -> (r: Option<Vec<RustMember>>)
    requires
        i < file_items(*f).len(),
    ensures
        match r {
            Some(v) => member_views(v@) == file_items(*f)[i as int].members,
            None => file_items(*f)[i as int].kind != ItemKind::Impl,
        },
{
    let syn::Item::Impl(x) = &f.items[i] else { return None };
    Some(x.items.iter().map(|m| match m {
        syn::ImplItem::Fn(m) => RustMember { shown: true, start: m.sig.fn_token.span().start().line,
            end: m.span().end().line, vis: m.vis.to_token_stream().to_string(), text: m.sig.to_token_stream().to_string() },
        _ => RustMember { shown: false, start: 0, end: 0, vis: String::new(), text: String::new() },
    }).collect())
}

/// An item together with its members, where there is one.
fn with_members(head: Option<RustItem>, members: Option<Vec<RustMember>>) -> (r: Option<RustItem>)
    ensures
        match (head, members) {
            (Some(h), Some(m)) => r matches Some(item) && item@ == (ItemView {
                members: member_views(m@),
                ..h@
            }),
            _ => r is None,
        },
{
    match (head, members) {
        (Some(h), Some(m)) => {
            let mut item: RustItem = h;
            item.members = m;
            Some(item)
        },
        _ => None,
    }
}

/// The tokens and lines of a type alias; `None` for any other item.
#[verifier::external_body]
fn type_item(f: &syn::File, i: usize) -> (r: Option<RustItem>)
    requires
        i < file_items(*f).len(),
    ensures
        match r {
            Some(item) => item@ == file_items(*f)[i as int],
            None => file_items(*f)[i as int].kind != ItemKind::Type,
        },
{
    let syn::Item::Type(x) = &f.items[i] else { return None };
    Some(RustItem {
        kind: ItemKind::Type, start: x.type_token.span().start().line, end: x.span().end().line,
        vis: x.vis.to_token_stream().to_string(), name: x.ident.to_string(),
        detail: x.ty.to_token_stream().to_string(), trait_name: None, inline: true, members: Vec::new(),
    })
}

/// The tokens and lines of a constant; `None` for any other item.
#[verifier::external_body]
fn const_item(f: &syn::File, i: usize) -> (r: Option<RustItem>)
    requires
        i < file_items(*f).len(),
    ensures
        match r {
            Some(item) => item@ == file_items(*f)[i as int],
            None => file_items(*f)[i as int].kind != ItemKind::Const,
        },
{
    let syn::Item::Const(x) = &f.items[i] else { return None };
    Some(RustItem {
        kind: ItemKind::Const, start: x.const_token.span().start().line, end: x.span().end().line,
        vis: x.vis.to_token_stream().to_string(), name: x.ident.to_string(),
        detail: x.ty.to_token_stream().to_string(), trait_name: None, inline: true, members: Vec::new(),
    })
}

/// The tokens and lines of a module; `None` for any other item.
#[verifier::external_body]
fn mod_item(f: &syn::File, i: usize) -> (r: Option<RustItem>)
    requires
        i < file_items(*f).len(),
    ensures
        match r {
            Some(item) => item@ == file_items(*f)[i as int],
            None => file_items(*f)[i as int].kind != ItemKind::Mod,
        },
{
    let syn::Item::Mod(x) = &f.items[i] else { return None };
    Some(RustItem {
        kind: ItemKind::Mod, start: x.mod_token.span().start().line, end: x.span().end().line,
        vis: x.vis.to_token_stream().to_string(), name: x.ident.to_string(), detail: String::new(),
        trait_name: None, inline: x.content.is_some(), members: Vec::new(),
    })
}

/// An item, as far as it is of a kind that is shown.
fn item_at(f: &syn::File, i: usize) -> (r: Option<RustItem>)
    requires
        i < file_items(*f).len(),
    ensures
        match r {
            Some(item) => item@ == file_items(*f)[i as int],
            None => file_items(*f)[i as int].kind == ItemKind::Other,
        },
{
    match item_kind(f, i) {
        ItemKind::Fn => fn_item(f, i),
        ItemKind::Struct => struct_item(f, i),
        ItemKind::Enum => enum_item(f, i),
        ItemKind::Trait => with_members(trait_head(f, i), trait_members(f, i)),
        ItemKind::Impl => with_members(impl_head(f, i), impl_members(f, i)),
        ItemKind::Type => type_item(f, i),
        ItemKind::Const => const_item(f, i),
        ItemKind::Mod => mod_item(f, i),
        ItemKind::Other => None,
    }
}

/// Tokens with the spaces taken out that source text does not have.
pub open spec fn normalized_tokens(s: Seq<char>) -> Seq<char> {
    let s = replaced(s, " :: "@, "::"@);
    let s = replaced(s, "& '"@, "&'"@);
    let s = replaced(s, " ' "@, "'"@);
    let s = replaced(s, "< "@, "<"@);
    let s = replaced(s, " >"@, ">"@);
    let s = replaced(s, "( "@, "("@);
    let s = replaced(s, " )"@, ")"@);
    replaced(s, ", )"@, ")"@)
}

/// Takes the spaces out of tokens that source text does not have.
pub fn normalize(s: &str) -> (r: String)
    ensures
        r@ == normalized_tokens(s@),
{
    proof {
        reveal_strlit(" :: ");
        reveal_strlit("& '");
        reveal_strlit(" ' ");
        reveal_strlit("< ");
        reveal_strlit(" >");
        reveal_strlit("( ");
        reveal_strlit(" )");
        reveal_strlit(", )");
    }
    let s: String = replace(s, " :: ", "::");
    let s: String = replace(s.as_str(), "& '", "&'");
    let s: String = replace(s.as_str(), " ' ", "'");
    let s: String = replace(s.as_str(), "< ", "<");
    let s: String = replace(s.as_str(), " >", ">");
    let s: String = replace(s.as_str(), "( ", "(");
    let s: String = replace(s.as_str(), " )", ")");
    replace(s.as_str(), ", )", ")")
}

/// An entry at a depth: the text without the whitespace around it.
pub open spec fn line_of(start: int, end: int, text: Seq<char>, depth: nat) -> Seq<char> {
    entry_of(start as nat, end as nat, repeated("  "@, depth) + trimmed(text))
}

/// An entry at a depth.
pub fn fmt_line(start: usize, end: usize, s: &str, indent: usize) -> (r: String)
    ensures
        r@ == line_of(start as int, end as int, s@, indent as nat),
{
    let mut text: String = repeat("  ", indent);
    let t: String = trim(s);
    text.append(t.as_str());
    entry(start as u64, end as u64, text.as_str())
}

/// The heading line of an item.
pub open spec fn item_text(item: ItemView) -> Seq<char> {
    let vis = normalized_tokens(item.vis);
    let detail = normalized_tokens(item.detail);
    match item.kind {
        ItemKind::Fn => vis + detail,
        ItemKind::Struct => vis + "struct "@ + item.name + detail,
        ItemKind::Enum => vis + "enum "@ + item.name + detail,
        ItemKind::Trait => vis + "trait "@ + item.name + detail,
        ItemKind::Impl => match item.trait_name {
            Some(t) => "impl "@ + normalized_tokens(t) + " for "@ + detail,
            None => "impl "@ + detail,
        },
        ItemKind::Type => vis + "type "@ + item.name + " = "@ + detail,
        ItemKind::Const => vis + "const "@ + item.name + ": "@ + detail,
        ItemKind::Mod => vis + "mod "@ + item.name,
        ItemKind::Other => Seq::empty(),
    }
}

/// The text of a shown member: a variant by its name, a function by its
/// signature.
pub open spec fn member_text(kind: ItemKind, m: MemberView) -> Seq<char> {
    if kind == ItemKind::Enum {
        m.text
    } else {
        normalized_tokens(m.vis) + normalized_tokens(m.text)
    }
}

/// The entries for the first `n` members of an item.
pub open spec fn member_lines(kind: ItemKind, members: Seq<MemberView>, n: int) -> Seq<char>
    decreases n,
{
    if n <= 0 {
        Seq::empty()
    } else if members[n - 1].shown {
        member_lines(kind, members, n - 1) + line_of(
            members[n - 1].start,
            members[n - 1].end,
            member_text(kind, members[n - 1]),
            1,
        )
    } else {
        member_lines(kind, members, n - 1)
    }
}

/// Whether an item is shown: a module only where its content is here.
pub open spec fn is_shown(item: ItemView) -> bool {
    item.kind != ItemKind::Other && (item.kind == ItemKind::Mod ==> item.inline)
}

/// The entries for an item and its members.
pub open spec fn item_lines(item: ItemView) -> Seq<char> {
    if is_shown(item) {
        line_of(item.start, item.end, item_text(item), 0) + member_lines(
            item.kind,
            item.members,
            item.members.len() as int,
        )
    } else {
        Seq::empty()
    }
}

/// The entries for the first `n` items of a file.
pub open spec fn items_lines(items: Seq<ItemView>, n: int) -> Seq<char>
    decreases n,
{
    if n <= 0 {
        Seq::empty()
    } else {
        items_lines(items, n - 1) + item_lines(items[n - 1])
    }
}

fn heading_text(item: &RustItem) -> (r: String)
    ensures
        r@ == item_text(item@),
{
    let detail: String = normalize(item.detail.as_str());
    if item.kind == ItemKind::Impl {
        let mut t: String = "impl ".to_owned();
        match &item.trait_name {
            Some(n) => {
                let n: String = normalize(n.as_str());
                t.append(n.as_str());
                t.append(" for ");
            },
            None => {},
        }
        t.append(detail.as_str());
        return t;
    }
    let mut t: String = normalize(item.vis.as_str());
    match item.kind {
        ItemKind::Fn => {
            t.append(detail.as_str());
        },
        ItemKind::Struct => {
            t.append("struct ");
            t.append(item.name.as_str());
            t.append(detail.as_str());
        },
        ItemKind::Enum => {
            t.append("enum ");
            t.append(item.name.as_str());
            t.append(detail.as_str());
        },
        ItemKind::Trait => {
            t.append("trait ");
            t.append(item.name.as_str());
            t.append(detail.as_str());
        },
        ItemKind::Type => {
            t.append("type ");
            t.append(item.name.as_str());
            t.append(" = ");
            t.append(detail.as_str());
        },
        ItemKind::Const => {
            t.append("const ");
            t.append(item.name.as_str());
            t.append(": ");
            t.append(detail.as_str());
        },
        ItemKind::Mod => {
            t.append("mod ");
            t.append(item.name.as_str());
        },
        _ => {
            return String::new();
        },
    }
    t
}

/// The entries for an item and its members.
pub fn outline_item(item: &RustItem) -> (r: String)
    ensures
        r@ == item_lines(item@),
{
    if item.kind == ItemKind::Other || (item.kind == ItemKind::Mod && !item.inline) {
        return String::new();
    }
    let ghost members = item@.members;
    let text: String = heading_text(item);
    let mut lines: String = String::new();
    let mut i: usize = 0;
    assert(lines@ =~= member_lines(item.kind, members, 0));
    while i < item.members.len()
        invariant
            i <= item.members@.len(),
            members == item@.members,
            members.len() == item.members@.len(),
            lines@ == member_lines(item.kind, members, i as int),
        decreases item.members@.len() - i,
    {
        let m: &RustMember = &item.members[i];
        assert(members[i as int] == m@);
        if m.shown {
            let text: String = if item.kind == ItemKind::Enum {
                m.text.clone()
            } else {
                let mut t: String = normalize(m.vis.as_str());
                let sig: String = normalize(m.text.as_str());
                t.append(sig.as_str());
                t
            };
            let line: String = fmt_line(m.start, m.end, text.as_str(), 1);
            lines.append(line.as_str());
        }
        i = i + 1;
    }
    let mut out: String = fmt_line(item.start, item.end, text.as_str(), 0);
    out.append(lines.as_str());
    out
}

/// The outline of a Rust source, or why there is none.
pub open spec fn rust_outline_of(path: Seq<char>, source: Seq<char>) -> Result<
    Seq<char>,
    Seq<char>,
> {
    match rust_items(source) {
        Ok(items) => Ok(heading_of("Rust"@, path) + items_lines(items, items.len() as int)),
        Err(why) => Err("Parse error in "@ + path + ": "@ + why),
    }
}

/// The outline of a Rust source: its items with their members. A source that
/// cannot be parsed is an error that names the file.
pub fn outline_rust(path: &str, source: &str) -> (r: Result<String, String>)
    ensures
        match r {
            Ok(t) => rust_outline_of(path@, source@) == Ok::<Seq<char>, Seq<char>>(t@),
            Err(e) => rust_outline_of(path@, source@) == Err::<Seq<char>, Seq<char>>(e@),
        },
{
    match parse_rust(source) {
        Err(why) => {
            let mut e: String = "Parse error in ".to_owned();
            e.append(path);
            e.append(": ");
            e.append(why.as_str());
            Err(e)
        },
        Ok(file) => {
            let ghost items = file_items(file);
            let n: usize = item_count(&file);
            let mut body: String = String::new();
            let mut i: usize = 0;
            assert(body@ =~= items_lines(items, 0));
            while i < n
                invariant
                    i <= n,
                    n == items.len(),
                    items == file_items(file),
                    body@ == items_lines(items, i as int),
                decreases n - i,
            {
                match item_at(&file, i) {
                    Some(item) => {
                        let lines: String = outline_item(&item);
                        body.append(lines.as_str());
                    },
                    None => {
                        assert(body@ + Seq::<char>::empty() =~= body@);
                    },
                }
                i = i + 1;
            }
            let mut out: String = heading("Rust", path);
            out.append(body.as_str());
            Ok(out)
        },
    }
}

/// A line of an outline: its text without the whitespace around it, two columns
/// further in for each level.
pub proof fn law_lines_are_indented(start: usize, end: usize, s: &str, indent: usize, r: String, bare: String, lead: String, lead_text: &str, two: &str, text: &str, shown: String)
    requires
        call_ensures(fmt_line, (start, end, s, indent), r),
        call_ensures(trim, (s,), bare),
        call_ensures(repeat, (two, indent), lead),
        two@ == "  "@,
        text@ == lead@ + bare@,
        call_ensures(entry, (start as u64, end as u64, text), shown),
    ensures
        r@ == shown@,
{
}

/// How tokens are written: without the spaces that only part them.
pub proof fn law_tokens_are_tidied(s: &str, r: String, a: Seq<String>, t: Seq<&str>, from: Seq<&str>, to: Seq<&str>)
    requires
        call_ensures(normalize, (s,), r),
        a.len() == 8,
        t.len() == 8,
        from.len() == 8,
        to.len() == 8,
        t[0]@ == s@,
        forall|i: int| 0 < i < 8 ==> (#[trigger] t[i])@ == a[i - 1]@,
        forall|i: int|
            0 <= i < 8 ==> call_ensures(replace, (t[i], from[i], to[i]), #[trigger] a[i]),
        from[0]@ == " :: "@ && to[0]@ == "::"@,
        from[1]@ == "& '"@ && to[1]@ == "&'"@,
        from[2]@ == " ' "@ && to[2]@ == "'"@,
        from[3]@ == "< "@ && to[3]@ == "<"@,
        from[4]@ == " >"@ && to[4]@ == ">"@,
        from[5]@ == "( "@ && to[5]@ == "("@,
        from[6]@ == " )"@ && to[6]@ == ")"@,
        from[7]@ == ", )"@ && to[7]@ == ")"@,
    ensures
        r@ == a[7]@,
{
    assert(a[0]@ == replaced(s@, " :: "@, "::"@));
    assert(t[1]@ == a[0]@ && a[1]@ == replaced(a[0]@, "& '"@, "&'"@));
    assert(t[2]@ == a[1]@ && a[2]@ == replaced(a[1]@, " ' "@, "'"@));
    assert(t[3]@ == a[2]@ && a[3]@ == replaced(a[2]@, "< "@, "<"@));
    assert(t[4]@ == a[3]@ && a[4]@ == replaced(a[3]@, " >"@, ">"@));
    assert(t[5]@ == a[4]@ && a[5]@ == replaced(a[4]@, "( "@, "("@));
    assert(t[6]@ == a[5]@ && a[6]@ == replaced(a[5]@, " )"@, ")"@));
    assert(t[7]@ == a[6]@ && a[7]@ == replaced(a[6]@, ", )"@, ")"@));
}

/// An item without members is one line, by its kind; a module counts where its
/// body stands in the file, and what is none of these kinds does not.
pub proof fn law_items_are_shown(
    item: &RustItem,
    r: String,
    vis_text: &str,
    vis: String,
    detail_text: &str,
    detail: String,
    trait_text: &str,
    of_trait: String,
    text: &str,
    line: String,
)
    requires
        call_ensures(outline_item, (item,), r),
        item.members@.len() == 0,
        vis_text@ == item.vis@,
        call_ensures(normalize, (vis_text,), vis),
        detail_text@ == item.detail@,
        call_ensures(normalize, (detail_text,), detail),
        item.trait_name matches Some(t) ==> trait_text@ == t@,
        call_ensures(normalize, (trait_text,), of_trait),
        text@ == match item.kind {
            ItemKind::Fn => vis@ + detail@,
            ItemKind::Struct => vis@ + "struct "@ + item.name@ + detail@,
            ItemKind::Enum => vis@ + "enum "@ + item.name@ + detail@,
            ItemKind::Trait => vis@ + "trait "@ + item.name@ + detail@,
            ItemKind::Impl => if item.trait_name is Some {
                "impl "@ + of_trait@ + " for "@ + detail@
            } else {
                "impl "@ + detail@
            },
            ItemKind::Type => vis@ + "type "@ + item.name@ + " = "@ + detail@,
            ItemKind::Const => vis@ + "const "@ + item.name@ + ": "@ + detail@,
            ItemKind::Mod => vis@ + "mod "@ + item.name@,
            ItemKind::Other => Seq::empty(),
        },
        call_ensures(fmt_line, (item.start, item.end, text, 0usize), line),
    ensures
        item.kind is Other || (item.kind is Mod && !item.inline) ==> r@.len() == 0,
        !(item.kind is Other) && (item.kind is Mod ==> item.inline) ==> r@ == line@,
{
    let v = item@;
    assert(v.members.len() == 0);
    assert(member_lines(v.kind, v.members, 0) =~= Seq::<char>::empty());
    assert(line@ + Seq::<char>::empty() =~= line@);
}

/// The members of an item stand below it in their order, one level further in,
/// those that are shown: a variant by its text, any other with its visibility.
pub proof fn law_members_are_listed(
    item: &RustItem,
    more: &RustItem,
    m: RustMember,
    r: String,
    s: String,
    vis_text: &str,
    vis: String,
    own_text: &str,
    own: String,
    text: &str,
    line: String,
)
    requires
        call_ensures(outline_item, (item,), r),
        call_ensures(outline_item, (more,), s),
        more@ == (ItemView { members: item@.members.push(m@), ..item@ }),
        !(item.kind is Other) && (item.kind is Mod ==> item.inline),
        vis_text@ == m.vis@,
        call_ensures(normalize, (vis_text,), vis),
        own_text@ == m.text@,
        call_ensures(normalize, (own_text,), own),
        text@ == if item.kind is Enum {
            m.text@
        } else {
            vis@ + own@
        },
        call_ensures(fmt_line, (m.start, m.end, text, 1usize), line),
    ensures
        s@ == if m.shown {
            r@ + line@
        } else {
            r@
        },
{
    let a = item@;
    let b = more@;
    let n = a.members.len() as int;
    lemma_same_members(a.kind, a.members, b.members, n);
    assert(b.members[n] == m@);
    assert(item_text(a) == item_text(b));
    let head = line_of(a.start, a.end, item_text(a), 0);
    let before = member_lines(a.kind, a.members, n);
    assert(head + (before + line@) =~= head + before + line@);
}

proof fn lemma_same_members(kind: ItemKind, a: Seq<MemberView>, b: Seq<MemberView>, n: int)
    requires
        0 <= n <= a.len(),
        n <= b.len(),
        forall|i: int| 0 <= i < n ==> #[trigger] a[i] == b[i],
    ensures
        member_lines(kind, a, n) == member_lines(kind, b, n),
    decreases n,
{
    if n > 0 {
        lemma_same_members(kind, a, b, n - 1);
        assert(a[n - 1] == b[n - 1]);
    }
}

/// A file that cannot be parsed is told so, with the reason; one that can shows
/// its items behind the heading, in their order.
pub proof fn law_rust_files(path: &str, source: &str, r: Result<String, String>, label: &str, h: String, item: &RustItem, line: String)
    requires
        call_ensures(outline_rust, (path, source), r),
        label@ == "Rust"@,
        call_ensures(heading, (label, path), h),
        call_ensures(outline_item, (item,), line),
    ensures
        r is Ok <==> rust_items(source@) is Ok,
        r matches Err(e) ==> e@ == "Parse error in "@ + path@ + ": "@ + rust_items(source@)->Err_0,
        rust_items(source@) matches Ok(items) ==> (items.len() == 0 ==> r->Ok_0@ == h@) && (items
            == seq![item@] ==> r->Ok_0@ == h@ + line@),
{
    if rust_items(source@) is Ok {
        let items = rust_items(source@)->Ok_0;
        let e = Seq::<char>::empty();
        assert(items_lines(items, 0) =~= e);
        assert(h@ + e =~= h@);
        if items == seq![item@] {
            assert(items_lines(items, 1) =~= e + item_lines(item@));
            assert(e + line@ =~= line@);
        }
    }
}

} // verus!
