//! Reading a manifest and a `cfg(..)` predicate out of their text. The parsing
//! itself is the work of `cargo_toml` and `syn`; what they hand back is copied
//! into this crate's own types.

use vstd::prelude::*;
use crate::cfg::{CfgExpr, CfgList, CfgListView};
use crate::manifest::{
    Declaration, DependencyDetail, Feature, InheritedDetail, Manifest, ManifestView,
    NamedDeclaration, TargetGroup,
};
use crate::text::chars_of;

verus! {

/// `syn::MetaList`, carried through as it is.
#[verifier::external_type_specification]
#[verifier::external_body]
pub struct ExMetaList(syn::MetaList);

/// `syn::NestedMeta`, carried through as it is.
#[verifier::external_type_specification]
#[verifier::external_body]
pub struct ExNestedMeta(syn::NestedMeta);

/// `cargo_toml::Dependency`, carried through as it is.
#[verifier::external_type_specification]
#[verifier::external_body]
pub struct ExDependency(cargo_toml::Dependency);

/// The meta list that `syn::parse_str::<syn::MetaList>` reads out of `text`,
/// copied item by item: `None` where it reports an error.
pub uninterp spec fn parsed_predicate(text: Seq<char>) -> Option<CfgListView>;

/// The features, dependencies and target groups of the manifest that
/// `cargo_toml::Manifest::from_slice` reads out of `content`, each table in the
/// order of its keys: `None` where it reports an error.
pub uninterp spec fn parsed_manifest(content: Seq<u8>) -> Option<ManifestView>;

/// Copies one item of a `syn::MetaList`. A name is the text of
/// `syn::Path::get_ident`, a value is what `syn::LitStr::value` returns.
#[verifier::external_body]
fn lower_nested(item: &syn::NestedMeta) -> CfgExpr {
    match item {
        syn::NestedMeta::Lit(_) => CfgExpr::Literal,
        syn::NestedMeta::Meta(syn::Meta::Path(_)) => CfgExpr::Flag,
        syn::NestedMeta::Meta(syn::Meta::List(list)) => CfgExpr::List(lower_list(list)),
        syn::NestedMeta::Meta(syn::Meta::NameValue(pair)) => CfgExpr::NameValue {
            name: pair.path.get_ident().map(|ident| ident.to_string()),
            value: match &pair.lit {
                syn::Lit::Str(text) => Some(text.value()),
                _ => None,
            },
        },
    }
}

/// Copies a `syn::MetaList`: its name, which is the text of
/// `syn::Path::get_ident`, and its items in order.
#[verifier::external_body]
fn lower_list(list: &syn::MetaList) -> CfgList {
    CfgList {
        name: list.path.get_ident().map(|ident| ident.to_string()),
        args: list.nested.iter().map(lower_nested).collect(),
    }
}

/// Copies a `cargo_toml::Dependency`, variant by variant and field by field.
#[verifier::external_body]
fn lower_dependency(dep: &cargo_toml::Dependency) -> Declaration {
    match dep {
        cargo_toml::Dependency::Simple(version) => Declaration::Simple(version.clone()),
        cargo_toml::Dependency::Inherited(d) => Declaration::Inherited(
            InheritedDetail { features: d.features.clone(), optional: d.optional },
        ),
        cargo_toml::Dependency::Detailed(d) => Declaration::Detailed(DependencyDetail {
            version: d.version.clone(), path: d.path.clone(), git: d.git.clone(),
            rev: d.rev.clone(), tag: d.tag.clone(), branch: d.branch.clone(),
            features: d.features.clone(), optional: d.optional,
            default_features: d.default_features,
        }),
    }
}

/// A letter of the ASCII alphabet or an underscore.
pub open spec fn is_letter(c: char) -> bool {
    ('a' <= c && c <= 'z') || ('A' <= c && c <= 'Z') || c == '_'
}

/// An ASCII digit.
pub open spec fn is_digit(c: char) -> bool {
    '0' <= c && c <= '9'
}

/// A space, a tab, a line feed, a bracket, a comma or an equals sign.
pub open spec fn is_mark(c: char) -> bool {
    c == ' ' || c == '\t' || c == '\n' || c == '(' || c == ')' || c == ',' || c == '='
}

/// Whether the rest `s` of a predicate's text is plain, read from a place
/// inside a string (`in_string`) or outside one, directly behind a letter or a
/// digit (`after_word`) or not.
pub open spec fn plain_from(s: Seq<char>, in_string: bool, after_word: bool) -> bool
    decreases s.len(),
{
    if s.len() == 0 {
        true
    } else {
        let c = s[0];
        let rest = s.drop_first();
        if in_string {
            c != '\\' && plain_from(rest, c != '"', false)
        } else if c == '"' {
            !after_word && plain_from(rest, true, false)
        } else if is_digit(c) {
            after_word && plain_from(rest, false, true)
        } else if is_letter(c) {
            plain_from(rest, false, true)
        } else {
            is_mark(c) && plain_from(rest, false, false)
        }
    }
}

/// Whether a predicate's text is plain: outside strings it is made of names,
/// brackets, commas, equals signs and blanks, no string has a prefix or holds
/// a backslash, and no number stands alone. Only such text is handed on to be
/// parsed.
pub open spec fn is_plain(s: Seq<char>) -> bool {
    plain_from(s, false, false)
}

/// Whether a predicate's text is plain.
pub fn check_plain(text: &str) -> (r: bool)
    ensures
        r == is_plain(text@),
{
    let chars = chars_of(text);
    let n = chars.len();
    let mut in_string = false;
    let mut after_word = false;
    let mut i: usize = 0;
    proof {
        assert(chars@.skip(0) =~= chars@);
    }
    while i < n
        invariant
            i <= n,
            n == chars@.len(),
            chars@ == text@,
            is_plain(text@) == plain_from(chars@.skip(i as int), in_string, after_word),
        decreases n - i,
    {
        let c = chars[i];
        proof {
            assert(chars@.skip(i as int)[0] == c);
            assert(chars@.skip(i as int).drop_first() =~= chars@.skip(i + 1));
        }
        if in_string {
            if c == '\\' {
                return false;
            }
            in_string = c != '"';
            after_word = false;
        } else if c == '"' {
            if after_word {
                return false;
            }
            in_string = true;
            after_word = false;
        } else if '0' <= c && c <= '9' {
            if !after_word {
                return false;
            }
        } else if ('a' <= c && c <= 'z') || ('A' <= c && c <= 'Z') || c == '_' {
            after_word = true;
        } else if c == ' ' || c == '\t' || c == '\n' || c == '(' || c == ')' || c == ',' || c == '=' {
            after_word = false;
        } else {
            return false;
        }
        i += 1;
    }
    true
}

/// Calls `syn::parse_str::<syn::MetaList>` on `text` and copies what it
/// returns; that depends on the text alone. `syn` panics on a literal of a
/// kind that it does not know; plain text holds no literal but strings without
/// prefix and without escape, which it knows.
#[verifier::external_body]
fn read_meta_list(text: &str) -> (r: Option<CfgList>)
    requires
        is_plain(text@),
    ensures
        crate::cfg::opt_list(r) == parsed_predicate(text@),
{
    match syn::parse_str::<syn::MetaList>(text) {
        Ok(list) => Some(lower_list(&list)),
        Err(_) => None,
    }
}

/// The predicate that the text of a target group's key stands for: what is
/// read out of it where it is plain, `None` where it is not.
pub open spec fn predicate_of(text: Seq<char>) -> Option<CfgListView> {
    if is_plain(text) {
        parsed_predicate(text)
    } else {
        None
    }
}

/// Reads the predicate `cfg(..)` out of the text of a target group's key.
pub fn parse_predicate(text: &str) -> (r: Option<CfgList>)
    ensures
        crate::cfg::opt_list(r) == predicate_of(text@),
{
    if check_plain(text) {
        read_meta_list(text)
    } else {
        None
    }
}

/// Calls `cargo_toml::Manifest::from_slice` on `content` and copies the
/// features, the dependencies and the target groups with their dependencies
/// out of what it returns. It reads nothing but `content`.
#[verifier::external_body]
pub(crate) fn parse_manifest(content: &[u8]) -> (r: Option<Manifest>)
    ensures
        crate::manifest::opt_manifest(r) == parsed_manifest(content@),
{
    let m = cargo_toml::Manifest::from_slice(content).ok()?;
    Some(
        Manifest {
            features: m.features.into_iter().map(|(name, directives)| Feature { name, directives }).collect(),
            dependencies: lower_dependencies(&m.dependencies),
            targets: m.target.iter().map(
                |(key, group)|
                    TargetGroup { key: key.clone(), dependencies: lower_dependencies(&group.dependencies) },
            ).collect(),
        },
    )
}

/// Copies a table of `cargo_toml::Dependency`, in the order of its keys.
#[verifier::external_body]
fn lower_dependencies(
    deps: &std::collections::BTreeMap<String, cargo_toml::Dependency>,
) -> Vec<NamedDeclaration> {
    deps.iter().map(
        |(name, dep)| NamedDeclaration { name: name.clone(), decl: lower_dependency(dep) },
    ).collect()
}

} // verus!
