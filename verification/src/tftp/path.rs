//! Resolving a requested file name inside the served directory.

use crate::error::{Error, ErrorView};
use std::path::PathBuf;
use vstd::prelude::*;
use vstd::string::*;

verus! {

#[verifier::external_type_specification]
#[verifier::external_body]
pub struct ExPathBuf(std::path::PathBuf);

/// The name without its leading `/` and `\` characters
/// (`trim_start_matches(['/', '\\'])`).
pub open spec fn strip_separators_spec(s: Seq<char>) -> Seq<char>
    decreases s.len(),
{
    if s.len() > 0 && (s[0] == '/' || s[0] == '\\') {
        strip_separators_spec(s.drop_first())
    } else {
        s
    }
}

/// `c` separates path components in a requested name.
pub open spec fn is_separator(c: char) -> bool {
    c == '/' || c == '\\'
}

/// Law: stripping drops only the leading separators and keeps the rest of
/// the name as it is. The result is the name from position `k` on, where
/// every character before `k` is a separator and the one at `k`, if any, is
/// not.
pub proof fn lemma_strip_only_leading(s: Seq<char>) -> (k: int)
    ensures
        0 <= k <= s.len(),
        forall|i: int| 0 <= i < k ==> is_separator(#[trigger] s[i]),
        k < s.len() ==> !is_separator(s[k]),
        strip_separators_spec(s) == s.subrange(k, s.len() as int),
    decreases s.len(),
{
    if s.len() > 0 && is_separator(s[0]) {
        let rest = s.drop_first();
        let k1 = lemma_strip_only_leading(rest);
        assert forall|i: int| 0 <= i < k1 + 1 implies is_separator(#[trigger] s[i]) by {
            if i > 0 {
                assert(s[i] == rest[i - 1]);
            }
        }
        if k1 < rest.len() {
            assert(s[k1 + 1] == rest[k1]);
        }
        assert(rest.subrange(k1, rest.len() as int) =~= s.subrange(k1 + 1, s.len() as int));
        k1 + 1
    } else {
        assert(s.subrange(0, s.len() as int) =~= s);
        0
    }
}

/// Drop the leading `/` and `\` characters of `name`.
pub fn strip_leading_separators(name: &str) -> (r: String)
    ensures
        r@ == strip_separators_spec(name@),
{
    let len = name.unicode_len();
    let mut k: usize = 0;
    proof {
        assert(name@.subrange(0, len as int) =~= name@);
    }
    while k < len && (name.get_char(k) == '/' || name.get_char(k) == '\\')
        invariant
            k <= len,
            len == name@.len(),
            strip_separators_spec(name@.subrange(k as int, len as int)) == strip_separators_spec(
                name@,
            ),
        decreases len - k,
    {
        proof {
            let rest = name@.subrange(k as int, len as int);
            assert(rest.drop_first() =~= name@.subrange(k + 1, len as int));
        }
        k = k + 1;
    }
    String::from_str(name.substring_char(k, len))
}

/// True when one of the path components is `..`.
pub fn names_parent(components: &Vec<String>) -> (b: bool)
    ensures
        b == exists|i: int| 0 <= i < components@.len() && #[trigger] components@[i]@ == "..".view(),
{
    let dots = String::from_str("..");
    let mut i: usize = 0;
    while i < components.len()
        invariant
            i <= components@.len(),
            dots@ == "..".view(),
            forall|j: int| 0 <= j < i ==> #[trigger] components@[j]@ != "..".view(),
        decreases components@.len() - i,
    {
        if components[i] == dots {
            return true;
        }
        i = i + 1;
    }
    false
}

/// Name for what `Path::join` gives for `root` and `part`. It follows the
/// path rules of the platform the crate is built for; within one build it is
/// a function of its arguments alone.
pub uninterp spec fn joined_path(root: PathBuf, part: Seq<char>) -> PathBuf;

/// Name for the texts of the components of `path`, as `Path::components`
/// splits it (platform rules, as for `joined_path`).
pub uninterp spec fn path_components(path: PathBuf) -> Seq<Seq<char>>;

/// One of the component texts is `..`.
pub open spec fn has_parent_component(cs: Seq<Seq<char>>) -> bool {
    exists|i: int| 0 <= i < cs.len() && #[trigger] cs[i] == "..".view()
}

/// The file `name` names inside `root`, before any check: the name without
/// its leading separators joined to `root`.
pub open spec fn named_file(root: PathBuf, name: Seq<char>) -> PathBuf {
    joined_path(root, strip_separators_spec(name))
}

/// The name is refused: its path inside `root` has a `..` component.
pub open spec fn refused_name(root: PathBuf, name: Seq<char>) -> bool {
    has_parent_component(path_components(named_file(root, name)))
}

/// The file that `name` resolves to inside `root`, or `None` when the name
/// is refused.
pub open spec fn resolved_target(root: PathBuf, name: Seq<char>) -> Option<PathBuf> {
    if refused_name(root, name) {
        None
    } else {
        Some(named_file(root, name))
    }
}

/// Trusted: `Path::join`. Claims only that the result is the named join of
/// the two arguments.
#[verifier::external_body]
fn join_path(root: &PathBuf, part: &str) -> (p: PathBuf)
    ensures
        p == joined_path(*root, part@),
{
    root.join(part)
}

/// Trusted: `Path::components`, each component's text taken as a `String`
/// (a component reads `..` exactly when it is the parent directory). Claims
/// only that the texts are the named components of the argument.
#[verifier::external_body]
fn component_texts(path: &PathBuf) -> (c: Vec<String>)
    ensures
        c@.map_values(|s: String| s@) == path_components(*path),
{
    path.components().map(|c| c.as_os_str().to_string_lossy().into_owned()).collect()
}

/// Resolve `name` inside `root`, rejecting path traversal: the leading
/// separators of the name are dropped, the rest is joined to `root`, and a
/// path with a `..` component is refused.
pub fn resolve(root: &PathBuf, name: &str) -> (r: Result<PathBuf, Error>)
    ensures
        ({
            let joined = joined_path(*root, strip_separators_spec(name@));
            match r {
                Ok(p) => p == joined && !has_parent_component(path_components(joined)),
                Err(e) => e@ == ErrorView::TftpProtocol("path traversal rejected"@)
                    && has_parent_component(path_components(joined)),
            }
        }),
{
    let clean = strip_leading_separators(name);
    let path = join_path(root, clean.as_str());
    let components = component_texts(&path);
    let ghost cs = components@.map_values(|s: String| s@);
    let found = names_parent(&components);
    proof {
        if found {
            let i = choose|i: int| 0 <= i < components@.len() && #[trigger] components@[i]@ == "..".view();
            assert(cs[i] == "..".view());
        } else {
            assert forall|i: int| 0 <= i < cs.len() implies #[trigger] cs[i] != "..".view() by {
                assert(cs[i] == components@[i]@);
            }
        }
    }
    if found {
        return Err(Error::TftpProtocol(String::from_str("path traversal rejected")));
    }
    Ok(path)
}

} // verus!
