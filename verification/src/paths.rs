use vstd::prelude::*;

verus! {

/// What `Path::join` gives, as a string, for a base path and a component.
pub uninterp spec fn joined(base: Seq<char>, component: Seq<char>) -> Seq<char>;

/// What `Path` equality (component by component) says of two paths.
pub uninterp spec fn same_path(a: Seq<char>, b: Seq<char>) -> bool;

/// What `Path::file_name` gives, as a string, for a path: its final component.
pub uninterp spec fn final_component(p: Seq<char>) -> Option<Seq<char>>;

/// Whether `Path::parent` finds a parent for a path.
pub uninterp spec fn has_parent_path(p: Seq<char>) -> bool;

/// Calls `Path::parent` on a string path and says whether it found one; the
/// result is `has_parent_path` of the argument.
#[verifier::external_body]
pub(crate) fn has_parent(p: &str) -> (r: bool)
    ensures
        r == has_parent_path(p@),
{
    std::path::Path::new(p).parent().is_some()
}

/// Calls `Path::join` on string paths; the result is `joined` of the arguments.
#[verifier::external_body]
pub(crate) fn join(base: &str, component: &str) -> (r: String)
    ensures
        r@ == joined(base@, component@),
{
    std::path::Path::new(base).join(component).to_string_lossy().into_owned()
}

/// Whether `s` is an absolute path written plainly: it starts with `/`,
/// does not end with `/`, has no empty component (`//`) and no `.`
/// component, and holds no `\` or `:`. Such a path has one spelling: its
/// components are the root and the texts between its slashes.
pub open spec fn plain_absolute(s: Seq<char>) -> bool {
    &&& s.len() >= 2
    &&& s[0] == '/'
    &&& s[s.len() - 1] != '/'
    &&& forall|i: int| 0 <= i < s.len() ==> #[trigger] s[i] != '\\' && s[i] != ':'
    &&& forall|i: int| 0 <= i < s.len() - 1 ==> !(#[trigger] s[i] == '/' && s[i + 1] == '/')
    &&& forall|i: int| 0 <= i < s.len() - 1 ==> !(#[trigger] s[i] == '/' && s[i + 1] == '.'
            && (i + 2 == s.len() || s[i + 2] == '/'))
}

/// Compares two string paths with `Path` equality, which compares their
/// components; the result is `same_path` of the arguments. A path equals
/// itself, and two plainly written absolute paths are equal exactly when
/// they are the same text (so paths with the same file name in different
/// directories differ).
#[verifier::external_body]
pub(crate) fn path_eq(a: &str, b: &str) -> (r: bool)
    ensures
        r == same_path(a@, b@),
        a@ == b@ ==> r,
        plain_absolute(a@) && plain_absolute(b@) ==> (r <==> a@ == b@),
{
    std::path::Path::new(a) == std::path::Path::new(b)
}

/// Calls `Path::file_name` on a string path; the result is `final_component`
/// of the argument.
#[verifier::external_body]
pub(crate) fn file_name(p: &str) -> (r: Option<String>)
    ensures
        match r {
            Some(s) => final_component(p@) == Some(s@),
            None => final_component(p@).is_none(),
        },
{
    std::path::Path::new(p).file_name().map(|n| n.to_string_lossy().into_owned())
}

} // verus!
