//! Where the chosen port is recorded: a plain-text file at a fixed place in
//! the build output tree of the project.
use vstd::prelude::*;

verus! {

/// The parent directory of a path, as `std::path::Path::parent` gives it.
pub uninterp spec fn parent_of(path: Seq<char>) -> Option<Seq<char>>;

/// The text of an optional string.
pub open spec fn opt_text(o: Option<String>) -> Option<Seq<char>> {
    match o {
        Some(s) => Some(s@),
        None => None,
    }
}

/// Relies on `std::path::Path::parent`: the path without its last component,
/// or `None` where the path ends in a root or prefix or is empty; the result
/// depends on the characters alone.
#[verifier::external_body]
fn parent_dir(path: &str) -> (r: Option<String>)
    ensures
        opt_text(r) == parent_of(path@),
{
    match std::path::Path::new(path).parent() {
        Some(p) => Some(p.to_string_lossy().into_owned()),
        None => None,
    }
}

/// `rel` under the directory `base`, with one `/` between them unless `base`
/// is empty or already ends in one.
pub open spec fn under(base: Seq<char>, rel: Seq<char>) -> Seq<char> {
    if base.len() == 0 || base.last() == '/' {
        base + rel
    } else {
        base + "/"@ + rel
    }
}

/// The directory of the record, relative to the project root.
pub open spec fn choice_dir_rel() -> Seq<char> {
    "target/xtask"@
}

/// The file of the record, relative to the project root.
pub open spec fn choice_file_rel() -> Seq<char> {
    "target/xtask/serial-port.txt"@
}

/// The project root: the directory one level above the directory of the
/// tool's own manifest, or `None` if that directory has no parent.
pub fn project_root(manifest_dir: &str) -> (r: Option<String>)
    ensures
        opt_text(r) == parent_of(manifest_dir@),
{
    parent_dir(manifest_dir)
}

fn join_under(base: &str, rel: &str) -> (r: String)
    ensures
        r@ == under(base@, rel@),
{
    let n = base.unicode_len();
    let mut s = String::from_str(base);
    if n > 0 && base.get_char(n - 1) != '/' {
        s.append("/");
    }
    s.append(rel);
    s
}

/// The directory that holds the record, under the project root.
pub fn choice_dir(root: &str) -> (r: String)
    ensures
        r@ == under(root@, choice_dir_rel()),
{
    join_under(root, "target/xtask")
}

/// The file that records the chosen port name, under the project root.
pub fn choice_file(root: &str) -> (r: String)
    ensures
        r@ == under(root@, choice_file_rel()),
{
    join_under(root, "target/xtask/serial-port.txt")
}

} // verus!
