use vstd::prelude::*;

verus! {

/// The file name of the executable that hosts the script engine.
pub open spec fn subp_file_name() -> Seq<char> {
    seq![
        'c', 'h', 'r', 'o', 'm', 'i', 'u', 'm', '_', 's', 'u', 'b', 'p', '.', 'e', 'x', 'e'
    ]
}

/// A path separator on some platform.
pub open spec fn is_separator(c: char) -> bool {
    c == '/' || c == '\\'
}

/// A path with a Windows verbatim prefix (`\\?\`), whose joined paths are normalized.
pub open spec fn verbatim_prefixed(p: Seq<char>) -> bool {
    p.len() >= 4 && p[0] == '\\' && p[1] == '\\' && p[2] == '?' && p[3] == '\\'
}

/// `r` is `dir`, then at most one separator, then `file`.
pub open spec fn joined_as(dir: Seq<char>, file: Seq<char>, r: Seq<char>) -> bool {
    r == dir + file || (r.len() == dir.len() + 1 + file.len() && is_separator(r[dir.len() as int])
        && r == dir + seq![r[dir.len() as int]] + file)
}

/// Relies on `Path::join`: a relative file name without a prefix is appended to a directory
/// without a verbatim prefix, after one separator where the directory does not already end
/// in one; nothing else of either changes.
#[verifier::external_body]
fn join_path(dir: &str, file: &str) -> (r: String)
    ensures
        file@.len() > 0 && !is_separator(file@[0]) && !file@.contains(':') && !verbatim_prefixed(
            dir@,
        ) ==> joined_as(dir@, file@, r@),
{
    std::path::Path::new(dir).join(file).to_string_lossy().into_owned()
}

/// The path of the script-engine executable inside the directory `cwd`.
pub fn subp_path(cwd: &str, _version: &str) -> (r: String)
    ensures
        !verbatim_prefixed(cwd@) ==> joined_as(cwd@, subp_file_name(), r@),
{
    let file = "chromium_subp.exe";
    proof {
        reveal_strlit("chromium_subp.exe");
        assert(file@ == subp_file_name());
        assert(!file@.contains(':')) by {
            if file@.contains(':') {
                let k = choose|k: int| 0 <= k < file@.len() && file@[k] == ':';
                assert(file@[k] != ':');
            }
        }
    }
    join_path(cwd, file)
}

} // verus!
