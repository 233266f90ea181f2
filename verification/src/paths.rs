//! Where bundled assets and the download cache live, relative to the
//! project root.
use vstd::prelude::*;

use crate::text::push_str;

verus! {

/// `PathBuf::join` on Unix: an absolute component replaces the path; otherwise
/// it is appended after a `/` unless the path is empty or already ends in one.
pub open spec fn join_spec(base: Seq<char>, part: Seq<char>) -> Seq<char> {
    if part.len() > 0 && part[0] == '/' {
        part
    } else if base.len() > 0 && base.last() != '/' {
        base + "/"@ + part
    } else {
        base + part
    }
}

pub fn join(base: &str, part: &str) -> (r: String)
    ensures
        r@ == join_spec(base@, part@),
{
    let pn = part.unicode_len();
    if pn > 0 && part.get_char(0) == '/' {
        return String::from_str(part);
    }
    let bn = base.unicode_len();
    let mut s = String::from_str(base);
    if bn > 0 && base.get_char(bn - 1) != '/' {
        push_str(&mut s, "/");
    }
    push_str(&mut s, part);
    s
}

/// A bundled asset: `<root>/assets/<name>`.
pub fn asset_path(root: &str, name: &str) -> (r: String)
    ensures
        r@ == join_spec(join_spec(root@, "assets"@), name@),
{
    let dir = join(root, "assets");
    join(dir.as_str(), name)
}

/// A cache entry: `<root>/.cache/<name>` (the caller creates the directory).
pub fn cache_path(root: &str, name: &str) -> (r: String)
    ensures
        r@ == join_spec(join_spec(root@, ".cache"@), name@),
{
    let dir = join(root, ".cache");
    join(dir.as_str(), name)
}

/// The cached Himawari image and its timestamp record.
pub fn cache_files(root: &str) -> (r: (String, String))
    ensures
        r.0@ == join_spec(join_spec(root@, ".cache"@), "himawari.png"@),
        r.1@ == join_spec(join_spec(root@, ".cache"@), "himawari.txt"@),
{
    (cache_path(root, "himawari.png"), cache_path(root, "himawari.txt"))
}

} // verus!
