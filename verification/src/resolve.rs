//! From the path of a URL to a path below the server root.

use vstd::prelude::*;

verus! {

/// The URL path without its leading slash, where it has one. Only one slash
/// is taken: a second one stays.
pub open spec fn strip_slash(url: Seq<char>) -> Seq<char> {
    if url.len() > 0 && url[0] == '/' {
        url.drop_first()
    } else {
        url
    }
}

/// The target of a URL path: `None` for the server root, else the path
/// relative to the root marker `.`. Nothing is normalized: `..` segments
/// are kept as they came.
pub open spec fn resolved(url: Seq<char>) -> Option<Seq<char>> {
    let rest = strip_slash(url);
    if rest.len() == 0 {
        None
    } else {
        Some("./"@ + rest)
    }
}

/// Resolves the path of a URL against the server root. `None` stands for
/// the root itself.
pub fn filename_by_path(url: &str) -> (target: Option<String>)
    ensures
        match target {
            Some(path) => resolved(url@) == Some(path@),
            None => resolved(url@) is None,
        },
{
    let n: usize = url.unicode_len();
    let rest = if n > 0 && url.get_char(0) == '/' {
        url.substring_char(1, n)
    } else {
        url
    };
    if rest.is_empty() {
        None
    } else {
        let mut path = String::from_str("./");
        path.append(rest);
        Some(path)
    }
}

/// A path that resolution gives starts with the root marker, and what
/// follows is the URL path as it came, less its leading slash: no segment
/// is taken out or rewritten, `..` included. Only the empty path and the
/// single slash resolve to the root.
pub proof fn lemma_resolved_keeps_path(url: Seq<char>)
    ensures
        match resolved(url) {
            Some(path) => path.len() > 2 && path.take(2) == "./"@ && path.skip(2) == strip_slash(
                url,
            ),
            None => url.len() == 0 || url == "/"@,
        },
{
    reveal_strlit("./");
    reveal_strlit("/");
}

} // verus!
