//! From a file name to the media type of its content.

use crate::text::chars_of;
use vstd::prelude::*;

verus! {

/// What follows the last `.` of a name, or `None` for a name without one.
pub open spec fn extension(name: Seq<char>) -> Option<Seq<char>>
    decreases name.len(),
{
    if name.len() == 0 {
        None
    } else if name.last() == '.' {
        Some(Seq::empty())
    } else {
        match extension(name.drop_last()) {
            Some(ext) => Some(ext.push(name.last())),
            None => None,
        }
    }
}

/// The media type that an extension stands for.
pub open spec fn media_type_of_extension(ext: Seq<char>) -> Seq<char> {
    if ext == "png"@ {
        "image/png"@
    } else if ext == "jpg"@ {
        "image/jpeg"@
    } else if ext == "json"@ {
        "application/json"@
    } else if ext == "js"@ {
        "application/javascript"@
    } else {
        "text/plain"@
    }
}

/// The media type of a file by its name: by the extension where it is a
/// known one, plain text otherwise.
pub open spec fn media_type(name: Seq<char>) -> Seq<char> {
    match extension(name) {
        Some(ext) => media_type_of_extension(ext),
        None => "text/plain"@,
    }
}

/// The extension is what stands behind the last `.`: it holds no `.`
/// itself, a `.` stands right before it, and a name without `.` has none.
pub proof fn lemma_extension_is_suffix(name: Seq<char>)
    ensures
        match extension(name) {
            Some(ext) => {
                let cut = name.len() - ext.len() - 1;
                &&& 0 <= cut
                &&& name[cut] == '.'
                &&& name.skip(cut + 1) == ext
                &&& forall|i: int| 0 <= i < ext.len() ==> ext[i] != '.'
            },
            None => forall|i: int| 0 <= i < name.len() ==> name[i] != '.',
        },
    decreases name.len(),
{
    if name.len() > 0 && name.last() != '.' {
        let front = name.drop_last();
        lemma_extension_is_suffix(front);
        if extension(front) is None {
            assert forall|i: int| 0 <= i < name.len() implies name[i] != '.' by {
                if i < front.len() {
                    assert(name[i] == front[i]);
                }
            }
        }
    }
}

/// A name made of a stem, a `.` and a tail without `.` has that tail as
/// its extension.
pub proof fn lemma_extension_of_parts(stem: Seq<char>, ext: Seq<char>)
    requires
        forall|i: int| 0 <= i < ext.len() ==> ext[i] != '.',
    ensures
        extension(stem.push('.') + ext) == Some(ext),
    decreases ext.len(),
{
    let name = stem.push('.') + ext;
    if ext.len() > 0 {
        assert(name.drop_last() =~= stem.push('.') + ext.drop_last());
        lemma_extension_of_parts(stem, ext.drop_last());
    }
}

/// No known extension holds a slash: an extension that does stands for
/// plain text.
proof fn lemma_extension_with_slash(ext: Seq<char>, at: int)
    requires
        0 <= at < ext.len(),
        ext[at] == '/',
    ensures
        media_type_of_extension(ext) == "text/plain"@,
{
    reveal_strlit("png");
    reveal_strlit("jpg");
    reveal_strlit("json");
    reveal_strlit("js");
}

/// The directories that lead to a file do not change its media type: the
/// whole path has the type of its last component.
pub proof fn lemma_media_type_of_path(dir: Seq<char>, name: Seq<char>)
    requires
        forall|i: int| 0 <= i < name.len() ==> name[i] != '/',
    ensures
        media_type(dir.push('/') + name) == media_type(name),
{
    let path = dir.push('/') + name;
    lemma_extension_is_suffix(name);
    match extension(name) {
        Some(ext) => {
            let cut = name.len() - ext.len() - 1;
            let stem = dir.push('/') + name.take(cut);
            assert(path =~= stem.push('.') + ext);
            lemma_extension_of_parts(stem, ext);
        },
        None => {
            lemma_extension_is_suffix(path);
            match extension(path) {
                Some(ext) => {
                    let cut = path.len() - ext.len() - 1;
                    let slash = dir.len() - cut - 1;
                    lemma_extension_with_slash(ext, slash);
                },
                None => {},
            }
        },
    }
}

/// Every media type that the mapping gives is one line: none holds a
/// carriage return.
pub proof fn lemma_media_type_single_line(name: Seq<char>)
    ensures
        forall|i: int| 0 <= i < media_type(name).len() ==> media_type(name)[i] != '\r',
{
    reveal_strlit("image/png");
    reveal_strlit("image/jpeg");
    reveal_strlit("application/json");
    reveal_strlit("application/javascript");
    reveal_strlit("text/plain");
}

/// The constant `mime::IMAGE_PNG`, written out through the `Display` of
/// `mime::Mime`, which prints the text the constant was declared with.
#[verifier::external_body]
fn image_png() -> (s: String)
    ensures
        s@ == "image/png"@,
{
    mime::IMAGE_PNG.to_string()
}

/// The constant `mime::IMAGE_JPEG`, written out through the `Display` of
/// `mime::Mime`, which prints the text the constant was declared with.
#[verifier::external_body]
fn image_jpeg() -> (s: String)
    ensures
        s@ == "image/jpeg"@,
{
    mime::IMAGE_JPEG.to_string()
}

/// The constant `mime::APPLICATION_JSON`, written out through the `Display`
/// of `mime::Mime`, which prints the text the constant was declared with.
#[verifier::external_body]
fn application_json() -> (s: String)
    ensures
        s@ == "application/json"@,
{
    mime::APPLICATION_JSON.to_string()
}

/// The constant `mime::APPLICATION_JAVASCRIPT`, written out through the
/// `Display` of `mime::Mime`, which prints the text the constant was
/// declared with.
#[verifier::external_body]
fn application_javascript() -> (s: String)
    ensures
        s@ == "application/javascript"@,
{
    mime::APPLICATION_JAVASCRIPT.to_string()
}

/// The constant `mime::TEXT_PLAIN`, written out through the `Display` of
/// `mime::Mime`, which prints the text the constant was declared with.
#[verifier::external_body]
fn text_plain() -> (s: String)
    ensures
        s@ == "text/plain"@,
{
    mime::TEXT_PLAIN.to_string()
}

/// Whether the characters of `chars` from `from` on spell `word`.
fn tail_is(chars: &Vec<char>, from: usize, word: &str) -> (b: bool)
    requires
        from <= chars.len(),
    ensures
        b == (chars@.skip(from as int) == word@),
{
    let w = chars_of(word);
    if chars.len() - from != w.len() {
        return false;
    }
    let mut i: usize = 0;
    while i < w.len()
        invariant
            i <= w.len(),
            from + w.len() == chars.len(),
            w@ == word@,
            forall|j: int| 0 <= j < i ==> chars@[from + j] == w@[j],
        decreases w.len() - i,
    {
        if chars[from + i] != w[i] {
            return false;
        }
        i += 1;
    }
    assert(chars@.skip(from as int) =~= word@);
    true
}

/// Where the extension of `chars` starts: the index after the last `.`.
fn extension_start(chars: &Vec<char>) -> (start: Option<usize>)
    ensures
        match start {
            Some(k) => k <= chars.len() && extension(chars@) == Some(chars@.skip(k as int)),
            None => extension(chars@) is None,
        },
{
    let mut start: Option<usize> = None;
    let mut i: usize = 0;
    while i < chars.len()
        invariant
            i <= chars.len(),
            match start {
                Some(k) => k <= i && extension(chars@.take(i as int)) == Some(
                    chars@.subrange(k as int, i as int),
                ),
                None => extension(chars@.take(i as int)) is None,
            },
        decreases chars.len() - i,
    {
        proof {
            let next = chars@.take(i + 1);
            assert(next.drop_last() == chars@.take(i as int));
            if let Some(k) = start {
                assert(chars@.subrange(k as int, i as int).push(chars@[i as int])
                    == chars@.subrange(k as int, i + 1));
            }
        }
        if chars[i] == '.' {
            start = Some(i + 1);
        }
        i += 1;
    }
    proof {
        assert(chars@.take(i as int) == chars@);
    }
    start
}

/// The content type for a file of this name. The name may come with the
/// directories that lead to it.
pub fn get_mimetype(filename: &str) -> (content_type: String)
    ensures
        content_type@ == media_type(filename@),
{
    let chars = chars_of(filename);
    match extension_start(&chars) {
        Some(k) => {
            if tail_is(&chars, k, "png") {
                image_png()
            } else if tail_is(&chars, k, "jpg") {
                image_jpeg()
            } else if tail_is(&chars, k, "json") {
                application_json()
            } else if tail_is(&chars, k, "js") {
                application_javascript()
            } else {
                text_plain()
            }
        },
        None => text_plain(),
    }
}

} // verus!
