//! Files of widgets.

use vstd::prelude::*;

use crate::path::{file_name, last_name, may_split, part_views, path_parts, PathPartView};
use crate::text::same_text;

verus! {

/// Where the last dot of a name stands: nothing if it has none.
pub open spec fn last_dot(name: Seq<char>) -> Option<int>
    decreases name.len(),
{
    if name.len() == 0 {
        None
    } else if name.last() == '.' {
        Some(name.len() - 1)
    } else {
        last_dot(name.drop_last())
    }
}

/// What follows the last dot of a name. A dot at the start does not count.
pub open spec fn extension(name: Seq<char>) -> Option<Seq<char>> {
    match last_dot(name) {
        Some(at) => if at > 0 {
            Some(name.skip(at + 1))
        } else {
            None
        },
        None => None,
    }
}

/// The media type for an extension.
pub open spec fn media_type(extension: Option<Seq<char>>) -> Seq<char> {
    if extension == Some("html"@) {
        "text/html; charset=utf-8"@
    } else if extension == Some("js"@) {
        "text/javascript; charset=utf-8"@
    } else if extension == Some("css"@) {
        "text/css; charset=utf-8"@
    } else if extension == Some("json"@) {
        "application/json"@
    } else if extension == Some("svg"@) {
        "image/svg+xml"@
    } else if extension == Some("png"@) {
        "image/png"@
    } else if extension == Some("jpg"@) || extension == Some("jpeg"@) {
        "image/jpeg"@
    } else if extension == Some("gif"@) {
        "image/gif"@
    } else if extension == Some("webp"@) {
        "image/webp"@
    } else if extension == Some("woff2"@) {
        "font/woff2"@
    } else {
        "application/octet-stream"@
    }
}

/// The extension of the file that the parts of a path lead to.
pub open spec fn path_extension(parts: Seq<PathPartView>) -> Option<Seq<char>> {
    match last_name(parts) {
        Some(name) => extension(name),
        None => None,
    }
}

fn extension_of(name: &str) -> (r: Option<&str>)
    ensures
        r is Some <==> extension(name@) is Some,
        r is Some ==> extension(name@) == Some(r->0@),
{
    let whole = name.unicode_len();
    let mut end: usize = whole;
    assert(name@.take(end as int) =~= name@);
    while end > 0
        invariant
            end <= whole,
            whole == name@.len(),
            last_dot(name@) == last_dot(name@.take(end as int)),
        decreases end,
    {
        assert(name@.take(end as int).drop_last() =~= name@.take(end - 1));
        if name.get_char(end - 1) == '.' {
            if end == 1 {
                return None;
            }
            let r = name.substring_char(end, whole);
            assert(r@ =~= name@.skip(end as int));
            return Some(r);
        }
        end = end - 1;
    }
    None
}

/// The media type for an extension.
pub fn media_type_for(extension: Option<&str>) -> (r: &'static str)
    ensures
        r@ == media_type(
            match extension {
                Some(extension) => Some(extension@),
                None => None,
            },
        ),
{
    let extension = match extension {
        Some(extension) => extension,
        None => {
            return "application/octet-stream";
        },
    };
    if same_text(extension, "html") {
        "text/html; charset=utf-8"
    } else if same_text(extension, "js") {
        "text/javascript; charset=utf-8"
    } else if same_text(extension, "css") {
        "text/css; charset=utf-8"
    } else if same_text(extension, "json") {
        "application/json"
    } else if same_text(extension, "svg") {
        "image/svg+xml"
    } else if same_text(extension, "png") {
        "image/png"
    } else if same_text(extension, "jpg") || same_text(extension, "jpeg") {
        "image/jpeg"
    } else if same_text(extension, "gif") {
        "image/gif"
    } else if same_text(extension, "webp") {
        "image/webp"
    } else if same_text(extension, "woff2") {
        "font/woff2"
    } else {
        "application/octet-stream"
    }
}

/// The media type of a file, by its name.
pub fn content_type_for(path: &str) -> (r: &'static str)
    ensures
        exists|parts: Seq<PathPartView>| #[trigger]
            may_split(path@, parts) && r@ == media_type(path_extension(parts)),
{
    let parts = path_parts(path);
    assert(may_split(path@, part_views(parts@)));
    match file_name(&parts) {
        Some(name) => media_type_for(extension_of(name.as_str())),
        None => media_type_for(None),
    }
}

/// The name of the file that the parts of a path lead to, or `index.html` if they
/// lead to none.
pub open spec fn served_name(parts: Seq<PathPartView>) -> Seq<char> {
    match last_name(parts) {
        Some(name) => name,
        None => "index.html"@,
    }
}

/// The name under which a widget's entry is asked for.
pub fn entry_file(entry: &str) -> (r: String)
    ensures
        exists|parts: Seq<PathPartView>| #[trigger]
            may_split(entry@, parts) && r@ == served_name(parts),
{
    let parts = path_parts(entry);
    assert(may_split(entry@, part_views(parts@)));
    match file_name(&parts) {
        Some(name) => name.clone(),
        None => "index.html".to_owned(),
    }
}

/// The extension of a name is what follows its last dot: a name, a dot and a text without a
/// dot have that text for their extension. A name whose only dot comes first has none, and
/// neither has one without a dot.
pub proof fn law_the_extension_follows_the_last_dot(stem: Seq<char>, rest: Seq<char>)
    requires
        !rest.contains('.'),
    ensures
        stem.len() > 0 ==> extension(stem + seq!['.'] + rest) == Some(rest),
        extension(seq!['.'] + rest) is None,
        extension(rest) is None,
{
    lemma_last_dot(stem, rest);
    lemma_last_dot(seq![], rest);
    lemma_no_dot(rest);
    assert(Seq::<char>::empty() + seq!['.'] + rest =~= seq!['.'] + rest);
    assert((stem + seq!['.'] + rest).skip(stem.len() as int + 1) =~= rest);
}

proof fn lemma_no_dot(name: Seq<char>)
    requires
        !name.contains('.'),
    ensures
        last_dot(name) is None,
    decreases name.len(),
{
    if name.len() > 0 {
        assert(name.contains(name.last()));
        assert forall|i: int| 0 <= i < name.drop_last().len() implies name.drop_last()[i] != '.' by {
            assert(name.contains(name[i]));
        }
        lemma_no_dot(name.drop_last());
    }
}

proof fn lemma_last_dot(stem: Seq<char>, rest: Seq<char>)
    requires
        !rest.contains('.'),
    ensures
        last_dot(stem + seq!['.'] + rest) == Some(stem.len() as int),
    decreases rest.len(),
{
    let whole = stem + seq!['.'] + rest;
    if rest.len() > 0 {
        assert(rest.contains(rest.last()));
        assert(whole.last() == rest.last());
        assert forall|i: int| 0 <= i < rest.drop_last().len() implies rest.drop_last()[i] != '.' by {
            assert(rest.contains(rest[i]));
        }
        lemma_last_dot(stem, rest.drop_last());
        assert(whole.drop_last() =~= stem + seq!['.'] + rest.drop_last());
    } else {
        assert(whole.last() == '.');
    }
}

/// Every known extension has its media type, and all else is sent as bytes.
pub proof fn law_media_types_go_by_extension(extension: Seq<char>)
    ensures
        media_type(Some("html"@)) == "text/html; charset=utf-8"@,
        media_type(Some("js"@)) == "text/javascript; charset=utf-8"@,
        media_type(Some("css"@)) == "text/css; charset=utf-8"@,
        media_type(Some("json"@)) == "application/json"@,
        media_type(Some("svg"@)) == "image/svg+xml"@,
        media_type(Some("png"@)) == "image/png"@,
        media_type(Some("jpg"@)) == "image/jpeg"@,
        media_type(Some("jpeg"@)) == "image/jpeg"@,
        media_type(Some("gif"@)) == "image/gif"@,
        media_type(Some("webp"@)) == "image/webp"@,
        media_type(Some("woff2"@)) == "font/woff2"@,
        extension != "html"@ && extension != "js"@ && extension != "css"@ && extension != "json"@ && extension != "svg"@ && extension != "png"@ && extension != "jpg"@ && extension != "jpeg"@ && extension != "gif"@ && extension != "webp"@ && extension != "woff2"@ ==> media_type(Some(extension))
            == "application/octet-stream"@,
        media_type(None) == "application/octet-stream"@,
{
    reveal_strlit("html");
    reveal_strlit("js");
    reveal_strlit("css");
    reveal_strlit("json");
    reveal_strlit("svg");
    reveal_strlit("png");
    reveal_strlit("jpg");
    reveal_strlit("jpeg");
    reveal_strlit("gif");
    reveal_strlit("webp");
    reveal_strlit("woff2");
    assert("js"@.len() == 2);
    assert("css"@.len() == 3);
    assert("svg"@.len() == 3);
    assert("png"@.len() == 3);
    assert("jpg"@.len() == 3);
    assert("gif"@.len() == 3);
    assert("css"@[0] == 'c');
    assert("svg"@[0] == 's');
    assert("png"@[0] == 'p');
    assert("jpg"@[0] == 'j');
    assert("gif"@[0] == 'g');
    assert("html"@.len() == 4);
    assert("json"@.len() == 4);
    assert("jpeg"@.len() == 4);
    assert("webp"@.len() == 4);
    assert("html"@[1] == 't');
    assert("json"@[1] == 's');
    assert("jpeg"@[1] == 'p');
    assert("webp"@[1] == 'e');
    assert("woff2"@.len() == 5);
}

/// What is served has the name at the end of its path, and `index.html` if it ends in none.
/// Its extension is that of the name at the end.
pub proof fn law_files_go_by_the_name_at_the_end(parts: Seq<PathPartView>, name: Seq<char>)
    ensures
        served_name(parts.push(PathPartView::Normal(name))) == name,
        path_extension(parts.push(PathPartView::Normal(name))) == extension(name),
        parts.len() == 0 || !(parts.last() is Normal) ==> served_name(parts) == "index.html"@
            && path_extension(parts) is None,
{
}

} // verus!
