//! Paths that come in as text.

use vstd::prelude::*;

verus! {

/// A part of a path.
#[derive(Debug, PartialEq, Eq)]
pub enum PathPart {
    /// What stands before the root on some systems, such as a drive.
    Prefix,
    RootDir,
    CurDir,
    ParentDir,
    Normal(String),
}

pub enum PathPartView {
    Prefix,
    RootDir,
    CurDir,
    ParentDir,
    Normal(Seq<char>),
}

impl View for PathPart {
    type V = PathPartView;

    open spec fn view(&self) -> PathPartView {
        match self {
            PathPart::Prefix => PathPartView::Prefix,
            PathPart::RootDir => PathPartView::RootDir,
            PathPart::CurDir => PathPartView::CurDir,
            PathPart::ParentDir => PathPartView::ParentDir,
            PathPart::Normal(name) => PathPartView::Normal(name@),
        }
    }
}

/// Whether a path means the same on all systems: it holds neither a backslash
/// nor a colon, and does not start with two slashes.
pub open spec fn is_portable(path: Seq<char>) -> bool {
    !path.contains('\\') && !path.contains(':') && !(path.len() > 1 && path[0] == '/' && path[1]
        == '/')
}

/// What stands between the slashes of a text.
pub open spec fn segments(text: Seq<char>) -> Seq<Seq<char>>
    decreases text.len(),
{
    if text.len() == 0 {
        seq![seq![]]
    } else {
        let before = segments(text.drop_last());
        if text.last() == '/' {
            before.push(seq![])
        } else {
            before.drop_last().push(before.last().push(text.last()))
        }
    }
}

/// The parts that segments stand for. Nothing and a single dot stand for no part,
/// but for a dot right at the start.
pub open spec fn segment_parts(segments: Seq<Seq<char>>, rooted: bool) -> Seq<PathPartView>
    decreases segments.len(),
{
    if segments.len() == 0 {
        seq![]
    } else {
        let before = segment_parts(segments.drop_last(), rooted);
        let last = segments.last();
        if last.len() == 0 {
            before
        } else if last == seq!['.'] {
            if rooted || segments.len() > 1 {
                before
            } else {
                before.push(PathPartView::CurDir)
            }
        } else if last == seq!['.', '.'] {
            before.push(PathPartView::ParentDir)
        } else {
            before.push(PathPartView::Normal(last))
        }
    }
}

/// The parts of a portable path.
pub open spec fn parts(path: Seq<char>) -> Seq<PathPartView> {
    if path.len() > 0 && path[0] == '/' {
        seq![PathPartView::RootDir] + segment_parts(segments(path), true)
    } else {
        segment_parts(segments(path), false)
    }
}

/// Whether a path starts at the root or has a segment that leads up.
pub open spec fn leads_away(path: Seq<char>) -> bool {
    path.len() > 0 && path[0] == '/' || segments(path).contains(seq!['.', '.'])
}

/// Whether what follows the last slash of a path is a name on all systems: it is
/// neither nothing nor a dot or two, holds neither a backslash nor a colon, and the
/// path does not start with two slashes of either kind.
pub open spec fn ends_in_name(path: Seq<char>) -> bool {
    let last = segments(path).last();
    &&& last.len() > 0
    &&& last != seq!['.']
    &&& last != seq!['.', '.']
    &&& !last.contains('\\')
    &&& !last.contains(':')
    &&& path.len() > 1 ==> !((path[0] == '/' || path[0] == '\\') && (path[1] == '/' || path[1]
        == '\\'))
}

/// Whether a path may be read as these parts. How a backslash, a colon or two
/// slashes at the start are read rests on the system. On every system a root or a
/// way up is a part of its own, and a name after the last slash the last part.
pub open spec fn may_split(path: Seq<char>, split: Seq<PathPartView>) -> bool {
    &&& is_portable(path) ==> split == parts(path)
    &&& leads_away(path) ==> !leads_down(split)
    &&& ends_in_name(path) ==> last_name(split) == Some(segments(path).last())
}

/// The views of parts.
pub open spec fn part_views(items: Seq<PathPart>) -> Seq<PathPartView> {
    items.map_values(|item: PathPart| item@)
}

/// `std::path::Path::components`: the parts of a path. Repeated and trailing
/// slashes do not count, nor does a dot unless the path starts with it. How a
/// backslash, a colon or two slashes at the start are read rests on the system and
/// is left open; a root or a way up is a part of its own on every system, and a
/// name after the last slash is the last part.
#[verifier::external_body]
pub(crate) fn path_parts(path: &str) -> (r: Vec<PathPart>)
    ensures
        may_split(path@, part_views(r@)),
{
    std::path::Path::new(path).components().map(|part| match part {
        std::path::Component::Prefix(_) => PathPart::Prefix,
        std::path::Component::RootDir => PathPart::RootDir,
        std::path::Component::CurDir => PathPart::CurDir,
        std::path::Component::ParentDir => PathPart::ParentDir,
        std::path::Component::Normal(name) => PathPart::Normal(name.to_string_lossy().into_owned()),
    }).collect()
}

/// Whether parts only lead further down.
pub open spec fn leads_down(parts: Seq<PathPartView>) -> bool {
    forall|i: int| 0 <= i < parts.len() ==> #[trigger] parts[i] is Normal
}

/// Whether parts only lead further down: no root, no way up and nothing else that
/// is not a name.
pub fn all_normal(parts: &Vec<PathPart>) -> (r: bool)
    ensures
        r == leads_down(part_views(parts@)),
{
    let mut i: usize = 0;
    while i < parts.len()
        invariant
            i <= parts.len(),
            forall|j: int| 0 <= j < i ==> #[trigger] part_views(parts@)[j] is Normal,
        decreases parts.len() - i,
    {
        match &parts[i] {
            PathPart::Normal(_) => {},
            _ => {
                assert(!(part_views(parts@)[i as int] is Normal));
                return false;
            },
        }
        i = i + 1;
    }
    true
}

/// Whether nothing is above the place that parts lead to.
pub open spec fn ends_at_root(parts: Seq<PathPartView>) -> bool {
    parts.len() > 0 && (parts.last() is RootDir || parts.last() is Prefix)
}

/// Whether nothing is above the place that parts lead to.
pub fn at_root(parts: &Vec<PathPart>) -> (r: bool)
    ensures
        r == ends_at_root(part_views(parts@)),
{
    if parts.len() == 0 {
        return false;
    }
    assert(part_views(parts@).last() == parts@.last()@);
    match &parts[parts.len() - 1] {
        PathPart::RootDir | PathPart::Prefix => true,
        _ => false,
    }
}

/// The name at the end of a path: none if it ends in something else.
pub open spec fn last_name(parts: Seq<PathPartView>) -> Option<Seq<char>> {
    if parts.len() > 0 && parts.last() is Normal {
        Some(parts.last()->Normal_0)
    } else {
        None
    }
}

/// The name at the end of a path.
pub fn file_name(parts: &Vec<PathPart>) -> (r: Option<&String>)
    ensures
        r is Some <==> last_name(part_views(parts@)) is Some,
        r is Some ==> last_name(part_views(parts@)) == Some(r->0@),
{
    if parts.len() == 0 {
        return None;
    }
    assert(part_views(parts@).last() == parts@.last()@);
    match &parts[parts.len() - 1] {
        PathPart::Normal(name) => Some(name),
        _ => None,
    }
}

/// Segments are what stands between slashes: a text without a slash is its only segment, and
/// a slash and such a text behind a path add it as the last one.
pub proof fn law_segments_stand_between_slashes(path: Seq<char>, name: Seq<char>)
    requires
        !name.contains('/'),
    ensures
        segments(name) == seq![name],
        segments(path + seq!['/'] + name) == segments(path).push(name),
    decreases name.len(),
{
    if name.len() == 0 {
        assert(name =~= Seq::<char>::empty());
        assert(seq![Seq::<char>::empty()] =~= seq![name]);
        assert((path + seq!['/'] + name).drop_last() =~= path);
        assert(segments(path).push(Seq::<char>::empty()) =~= segments(path).push(name));
    } else {
        let rest = name.drop_last();
        assert forall|i: int| 0 <= i < rest.len() implies rest[i] != '/' by {
            assert(name[i] == rest[i]);
            assert(name.contains(name[i]));
        }
        law_segments_stand_between_slashes(path, rest);
        assert(name.contains(name.last()));
        let whole = path + seq!['/'] + name;
        assert(whole.drop_last() =~= path + seq!['/'] + rest);
        assert(rest.push(name.last()) =~= name);
        assert(segments(whole) =~= segments(path).push(name));
        assert(segments(name) =~= seq![name]);
    }
}

/// A path whose segments are all names, and that does not start with a slash, has just these
/// names for its parts, and so leads down.
pub proof fn law_names_lead_down(path: Seq<char>)
    requires
        path.len() > 0 ==> path[0] != '/',
        forall|i: int| #![trigger segments(path)[i]]
            0 <= i < segments(path).len() ==> segments(path)[i].len() > 0 && segments(path)[i]
                != seq!['.'] && segments(path)[i] != seq!['.', '.'],
    ensures
        parts(path).len() == segments(path).len(),
        forall|i: int|
            0 <= i < segments(path).len() ==> #[trigger] parts(path)[i] == PathPartView::Normal(
                segments(path)[i],
            ),
        leads_down(parts(path)),
{
    lemma_names_are_parts(segments(path));
}

proof fn lemma_names_are_parts(segments: Seq<Seq<char>>)
    requires
        forall|i: int| #![trigger segments[i]]
            0 <= i < segments.len() ==> segments[i].len() > 0 && segments[i] != seq!['.']
                && segments[i] != seq!['.', '.'],
    ensures
        segment_parts(segments, false).len() == segments.len(),
        forall|i: int|
            0 <= i < segments.len() ==> #[trigger] segment_parts(segments, false)[i]
                == PathPartView::Normal(segments[i]),
    decreases segments.len(),
{
    if segments.len() > 0 {
        let rest = segments.drop_last();
        assert forall|i: int| #![trigger rest[i]] 0 <= i < rest.len() implies rest[i].len() > 0
            && rest[i] != seq!['.'] && rest[i] != seq!['.', '.'] by {
            assert(rest[i] == segments[i]);
        }
        lemma_names_are_parts(rest);
        let last = segments[segments.len() - 1];
        assert(last.len() > 0 && last != seq!['.'] && last != seq!['.', '.']);
    }
}

/// A segment of two dots is a way up, and a path with one, or with a slash at its start, does
/// not lead down.
pub proof fn law_ways_up_do_not_lead_down(path: Seq<char>, i: int)
    requires
        path.len() > 0 && path[0] == '/' || 0 <= i < segments(path).len() && segments(path)[i]
            == seq!['.', '.'],
    ensures
        !leads_down(parts(path)),
{
    if path.len() > 0 && path[0] == '/' {
        assert(parts(path)[0] is RootDir);
    } else {
        lemma_a_way_up_is_a_part(segments(path), i);
    }
}

proof fn lemma_a_way_up_is_a_part(segments: Seq<Seq<char>>, i: int)
    requires
        0 <= i < segments.len(),
        segments[i] == seq!['.', '.'],
    ensures
        exists|k: int|
            0 <= k < segment_parts(segments, false).len() && #[trigger] segment_parts(
                segments,
                false,
            )[k] is ParentDir,
    decreases segments.len(),
{
    let rest = segments.drop_last();
    let before = segment_parts(rest, false);
    let all = segment_parts(segments, false);
    if i < rest.len() {
        assert(rest[i] == segments[i]);
        lemma_a_way_up_is_a_part(rest, i);
        let k = choose|k: int| 0 <= k < before.len() && #[trigger] before[k] is ParentDir;
        assert(all[k] == before[k]);
    } else {
        assert(segments.last() == seq!['.', '.']);
        assert(segments.last().len() == 2);
        assert(segments.last() != seq!['.']);
        assert(all[before.len() as int] is ParentDir);
    }
}

} // verus!
