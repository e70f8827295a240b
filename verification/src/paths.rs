//! Paths as text: joining them, their segments, file names and extensions, and
//! the layout of the storage root.

use crate::text::{characters, same_text, text_between, texts};
use vstd::prelude::*;

verus! {

// ---- joining --------------------------------------------------------------

/// A path with a further part behind it. An absolute part replaces the path;
/// any other part follows a separator, unless the path is empty or ends in one.
pub open spec fn joined(base: Seq<char>, part: Seq<char>) -> Seq<char> {
    if part.len() > 0 && part[0] == '/' {
        part
    } else if base.len() == 0 || base.last() == '/' {
        base + part
    } else {
        base.push('/') + part
    }
}

/// Joins a further part onto a path.
pub fn join_path(base: &str, part: &str) -> (path: String)
    ensures
        path@ == joined(base@, part@),
{
    let front = characters(base);
    let back = characters(part);
    if back.len() > 0 && back[0] == '/' {
        return part.to_owned();
    }
    let mut path = base.to_owned();
    if front.len() > 0 && front[front.len() - 1] != '/' {
        path.push('/');
    }
    path.append(part);
    path
}

// ---- segments -------------------------------------------------------------

/// What stands between the separators of a path. There is always one segment
/// more than there are separators.
pub open spec fn segments(path: Seq<char>) -> Seq<Seq<char>>
    decreases path.len(),
{
    if path.len() == 0 {
        seq![Seq::empty()]
    } else {
        let before = segments(path.drop_last());
        if path.last() == '/' {
            before.push(Seq::empty())
        } else {
            before.drop_last().push(before.last().push(path.last()))
        }
    }
}

/// Splits a path at its separators.
pub fn split_segments(path: &str) -> (parts: Vec<String>)
    ensures
        texts(parts@) == segments(path@),
{
    let chars = characters(path);
    let mut parts: Vec<String> = Vec::new();
    let mut part = String::new();
    let mut i: usize = 0;
    assert(segments(chars@.take(0)) == seq![Seq::<char>::empty()]);
    while i < chars.len()
        invariant
            chars@ == path@,
            i <= chars@.len(),
            texts(parts@).push(part@) =~= segments(path@.take(i as int)),
        decreases chars@.len() - i,
    {
        let c = chars[i];
        assert(path@.take(i + 1).drop_last() =~= path@.take(i as int));
        let ghost held = texts(parts@);
        if c == '/' {
            parts.push(part);
            assert(texts(parts@) =~= held.push(part@));
            part = String::new();
        } else {
            let ghost before = part@;
            part.push(c);
            assert(held.push(before).drop_last() =~= held);
        }
        i = i + 1;
    }
    assert(path@.take(i as int) =~= path@);
    let ghost held = texts(parts@);
    parts.push(part);
    assert(texts(parts@) =~= held.push(part@));
    parts
}

/// There is always a segment.
pub proof fn lemma_segments_nonempty(path: Seq<char>)
    ensures
        segments(path).len() > 0,
    decreases path.len(),
{
    if path.len() > 0 {
        lemma_segments_nonempty(path.drop_last());
    }
}

/// A path that does not begin with a separator has a first segment.
pub proof fn lemma_first_segment(s: Seq<char>)
    requires
        s.len() > 0,
        s[0] != '/',
    ensures
        segments(s)[0].len() > 0,
    decreases s.len(),
{
    lemma_segments_nonempty(s.drop_last());
    if s.len() == 1 {
        assert(s.drop_last() =~= Seq::<char>::empty());
    } else {
        lemma_first_segment(s.drop_last());
    }
}

/// A separator parts the segments before it from those behind it.
pub proof fn lemma_segments_around_separator(front: Seq<char>, back: Seq<char>)
    ensures
        segments(front.push('/') + back) == segments(front) + segments(back),
    decreases back.len(),
{
    let path = front.push('/') + back;
    if back.len() == 0 {
        assert(path.drop_last() =~= front);
        assert(segments(path) =~= segments(front) + segments(back));
    } else {
        lemma_segments_around_separator(front, back.drop_last());
        lemma_segments_nonempty(back.drop_last());
        assert(path.drop_last() =~= front.push('/') + back.drop_last());
        assert(segments(path) =~= segments(front) + segments(back));
    }
}

/// A segment that names something: neither empty nor the current directory.
pub open spec fn names_something(segment: Seq<char>) -> bool {
    segment.len() > 0 && segment != "."@
}

/// The segments of a path that name something.
pub open spec fn named_segments(path: Seq<char>) -> Seq<Seq<char>> {
    segments(path).filter(|segment: Seq<char>| names_something(segment))
}

/// Splits a path at its separators and keeps the segments that name something.
pub fn split_named_segments(path: &str) -> (named: Vec<String>)
    ensures
        texts(named@) == named_segments(path@),
{
    let parts = split_segments(path);
    let ghost keep = |segment: Seq<char>| names_something(segment);
    let ghost all = segments(path@);
    let mut named: Vec<String> = Vec::new();
    let mut i: usize = 0;
    assert(texts(named@) =~= all.take(0).filter(keep)) by {
        reveal(Seq::filter);
    }
    while i < parts.len()
        invariant
            i <= parts@.len(),
            texts(parts@) == all,
            all == segments(path@),
            keep == (|segment: Seq<char>| names_something(segment)),
            texts(named@) == all.take(i as int).filter(keep),
        decreases parts@.len() - i,
    {
        assert(parts@[i as int]@ == all[i as int]);
        assert(all.take(i + 1).filter(keep) == if keep(all[i as int]) {
            all.take(i as int).filter(keep).push(all[i as int])
        } else {
            all.take(i as int).filter(keep)
        }) by {
            reveal(Seq::filter);
            assert(all.take(i + 1).drop_last() =~= all.take(i as int));
        }
        let part = parts[i].as_str();
        if !part.is_empty() && !same_text(part, ".") {
            let ghost held = texts(named@);
            named.push(part.to_owned());
            assert(texts(named@) =~= held.push(part@));
        }
        i = i + 1;
    }
    assert(all.take(i as int) =~= all);
    named
}

/// The named segments of a joined path are those of its two parts.
pub proof fn lemma_named_segments_of_joined(base: Seq<char>, part: Seq<char>)
    requires
        !(part.len() > 0 && part[0] == '/'),
    ensures
        named_segments(joined(base, part)) == named_segments(base) + named_segments(part),
{
    let keep = |segment: Seq<char>| names_something(segment);
    let nothing = seq![Seq::<char>::empty()];
    assert(nothing.filter(keep) =~= Seq::<Seq<char>>::empty()) by {
        reveal_with_fuel(Seq::filter, 2);
    }
    if base.len() == 0 {
        assert(base + part =~= part);
        assert(segments(base) == nothing);
        assert(named_segments(base) + named_segments(part) =~= named_segments(part));
    } else {
        let front = if base.last() == '/' {
            base.drop_last()
        } else {
            base
        };
        assert(joined(base, part) =~= front.push('/') + part);
        lemma_segments_around_separator(front, part);
        Seq::filter_distributes_over_add(segments(front), segments(part), keep);
        if base.last() == '/' {
            assert(segments(base) =~= segments(front) + nothing);
            Seq::filter_distributes_over_add(segments(front), nothing, keep);
            assert(named_segments(base) =~= named_segments(front));
        }
    }
}

// ---- equality -------------------------------------------------------------

/// Whether a path starts at the root.
pub open spec fn is_absolute(path: Seq<char>) -> bool {
    path.len() > 0 && path[0] == '/'
}

/// Whether a path spells out that it starts in the current directory.
pub open spec fn starts_here(path: Seq<char>) -> bool {
    segments(path)[0] == "."@
}

/// Whether two texts are the same path: they start at the same place and name
/// the same segments. Repeated and trailing separators do not count, nor does
/// the current directory behind the start.
pub open spec fn same_path(a: Seq<char>, b: Seq<char>) -> bool {
    &&& is_absolute(a) == is_absolute(b)
    &&& starts_here(a) == starts_here(b)
    &&& named_segments(a) == named_segments(b)
}

fn begins_at_root(path: &str) -> (absolute: bool)
    ensures
        absolute == is_absolute(path@),
{
    let chars = characters(path);
    chars.len() > 0 && chars[0] == '/'
}

fn begins_here(path: &str) -> (here: bool)
    ensures
        here == starts_here(path@),
{
    let parts = split_segments(path);
    proof {
        lemma_segments_nonempty(path@);
        assert(texts(parts@)[0] == parts@[0]@);
    }
    same_text(parts[0].as_str(), ".")
}

/// Tests whether two texts are the same path.
pub fn equal_paths(a: &str, b: &str) -> (equal: bool)
    ensures
        equal == same_path(a@, b@),
{
    if begins_at_root(a) != begins_at_root(b) || begins_here(a) != begins_here(b) {
        return false;
    }
    let left = split_named_segments(a);
    let right = split_named_segments(b);
    let ghost ours = named_segments(a@);
    let ghost theirs = named_segments(b@);
    assert(ours.len() == left@.len() && theirs.len() == right@.len());
    if left.len() != right.len() {
        return false;
    }
    let mut i: usize = 0;
    while i < left.len()
        invariant
            i <= left@.len(),
            left@.len() == right@.len(),
            ours == named_segments(a@),
            theirs == named_segments(b@),
            texts(left@) == ours,
            texts(right@) == theirs,
            forall|k: int| 0 <= k < i ==> ours[k] == theirs[k],
        decreases left@.len() - i,
    {
        assert(left@[i as int]@ == ours[i as int]);
        assert(right@[i as int]@ == theirs[i as int]);
        if !same_text(left[i].as_str(), right[i].as_str()) {
            return false;
        }
        i = i + 1;
    }
    assert(ours =~= theirs);
    true
}

/// Sameness of paths is an equivalence, and texts that are spelled alike are
/// the same path.
pub proof fn same_path_is_an_equivalence(a: Seq<char>, b: Seq<char>, c: Seq<char>)
    ensures
        a == b ==> same_path(a, b),
        same_path(a, b) == same_path(b, a),
        same_path(a, b) && same_path(b, c) ==> same_path(a, c),
{
}

/// A separator at the end of a path does not count, unless the path is empty.
pub proof fn trailing_separator_does_not_count(path: Seq<char>)
    requires
        path.len() > 0,
    ensures
        same_path(path, path.push('/')),
{
    lemma_segments_nonempty(path);
    let nothing = Seq::<char>::empty();
    let longer = path.push('/');
    assert(longer.drop_last() =~= path);
    assert(segments(longer) == segments(path).push(nothing));
    let keep = |segment: Seq<char>| names_something(segment);
    assert(segments(longer).filter(keep) == segments(path).filter(keep)) by {
        reveal(Seq::filter);
        assert(segments(longer).drop_last() =~= segments(path));
    }
}

proof fn lemma_start_of_joined(base: Seq<char>, part: Seq<char>)
    requires
        base.len() > 0,
        !is_absolute(part),
    ensures
        is_absolute(joined(base, part)) == is_absolute(base),
        starts_here(joined(base, part)) == starts_here(base),
{
    let front = if base.last() == '/' {
        base.drop_last()
    } else {
        base
    };
    assert(joined(base, part) =~= front.push('/') + part);
    lemma_segments_around_separator(front, part);
    lemma_segments_nonempty(front);
    if base.last() == '/' {
        assert(segments(base) == segments(front).push(Seq::<char>::empty()));
    }
}

proof fn lemma_only_the_empty_path_is_empty(path: Seq<char>)
    requires
        same_path(path, Seq::<char>::empty()),
    ensures
        path.len() == 0,
{
    let nothing = Seq::<char>::empty();
    let keep = |segment: Seq<char>| names_something(segment);
    assert(named_segments(nothing) =~= Seq::<Seq<char>>::empty()) by {
        reveal_with_fuel(Seq::filter, 2);
    }
    reveal_strlit(".");
    assert(segments(nothing)[0].len() == 0);
    if path.len() > 0 {
        lemma_segments_nonempty(path);
        lemma_first_segment(path);
        segments(path).lemma_filter_contains(keep, 0);
        assert(named_segments(path).contains(segments(path)[0]));
    }
}

/// The same part behind the same path gives the same path.
pub proof fn joining_keeps_sameness(a: Seq<char>, b: Seq<char>, part: Seq<char>)
    requires
        same_path(a, b),
    ensures
        same_path(joined(a, part), joined(b, part)),
{
    if !is_absolute(part) {
        lemma_named_segments_of_joined(a, part);
        lemma_named_segments_of_joined(b, part);
        if a.len() == 0 || b.len() == 0 {
            let nothing = Seq::<char>::empty();
            assert(a.len() == 0 ==> a =~= nothing);
            assert(b.len() == 0 ==> b =~= nothing);
            lemma_only_the_empty_path_is_empty(if a.len() == 0 {
                b
            } else {
                a
            });
            assert(a =~= b);
        } else {
            lemma_start_of_joined(a, part);
            lemma_start_of_joined(b, part);
        }
    }
}

// ---- file names and extensions --------------------------------------------

/// The file name at the end of a path, if the path ends in one: its last named
/// segment, which must not be the parent directory.
pub open spec fn file_name(path: Seq<char>) -> Option<Seq<char>> {
    let named = named_segments(path);
    if named.len() > 0 && named.last() != ".."@ {
        Some(named.last())
    } else {
        None
    }
}

/// The part of a file name behind its last dot. A name without a dot has none,
/// and neither has one whose only dot comes first.
pub open spec fn name_extension(name: Seq<char>) -> Option<Seq<char>> {
    match name.index_of_last('.') {
        Some(dot) => if dot > 0 {
            Some(name.skip(dot + 1))
        } else {
            None
        },
        None => None,
    }
}

/// The extension of the file name at the end of a path.
pub open spec fn extension_of(path: Seq<char>) -> Option<Seq<char>> {
    match file_name(path) {
        Some(name) => name_extension(name),
        None => None,
    }
}

/// What an optional text holds.
pub open spec fn optional_text(text: Option<String>) -> Option<Seq<char>> {
    match text {
        Some(text) => Some(text@),
        None => None,
    }
}

/// Finds the file name at the end of a path.
pub fn path_file_name(path: &str) -> (name: Option<String>)
    ensures
        optional_text(name) == file_name(path@),
{
    let parts = split_named_segments(path);
    let ghost named = named_segments(path@);
    if parts.len() == 0 {
        return None;
    }
    let last = parts[parts.len() - 1].as_str();
    assert(last@ == named.last());
    if same_text(last, "..") {
        None
    } else {
        Some(last.to_owned())
    }
}

/// Finds the extension of the file name at the end of a path.
pub fn path_extension(path: &str) -> (extension: Option<String>)
    ensures
        optional_text(extension) == extension_of(path@),
{
    let name = match path_file_name(path) {
        Some(name) => name,
        None => {
            return None;
        },
    };
    let chars = characters(name.as_str());
    proof {
        name@.index_of_last_ensures('.');
    }
    let ghost last_dot = name@.index_of_last('.');
    let mut i: usize = chars.len();
    while i > 0
        invariant
            chars@ == name@,
            file_name(path@) == Some(name@),
            last_dot == name@.index_of_last('.'),
            last_dot is Some <==> name@.contains('.'),
            last_dot is Some ==> 0 <= last_dot->0 < name@.len() && name@[last_dot->0] == '.' && (
            forall|j: int| last_dot->0 < j < name@.len() ==> name@[j] != '.'),
            i <= chars@.len(),
            forall|k: int| i <= k < chars@.len() ==> chars@[k] != '.',
        decreases i,
    {
        i = i - 1;
        if chars[i] == '.' {
            if i == 0 {
                return None;
            }
            let found = text_between(&chars, i + 1, chars.len());
            assert(found@ =~= name@.skip(i + 1));
            return Some(found);
        }
    }
    None
}

// ---- the storage root -----------------------------------------------------

/// The directories under the storage root `dir`. `sys` is the node's system
/// home, `files` is app-owned storage that a supplier serves from only where a
/// surface is declared, `config` is the application's own configuration.
pub open spec fn layout(dir: Seq<char>) -> Seq<Seq<char>> {
    seq![joined(dir, "sys"@), joined(dir, "files"@), joined(dir, "config"@)]
}

/// The directories to create under the storage root.
pub fn data_layout(dir: &str) -> (directories: Vec<String>)
    ensures
        texts(directories@) == layout(dir@),
{
    let mut directories: Vec<String> = Vec::new();
    directories.push(join_path(dir, "sys"));
    directories.push(join_path(dir, "files"));
    directories.push(join_path(dir, "config"));
    assert(texts(directories@) =~= layout(dir@));
    directories
}

/// The named segments of the directories under the storage root.
pub proof fn lemma_layout_segments(dir: Seq<char>)
    ensures
        named_segments(joined(dir, "sys"@)) == named_segments(dir).push("sys"@),
        named_segments(joined(dir, "files"@)) == named_segments(dir).push("files"@),
        named_segments(joined(dir, "config"@)) == named_segments(dir).push("config"@),
{
    reveal_strlit("sys");
    reveal_strlit("files");
    reveal_strlit("config");
    reveal_strlit(".");
    assert("sys"@ =~= seq!['s', 'y', 's']);
    assert("files"@ =~= seq!['f', 'i', 'l', 'e', 's']);
    assert("config"@ =~= seq!['c', 'o', 'n', 'f', 'i', 'g']);
    assert("."@.len() == 1);
    lemma_named_segments_behind(dir, "sys"@);
    lemma_named_segments_behind(dir, "files"@);
    lemma_named_segments_behind(dir, "config"@);
}

/// Each directory of the layout lies right under the storage root, and no two
/// of them are the same.
pub proof fn layout_lies_under_the_root(dir: Seq<char>)
    ensures
        layout(dir).len() == 3,
        forall|i: int|
            0 <= i < 3 ==> dir.is_prefix_of(#[trigger] layout(dir)[i]) && named_segments(
                layout(dir)[i],
            ).drop_last() == named_segments(dir),
        forall|i: int, j: int|
            0 <= i < j < 3 ==> #[trigger] layout(dir)[i] != #[trigger] layout(dir)[j],
{
    reveal_strlit("sys");
    reveal_strlit("files");
    reveal_strlit("config");
    lemma_layout_segments(dir);
    assert forall|i: int| 0 <= i < 3 implies dir.is_prefix_of(#[trigger] layout(dir)[i])
        && named_segments(layout(dir)[i]).drop_last() == named_segments(dir) by {
        assert(dir =~= layout(dir)[i].subrange(0, dir.len() as int));
        assert(named_segments(layout(dir)[i]).drop_last() =~= named_segments(dir));
    }
    assert(joined(dir, "sys"@).len() != joined(dir, "files"@).len());
    assert(joined(dir, "sys"@).last() == 's');
    assert(joined(dir, "files"@).last() == 's');
    assert(joined(dir, "config"@).last() == 'g');
}

/// A text without a separator is its own only segment.
pub proof fn lemma_one_segment(text: Seq<char>)
    requires
        !text.contains('/'),
    ensures
        segments(text) == seq![text],
    decreases text.len(),
{
    if text.len() > 0 {
        assert(text[text.len() - 1] != '/');
        assert forall|i: int| 0 <= i < text.drop_last().len() implies text.drop_last()[i] != '/' by {
            assert(text[i] != '/');
        }
        lemma_one_segment(text.drop_last());
        assert(text.drop_last().push(text.last()) =~= text);
        assert(segments(text) =~= seq![text]);
    } else {
        assert(text =~= Seq::<char>::empty());
        assert(segments(text) =~= seq![text]);
    }
}

/// A name without a separator adds one named segment to a path.
pub proof fn lemma_named_segments_behind(base: Seq<char>, name: Seq<char>)
    requires
        !name.contains('/'),
        names_something(name),
    ensures
        named_segments(joined(base, name)) == named_segments(base).push(name),
{
    assert(name.contains(name[0]));
    lemma_one_segment(name);
    let keep = |segment: Seq<char>| names_something(segment);
    assert(named_segments(name) =~= seq![name]) by {
        reveal_with_fuel(Seq::filter, 2);
    }
    lemma_named_segments_of_joined(base, name);
    assert(named_segments(joined(base, name)) =~= named_segments(base).push(name));
}

} // verus!
