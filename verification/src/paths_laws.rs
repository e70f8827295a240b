//! What holds of every path.

use crate::paths::{
    extension_of, file_name, is_absolute, joined, layout, lemma_layout_segments, lemma_named_segments_behind,
    lemma_one_segment, lemma_segments_around_separator, lemma_segments_nonempty, named_segments, names_something,
    same_path, segments, starts_here,
};
use crate::text::joined_texts;
use vstd::prelude::*;

verus! {

// ---- segments -------------------------------------------------------------

/// No segment holds a separator, and a path is its segments with a separator
/// between each two.
pub proof fn paths_are_made_of_their_segments(path: Seq<char>)
    ensures
        segments(path).len() > 0,
        forall|i: int| 0 <= i < segments(path).len() ==> !(#[trigger] segments(path)[i]).contains('/'),
        joined_texts(segments(path), '/') == path,
    decreases path.len(),
{
    lemma_segments_nonempty(path);
    let all = segments(path);
    if path.len() == 0 {
        assert(joined_texts(all, '/') =~= path);
    } else {
        let shorter = path.drop_last();
        let before = segments(shorter);
        paths_are_made_of_their_segments(shorter);
        let nothing = Seq::<char>::empty();
        if path.last() == '/' {
            assert(all.drop_last() =~= before);
            assert(joined_texts(all, '/') =~= path);
        } else {
            let last = before.last();
            assert(!before[before.len() - 1].contains('/'));
            assert forall|i: int| 0 <= i < last.push(path.last()).len() implies last.push(
                path.last(),
            )[i] != '/' by {
                if i < last.len() {
                    assert(last.contains(last[i]));
                }
            }
            assert(all.drop_last() =~= before.drop_last());
            assert(all.last() == last.push(path.last()));
            assert(joined_texts(before, '/') == shorter);
            assert(joined_texts(all, '/') =~= shorter.push(path.last()));
            assert(shorter.push(path.last()) =~= path);
        }
        assert forall|i: int| 0 <= i < all.len() implies !(#[trigger] all[i]).contains('/') by {
            if i < all.len() - 1 {
                assert(all[i] == before[i]);
            }
        }
    }
}

/// Names without separators, joined by separators, are the segments of the path
/// that they make, however many there are.
pub proof fn joined_names_are_the_segments(names: Seq<Seq<char>>)
    requires
        names.len() > 0,
        forall|i: int| 0 <= i < names.len() ==> !(#[trigger] names[i]).contains('/'),
    ensures
        segments(joined_texts(names, '/')) == names,
    decreases names.len(),
{
    lemma_one_segment(names.last());
    if names.len() == 1 {
        assert(seq![names[0]] =~= names);
    } else {
        let front = names.drop_last();
        assert forall|i: int| 0 <= i < front.len() implies !(#[trigger] front[i]).contains('/') by {
            assert(front[i] == names[i]);
        }
        joined_names_are_the_segments(front);
        lemma_segments_around_separator(joined_texts(front, '/'), names.last());
        assert(front + seq![names.last()] =~= names);
    }
}

/// A further name comes behind the named segments of a path, unless it is empty
/// or the current directory: those two add nothing.
pub proof fn names_add_up(path: Seq<char>, name: Seq<char>)
    requires
        !name.contains('/'),
    ensures
        named_segments(name) == if name.len() == 0 || name == "."@ {
            Seq::empty()
        } else {
            seq![name]
        },
        named_segments(path + seq!['/'] + name) == if name.len() == 0 || name == "."@ {
            named_segments(path)
        } else {
            named_segments(path).push(name)
        },
{
    let keep = |segment: Seq<char>| names_something(segment);
    lemma_one_segment(name);
    assert(named_segments(name) =~= if name.len() == 0 || name == "."@ {
        Seq::empty()
    } else {
        seq![name]
    }) by {
        reveal_with_fuel(Seq::filter, 2);
    }
    assert(path + seq!['/'] + name =~= path.push('/') + name);
    lemma_segments_around_separator(path, name);
    Seq::filter_distributes_over_add(segments(path), segments(name), keep);
    assert(named_segments(path + seq!['/'] + name) =~= if name.len() == 0 || name == "."@ {
        named_segments(path)
    } else {
        named_segments(path).push(name)
    });
}

// ---- joining --------------------------------------------------------------

/// A part that starts at the root replaces the path. Any other part stands
/// behind the path, parted from it by one separator at least and by no separator
/// that the path has not brought itself or needs.
pub proof fn joining_puts_the_part_behind(base: Seq<char>, part: Seq<char>)
    ensures
        part.len() > 0 && part[0] == '/' ==> joined(base, part) == part,
        !(part.len() > 0 && part[0] == '/') ==> {
            &&& base.is_prefix_of(joined(base, part))
            &&& part.is_suffix_of(joined(base, part))
            &&& base.len() == 0 ==> joined(base, part) == part
            &&& base.len() > 0 && base[base.len() - 1] == '/' ==> joined(base, part).len()
                == base.len() + part.len()
            &&& base.len() > 0 && base[base.len() - 1] != '/' ==> joined(base, part).len()
                == base.len() + 1 + part.len() && joined(base, part)[base.len() as int] == '/'
        },
{
    let path = joined(base, part);
    if !(part.len() > 0 && part[0] == '/') {
        assert(base =~= path.subrange(0, base.len() as int));
        assert(part =~= path.subrange(path.len() - part.len(), path.len() as int));
        assert(base.len() == 0 ==> path =~= part);
    }
}

/// The directories under the storage root, in order, and nothing else.
pub proof fn storage_has_three_slots(dir: Seq<char>)
    ensures
        layout(dir).len() == 3,
        named_segments(layout(dir)[0]) == named_segments(dir).push("sys"@),
        named_segments(layout(dir)[1]) == named_segments(dir).push("files"@),
        named_segments(layout(dir)[2]) == named_segments(dir).push("config"@),
        "sys"@.is_suffix_of(layout(dir)[0]),
        "files"@.is_suffix_of(layout(dir)[1]),
        "config"@.is_suffix_of(layout(dir)[2]),
        dir.is_prefix_of(layout(dir)[0]),
        dir.is_prefix_of(layout(dir)[1]),
        dir.is_prefix_of(layout(dir)[2]),
        layout(dir)[0].len() <= dir.len() + 4,
        layout(dir)[1].len() <= dir.len() + 6,
        layout(dir)[2].len() <= dir.len() + 7,
{
    reveal_strlit("sys");
    reveal_strlit("files");
    reveal_strlit("config");
    lemma_layout_segments(dir);
    joining_puts_the_part_behind(dir, "sys"@);
    joining_puts_the_part_behind(dir, "files"@);
    joining_puts_the_part_behind(dir, "config"@);
}

// ---- file names and extensions --------------------------------------------

/// A path ends in a file name where its last segment is a name, and separators
/// and current directories behind that do not count. The parent directory is no
/// file name, and neither is nothing at all.
pub proof fn file_name_comes_last(path: Seq<char>, name: Seq<char>)
    requires
        !name.contains('/'),
        name.len() > 0,
        name != "."@,
    ensures
        name != ".."@ ==> file_name(path + seq!['/'] + name) == Some(name) && file_name(name)
            == Some(name),
        name == ".."@ ==> file_name(path + seq!['/'] + name) is None && file_name(name) is None,
        file_name(path + seq!['/']) == file_name(path),
        file_name(path + seq!['/', '.']) == file_name(path),
        file_name(Seq::empty()) is None,
{
    let nothing = Seq::<char>::empty();
    names_add_up(path, name);
    names_add_up(path, nothing);
    assert(path + seq!['/'] + nothing =~= path + seq!['/']);
    reveal_strlit(".");
    assert(path + seq!['/'] + "."@ =~= path + seq!['/', '.']);
    names_add_up(path, "."@);
    names_add_up(nothing, nothing);
}

/// The extension of a file is what stands behind the last dot of its name,
/// wherever the file lies. Where the name has no dot, or begins with its only
/// one, there is none; nor has a path an extension that ends in no file name.
pub proof fn extension_stands_behind_the_last_dot(
    dir: Seq<char>,
    stem: Seq<char>,
    extension: Seq<char>,
)
    requires
        !stem.contains('/') && !extension.contains('/'),
        !extension.contains('.'),
    ensures
        stem.len() > 0 && stem + seq!['.'] + extension != ".."@ ==> extension_of(
            dir + seq!['/'] + stem + seq!['.'] + extension,
        ) == Some(extension) && extension_of(stem + seq!['.'] + extension) == Some(extension),
        extension.len() > 0 ==> extension_of(dir + seq!['/', '.'] + extension) is None,
        extension.len() > 0 ==> extension_of(dir + seq!['/'] + extension) is None,
        extension_of(extension) is None,
{
    reveal_strlit(".");
    reveal_strlit("..");
    let name = stem + seq!['.'] + extension;
    assert forall|i: int| 0 <= i < name.len() implies name[i] != '/' by {
        if i < stem.len() {
            assert(stem.contains(stem[i]));
        } else if i > stem.len() {
            assert(extension.contains(extension[i - stem.len() - 1]));
        }
    }
    if stem.len() > 0 {
        assert(name != "."@);
        file_name_comes_last(dir, name);
        assert(dir + seq!['/'] + name =~= dir + seq!['/'] + stem + seq!['.'] + extension);
        lemma_last_dot(stem, extension);
    }
    let hidden = seq!['.'] + extension;
    let no_stem = Seq::<char>::empty();
    assert(hidden =~= no_stem + seq!['.'] + extension);
    assert forall|i: int| 0 <= i < hidden.len() implies hidden[i] != '/' by {
        if i > 0 {
            assert(extension.contains(extension[i - 1]));
        }
    }
    if extension.len() > 0 {
        assert(dir + seq!['/'] + hidden =~= dir + seq!['/', '.'] + extension);
        if hidden == ".."@ {
            assert(extension.contains(extension[0]));
            assert(hidden[1] == extension[0]);
        }
        file_name_comes_last(dir, hidden);
        lemma_last_dot(no_stem, extension);
        assert(extension.contains(extension[0]));
        if extension == ".."@ || extension == "."@ {
            assert(extension[0] == '.');
        }
        file_name_comes_last(dir, extension);
        extension.index_of_last_ensures('.');
    } else {
        assert(extension =~= no_stem);
        names_add_up(dir, no_stem);
    }
}

proof fn lemma_last_dot(stem: Seq<char>, extension: Seq<char>)
    requires
        !extension.contains('.'),
    ensures
        (stem + seq!['.'] + extension).index_of_last('.') == Some(stem.len() as int),
        (stem + seq!['.'] + extension).skip(stem.len() as int + 1) == extension,
{
    let name = stem + seq!['.'] + extension;
    name.index_of_last_ensures('.');
    assert(name[stem.len() as int] == '.');
    assert(name.contains('.'));
    let last = name.index_of_last('.')->0;
    if last > stem.len() {
        assert(extension[last - stem.len() - 1] == '.');
    }
    assert(name.skip(stem.len() as int + 1) =~= extension);
}

// ---- equality -------------------------------------------------------------

/// Two paths are the same exactly where both or neither start at the root, both
/// or neither spell out the current directory at their start, and both name the
/// same segments.
pub proof fn sameness_is_told_by_names_and_start(a: Seq<char>, b: Seq<char>)
    ensures
        same_path(a, b) <==> {
            &&& (a.len() > 0 && a[0] == '/') == (b.len() > 0 && b[0] == '/')
            &&& (segments(a)[0] == "."@) == (segments(b)[0] == "."@)
            &&& named_segments(a) == named_segments(b)
        },
{
}

/// Repeated separators do not count, nor does the current directory between two
/// of them.
pub proof fn idle_separators_do_not_count(front: Seq<char>, back: Seq<char>)
    ensures
        same_path(front + seq!['/'] + back, front + seq!['/', '/'] + back),
        same_path(front + seq!['/'] + back, front + seq!['/', '.', '/'] + back),
{
    let nothing = Seq::<char>::empty();
    reveal_strlit(".");
    lemma_idle_segment(front, nothing, back);
    lemma_idle_segment(front, "."@, back);
    assert(front.push('/') + nothing.push('/') + back =~= front + seq!['/', '/'] + back);
    assert(front.push('/') + "."@.push('/') + back =~= front + seq!['/', '.', '/'] + back);
    assert(front.push('/') + back =~= front + seq!['/'] + back);
}

proof fn lemma_idle_segment(front: Seq<char>, idle: Seq<char>, back: Seq<char>)
    requires
        idle.len() == 0 || idle == "."@,
    ensures
        same_path(front.push('/') + back, front.push('/') + idle.push('/') + back),
{
    let keep = |segment: Seq<char>| names_something(segment);
    let short = front.push('/') + back;
    let middle = idle.push('/') + back;
    let long = front.push('/') + idle.push('/') + back;
    reveal_strlit(".");
    assert(!idle.contains('/'));
    names_add_up(front, idle);
    lemma_segments_around_separator(front, back);
    lemma_segments_around_separator(idle, back);
    assert(long =~= front.push('/') + middle);
    lemma_segments_around_separator(front, middle);
    Seq::filter_distributes_over_add(segments(front), segments(back), keep);
    Seq::filter_distributes_over_add(segments(idle), segments(back), keep);
    Seq::filter_distributes_over_add(segments(front), segments(middle), keep);
    assert(named_segments(idle) =~= Seq::<Seq<char>>::empty());
    assert(named_segments(long) =~= named_segments(short));
    lemma_segments_nonempty(front);
}

/// Different names under one path are different paths; so are a path from the
/// root and the one that is spelled alike without the root.
pub proof fn different_names_are_different_paths(
    base: Seq<char>,
    one: Seq<char>,
    other: Seq<char>,
)
    requires
        !one.contains('/') && !other.contains('/'),
        one.len() > 0 && one != "."@,
        other.len() > 0 && other != "."@,
    ensures
        same_path(joined(base, one), joined(base, other)) <==> one == other,
        !same_path(joined(base, one), base),
        !same_path(seq!['/'] + one, one),
        !same_path(seq!['.', '/'] + one, one),
{
    lemma_named_segments_behind(base, one);
    lemma_named_segments_behind(base, other);
    assert(named_segments(base).push(one).last() == one);
    assert(named_segments(base).push(other).last() == other);
    assert(one.contains(one[0]));
    reveal_strlit(".");
    let here = "."@;
    assert(seq!['.', '/'] + one =~= here.push('/') + one);
    lemma_segments_around_separator(here, one);
    assert(!here.contains('/'));
    lemma_one_segment(here);
    lemma_one_segment(one);
    assert(starts_here(seq!['.', '/'] + one));
    assert(!is_absolute(one));
}

} // verus!
