//! The names that paths end in.

use vstd::prelude::*;

use crate::strings::same_bytes;

verus! {

/// The byte between the names in a path.
pub const SEPARATOR: u8 = 47;

/// The byte before the extension of a name.
pub const DOT: u8 = 46;

/// The names in a path: what stands between separators.
pub open spec fn components(path: Seq<u8>) -> Seq<Seq<u8>>
    decreases path.len(),
{
    if path.len() == 0 {
        seq![Seq::empty()]
    } else {
        let rest = components(path.drop_last());
        if path.last() == SEPARATOR {
            rest.push(Seq::empty())
        } else {
            rest.update(rest.len() - 1, rest.last().push(path.last()))
        }
    }
}

/// Whether a name says nothing: an empty one, or the one that stands for the directory itself.
pub open spec fn says_nothing(name: Seq<u8>) -> bool {
    name.len() == 0 || name == seq![DOT]
}

/// The last of some names that says something, unless it stands for the directory above.
pub open spec fn last_name(names: Seq<Seq<u8>>) -> Option<Seq<u8>>
    decreases names.len(),
{
    if names.len() == 0 {
        None
    } else if says_nothing(names.last()) {
        last_name(names.drop_last())
    } else if names.last() == seq![DOT, DOT] {
        None
    } else {
        Some(names.last())
    }
}

/// The name of the file that a path leads to.
pub open spec fn file_name(path: Seq<u8>) -> Option<Seq<u8>> {
    last_name(components(path))
}

/// Where the last dot of a name stands, if there is one.
pub open spec fn last_dot(name: Seq<u8>) -> Option<int>
    decreases name.len(),
{
    if name.len() == 0 {
        None
    } else if name.last() == DOT {
        Some(name.len() - 1)
    } else {
        last_dot(name.drop_last())
    }
}

/// The extension of a name: what follows its last dot, unless it begins with that.
pub open spec fn extension_of(name: Seq<u8>) -> Option<Seq<u8>> {
    match last_dot(name) {
        Some(dot) => if dot == 0 {
            None
        } else {
            Some(name.skip(dot + 1))
        },
        None => None,
    }
}

/// The extension of the file that a path leads to.
pub open spec fn extension(path: Seq<u8>) -> Option<Seq<u8>> {
    match file_name(path) {
        Some(name) => extension_of(name),
        None => None,
    }
}

/// A copy of some bytes.
fn copy(bytes: &[u8], start: usize, end: usize) -> (copied: Vec<u8>)
    requires
        start <= end <= bytes@.len(),
    ensures
        copied@ == bytes@.subrange(start as int, end as int),
{
    let mut copied: Vec<u8> = Vec::new();
    let mut index: usize = start;
    while index < end
        invariant
            start <= index <= end <= bytes@.len(),
            copied@ == bytes@.subrange(start as int, index as int),
        decreases end - index,
    {
        copied.push(bytes[index]);
        index += 1;
        assert(copied@ =~= bytes@.subrange(start as int, index as int));
    }
    copied
}

/// What the names of a path are when its last name begins at `start`.
proof fn lemma_last_component(path: Seq<u8>, start: int)
    requires
        0 <= start <= path.len(),
        start == 0 || path[start - 1] == SEPARATOR,
        forall|at: int| start <= at < path.len() ==> path[at] != SEPARATOR,
    ensures
        components(path).len() > 0,
        components(path).last() == path.skip(start),
        start > 0 ==> components(path).drop_last() == components(path.take(start - 1)),
        start == 0 ==> components(path).len() == 1,
    decreases path.len(),
{
    if path.len() == 0 {
        assert(path.skip(start) =~= Seq::<u8>::empty());
    } else if start == path.len() {
        assert(path.skip(start) =~= Seq::<u8>::empty());
        assert(path.drop_last() =~= path.take(start - 1));
        assert(components(path).drop_last() =~= components(path.take(start - 1)));
    } else {
        let shorter = path.drop_last();
        lemma_last_component(shorter, start);
        let rest = components(shorter);
        assert(path.skip(start) =~= shorter.skip(start).push(path.last()));
        if start > 0 {
            assert(shorter.take(start - 1) =~= path.take(start - 1));
            assert(components(path).drop_last() =~= rest.drop_last());
        }
    }
}

/// The name of the file that a path leads to.
pub fn find_file_name(path: &[u8]) -> (name: Option<Vec<u8>>)
    ensures
        match name {
            Some(name) => file_name(path@) == Some(name@),
            None => file_name(path@) is None,
        },
{
    let mut end: usize = path.len();
    assert(path@.take(end as int) =~= path@);
    loop
        invariant
            end <= path@.len(),
            file_name(path@) == file_name(path@.take(end as int)),
        decreases end,
    {
        let mut start: usize = end;
        while start > 0 && path[start - 1] != SEPARATOR
            invariant
                start <= end <= path@.len(),
                forall|at: int| start <= at < end ==> path@[at] != SEPARATOR,
            decreases start,
        {
            start -= 1;
        }
        let ghost part = path@.take(end as int);
        let name: Vec<u8> = copy(path, start, end);
        proof {
            lemma_last_component(part, start as int);
            assert(part.skip(start as int) =~= name@);
        }
        let is_dot: bool = name.len() == 1 && name[0] == DOT;
        let is_up: bool = name.len() == 2 && name[0] == DOT && name[1] == DOT;
        proof {
            if is_dot {
                assert(name@ =~= seq![DOT]);
            }
            if is_up {
                assert(name@ =~= seq![DOT, DOT]);
            }
        }
        if name.len() == 0 || is_dot {
            if start == 0 {
                assert(components(part).drop_last() =~= Seq::<Seq<u8>>::empty());
                assert(last_name(Seq::<Seq<u8>>::empty()) is None);
                return None;
            }
            assert(part.take(start - 1) =~= path@.take(start - 1));
            end = start - 1;
        } else if is_up {
            return None;
        } else {
            return Some(name);
        }
    }
}

/// The extension of a name.
pub fn find_extension(name: &[u8]) -> (found: Option<Vec<u8>>)
    ensures
        match found {
            Some(found) => extension_of(name@) == Some(found@),
            None => extension_of(name@) is None,
        },
{
    let mut end: usize = name.len();
    assert(name@.take(end as int) =~= name@);
    while end > 0
        invariant
            end <= name@.len(),
            last_dot(name@) == last_dot(name@.take(end as int)),
        decreases end,
    {
        assert(name@.take(end as int).drop_last() =~= name@.take(end - 1));
        if name[end - 1] == DOT {
            if end == 1 {
                return None;
            }
            let found: Vec<u8> = copy(name, end, name.len());
            assert(found@ =~= name@.skip(end as int));
            return Some(found);
        }
        end -= 1;
    }
    None
}

/// Whether a path ends in a suffix: in an extension, or in a name as a whole.
pub open spec fn ends_in(path: Seq<u8>, suffix: Seq<u8>) -> bool {
    extension(path) == Some(suffix) || file_name(path) == Some(suffix)
}

/// A path ends in its own name, and in its own extension.
pub proof fn law_path_ends_in_its_name(path: Seq<u8>)
    ensures
        file_name(path) matches Some(name) ==> ends_in(path, name),
        extension(path) matches Some(suffix) ==> ends_in(path, suffix),
{
}

/// Whether one of two names is some suffix.
pub fn is_suffix(extension: &Option<Vec<u8>>, name: &Option<Vec<u8>>, suffix: &[u8]) -> (found: bool)
    ensures
        found == ((extension matches Some(extension) && extension@ == suffix@) || (name matches Some(
            name,
        ) && name@ == suffix@)),
{
    let is_extension: bool = match extension {
        Some(extension) => same_bytes(extension.as_slice(), suffix),
        None => false,
    };
    let is_name: bool = match name {
        Some(name) => same_bytes(name.as_slice(), suffix),
        None => false,
    };
    is_extension || is_name
}

/// What stands behind the last slash of a path is the name of the file, unless it is empty, a dot or
/// two dots.
pub proof fn law_the_name_follows_the_last_slash(directory: Seq<u8>, name: Seq<u8>)
    requires
        forall|at: int| 0 <= at < name.len() ==> #[trigger] name[at] != 47,
        name.len() > 0,
        name != seq![46u8],
        name != seq![46u8, 46u8],
    ensures
        file_name(name) == Some(name),
        file_name(directory.push(47u8) + name) == Some(name),
{
    assert(name.skip(0) =~= name);
    lemma_last_component(name, 0);
    let path = directory.push(47u8) + name;
    let start = directory.len() as int + 1;
    assert forall|at: int| start <= at < path.len() implies path[at] != SEPARATOR by {
        assert(path[at] == name[at - start]);
    }
    lemma_last_component(path, start);
    assert(path.skip(start) =~= name);
}

/// A slash at the end of a path, with or without a dot behind it, does not change which file it leads
/// to; a path that ends in two dots, or says nothing, leads to none.
pub proof fn law_what_says_nothing_is_left_out(path: Seq<u8>)
    ensures
        file_name(path.push(47u8)) == file_name(path),
        file_name(path.push(47u8).push(46u8)) == file_name(path),
        file_name(path.push(47u8).push(46u8).push(46u8)) is None,
        file_name(Seq::<u8>::empty()) is None,
        file_name(seq![46u8]) is None,
        file_name(seq![46u8, 46u8]) is None,
{
    let slashed = path.push(47u8);
    let dotted = slashed.push(46u8);
    let upward = dotted.push(46u8);
    let start = path.len() as int + 1;
    lemma_last_component(slashed, start);
    lemma_last_component(dotted, start);
    lemma_last_component(upward, start);
    assert(slashed.take(start - 1) =~= path);
    assert(dotted.take(start - 1) =~= path);
    assert(slashed.skip(start) =~= Seq::<u8>::empty());
    assert(dotted.skip(start) =~= seq![46u8]);
    assert(upward.skip(start) =~= seq![46u8, 46u8]);
    let nothing = Seq::<u8>::empty();
    lemma_last_component(nothing, 0);
    assert(nothing.skip(0) =~= nothing);
    assert(components(nothing).drop_last() =~= Seq::empty());
    assert(last_name(Seq::<Seq<u8>>::empty()) is None);
    let dot = seq![46u8];
    lemma_last_component(dot, 0);
    assert(dot.skip(0) =~= dot);
    assert(components(dot).drop_last() =~= Seq::empty());
    let up = seq![46u8, 46u8];
    lemma_last_component(up, 0);
    assert(up.skip(0) =~= up);
}

/// What stands behind the last dot of a name is its extension, unless the name begins with that dot;
/// a name without a dot has none.
pub proof fn law_the_extension_follows_the_last_dot(stem: Seq<u8>, suffix: Seq<u8>)
    requires
        forall|at: int| 0 <= at < suffix.len() ==> #[trigger] suffix[at] != 46,
    ensures
        stem.len() > 0 ==> extension_of(stem.push(46u8) + suffix) == Some(suffix),
        extension_of(seq![46u8] + suffix) is None,
        extension_of(suffix) is None,
{
    let name = stem.push(46u8) + suffix;
    lemma_last_dot(name, stem.len() as int);
    assert(name.skip(stem.len() as int + 1) =~= suffix);
    lemma_last_dot(seq![46u8] + suffix, 0);
    lemma_no_dot(suffix);
}

/// The last dot stands where a dot is, and none behind it.
proof fn lemma_last_dot(name: Seq<u8>, dot: int)
    requires
        0 <= dot < name.len(),
        name[dot] == DOT,
        forall|at: int| dot < at < name.len() ==> #[trigger] name[at] != DOT,
    ensures
        last_dot(name) == Some(dot),
    decreases name.len(),
{
    if dot < name.len() - 1 {
        assert(name.last() == name[name.len() - 1]);
        lemma_last_dot(name.drop_last(), dot);
    }
}

/// A name without a dot has no last dot.
proof fn lemma_no_dot(name: Seq<u8>)
    requires
        forall|at: int| 0 <= at < name.len() ==> #[trigger] name[at] != DOT,
    ensures
        last_dot(name) is None,
    decreases name.len(),
{
    if name.len() > 0 {
        assert(name.last() == name[name.len() - 1]);
        lemma_no_dot(name.drop_last());
    }
}

/// A path ends in a suffix exactly if that is the name of its file, or follows the last dot of that
/// name.
pub proof fn law_what_a_path_ends_in(path: Seq<u8>, suffix: Seq<u8>)
    ensures
        ends_in(path, suffix) == (file_name(path) matches Some(name) && (name == suffix
            || extension_of(name) == Some(suffix))),
{
}

} // verus!
