//! The name under which a patch set is stored when none is given.

use std::path::Path;
use vstd::prelude::*;

verus! {

/// Whether `part` stands somewhere in `whole`, in one piece.
pub open spec fn is_part_of(part: Seq<char>, whole: Seq<char>) -> bool {
    exists|start: int, end: int|
        0 <= start <= end <= whole.len() && #[trigger] whole.subrange(start, end) == part
}

/// Whether `name` is a bare file name on every platform: it is not empty, it
/// is neither `.` nor `..`, and it holds no `/`, no `\` and no `:`, so that no
/// platform finds a directory, a drive or a scheme in it.
pub open spec fn is_plain_name(name: Seq<char>) -> bool {
    &&& name.len() > 0
    &&& !(name.len() == 1 && name[0] == '.')
    &&& !(name.len() == 2 && name[0] == '.' && name[1] == '.')
    &&& forall|i: int|
        0 <= i < name.len() ==> {
            let c = #[trigger] name[i];
            c != '/' && c != '\\' && c != ':'
        }
}

/// Where the last dot of `name` stands, and -1 where `name` holds none.
pub open spec fn last_dot(name: Seq<char>) -> int
    decreases name.len(),
{
    if name.len() == 0 {
        -1
    } else if name.last() == '.' {
        name.len() - 1
    } else {
        last_dot(name.drop_last())
    }
}

/// The stem of a bare file name: what stands before its last dot. A name
/// without a dot, or whose only dot comes first, is its own stem.
pub open spec fn plain_stem(name: Seq<char>) -> Seq<char> {
    if last_dot(name) <= 0 {
        name
    } else {
        name.subrange(0, last_dot(name))
    }
}

/// The name of the patch set for a file whose name has the stem `stem`.
pub open spec fn json_name(stem: Seq<char>) -> Seq<char> {
    stem + ".json"@
}

/// `last_dot` finds a dot, and no dot comes after it.
pub proof fn lemma_last_dot(name: Seq<char>)
    ensures
        -1 <= last_dot(name) < name.len(),
        last_dot(name) >= 0 ==> name[last_dot(name)] == '.',
        forall|i: int| last_dot(name) < i < name.len() ==> #[trigger] name[i] != '.',
    decreases name.len(),
{
    if name.len() > 0 && name.last() != '.' {
        let shorter = name.drop_last();
        lemma_last_dot(shorter);
        assert forall|i: int| last_dot(name) < i < name.len() implies #[trigger] name[i]
            != '.' by {
            if i < shorter.len() {
                assert(shorter[i] != '.');
            }
        }
    }
}

/// The stem of a name that is not empty is not empty, and it is the piece with
/// which the name begins.
pub proof fn lemma_plain_stem(name: Seq<char>)
    requires
        name.len() > 0,
    ensures
        0 < plain_stem(name).len() <= name.len(),
        plain_stem(name) == name.subrange(0, plain_stem(name).len() as int),
        is_part_of(plain_stem(name), name),
{
    lemma_last_dot(name);
    let stem = plain_stem(name);
    assert(name.subrange(0, stem.len() as int) =~= stem);
}

/// Calls `Path::file_stem` of std on `filename`, and hands the stem back as
/// text. Std takes the last component of the path, as the platform finds it,
/// and gives what stands before its last dot, or all of it where it has no
/// dot or only begins with one; there is no stem where the path has no such
/// component. So a stem is never empty and is a piece of `filename`. A bare
/// file name is one component on every platform, so there the stem is
/// `plain_stem`. Which component is the last in any other path is left to the
/// platform, and nothing is claimed of it.
#[verifier::external_body]
fn file_stem(filename: &str) -> (stem: Option<String>)
    ensures
        stem matches Some(text) ==> text@.len() > 0 && is_part_of(text@, filename@),
        stem matches Some(text) ==> (is_plain_name(filename@) ==> text@ == plain_stem(filename@)),
        stem is None ==> !is_plain_name(filename@),
{
    let stem = Path::new(filename).file_stem()?;
    Some(stem.to_str()?.to_owned())
}

/// The stem with `.json` behind it; `.json` alone where there is no stem.
pub fn json_name_for(stem: Option<String>) -> (name: String)
    ensures
        name@ == json_name(
            match stem {
                Some(text) => text@,
                None => Seq::empty(),
            },
        ),
{
    let mut name = match stem {
        Some(text) => text,
        None => String::new(),
    };
    name.append(".json");
    name
}

/// The name under which the patch set for `filename` is stored by default: the
/// stem of `filename` with `.json` behind it. For a bare file name that is the
/// name up to its last dot, so `gimp.exe` gives `gimp.json`. For a path with
/// directories the platform says which part is the file's name; the result is
/// then some piece of `filename` with `.json` behind it, and `.json` alone
/// where the path names no file.
pub fn replace_extension_with_json(filename: &str) -> (name: String)
    ensures
        is_plain_name(filename@) ==> name@ == json_name(plain_stem(filename@)),
        exists|stem: Seq<char>| is_part_of(stem, filename@) && name@ == #[trigger] json_name(stem),
{
    let stem = file_stem(filename);
    proof {
        if stem is None {
            assert(filename@.subrange(0, 0) =~= Seq::<char>::empty());
            assert(is_part_of(Seq::<char>::empty(), filename@));
        }
    }
    json_name_for(stem)
}

} // verus!
