//! Naming the temporary file that a backup file is renamed from.

use vstd::prelude::*;
use vstd::string::*;

use crate::text::{characters, same_but_for_case};

#[allow(unused_imports)]
use crate::text::lower_case;

verus! {

/// Where the extension of a file name begins, with its dot, if that is before
/// `end`. A name that begins with its only dot has no extension.
pub open spec fn extension_before(name: Seq<char>, end: int) -> Option<int>
    decreases end,
{
    if end <= 1 {
        None
    } else if name[end - 1] == '.' {
        Some(end - 1)
    } else {
        extension_before(name, end - 1)
    }
}

/// A file name without its extension.
pub open spec fn stem(name: Seq<char>) -> Seq<char> {
    match extension_before(name, name.len() as int) {
        Some(dot) => name.take(dot),
        None => name,
    }
}

/// The name of the temporary file for the file `name`: the extension `tmp` takes
/// the place of its own, unless that would name the file itself. Some file
/// systems do not tell upper from lower case, so case makes no difference here.
pub open spec fn temporary_of(name: Seq<char>) -> Seq<char> {
    let renamed = stem(name) + ".tmp"@;
    if lower_case(renamed) == lower_case(name) {
        name + ".tmp"@
    } else {
        renamed
    }
}

/// The temporary file is never the file itself, not even where case makes no
/// difference.
pub proof fn law_temporary_is_another_file(name: Seq<char>)
    ensures
        lower_case(temporary_of(name)) != lower_case(name),
        temporary_of(name) != name,
{
    reveal_strlit(".tmp");
    assert(lower_case(name + ".tmp"@).len() == name.len() + 4);
    assert(lower_case(name).len() == name.len());
}

/// Finds the last dot after the first character.
fn find_extension(name: &Vec<char>) -> (result: Option<usize>)
    ensures
        match result {
            Some(dot) => extension_before(name@, name@.len() as int) == Some(dot as int),
            None => extension_before(name@, name@.len() as int) is None,
        },
{
    let mut end: usize = name.len();
    while end > 1
        invariant
            end <= name@.len(),
            extension_before(name@, name@.len() as int) == extension_before(name@, end as int),
        decreases end,
    {
        if name[end - 1] == '.' {
            return Some(end - 1);
        }
        end -= 1;
    }
    None
}

/// The name under which a backup is written before it is renamed to `name`, in
/// the same directory.
pub fn temporary_name(name: &str) -> (result: String)
    ensures
        result@ == temporary_of(name@),
        result@ != name@,
        lower_case(result@) != lower_case(name@),
{
    proof {
        law_temporary_is_another_file(name@);
    }
    let mut renamed: String = match find_extension(&characters(name)) {
        Some(dot) => {
            proof {
                lemma_extension_is_inside(name@, name@.len() as int);
            }
            String::from_str(name.substring_char(0, dot))
        },
        None => String::from_str(name),
    };
    assert(renamed@ == stem(name@));
    renamed.append(".tmp");
    if same_but_for_case(renamed.as_str(), name) {
        let mut extended: String = String::from_str(name);
        extended.append(".tmp");
        extended
    } else {
        renamed
    }
}

proof fn lemma_extension_is_inside(name: Seq<char>, end: int)
    requires
        0 <= end <= name.len(),
    ensures
        extension_before(name, end) matches Some(dot) ==> 1 <= dot < end,
    decreases end,
{
    if end > 1 && name[end - 1] != '.' {
        lemma_extension_is_inside(name, end - 1);
    }
}

/// The name of the temporary file, for every kind of name. Without an extension,
/// `.tmp` is added. An extension gives way to `tmp`, unless it is `tmp` itself in
/// any case; then `.tmp` is added to the whole.
pub proof fn law_names_of_temporary_files(front: Seq<char>, extension: Seq<char>)
    requires
        front.len() > 0,
        forall|i: int| 0 <= i < extension.len() ==> extension[i] != '.',
    ensures
        lower_case(extension) != "tmp"@ ==> temporary_of(front + seq!['.'] + extension) == front
            + ".tmp"@,
        lower_case(extension) == "tmp"@ ==> temporary_of(front + seq!['.'] + extension) == front
            + seq!['.'] + extension + ".tmp"@,
        (forall|i: int| 1 <= i < front.len() ==> front[i] != '.') ==> temporary_of(front) == front
            + ".tmp"@,
{
    reveal_strlit(".tmp");
    reveal_strlit("tmp");
    let name = front + seq!['.'] + extension;
    let dot = front.len() as int;
    lemma_extension_found(name, name.len() as int, dot);
    assert(name.take(dot) =~= front);
    let renamed = front + ".tmp"@;
    assert(name[dot] == '.');
    if lower_case(renamed) == lower_case(name) {
        assert(lower_case(renamed).skip(dot + 1) =~= "tmp"@);
        assert(lower_case(name).skip(dot + 1) =~= lower_case(extension));
    }
    if lower_case(extension) == "tmp"@ {
        assert(lower_case(extension).len() == 3);
        assert(lower_case(renamed) =~= lower_case(front) + ".tmp"@);
        assert(lower_case(name) =~= lower_case(front) + seq!['.'] + lower_case(extension));
        assert(lower_case(name) =~= lower_case(renamed));
    }
    if forall|i: int| 1 <= i < front.len() ==> front[i] != '.' {
        lemma_no_extension(front, front.len() as int);
        assert(lower_case(front + ".tmp"@).len() == front.len() + 4);
        assert(lower_case(front).len() == front.len());
    }
}

proof fn lemma_extension_found(name: Seq<char>, end: int, dot: int)
    requires
        1 <= dot < end <= name.len(),
        name[dot] == '.',
        forall|i: int| dot < i < end ==> name[i] != '.',
    ensures
        extension_before(name, end) == Some(dot),
    decreases end,
{
    if end - 1 > dot {
        lemma_extension_found(name, end - 1, dot);
    }
}

proof fn lemma_no_extension(name: Seq<char>, end: int)
    requires
        0 <= end <= name.len(),
        forall|i: int| 1 <= i < end ==> name[i] != '.',
    ensures
        extension_before(name, end) is None,
    decreases end,
{
    if end > 1 {
        lemma_no_extension(name, end - 1);
    }
}

} // verus!
