//! Which names of an archive stay inside the directory to extract to, and what becomes of them.
use vstd::prelude::*;

use crate::archive::{
    depth, slashed, stays_inside, step_fits, step_of, steps_fit, zip_entry, zip_entry_count,
    ArchiveEntry, ExtractStep,
};
use crate::error::UpdateError;
use crate::text::pieces;

verus! {

/// The parts of a name lead one down each, but for those that are empty or one dot, which lead
/// nowhere, and two dots, which lead up and must not lead out.
pub proof fn each_part_leads_one_way(parts: Seq<Seq<char>>, part: Seq<char>)
    ensures
        depth(Seq::empty()) == Some(0nat),
        depth(parts) is None ==> depth(parts.push(part)) is None,
        depth(parts) matches Some(d) ==> {
            &&& part == seq!['.', '.'] && d == 0 ==> depth(parts.push(part)) is None
            &&& part == seq!['.', '.'] && d > 0 ==> depth(parts.push(part)) == Some((d - 1) as nat)
            &&& part == seq!['.'] || part.len() == 0 ==> depth(parts.push(part)) == Some(d)
            &&& part != seq!['.', '.'] && part != seq!['.'] && part.len() > 0 ==> depth(
                parts.push(part),
            ) == Some(d + 1)
        },
{
    reveal_strlit("..");
    reveal_strlit(".");
    reveal_strlit("");
    assert(".."@ =~= seq!['.', '.']);
    assert("."@ =~= seq!['.']);
    assert(part.len() == 0 <==> part =~= ""@);
    assert(parts.push(part).drop_last() =~= parts);
}

proof fn lemma_out_is_out(parts: Seq<Seq<char>>, n: int)
    requires
        0 <= n <= parts.len(),
        depth(parts.take(n)) is None,
    ensures
        depth(parts) is None,
    decreases parts.len(),
{
    if n < parts.len() {
        assert(parts.drop_last().take(n) =~= parts.take(n));
        lemma_out_is_out(parts.drop_last(), n);
    } else {
        assert(parts.take(n) =~= parts);
    }
}

proof fn lemma_down_is_in(parts: Seq<Seq<char>>)
    requires
        forall|i: int| 0 <= i < parts.len() ==> #[trigger] parts[i] != seq!['.', '.'],
    ensures
        depth(parts) is Some,
    decreases parts.len(),
{
    if parts.len() > 0 {
        let rest = parts.drop_last();
        assert forall|i: int| 0 <= i < rest.len() implies #[trigger] rest[i] != seq!['.', '.'] by {
            assert(rest[i] == parts[i]);
        }
        lemma_down_is_in(rest);
        each_part_leads_one_way(rest, parts.last());
        assert(rest.push(parts.last()) =~= parts);
        assert(parts[parts.len() - 1] != seq!['.', '.']);
    }
}

/// Where a backslash does not separate, a name stays inside that is not absolute, has no null
/// character and never leads up; one that leads up further than it has led down does not, at
/// whatever part it does, nor does an absolute one or one with a null character.
pub proof fn a_name_stays_inside_that_never_leads_out(name: Seq<char>, n: int)
    ensures
        name.len() > 0 && name[0] == '/' ==> !stays_inside(name, false),
        name.contains('\0') ==> !stays_inside(name, false) && !stays_inside(name, true),
        0 <= n <= pieces(name, '/').len() && depth(pieces(name, '/').take(n)) is None
            ==> !stays_inside(name, false),
        !name.contains('\0') && (name.len() == 0 || name[0] != '/') && (forall|i: int|
            0 <= i < pieces(name, '/').len() ==> #[trigger] pieces(name, '/')[i] != seq![
                '.',
                '.',
            ]) ==> stays_inside(name, false),
{
    let parts = pieces(name, '/');
    if 0 <= n <= parts.len() && depth(parts.take(n)) is None {
        lemma_out_is_out(parts, n);
    }
    if forall|i: int| 0 <= i < parts.len() ==> #[trigger] parts[i] != seq!['.', '.'] {
        lemma_down_is_in(parts);
    }
    if name.contains('\0') {
        let same = slashed(name);
        let i = choose|i: int| 0 <= i < name.len() && name[i] == '\0';
        assert(same[i] == '\0');
        assert(same.contains('\0'));
    }
}

/// Where a backslash separates, a name stays inside exactly where it does with a slash in the place
/// of each backslash, and begins with no letter and colon; where none is in it, it makes no
/// difference but for that.
pub proof fn backslashes_are_read_as_slashes(name: Seq<char>, same: Seq<char>)
    requires
        same.len() == name.len(),
        forall|i: int|
            0 <= i < name.len() ==> #[trigger] same[i] == (if name[i] == '\\' {
                '/'
            } else {
                name[i]
            }),
    ensures
        stays_inside(name, true) <==> {
            let letter = ('a' <= name[0] && name[0] <= 'z') || ('A' <= name[0] && name[0] <= 'Z');
            stays_inside(same, false) && !(name.len() >= 2 && letter && name[1] == ':')
        },
{
    assert(slashed(name) =~= same);
    if !name.contains('\\') {
        assert forall|i: int| 0 <= i < name.len() implies name[i] != '\\' by {
            assert(name.contains(name[i]));
        }
        assert(same =~= name);
    }
}

/// A whole extraction takes one step for each entry, in their order, and where it takes fewer the
/// last of them fails; an entry that cannot be read is one where it does.
pub proof fn every_entry_is_extracted_in_its_turn<E>(
    bytes: Seq<u8>,
    backslash: bool,
    steps: Seq<ExtractStep<E>>,
    i: int,
)
    requires
        steps_fit(bytes, backslash, steps),
    ensures
        (forall|j: int| 0 <= j < steps.len() ==> !(#[trigger] steps[j] is Fail)) ==> steps.len()
            == zip_entry_count(bytes),
        steps.len() <= zip_entry_count(bytes),
        0 <= i < steps.len() - 1 ==> !(steps[i] is Fail),
        0 <= i < steps.len() && zip_entry(bytes, i as nat) is None ==> i == steps.len() - 1 && (
        steps[i] matches ExtractStep::Fail(UpdateError::Zip(_))),
{
    if 0 <= i < steps.len() {
        assert(step_fits(bytes, backslash, i, steps[i]));
    }
}

/// An entry without a path is refused by its name; else its path is a directory where its name
/// ends in a slash, and a file with the mode of the entry where it does not.
pub proof fn an_entry_is_a_directory_by_its_last_character<E>(index: usize, entry: ArchiveEntry)
    ensures
        ({
            let step = step_of::<E>(index, entry);
            let name = entry.name@;
            &&& entry.enclosed_name is None ==> step == ExtractStep::<E>::Fail(
                UpdateError::UnsafeArchivePath(entry.name),
            )
            &&& entry.enclosed_name matches Some(path) ==> {
                &&& name.len() > 0 && name[name.len() - 1] == '/' ==> step
                    == (ExtractStep::<E>::CreateDir { path })
                &&& name.len() == 0 || name[name.len() - 1] != '/' ==> step
                    == (ExtractStep::<E>::CreateFile { index, path, unix_mode: entry.unix_mode })
            }
        }),
{
}

/// An entry becomes a directory where its name ends in a slash, else a file with its content and
/// its mode, in either case at the path that its name is; or it is refused for that name.
pub proof fn an_entry_becomes_what_its_name_says<E>(
    bytes: Seq<u8>,
    backslash: bool,
    index: int,
    step: ExtractStep<E>,
    name: Seq<char>,
    unix_mode: Option<u32>,
)
    requires
        step_fits(bytes, backslash, index, step),
        zip_entry(bytes, index as nat) == Some((name, unix_mode)),
    ensures
        match step {
            ExtractStep::CreateDir { path } => path@ == name && name.len() > 0 && name.last()
                == '/' && stays_inside(name, backslash),
            ExtractStep::CreateFile { index: at, path, unix_mode: mode } => {
                &&& path@ == name
                &&& at == index as usize
                &&& mode == unix_mode
                &&& name.len() == 0 || name.last() != '/'
                &&& stays_inside(name, backslash)
            },
            ExtractStep::Fail(UpdateError::UnsafeArchivePath(refused)) => refused@ == name && (
            !stays_inside(name, backslash) || (backslash && name.len() >= 2 && name[1] == ':')),
            ExtractStep::Fail(_) => false,
        },
{
}

} // verus!
