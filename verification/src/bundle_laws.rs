//! How archives are named, made and found, and what is written of an icon.
use vstd::prelude::*;

use crate::bundle::{
    archive_name_of, archive_path_of, archives_present, bundle_dir_of, bundle_names, entry_names,
    escaped, found_bundle, result_text, zip_steps,
};
use crate::command::Command;
use crate::path::{file_name_of, joined, name_extension, parent_of, PathStyle};
use crate::script::StepView;
use crate::text::last_index;
use crate::text_laws::the_last_place_is_the_last;

verus! {

pub(crate) proof fn lemma_archive_name(app_name: Seq<char>)
    ensures
        archive_name_of(app_name, "windows-x86_64-gnu"@) == app_name + "-windows-x86_64-gnu.zip"@,
        archive_name_of(app_name, "macos-arm"@) == app_name + "-macos-arm.zip"@,
        archive_name_of(app_name, "macos-intel"@) == app_name + "-macos-intel.zip"@,
{
    reveal_strlit("-");
    reveal_strlit(".zip");
    reveal_strlit("windows-x86_64-gnu");
    reveal_strlit("-windows-x86_64-gnu.zip");
    reveal_strlit("macos-arm");
    reveal_strlit("-macos-arm.zip");
    reveal_strlit("macos-intel");
    reveal_strlit("-macos-intel.zip");
    assert(archive_name_of(app_name, "windows-x86_64-gnu"@) =~= app_name
        + "-windows-x86_64-gnu.zip"@);
    assert(archive_name_of(app_name, "macos-arm"@) =~= app_name + "-macos-arm.zip"@);
    assert(archive_name_of(app_name, "macos-intel"@) =~= app_name + "-macos-intel.zip"@);
}

/// An archive is named after the application and the platform, and lies in the target directory
/// of the project.
pub proof fn an_archive_is_named_after_its_platform(
    style: PathStyle,
    root: Seq<char>,
    app_name: Seq<char>,
)
    ensures
        ({
            let target = joined(style, root, "target"@);
            &&& archive_path_of(style, root, app_name, "macos-arm"@) == joined(
                style,
                target,
                app_name + "-macos-arm.zip"@,
            )
            &&& archive_path_of(style, root, app_name, "macos-intel"@) == joined(
                style,
                target,
                app_name + "-macos-intel.zip"@,
            )
            &&& archive_path_of(style, root, app_name, "windows-x86_64-gnu"@) == joined(
                style,
                target,
                app_name + "-windows-x86_64-gnu.zip"@,
            )
        }),
{
    lemma_archive_name(app_name);
}

/// Where two names of archives are the same for one application, so are the platforms.
pub proof fn archives_of_two_platforms_have_two_names(
    app_name: Seq<char>,
    a: Seq<char>,
    b: Seq<char>,
)
    requires
        archive_name_of(app_name, a) == archive_name_of(app_name, b),
    ensures
        a == b,
        archive_name_of(app_name, a).len() == app_name.len() + a.len() + 5,
{
    reveal_strlit("-");
    reveal_strlit(".zip");
    let name = archive_name_of(app_name, a);
    let n = app_name.len() as int;
    assert(name.len() == n + a.len() + 5);
    assert(archive_name_of(app_name, b).len() == n + b.len() + 5);
    assert(name.subrange(n + 1, n + 1 + a.len()) =~= a);
    assert(name.subrange(n + 1, n + 1 + b.len()) =~= b);
}

/// What is archived is cleared away first where it was made before, then made beside its subject,
/// then moved to where it belongs.
pub proof fn an_archive_replaces_the_one_before(
    style: PathStyle,
    flag: Seq<char>,
    kind: Seq<char>,
    path: Seq<char>,
    output_dir: Seq<char>,
    name: Seq<char>,
)
    ensures
        ({
            let steps = zip_steps(style, flag, kind, path, output_dir, name);
            let output = joined(style, output_dir, name);
            &&& steps.len() >= 2
            &&& steps[0] == StepView::Clear { path: output }
            &&& file_name_of(style, path) is None ==> steps.len() == 2 && steps[1]
                == StepView::Fail { message: "invalid "@ + kind + " path"@ }
            &&& file_name_of(style, path) is Some && parent_of(style, path) is None ==> steps.len()
                == 2 && steps[1] == StepView::Fail { message: kind + " has no parent"@ }
            &&& file_name_of(style, path) matches Some(file) ==> parent_of(
                style,
                path,
            ) matches Some(dir) ==> {
                &&& steps.len() == 3
                &&& steps[1] matches StepView::Run { command, cleanup: None, failure }
                &&& failure == "failed to archive "@ + path
                &&& command.program == "zip"@
                &&& command.args == seq![flag, name, file]
                &&& command.dir == Some(dir)
                &&& command.env is None
                &&& steps[2] == StepView::Rename { from: joined(style, dir, name), to: output }
            }
        }),
{
}

/// The entry is a name that ends in ".app", with something before that.
pub open spec fn names_bundle(entry: Option<Seq<char>>) -> bool {
    entry matches Some(name) && name.len() > 4 && name.subrange(name.len() - 4, name.len() as int)
        == ".app"@
}

pub(crate) proof fn lemma_app_extension(name: Seq<char>)
    ensures
        name_extension(name) == Some("app"@) <==> names_bundle(Some(name)),
{
    reveal_strlit("app");
    reveal_strlit(".app");
    let n = name.len() as int;
    let dot = last_index(name, '.');
    the_last_place_is_the_last(name, '.');
    if names_bundle(Some(name)) {
        let end = name.subrange(n - 4, n);
        assert(end[0] == '.' && end[1] == 'a' && end[2] == 'p' && end[3] == 'p');
        assert(name[n - 4] == '.' && name[n - 3] == 'a' && name[n - 2] == 'p' && name[n - 1]
            == 'p');
        assert(dot == n - 4);
        assert(name.skip(dot + 1) =~= "app"@);
    }
    if name_extension(name) == Some("app"@) {
        let extension = name.skip(dot + 1);
        assert(extension.len() == 3);
        assert(extension[0] == 'a' && extension[1] == 'p' && extension[2] == 'p');
        assert(name.subrange(n - 4, n) =~= ".app"@);
    }
}

proof fn lemma_last_entry(entries: Seq<Option<Seq<char>>>)
    requires
        entries.len() > 0,
    ensures
        ({
            let before = bundle_names(entries.drop_last());
            bundle_names(entries) == if names_bundle(entries.last()) {
                before.push(entries.last()->0)
            } else {
                before
            }
        }),
{
    if entries.last() is Some {
        lemma_app_extension(entries.last()->0);
    }
}

proof fn lemma_no_bundle(entries: Seq<Option<Seq<char>>>)
    requires
        forall|i: int| 0 <= i < entries.len() ==> !names_bundle(#[trigger] entries[i]),
    ensures
        bundle_names(entries).len() == 0,
    decreases entries.len(),
{
    if entries.len() > 0 {
        lemma_last_entry(entries);
        assert(!names_bundle(entries[entries.len() - 1]));
        lemma_no_bundle(entries.drop_last());
    }
}

proof fn lemma_one_bundle(entries: Seq<Option<Seq<char>>>, i: int)
    requires
        0 <= i < entries.len(),
        names_bundle(entries[i]),
        forall|j: int| 0 <= j < entries.len() && j != i ==> !names_bundle(#[trigger] entries[j]),
    ensures
        bundle_names(entries) == seq![entries[i]->0],
    decreases entries.len(),
{
    let rest = entries.drop_last();
    lemma_last_entry(entries);
    if i + 1 == entries.len() {
        lemma_no_bundle(rest);
        assert(bundle_names(entries) =~= seq![entries[i]->0]);
    } else {
        assert(!names_bundle(entries[entries.len() - 1]));
        lemma_one_bundle(rest, i);
    }
}

proof fn lemma_some_bundle(entries: Seq<Option<Seq<char>>>, i: int)
    requires
        0 <= i < entries.len(),
        names_bundle(entries[i]),
    ensures
        bundle_names(entries).len() >= 1,
    decreases entries.len(),
{
    lemma_last_entry(entries);
    if i + 1 < entries.len() {
        lemma_some_bundle(entries.drop_last(), i);
    }
}

proof fn lemma_two_bundles(entries: Seq<Option<Seq<char>>>, i: int, j: int)
    requires
        0 <= i < j < entries.len(),
        names_bundle(entries[i]),
        names_bundle(entries[j]),
    ensures
        bundle_names(entries).len() >= 2,
    decreases entries.len(),
{
    lemma_last_entry(entries);
    if j + 1 < entries.len() {
        lemma_two_bundles(entries.drop_last(), i, j);
    } else {
        lemma_some_bundle(entries.drop_last(), i);
    }
}

/// A bundle is found exactly where one entry of the directory has a name that ends in ".app": it
/// is that one. Where none has, or more than one, that is the error.
pub proof fn the_only_bundle_is_found(
    style: PathStyle,
    dir: Seq<char>,
    entries: Seq<Option<Seq<char>>>,
)
    ensures
        (forall|i: int| 0 <= i < entries.len() ==> !names_bundle(#[trigger] entries[i]))
            ==> found_bundle(style, dir, entries) == Err::<Seq<char>, Seq<char>>(
            "no app bundle in "@ + dir,
        ),
        forall|i: int|
            {
                &&& 0 <= i < entries.len()
                &&& #[trigger] names_bundle(entries[i])
                &&& forall|j: int|
                    0 <= j < entries.len() && j != i ==> !names_bundle(#[trigger] entries[j])
            } ==> found_bundle(style, dir, entries) == Ok::<Seq<char>, Seq<char>>(
                joined(style, dir, entries[i]->0),
            ),
        forall|i: int, j: int|
            0 <= i < j < entries.len() && #[trigger] names_bundle(entries[i])
                && #[trigger] names_bundle(entries[j]) ==> found_bundle(style, dir, entries)
                == Err::<Seq<char>, Seq<char>>("multiple app bundles in "@ + dir),
{
    if forall|i: int| 0 <= i < entries.len() ==> !names_bundle(#[trigger] entries[i]) {
        lemma_no_bundle(entries);
    }
    assert forall|i: int|
        {
            &&& 0 <= i < entries.len()
            &&& #[trigger] names_bundle(entries[i])
            &&& forall|j: int|
                0 <= j < entries.len() && j != i ==> !names_bundle(#[trigger] entries[j])
        } implies found_bundle(style, dir, entries) == Ok::<Seq<char>, Seq<char>>(
        joined(style, dir, entries[i]->0),
    ) by {
        lemma_one_bundle(entries, i);
    }
    assert forall|i: int, j: int|
        0 <= i < j < entries.len() && #[trigger] names_bundle(entries[i])
            && #[trigger] names_bundle(entries[j]) implies found_bundle(style, dir, entries)
        == Err::<Seq<char>, Seq<char>>("multiple app bundles in "@ + dir) by {
        lemma_two_bundles(entries, i, j);
    }
}

/// Of the archives, those that are there are listed, each with its platform and in their order.
pub proof fn present_archives_are_listed_in_order(
    style: PathStyle,
    root: Seq<char>,
    app_name: Seq<char>,
    platforms: Seq<Seq<char>>,
    present: Seq<bool>,
    platform: Seq<char>,
)
    ensures
        archives_present(style, root, app_name, Seq::empty(), Seq::empty()) == Seq::<
            (Seq<char>, Seq<char>),
        >::empty(),
        archives_present(style, root, app_name, platforms.push(platform), present.push(false))
            == archives_present(style, root, app_name, platforms, present),
        archives_present(style, root, app_name, platforms.push(platform), present.push(true))
            == archives_present(style, root, app_name, platforms, present).push(
            (
                platform,
                joined(
                    style,
                    joined(style, root, "target"@),
                    app_name + "-"@ + platform + ".zip"@,
                ),
            ),
        ),
{
    assert(platforms.push(platform).drop_last() =~= platforms);
    assert(present.push(true).drop_last() =~= present);
    assert(present.push(false).drop_last() =~= present);
}

/// In a path that is written into a resource script, a backslash or a quotation mark gets a
/// backslash before it, and every other character stays as it is.
pub proof fn only_quotes_and_backslashes_are_escaped(text: Seq<char>, c: char)
    ensures
        escaped(Seq::empty()) == Seq::<char>::empty(),
        c == '"' || c == '\\' ==> escaped(text.push(c)) == escaped(text).push('\\').push(c),
        c != '"' && c != '\\' ==> escaped(text.push(c)) == escaped(text).push(c),
    decreases text.len(),
{
    let all = text.push(c);
    if text.len() == 0 {
        assert(all.drop_first() =~= Seq::empty());
        assert(escaped(all.drop_first()) =~= Seq::empty());
        if c == '"' || c == '\\' {
            assert(escaped(all) =~= escaped(text).push('\\').push(c));
        } else {
            assert(escaped(all) =~= escaped(text).push(c));
        }
    } else {
        only_quotes_and_backslashes_are_escaped(text.drop_first(), c);
        assert(all.drop_first() =~= text.drop_first().push(c));
        if c == '"' || c == '\\' {
            assert(escaped(all) =~= escaped(text).push('\\').push(c));
        } else {
            assert(escaped(all) =~= escaped(text).push(c));
        }
    }
}

/// What is said of a command holds of its very fields.
pub proof fn a_command_is_what_its_fields_say(command: Command, i: int)
    ensures
        command@.program == command.program@,
        command@.args.len() == command.args@.len(),
        0 <= i < command.args@.len() ==> command@.args[i] == command.args@[i]@,
        command.dir matches Some(dir) ==> command@.dir == Some(dir@),
        command.dir is None <==> command@.dir is None,
        command.env matches Some(env) ==> command@.env == Some((env.0@, env.1@)),
        command.env is None <==> command@.env is None,
{
}

/// What is said of a list of entries, or of a result, holds of its very texts.
pub proof fn entries_are_what_their_texts_say(
    entries: Seq<Option<String>>,
    result: Result<String, String>,
    i: int,
)
    requires
        0 <= i < entries.len(),
    ensures
        entry_names(entries).len() == entries.len(),
        entries[i] matches Some(name) ==> entry_names(entries)[i] == Some(name@),
        entries[i] is None ==> entry_names(entries)[i] is None,
        result matches Ok(text) ==> result_text(result) == Ok::<Seq<char>, Seq<char>>(text@),
        result matches Err(text) ==> result_text(result) == Err::<Seq<char>, Seq<char>>(text@),
{
}

/// The bundles of a target lie in its directory of release bundles, and an archive of any platform
/// in the target directory of the project, under the names of both.
pub proof fn products_lie_in_the_target_directory(
    style: PathStyle,
    root: Seq<char>,
    target: Seq<char>,
    app_name: Seq<char>,
    platform: Seq<char>,
)
    ensures
        bundle_dir_of(style, root, target) == joined(
            style,
            joined(style, joined(style, root, "target"@), target),
            "release/bundle/osx"@,
        ),
        archive_name_of(app_name, platform) == app_name + "-"@ + platform + ".zip"@,
        archive_path_of(style, root, app_name, platform) == joined(
            style,
            joined(style, root, "target"@),
            app_name + "-"@ + platform + ".zip"@,
        ),
{
}

} // verus!
