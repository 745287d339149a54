//! Handing the archives of a release to the version server.
use vstd::prelude::*;

use crate::build_run::{archives_for, RequestView};
use crate::bundle::{archive_path_of, archives_view};
use crate::command::{command_in, Command};
use crate::path::{join, joined, parent, parent_of, PathStyle};
use crate::script::{steps_view, Step, StepView};
use crate::text::texts;

verus! {

/// How an archive is named to the uploading program.
pub open spec fn archive_arg(archive: (Seq<char>, Seq<char>)) -> Seq<char> {
    archive.0 + "="@ + archive.1
}

/// The arguments of the uploading program.
pub open spec fn upload_args(
    version: Seq<char>,
    app_name: Seq<char>,
    archives: Seq<(Seq<char>, Seq<char>)>,
    prod: bool,
) -> Seq<Seq<char>> {
    let server = if prod {
        seq!["--prod"@]
    } else {
        Seq::empty()
    };
    server + seq!["upload"@, app_name, version] + archives.map_values(
        |archive: (Seq<char>, Seq<char>)| archive_arg(archive),
    )
}

/// The steps that upload a release: build the uploading program in the directory above
/// `manifest_dir`, and run it there.
pub open spec fn upload_steps(
    style: PathStyle,
    version: Seq<char>,
    app_name: Seq<char>,
    archives: Seq<(Seq<char>, Seq<char>)>,
    prod: bool,
    manifest_dir: Seq<char>,
) -> Seq<StepView> {
    match parent_of(style, manifest_dir) {
        None => seq![StepView::Fail { message: "missing app-update root"@ }],
        Some(root) => seq![
            StepView::Run {
                command: command_in(
                    root,
                    "cargo"@,
                    seq!["build"@, "--release"@, "--package"@, "app-update-cli"@],
                ),
                cleanup: None,
                failure: "failed to build app-update-cli"@,
            },
            StepView::Run {
                command: command_in(
                    root,
                    joined(style, root, "target/release/app-update-cli"@),
                    upload_args(version, app_name, archives, prod),
                ),
                cleanup: None,
                failure: "app-update-cli upload failed"@,
            },
        ],
    }
}

/// The steps that upload the archives, with the uploading program from the sources in the
/// directory above `manifest_dir`.
pub fn upload(
    style: PathStyle,
    version: &str,
    app_name: &str,
    archives: &Vec<(String, String)>,
    prod: bool,
    manifest_dir: &str,
) -> (steps: Vec<Step>)
    ensures
        steps_view(steps@) == upload_steps(
            style,
            version@,
            app_name@,
            archives_view(archives@),
            prod,
            manifest_dir@,
        ),
{
    let ghost given = archives_view(archives@);
    let ghost expected = upload_steps(style, version@, app_name@, given, prod, manifest_dir@);
    let root: String = match parent(style, manifest_dir) {
        Some(root) => root,
        None => {
            let steps: Vec<Step> = vec![
                Step::Fail { message: "missing app-update root".to_owned() },
            ];
            assert(steps_view(steps@) =~= expected);
            return steps;
        },
    };
    let build = Command::new(
        "cargo",
        vec!["build", "--release", "--package", "app-update-cli"],
    ).in_dir(
        root.as_str(),
    );
    assert(build@.args =~= expected[0]->command.args);
    let mut args: Vec<String> = Vec::new();
    if prod {
        args.push("--prod".to_owned());
    }
    args.push("upload".to_owned());
    args.push(app_name.to_owned());
    args.push(version.to_owned());
    assert(texts(args@) =~= upload_args(version@, app_name@, given.take(0), prod));
    for i in 0..archives.len()
        invariant
            given == archives_view(archives@),
            texts(args@) == upload_args(version@, app_name@, given.take(i as int), prod),
    {
        let ghost before = texts(args@);
        let arg: String = archives[i].0.clone().concat("=").concat(archives[i].1.as_str());
        args.push(arg);
        assert(arg@ == archive_arg(given[i as int]));
        assert(texts(args@) =~= before.push(arg@));
        assert(before.push(arg@) =~= upload_args(
            version@,
            app_name@,
            given.take(i + 1),
            prod,
        ));
    }
    assert(given.take(archives.len() as int) =~= given);
    let run = Command {
        program: join(style, root.as_str(), "target/release/app-update-cli"),
        args,
        dir: Some(root),
        env: None,
    };
    let steps: Vec<Step> = vec![
        Step::Run {
            command: build,
            cleanup: None,
            failure: "failed to build app-update-cli".to_owned(),
        },
        Step::Run {
            command: run,
            cleanup: None,
            failure: "app-update-cli upload failed".to_owned(),
        },
    ];
    assert(steps_view(steps@) =~= expected);
    steps
}

/// The upload of a finished build names every platform that was asked for, in their order, each
/// with the archive that was made for it, and nothing else.
pub proof fn an_upload_names_what_was_built(
    version: Seq<char>,
    request: RequestView,
    prod: bool,
    i: int,
)
    requires
        0 <= i < request.platforms.len(),
    ensures
        ({
            let count = request.platforms.len();
            let archives = archives_for(request, count as int);
            let args = upload_args(version, request.app_name, archives, prod);
            &&& args.len() == count + (if prod {
                4int
            } else {
                3int
            })
            &&& args[args.len() - count + i] == request.platforms[i] + "="@ + archive_path_of(
                request.style,
                request.root,
                request.app_name,
                request.platforms[i],
            )
        }),
{
}

} // verus!
