use kasugai_converter::commands::ConvertObjTo3dtiles11Request;
use kasugai_converter::jobs::JobStatus;
use kasugai_converter::tiles11::{plan_obj11, precheck, start_run, tdt_command, CommandResult, Obj11Step};

fn s(x: &str) -> String {
    x.to_string()
}

fn request() -> ConvertObjTo3dtiles11Request {
    ConvertObjTo3dtiles11Request {
        input: s(" C:/m.obj "),
        output: s("C:/out "),
        crs: None,
        origin: Some(s(" JGD2011 ")),
        x_offset: Some(s("1")),
        y_offset: None,
        z_offset: None,
        longitude: None,
        latitude: None,
        output_type: None,
        java_path: None,
        jar_path: None,
        jvm_options: Some(s("-Xmx2g")),
        mago_extra_args: None,
        tdt_command: None,
        tdt_extra_args: None,
    }
}

#[test]
fn prechecks() {
    let req = request();
    assert!(precheck(&req, true, "j.jar", true).is_ok());
    assert_eq!(precheck(&req, false, "j.jar", true).unwrap_err().message, "input not found: C:/m.obj");
    assert_eq!(precheck(&req, true, "j.jar", false).unwrap_err().message, "jar not found: j.jar");
}

#[test]
fn origins_map_to_epsg_codes() {
    let mut req = request();
    let p = plan_obj11(&req, s("java"), s("m.jar"), s("npx 3d-tiles-tools")).unwrap();
    assert_eq!(p.crs.as_deref(), Some("6668"));
    assert_eq!(p.output_type, "b3dm");
    assert_eq!(p.tdt_extra_args, "--targetVersion 1.1");
    req.origin = Some(s("tokyo"));
    assert_eq!(plan_obj11(&req, s("java"), s("m.jar"), s("t")).unwrap().crs.as_deref(), Some("4301"));
    req.origin = Some(s("jgd2000"));
    assert_eq!(plan_obj11(&req, s("java"), s("m.jar"), s("t")).unwrap().crs.as_deref(), Some("4612"));
    req.crs = Some(s("6677"));
    assert_eq!(plan_obj11(&req, s("java"), s("m.jar"), s("t")).unwrap().crs.as_deref(), Some("6677"));
    req.crs = None;
    req.origin = Some(s("WGS84"));
    let e = plan_obj11(&req, s("java"), s("m.jar"), s("t")).unwrap_err();
    assert_eq!((e.status, e.message.as_str()), (400, "unknown geodetic origin: wgs84"));
}

#[test]
fn tdt_command_choice() {
    assert_eq!(tdt_command(&Some(s(" my tdt ")), &Some(s("env")), true), "my tdt");
    assert_eq!(tdt_command(&None, &Some(s(" env ")), true), "env");
    assert_eq!(
        tdt_command(&None, &Some(s(" ")), true),
        "tools/node/node.exe tools/node/node_modules/npm/bin/npx-cli.js 3d-tiles-tools"
    );
    assert_eq!(tdt_command(&None, &None, false), "npx 3d-tiles-tools");
}

#[test]
fn successful_pipeline() {
    let plan = plan_obj11(&request(), s("java"), s("m.jar"), s("npx 3d-tiles-tools")).unwrap();
    let run = start_run(plan, "7");
    assert_eq!(run.work_dir, "C:/out/7");
    assert_eq!(run.step10, "C:/out/7/1.0");
    assert_eq!(run.step11, "C:/out/7/1.1");
    assert_eq!(run.log, "working directory: C:/out/7\n");
    let mago = run.mago_command();
    assert_eq!(mago.program, "java");
    assert_eq!(
        mago.args,
        vec![
            "-Xmx2g", "-jar", "m.jar", "--input", "C:/m.obj", "--output", "C:/out/7/1.0", "--inputType", "obj",
            "--outputType", "b3dm", "--crs", "6668", "--xOffset", "1"
        ]
    );
    let step = run.after_mago(CommandResult::Exited { code: 0, output: s("ok") });
    let (run, tdt) = match step {
        Obj11Step::Upgrade(r, c) => (r, c),
        Obj11Step::Finish(_) => panic!("expected the upgrade"),
    };
    assert_eq!(tdt.program, "npx");
    assert_eq!(
        tdt.args,
        vec!["3d-tiles-tools", "upgrade", "-i", "C:/out/7/1.0/tileset.json", "-o", "C:/out/7/1.1", "--targetVersion", "1.1"]
    );
    let outcome = run.after_upgrade(CommandResult::Exited { code: 0, output: s("done") });
    assert_eq!(outcome.status, JobStatus::Completed);
    assert_eq!(outcome.exit_code, Some(0));
    assert_eq!(
        outcome.output,
        "working directory: C:/out/7\n[mago-3d-tiler] exit_code=0\nok\n[3d-tiles-tools] exit_code=0\ndone\n\n1.0 output: C:/out/7/1.0\n1.1 output: C:/out/7/1.1"
    );
}

#[test]
fn failing_pipelines() {
    let plan = || plan_obj11(&request(), s("java"), s("m.jar"), s("")).unwrap();
    match start_run(plan(), "1").after_mago(CommandResult::Exited { code: 2, output: s("bad") }) {
        Obj11Step::Finish(o) => {
            assert_eq!(o.status, JobStatus::Failed);
            assert_eq!(o.exit_code, Some(2));
            assert_eq!(o.output, "working directory: C:/out/1\n[mago-3d-tiler] exit_code=2\nbad\n");
        },
        _ => panic!("expected the end"),
    }
    match start_run(plan(), "1").after_mago(CommandResult::NotStarted { error: s("no java") }) {
        Obj11Step::Finish(o) => {
            assert_eq!(o.exit_code, None);
            assert_eq!(o.output, "working directory: C:/out/1\n\n[mago-3d-tiler] failed to start: no java");
        },
        _ => panic!("expected the end"),
    }
    let run = start_run(plan(), "1");
    let f = run.folder_failed(true, "denied");
    assert_eq!(f.output, "working directory: C:/out/1\n\nfailed to create 1.1 dir: denied");
    let (run, tdt) = match run.after_mago(CommandResult::Exited { code: 0, output: s("") }) {
        Obj11Step::Upgrade(r, c) => (r, c),
        _ => panic!("expected the upgrade"),
    };
    assert_eq!(tdt.program, "3d-tiles-tools");
    let o = run.after_upgrade(CommandResult::Exited { code: -1, output: s("") });
    assert_eq!(o.status, JobStatus::Failed);
    assert!(o.output.contains("[3d-tiles-tools] exit_code=-1\n"));
    let run2 = start_run(plan(), "2");
    let (run2, _) = match run2.after_mago(CommandResult::Exited { code: 0, output: s("") }) {
        Obj11Step::Upgrade(r, c) => (r, c),
        _ => panic!("expected the upgrade"),
    };
    let o = run2.after_upgrade(CommandResult::NotStarted { error: s("no npx") });
    assert_eq!(o.status, JobStatus::Failed);
    assert!(o.output.ends_with("\n[3d-tiles-tools] failed to start: no npx\n1.0 output remains at: C:/out/2/1.0"));
}
