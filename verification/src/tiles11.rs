//! The OBJ to 3D Tiles 1.1 conversion: mago-3d-tiler writes 3D Tiles 1.0, then
//! 3d-tiles-tools upgrades them to 1.1. The server runs the two commands; the decisions
//! between them are here.
use vstd::prelude::*;
use crate::commands::{
    bad_request, has_pair, io_refusal, lemma_pair_extend, opt_trimmed, opt_trimmed_spec, trimmed_or, word_args, CommandPlan,
    ConvertObjTo3dtiles11Request, Rejection,
};
use crate::jobs::{JobOutcome, JobStatus};
use crate::text::{
    concat, lowercase_of, opt_text, signed_decimal, signed_decimal_seq, split_whitespace, to_lowercase,
    trim, trim_seq, words_seq,
};

verus! {

/// The 3d-tiles-tools command: the request's command if not blank, else the `TDT_COMMAND`
/// environment value if not blank, else the bundled Node.js running `npx` when it is
/// present (`bundled`), else `npx 3d-tiles-tools`.
pub open spec fn tdt_command_spec(req: Option<Seq<char>>, env: Option<Seq<char>>, bundled: bool) -> Seq<char> {
    match opt_trimmed_spec(req) {
        Some(c) => c,
        None => match opt_trimmed_spec(env) {
            Some(e) => e,
            None => if bundled {
                "tools/node/node.exe tools/node/node_modules/npm/bin/npx-cli.js 3d-tiles-tools"@
            } else {
                "npx 3d-tiles-tools"@
            },
        },
    }
}

/// The 3d-tiles-tools command of a request.
pub fn tdt_command(req_command: &Option<String>, env_command: &Option<String>, bundled: bool) -> (r: String)
    ensures
        r@ == tdt_command_spec(opt_text(*req_command), opt_text(*env_command), bundled),
{
    match opt_trimmed(req_command) {
        Some(c) => c,
        None => match opt_trimmed(env_command) {
            Some(e) => e,
            None => if bundled {
                "tools/node/node.exe tools/node/node_modules/npm/bin/npx-cli.js 3d-tiles-tools".to_owned()
            } else {
                "npx 3d-tiles-tools".to_owned()
            },
        },
    }
}

/// The refusal, if any, before a job is created: a blank input or output, an input that
/// does not exist, or a jar that does not exist.
pub open spec fn precheck_spec(
    req: ConvertObjTo3dtiles11Request,
    input_exists: bool,
    jar: Seq<char>,
    jar_exists: bool,
) -> Option<Seq<char>> {
    if io_refusal(req.input@, req.output@) is Some {
        io_refusal(req.input@, req.output@)
    } else if !input_exists {
        Some("input not found: "@ + trim_seq(req.input@))
    } else if !jar_exists {
        Some("jar not found: "@ + jar)
    } else {
        None
    }
}

/// Checks a request before its job is created; `input_exists` tells whether the trimmed
/// input path exists, `jar_exists` whether `jar` does.
pub fn precheck(req: &ConvertObjTo3dtiles11Request, input_exists: bool, jar: &str, jar_exists: bool) -> (r: Result<(), Rejection>)
    ensures
        match (r, precheck_spec(*req, input_exists, jar@, jar_exists)) {
            (Ok(()), None) => true,
            (Err(e), Some(m)) => e.status == 400 && e.message@ == m,
            _ => false,
        },
{
    crate::commands::check_input_output(req.input.as_str(), req.output.as_str())?;
    if !input_exists {
        let t = trim(req.input.as_str());
        return Err(Rejection { status: 400, message: concat("input not found: ", t.as_str()) });
    }
    if !jar_exists {
        return Err(Rejection { status: 400, message: concat("jar not found: ", jar) });
    }
    Ok(())
}

/// The EPSG code of a geodetic origin name (lower case).
pub open spec fn origin_epsg(origin: Seq<char>) -> Option<Seq<char>> {
    if origin == "jgd2011"@ { Some("6668"@) }
    else if origin == "jgd2000"@ { Some("4612"@) }
    else if origin == "tokyo"@ { Some("4301"@) }
    else { None }
}

/// The coordinate system of a request: its `crs` if not blank; else, when an `origin` is
/// given and not blank, that origin's EPSG code (its name trimmed and lower-cased), or a
/// refusal for an unknown origin; else none.
pub open spec fn crs_spec(crs: Option<Seq<char>>, origin: Option<Seq<char>>) -> Result<Option<Seq<char>>, Seq<char>> {
    match opt_trimmed_spec(crs) {
        Some(c) => Ok(Some(c)),
        None => match origin {
            Some(o) => {
                let name = lowercase_of(trim_seq(o));
                if name.len() == 0 {
                    Ok(None)
                } else {
                    match origin_epsg(name) {
                        Some(code) => Ok(Some(code)),
                        None => Err("unknown geodetic origin: "@ + name),
                    }
                }
            },
            None => Ok(None),
        },
    }
}

/// The coordinate system of an OBJ to 3D Tiles 1.1 request: a CRS given (trimmed, not blank)
/// wins over any geodetic origin; otherwise the origin, trimmed and lower-cased, names it:
/// `jgd2011` is EPSG 6668, `jgd2000` is 4612, `tokyo` is 4301, and any other non-blank name
/// is refused with that name in the message; with no origin there is no CRS.
pub proof fn law_geodetic_origin_codes(crs: Option<Seq<char>>, origin: Option<Seq<char>>)
    ensures
        opt_trimmed_spec(crs) matches Some(c) ==> crs_spec(crs, origin) == Ok::<Option<Seq<char>>, Seq<char>>(Some(c)),
        opt_trimmed_spec(crs) is None && origin is None ==> crs_spec(crs, origin) == Ok::<Option<Seq<char>>, Seq<char>>(None),
        (opt_trimmed_spec(crs) is None && origin is Some) ==> {
            let name = lowercase_of(trim_seq(origin->0));
            &&& name == "jgd2011"@ ==> crs_spec(crs, origin) == Ok::<Option<Seq<char>>, Seq<char>>(Some("6668"@))
            &&& name == "jgd2000"@ ==> crs_spec(crs, origin) == Ok::<Option<Seq<char>>, Seq<char>>(Some("4612"@))
            &&& name == "tokyo"@ ==> crs_spec(crs, origin) == Ok::<Option<Seq<char>>, Seq<char>>(Some("4301"@))
            &&& (name.len() > 0 && name != "jgd2011"@ && name != "jgd2000"@ && name != "tokyo"@)
                ==> crs_spec(crs, origin) == Err::<Option<Seq<char>>, Seq<char>>("unknown geodetic origin: "@ + name)
        },
{
    reveal_strlit("jgd2011");
    reveal_strlit("jgd2000");
    reveal_strlit("tokyo");
    assert("jgd2011"@ != "jgd2000"@) by {
        assert("jgd2011"@[5] != "jgd2000"@[5]);
    }
    assert("jgd2011"@ != "tokyo"@ && "jgd2000"@ != "tokyo"@) by {
        assert("tokyo"@.len() != 7);
    }
    assert("jgd2011"@.len() > 0 && "jgd2000"@.len() > 0 && "tokyo"@.len() > 0);
}

/// Everything the two steps need.
#[derive(Debug)]
pub struct Obj11Plan {
    pub java_path: String,
    pub jar_path: String,
    pub input: String,
    pub output_base: String,
    pub crs: Option<String>,
    pub x_offset: Option<String>,
    pub y_offset: Option<String>,
    pub z_offset: Option<String>,
    pub longitude: Option<String>,
    pub latitude: Option<String>,
    pub output_type: String,
    pub jvm_options: Option<String>,
    pub mago_extra_args: Option<String>,
    pub tdt_command: String,
    pub tdt_extra_args: String,
}

/// Plans a request whose precheck passed: the java executable, jar and 3d-tiles-tools
/// command given, the trimmed fields, `b3dm` as the default tile type and
/// `--targetVersion 1.1` as the default upgrade options. The only refusal is an unknown
/// geodetic origin.
pub fn plan_obj11(req: &ConvertObjTo3dtiles11Request, java_path: String, jar_path: String, tdt: String) -> (r: Result<Obj11Plan, Rejection>)
    ensures
        match crs_spec(opt_text(req.crs), opt_text(req.origin)) {
            Err(m) => r matches Err(e) && e.status == 400 && e.message@ == m,
            Ok(c) => r matches Ok(p) && {
                &&& p.java_path == java_path && p.jar_path == jar_path && p.tdt_command == tdt
                &&& p.input@ == trim_seq(req.input@)
                &&& p.output_base@ == trim_seq(req.output@)
                &&& opt_text(p.crs) == c
                &&& opt_text(p.x_offset) == opt_trimmed_spec(opt_text(req.x_offset))
                &&& opt_text(p.y_offset) == opt_trimmed_spec(opt_text(req.y_offset))
                &&& opt_text(p.z_offset) == opt_trimmed_spec(opt_text(req.z_offset))
                &&& opt_text(p.longitude) == opt_trimmed_spec(opt_text(req.longitude))
                &&& opt_text(p.latitude) == opt_trimmed_spec(opt_text(req.latitude))
                &&& p.output_type@ == trimmed_or(opt_text(req.output_type), "b3dm"@)
                &&& opt_text(p.jvm_options) == opt_trimmed_spec(opt_text(req.jvm_options))
                &&& opt_text(p.mago_extra_args) == opt_trimmed_spec(opt_text(req.mago_extra_args))
                &&& p.tdt_extra_args@ == trimmed_or(opt_text(req.tdt_extra_args), "--targetVersion 1.1"@)
            },
        },
{
    let mut crs = opt_trimmed(&req.crs);
    if crs.is_none() {
        if let Some(o) = &req.origin {
            let t = trim(o.as_str());
            let name = to_lowercase(t.as_str());
            if !name.as_str().is_empty() {
                proof {
                    reveal_strlit("jgd2011");
                    reveal_strlit("jgd2000");
                    reveal_strlit("tokyo");
                }
                if crate::catalog::same_text(name.as_str(), "jgd2011") {
                    crs = Some("6668".to_owned());
                } else if crate::catalog::same_text(name.as_str(), "jgd2000") {
                    crs = Some("4612".to_owned());
                } else if crate::catalog::same_text(name.as_str(), "tokyo") {
                    crs = Some("4301".to_owned());
                } else {
                    return Err(Rejection { status: 400, message: concat("unknown geodetic origin: ", name.as_str()) });
                }
            }
        }
    }
    let output_type = match opt_trimmed(&req.output_type) { Some(t) => t, None => "b3dm".to_owned() };
    let tdt_extra_args = match opt_trimmed(&req.tdt_extra_args) { Some(t) => t, None => "--targetVersion 1.1".to_owned() };
    Ok(Obj11Plan {
        java_path,
        jar_path,
        input: trim(req.input.as_str()),
        output_base: trim(req.output.as_str()),
        crs,
        x_offset: opt_trimmed(&req.x_offset),
        y_offset: opt_trimmed(&req.y_offset),
        z_offset: opt_trimmed(&req.z_offset),
        longitude: opt_trimmed(&req.longitude),
        latitude: opt_trimmed(&req.latitude),
        output_type,
        jvm_options: opt_trimmed(&req.jvm_options),
        mago_extra_args: opt_trimmed(&req.mago_extra_args),
        tdt_command: tdt,
        tdt_extra_args,
    })
}


/// The words of an optional, already trimmed, field.
pub open spec fn words_of(o: Option<Seq<char>>) -> Seq<Seq<char>> {
    match o { Some(v) => words_seq(v), None => Seq::empty() }
}

/// `flag value` for an optional, already trimmed, field.
pub open spec fn pair_of(flag: Seq<char>, o: Option<Seq<char>>) -> Seq<Seq<char>> {
    match o { Some(v) => seq![flag, v], None => Seq::empty() }
}

/// The work folders of a job: `<output>/<job id>`, with `1.0` and `1.1` under it.
#[derive(Debug)]
pub struct Obj11Run {
    pub plan: Obj11Plan,
    pub work_dir: String,
    pub step10: String,
    pub step11: String,
    pub tileset: String,
    /// What the job has printed so far.
    pub log: String,
}

/// How a command ended.
#[derive(Debug)]
pub enum CommandResult {
    /// The command ran and exited with this code and printed this output.
    Exited { code: i32, output: String },
    /// The command could not be started.
    NotStarted { error: String },
}

/// What follows the first step.
#[derive(Debug)]
pub enum Obj11Step {
    /// Run the upgrade command.
    Upgrade(Obj11Run, CommandPlan),
    /// The job ends so.
    Finish(JobOutcome),
}

/// The folders of a job and the first line of its log.
pub open spec fn run_started(plan: Obj11Plan, job_id: Seq<char>, run: Obj11Run) -> bool {
    &&& run.plan == plan
    &&& run.work_dir@ == plan.output_base@ + "/"@ + job_id
    &&& run.step10@ == run.work_dir@ + "/1.0"@
    &&& run.step11@ == run.work_dir@ + "/1.1"@
    &&& run.tileset@ == run.step10@ + "/tileset.json"@
    &&& run.log@ == "working directory: "@ + run.work_dir@ + "\n"@
}

/// Starts the conversion of job `job_id`.
pub fn start_run(plan: Obj11Plan, job_id: &str) -> (r: Obj11Run)
    ensures
        run_started(plan, job_id@, r),
{
    let a = concat(plan.output_base.as_str(), "/");
    let work_dir = concat(a.as_str(), job_id);
    let step10 = concat(work_dir.as_str(), "/1.0");
    let step11 = concat(work_dir.as_str(), "/1.1");
    let tileset = concat(step10.as_str(), "/tileset.json");
    let b = concat("working directory: ", work_dir.as_str());
    let log = concat(b.as_str(), "\n");
    Obj11Run { plan, work_dir, step10, step11, tileset, log }
}

impl Obj11Run {
    /// The job's end when a work folder cannot be made (`second`: the `1.1` folder).
    pub fn folder_failed(&self, second: bool, error: &str) -> (o: JobOutcome)
        ensures
            o.status == JobStatus::Failed,
            o.exit_code is None,
            o.output@ == self.log@ + (if second { "\nfailed to create 1.1 dir: "@ } else { "\nfailed to create 1.0 dir: "@ }) + error@,
    {
        let head = if second { "\nfailed to create 1.1 dir: " } else { "\nfailed to create 1.0 dir: " };
        let a = concat(self.log.as_str(), head);
        JobOutcome { status: JobStatus::Failed, exit_code: None, output: concat(a.as_str(), error) }
    }

    /// The mago-3d-tiler arguments: OBJ input, 3D Tiles 1.0 into the `1.0` folder.
    pub open spec fn mago_args_spec(self) -> Seq<Seq<char>> {
        let p = self.plan;
        words_of(opt_text(p.jvm_options))
            + seq!["-jar"@, p.jar_path@, "--input"@, p.input@, "--output"@, self.step10@,
                "--inputType"@, "obj"@, "--outputType"@, p.output_type@]
            + pair_of("--crs"@, opt_text(p.crs))
            + pair_of("--xOffset"@, opt_text(p.x_offset))
            + pair_of("--yOffset"@, opt_text(p.y_offset))
            + pair_of("--zOffset"@, opt_text(p.z_offset))
            + pair_of("--longitude"@, opt_text(p.longitude))
            + pair_of("--latitude"@, opt_text(p.latitude))
            + words_of(opt_text(p.mago_extra_args))
    }

    /// The mago-3d-tiler command of a run carries each value right after its flag: the jar,
    /// the input, the `1.0` folder as output, `obj` as input type, the tile type, and each
    /// coordinate setting of the plan that is present (`--crs`, `--xOffset`, `--yOffset`,
    /// `--zOffset`, `--longitude`, `--latitude`) after its own flag. Besides the JVM and extra
    /// options it holds nothing else: two entries per setting present, none for one absent.
    #[verifier::spinoff_prover]
    #[verifier::rlimit(80)]
    pub proof fn law_mago_command_arguments(self)
        ensures
            has_pair(self.mago_args_spec(), "-jar"@, self.plan.jar_path@),
            has_pair(self.mago_args_spec(), "--input"@, self.plan.input@),
            has_pair(self.mago_args_spec(), "--output"@, self.step10@),
            has_pair(self.mago_args_spec(), "--inputType"@, "obj"@),
            has_pair(self.mago_args_spec(), "--outputType"@, self.plan.output_type@),
            opt_text(self.plan.crs) matches Some(v) ==> has_pair(self.mago_args_spec(), "--crs"@, v),
            opt_text(self.plan.x_offset) matches Some(v) ==> has_pair(self.mago_args_spec(), "--xOffset"@, v),
            opt_text(self.plan.y_offset) matches Some(v) ==> has_pair(self.mago_args_spec(), "--yOffset"@, v),
            opt_text(self.plan.z_offset) matches Some(v) ==> has_pair(self.mago_args_spec(), "--zOffset"@, v),
            opt_text(self.plan.longitude) matches Some(v) ==> has_pair(self.mago_args_spec(), "--longitude"@, v),
            opt_text(self.plan.latitude) matches Some(v) ==> has_pair(self.mago_args_spec(), "--latitude"@, v),
            self.mago_args_spec().len() == words_of(opt_text(self.plan.jvm_options)).len() + 10
                + (if self.plan.crs is Some { 2int } else { 0int })
                + (if self.plan.x_offset is Some { 2int } else { 0int })
                + (if self.plan.y_offset is Some { 2int } else { 0int })
                + (if self.plan.z_offset is Some { 2int } else { 0int })
                + (if self.plan.longitude is Some { 2int } else { 0int })
                + (if self.plan.latitude is Some { 2int } else { 0int })
                + words_of(opt_text(self.plan.mago_extra_args)).len(),
    {
        let p = self.plan;
        let a0 = words_of(opt_text(p.jvm_options));
        let a1 = seq!["-jar"@, p.jar_path@, "--input"@, p.input@, "--output"@, self.step10@, "--inputType"@, "obj"@, "--outputType"@, p.output_type@];
        let a2 = pair_of("--crs"@, opt_text(p.crs));
        let a3 = pair_of("--xOffset"@, opt_text(p.x_offset));
        let a4 = pair_of("--yOffset"@, opt_text(p.y_offset));
        let a5 = pair_of("--zOffset"@, opt_text(p.z_offset));
        let a6 = pair_of("--longitude"@, opt_text(p.longitude));
        let a7 = pair_of("--latitude"@, opt_text(p.latitude));
        let a8 = words_of(opt_text(p.mago_extra_args));
        assert(self.mago_args_spec() == a0 + a1 + a2 + a3 + a4 + a5 + a6 + a7 + a8);
        assert(has_pair(self.mago_args_spec(), "-jar"@, self.plan.jar_path@)) by {
            assert(a1[0] == "-jar"@ && a1[1] == self.plan.jar_path@);
            lemma_pair_extend(a1, a0, "-jar"@, self.plan.jar_path@);
            lemma_pair_extend(a0 + a1, a2, "-jar"@, self.plan.jar_path@);
            lemma_pair_extend(a0 + a1 + a2, a3, "-jar"@, self.plan.jar_path@);
            lemma_pair_extend(a0 + a1 + a2 + a3, a4, "-jar"@, self.plan.jar_path@);
            lemma_pair_extend(a0 + a1 + a2 + a3 + a4, a5, "-jar"@, self.plan.jar_path@);
            lemma_pair_extend(a0 + a1 + a2 + a3 + a4 + a5, a6, "-jar"@, self.plan.jar_path@);
            lemma_pair_extend(a0 + a1 + a2 + a3 + a4 + a5 + a6, a7, "-jar"@, self.plan.jar_path@);
            lemma_pair_extend(a0 + a1 + a2 + a3 + a4 + a5 + a6 + a7, a8, "-jar"@, self.plan.jar_path@);
        }
        assert(has_pair(self.mago_args_spec(), "--input"@, self.plan.input@)) by {
            assert(a1[2] == "--input"@ && a1[3] == self.plan.input@);
            lemma_pair_extend(a1, a0, "--input"@, self.plan.input@);
            lemma_pair_extend(a0 + a1, a2, "--input"@, self.plan.input@);
            lemma_pair_extend(a0 + a1 + a2, a3, "--input"@, self.plan.input@);
            lemma_pair_extend(a0 + a1 + a2 + a3, a4, "--input"@, self.plan.input@);
            lemma_pair_extend(a0 + a1 + a2 + a3 + a4, a5, "--input"@, self.plan.input@);
            lemma_pair_extend(a0 + a1 + a2 + a3 + a4 + a5, a6, "--input"@, self.plan.input@);
            lemma_pair_extend(a0 + a1 + a2 + a3 + a4 + a5 + a6, a7, "--input"@, self.plan.input@);
            lemma_pair_extend(a0 + a1 + a2 + a3 + a4 + a5 + a6 + a7, a8, "--input"@, self.plan.input@);
        }
        assert(has_pair(self.mago_args_spec(), "--output"@, self.step10@)) by {
            assert(a1[4] == "--output"@ && a1[5] == self.step10@);
            lemma_pair_extend(a1, a0, "--output"@, self.step10@);
            lemma_pair_extend(a0 + a1, a2, "--output"@, self.step10@);
            lemma_pair_extend(a0 + a1 + a2, a3, "--output"@, self.step10@);
            lemma_pair_extend(a0 + a1 + a2 + a3, a4, "--output"@, self.step10@);
            lemma_pair_extend(a0 + a1 + a2 + a3 + a4, a5, "--output"@, self.step10@);
            lemma_pair_extend(a0 + a1 + a2 + a3 + a4 + a5, a6, "--output"@, self.step10@);
            lemma_pair_extend(a0 + a1 + a2 + a3 + a4 + a5 + a6, a7, "--output"@, self.step10@);
            lemma_pair_extend(a0 + a1 + a2 + a3 + a4 + a5 + a6 + a7, a8, "--output"@, self.step10@);
        }
        assert(has_pair(self.mago_args_spec(), "--inputType"@, "obj"@)) by {
            assert(a1[6] == "--inputType"@ && a1[7] == "obj"@);
            lemma_pair_extend(a1, a0, "--inputType"@, "obj"@);
            lemma_pair_extend(a0 + a1, a2, "--inputType"@, "obj"@);
            lemma_pair_extend(a0 + a1 + a2, a3, "--inputType"@, "obj"@);
            lemma_pair_extend(a0 + a1 + a2 + a3, a4, "--inputType"@, "obj"@);
            lemma_pair_extend(a0 + a1 + a2 + a3 + a4, a5, "--inputType"@, "obj"@);
            lemma_pair_extend(a0 + a1 + a2 + a3 + a4 + a5, a6, "--inputType"@, "obj"@);
            lemma_pair_extend(a0 + a1 + a2 + a3 + a4 + a5 + a6, a7, "--inputType"@, "obj"@);
            lemma_pair_extend(a0 + a1 + a2 + a3 + a4 + a5 + a6 + a7, a8, "--inputType"@, "obj"@);
        }
        assert(has_pair(self.mago_args_spec(), "--outputType"@, self.plan.output_type@)) by {
            assert(a1[8] == "--outputType"@ && a1[9] == self.plan.output_type@);
            lemma_pair_extend(a1, a0, "--outputType"@, self.plan.output_type@);
            lemma_pair_extend(a0 + a1, a2, "--outputType"@, self.plan.output_type@);
            lemma_pair_extend(a0 + a1 + a2, a3, "--outputType"@, self.plan.output_type@);
            lemma_pair_extend(a0 + a1 + a2 + a3, a4, "--outputType"@, self.plan.output_type@);
            lemma_pair_extend(a0 + a1 + a2 + a3 + a4, a5, "--outputType"@, self.plan.output_type@);
            lemma_pair_extend(a0 + a1 + a2 + a3 + a4 + a5, a6, "--outputType"@, self.plan.output_type@);
            lemma_pair_extend(a0 + a1 + a2 + a3 + a4 + a5 + a6, a7, "--outputType"@, self.plan.output_type@);
            lemma_pair_extend(a0 + a1 + a2 + a3 + a4 + a5 + a6 + a7, a8, "--outputType"@, self.plan.output_type@);
        }
        assert(opt_text(p.crs) matches Some(v) ==> has_pair(self.mago_args_spec(), "--crs"@, v)) by {
            if let Some(v) = opt_text(p.crs) {
                assert(a2[0] == "--crs"@ && a2[1] == v);
                lemma_pair_extend(a2, a0 + a1, "--crs"@, v);
                lemma_pair_extend(a0 + a1 + a2, a3, "--crs"@, v);
                lemma_pair_extend(a0 + a1 + a2 + a3, a4, "--crs"@, v);
                lemma_pair_extend(a0 + a1 + a2 + a3 + a4, a5, "--crs"@, v);
                lemma_pair_extend(a0 + a1 + a2 + a3 + a4 + a5, a6, "--crs"@, v);
                lemma_pair_extend(a0 + a1 + a2 + a3 + a4 + a5 + a6, a7, "--crs"@, v);
                lemma_pair_extend(a0 + a1 + a2 + a3 + a4 + a5 + a6 + a7, a8, "--crs"@, v);
            }
        }
        assert(opt_text(p.x_offset) matches Some(v) ==> has_pair(self.mago_args_spec(), "--xOffset"@, v)) by {
            if let Some(v) = opt_text(p.x_offset) {
                assert(a3[0] == "--xOffset"@ && a3[1] == v);
                lemma_pair_extend(a3, a0 + a1 + a2, "--xOffset"@, v);
                lemma_pair_extend(a0 + a1 + a2 + a3, a4, "--xOffset"@, v);
                lemma_pair_extend(a0 + a1 + a2 + a3 + a4, a5, "--xOffset"@, v);
                lemma_pair_extend(a0 + a1 + a2 + a3 + a4 + a5, a6, "--xOffset"@, v);
                lemma_pair_extend(a0 + a1 + a2 + a3 + a4 + a5 + a6, a7, "--xOffset"@, v);
                lemma_pair_extend(a0 + a1 + a2 + a3 + a4 + a5 + a6 + a7, a8, "--xOffset"@, v);
            }
        }
        assert(opt_text(p.y_offset) matches Some(v) ==> has_pair(self.mago_args_spec(), "--yOffset"@, v)) by {
            if let Some(v) = opt_text(p.y_offset) {
                assert(a4[0] == "--yOffset"@ && a4[1] == v);
                lemma_pair_extend(a4, a0 + a1 + a2 + a3, "--yOffset"@, v);
                lemma_pair_extend(a0 + a1 + a2 + a3 + a4, a5, "--yOffset"@, v);
                lemma_pair_extend(a0 + a1 + a2 + a3 + a4 + a5, a6, "--yOffset"@, v);
                lemma_pair_extend(a0 + a1 + a2 + a3 + a4 + a5 + a6, a7, "--yOffset"@, v);
                lemma_pair_extend(a0 + a1 + a2 + a3 + a4 + a5 + a6 + a7, a8, "--yOffset"@, v);
            }
        }
        assert(opt_text(p.z_offset) matches Some(v) ==> has_pair(self.mago_args_spec(), "--zOffset"@, v)) by {
            if let Some(v) = opt_text(p.z_offset) {
                assert(a5[0] == "--zOffset"@ && a5[1] == v);
                lemma_pair_extend(a5, a0 + a1 + a2 + a3 + a4, "--zOffset"@, v);
                lemma_pair_extend(a0 + a1 + a2 + a3 + a4 + a5, a6, "--zOffset"@, v);
                lemma_pair_extend(a0 + a1 + a2 + a3 + a4 + a5 + a6, a7, "--zOffset"@, v);
                lemma_pair_extend(a0 + a1 + a2 + a3 + a4 + a5 + a6 + a7, a8, "--zOffset"@, v);
            }
        }
        assert(opt_text(p.longitude) matches Some(v) ==> has_pair(self.mago_args_spec(), "--longitude"@, v)) by {
            if let Some(v) = opt_text(p.longitude) {
                assert(a6[0] == "--longitude"@ && a6[1] == v);
                lemma_pair_extend(a6, a0 + a1 + a2 + a3 + a4 + a5, "--longitude"@, v);
                lemma_pair_extend(a0 + a1 + a2 + a3 + a4 + a5 + a6, a7, "--longitude"@, v);
                lemma_pair_extend(a0 + a1 + a2 + a3 + a4 + a5 + a6 + a7, a8, "--longitude"@, v);
            }
        }
        assert(opt_text(p.latitude) matches Some(v) ==> has_pair(self.mago_args_spec(), "--latitude"@, v)) by {
            if let Some(v) = opt_text(p.latitude) {
                assert(a7[0] == "--latitude"@ && a7[1] == v);
                lemma_pair_extend(a7, a0 + a1 + a2 + a3 + a4 + a5 + a6, "--latitude"@, v);
                lemma_pair_extend(a0 + a1 + a2 + a3 + a4 + a5 + a6 + a7, a8, "--latitude"@, v);
            }
        }
    }

    /// The upgrade command reads the `tileset.json` of the `1.0` folder and writes the `1.1` folder.
    pub proof fn law_upgrade_command_folders(self)
        ensures
            has_pair(self.upgrade_line_spec(), "-i"@, self.tileset@),
            has_pair(self.upgrade_line_spec(), "-o"@, self.step11@),
    {
        let w = words_seq(self.plan.tdt_command@);
        let parts = if w.len() == 0 { seq!["3d-tiles-tools"@] } else { w };
        let mid = seq!["upgrade"@, "-i"@, self.tileset@, "-o"@, self.step11@];
        let extra = if self.plan.tdt_extra_args@.len() > 0 { words_seq(self.plan.tdt_extra_args@) } else { Seq::empty() };
        assert(self.upgrade_line_spec() == parts + mid + extra);
        assert(mid[1] == "-i"@ && mid[2] == self.tileset@);
        assert(mid[3] == "-o"@ && mid[4] == self.step11@);
        lemma_pair_extend(mid, parts, "-i"@, self.tileset@);
        lemma_pair_extend(parts + mid, extra, "-i"@, self.tileset@);
        lemma_pair_extend(mid, parts, "-o"@, self.step11@);
        lemma_pair_extend(parts + mid, extra, "-o"@, self.step11@);
    }


    /// The first command: java running mago-3d-tiler.
    pub fn mago_command(&self) -> (c: CommandPlan)
        ensures
            c.program == self.plan.java_path,
            c.args.deep_view() == self.mago_args_spec(),
    {
        let p = &self.plan;
        let mut args: Vec<String> = Vec::new();
        push_words_of(&mut args, &p.jvm_options);
        push_str(&mut args, "-jar");
        push_str(&mut args, p.jar_path.as_str());
        push_str(&mut args, "--input");
        push_str(&mut args, p.input.as_str());
        push_str(&mut args, "--output");
        push_str(&mut args, self.step10.as_str());
        push_str(&mut args, "--inputType");
        push_str(&mut args, "obj");
        push_str(&mut args, "--outputType");
        push_str(&mut args, p.output_type.as_str());
        push_pair(&mut args, "--crs", &p.crs);
        push_pair(&mut args, "--xOffset", &p.x_offset);
        push_pair(&mut args, "--yOffset", &p.y_offset);
        push_pair(&mut args, "--zOffset", &p.z_offset);
        push_pair(&mut args, "--longitude", &p.longitude);
        push_pair(&mut args, "--latitude", &p.latitude);
        push_words_of(&mut args, &p.mago_extra_args);
        CommandPlan { program: p.java_path.clone(), args }
    }

    /// The 3d-tiles-tools command line: the words of the configured command (the tool alone
    /// when it has none), then `upgrade`, the 1.0 tileset, the `1.1` folder and the options.
    pub open spec fn upgrade_line_spec(self) -> Seq<Seq<char>> {
        let w = words_seq(self.plan.tdt_command@);
        let parts = if w.len() == 0 { seq!["3d-tiles-tools"@] } else { w };
        parts + seq!["upgrade"@, "-i"@, self.tileset@, "-o"@, self.step11@]
            + (if self.plan.tdt_extra_args@.len() > 0 { words_seq(self.plan.tdt_extra_args@) } else { Seq::empty() })
    }

    /// The second command: 3d-tiles-tools upgrading the tileset to 1.1.
    pub fn upgrade_command(&self) -> (c: CommandPlan)
        ensures
            c.program@ == self.upgrade_line_spec()[0],
            c.args.deep_view() == self.upgrade_line_spec().drop_first(),
    {
        let mut parts = split_whitespace(self.plan.tdt_command.as_str());
        let ghost w = parts.deep_view();
        if parts.len() == 0 {
            push_str(&mut parts, "3d-tiles-tools");
            assert(parts.deep_view() == seq!["3d-tiles-tools"@]);
        }
        let ghost pv = parts.deep_view();
        assert(pv == (if w.len() == 0 { seq!["3d-tiles-tools"@] } else { w }));
        let program = parts.remove(0);
        assert(parts.deep_view() == pv.drop_first());
        let mut args = parts;
        push_str(&mut args, "upgrade");
        push_str(&mut args, "-i");
        push_str(&mut args, self.tileset.as_str());
        push_str(&mut args, "-o");
        push_str(&mut args, self.step11.as_str());
        let ghost before = args.deep_view();
        if !self.plan.tdt_extra_args.as_str().is_empty() {
            let w = split_whitespace(self.plan.tdt_extra_args.as_str());
            push_all_words(&mut args, w);
        } else {
            assert(args.deep_view() == before + Seq::<Seq<char>>::empty());
        }
        assert(self.upgrade_line_spec().drop_first() =~= args.deep_view());
        CommandPlan { program, args }
    }
}

/// The log after a command that exited: its tag, exit code and output.
pub open spec fn exit_log(log: Seq<char>, tag: Seq<char>, code: i32, output: Seq<char>) -> Seq<char> {
    log + tag + " exit_code="@ + signed_decimal_seq(code as int) + "\n"@ + output + "\n"@
}

fn append_exit(log: &str, tag: &str, code: i32, output: &str) -> (r: String)
    ensures
        r@ == exit_log(log@, tag@, code, output@),
{
    let a = concat(log, tag);
    let b = concat(a.as_str(), " exit_code=");
    let c = concat(b.as_str(), signed_decimal(code).as_str());
    let d = concat(c.as_str(), "\n");
    let e = concat(d.as_str(), output);
    concat(e.as_str(), "\n")
}

/// The first step lets the upgrade run only when mago-3d-tiler ran and exited with 0.
pub open spec fn mago_succeeded(result: CommandResult) -> bool {
    result matches CommandResult::Exited { code, .. } && code == 0
}

/// The status a job ends with after the upgrade command.
pub open spec fn upgrade_status(result: CommandResult) -> JobStatus {
    match result {
        CommandResult::Exited { code, .. } => if code == 0 { JobStatus::Completed } else { JobStatus::Failed },
        CommandResult::NotStarted { .. } => JobStatus::Failed,
    }
}

/// The status a job ends with when both commands have had their turn: the upgrade's
/// status when mago-3d-tiler succeeded, else `Failed`.
pub open spec fn pipeline_status(first: CommandResult, second: CommandResult) -> JobStatus {
    if mago_succeeded(first) { upgrade_status(second) } else { JobStatus::Failed }
}

/// The conversion completes exactly when both commands ran and exited with 0.
pub proof fn law_obj11_completes_iff_both_exit_zero(first: CommandResult, second: CommandResult)
    ensures
        (pipeline_status(first, second) == JobStatus::Completed) == (
            (first matches CommandResult::Exited { code, .. } && code == 0)
            && (second matches CommandResult::Exited { code, .. } && code == 0)),
{
}

impl Obj11Run {
    /// What follows the mago-3d-tiler run: the upgrade when it exited with 0 (its exit
    /// logged); a failed job with its exit code when it exited otherwise; a failed job
    /// without exit code when it did not start.
    pub fn after_mago(self, result: CommandResult) -> (s: Obj11Step)
        ensures
            (s is Upgrade) == mago_succeeded(result),
            s matches Obj11Step::Finish(o) ==> o.status == JobStatus::Failed,
            match result {
                CommandResult::Exited { code, output } => {
                    let log = exit_log(self.log@, "[mago-3d-tiler]"@, code, output@);
                    if code == 0 {
                        s matches Obj11Step::Upgrade(run, cmd) && run.plan == self.plan && run.work_dir == self.work_dir
                            && run.step10 == self.step10 && run.step11 == self.step11 && run.tileset == self.tileset
                            && run.log@ == log && cmd.program@ == self.upgrade_line_spec()[0]
                            && cmd.args.deep_view() == self.upgrade_line_spec().drop_first()
                    } else {
                        s matches Obj11Step::Finish(o) && o.status == JobStatus::Failed && o.exit_code == Some(code)
                            && o.output@ == log
                    }
                },
                CommandResult::NotStarted { error } => s matches Obj11Step::Finish(o) && o.status == JobStatus::Failed
                    && o.exit_code is None && o.output@ == self.log@ + "\n[mago-3d-tiler] failed to start: "@ + error@,
            },
    {
        match result {
            CommandResult::Exited { code, output } => {
                let log = append_exit(self.log.as_str(), "[mago-3d-tiler]", code, output.as_str());
                if code != 0 {
                    Obj11Step::Finish(JobOutcome { status: JobStatus::Failed, exit_code: Some(code), output: log })
                } else {
                    let cmd = self.upgrade_command();
                    Obj11Step::Upgrade(Obj11Run { log, ..self }, cmd)
                }
            },
            CommandResult::NotStarted { error } => {
                let a = concat(self.log.as_str(), "\n[mago-3d-tiler] failed to start: ");
                Obj11Step::Finish(JobOutcome { status: JobStatus::Failed, exit_code: None, output: concat(a.as_str(), error.as_str()) })
            },
        }
    }

    /// How the job ends after the 3d-tiles-tools run: with its exit code and both output
    /// folders named, `Completed` for exit code 0 and `Failed` otherwise; or failed, naming
    /// the 1.0 output that remains, when the tool did not start.
    pub fn after_upgrade(self, result: CommandResult) -> (o: JobOutcome)
        ensures
            o.status == upgrade_status(result),
            match result {
                CommandResult::Exited { code, output } => {
                    &&& o.status == (if code == 0 { JobStatus::Completed } else { JobStatus::Failed })
                    &&& o.exit_code == Some(code)
                    &&& o.output@ == exit_log(self.log@, "[3d-tiles-tools]"@, code, output@)
                        + "\n1.0 output: "@ + self.step10@ + "\n1.1 output: "@ + self.step11@
                },
                CommandResult::NotStarted { error } => {
                    &&& o.status == JobStatus::Failed
                    &&& o.exit_code is None
                    &&& o.output@ == self.log@ + "\n[3d-tiles-tools] failed to start: "@ + error@
                        + "\n1.0 output remains at: "@ + self.step10@
                },
            },
    {
        match result {
            CommandResult::Exited { code, output } => {
                let log = append_exit(self.log.as_str(), "[3d-tiles-tools]", code, output.as_str());
                let a = concat(log.as_str(), "\n1.0 output: ");
                let b = concat(a.as_str(), self.step10.as_str());
                let c = concat(b.as_str(), "\n1.1 output: ");
                let out = concat(c.as_str(), self.step11.as_str());
                let status = if code == 0 { JobStatus::Completed } else { JobStatus::Failed };
                JobOutcome { status, exit_code: Some(code), output: out }
            },
            CommandResult::NotStarted { error } => {
                let a = concat(self.log.as_str(), "\n[3d-tiles-tools] failed to start: ");
                let b = concat(a.as_str(), error.as_str());
                let c = concat(b.as_str(), "\n1.0 output remains at: ");
                JobOutcome { status: JobStatus::Failed, exit_code: None, output: concat(c.as_str(), self.step10.as_str()) }
            },
        }
    }
}

fn push_str(args: &mut Vec<String>, s: &str)
    ensures
        final(args).deep_view() == old(args).deep_view().push(s@),
        final(args).len() == old(args).len() + 1,
{
    let ghost before = args.deep_view();
    args.push(s.to_owned());
    assert(args.deep_view() == before.push(s@));
}

fn push_all_words(args: &mut Vec<String>, words: Vec<String>)
    ensures
        final(args).deep_view() == old(args).deep_view() + words.deep_view(),
{
    let ghost before = args.deep_view();
    let mut i: usize = 0;
    while i < words.len()
        invariant
            i <= words.len(),
            args.deep_view() == before + words.deep_view().take(i as int),
        decreases words.len() - i,
    {
        push_str(args, words[i].as_str());
        assert(words.deep_view().take(i + 1) == words.deep_view().take(i as int).push(words[i as int]@));
        i += 1;
    }
    assert(words.deep_view().take(words.len() as int) == words.deep_view());
}

fn push_words_of(args: &mut Vec<String>, o: &Option<String>)
    ensures
        final(args).deep_view() == old(args).deep_view() + words_of(opt_text(*o)),
{
    let ghost before = args.deep_view();
    match o {
        Some(v) => push_all_words(args, split_whitespace(v.as_str())),
        None => assert(args.deep_view() == before + Seq::<Seq<char>>::empty()),
    }
}

fn push_pair(args: &mut Vec<String>, flag: &str, o: &Option<String>)
    ensures
        final(args).deep_view() == old(args).deep_view() + pair_of(flag@, opt_text(*o)),
{
    let ghost before = args.deep_view();
    match o {
        Some(v) => {
            push_str(args, flag);
            push_str(args, v.as_str());
            assert(args.deep_view() == before + seq![flag@, v@]);
        },
        None => assert(args.deep_view() == before + Seq::<Seq<char>>::empty()),
    }
}

} // verus!
