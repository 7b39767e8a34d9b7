//! Command lines of the converters and installers: each request is checked and turned into
//! the program to run and its arguments.
use vstd::prelude::*;
use crate::text::{opt_text, split_whitespace, trim, trim_seq, words_seq};

verus! {

/// A program to run and its arguments.
#[derive(Debug)]
pub struct CommandPlan {
    pub program: String,
    pub args: Vec<String>,
}

/// A refused request: the HTTP status and the message sent back.
#[derive(Debug)]
pub struct Rejection {
    pub status: u16,
    pub message: String,
}

/// An optional field trimmed, counted as absent when blank.
pub open spec fn opt_trimmed_spec(o: Option<Seq<char>>) -> Option<Seq<char>> {
    match o {
        Some(s) => if trim_seq(s).len() > 0 { Some(trim_seq(s)) } else { None },
        None => None,
    }
}

/// `flag value` for an optional field that is present and not blank, nothing otherwise.
pub open spec fn flag_args(flag: Seq<char>, o: Option<Seq<char>>) -> Seq<Seq<char>> {
    match opt_trimmed_spec(o) {
        Some(v) => seq![flag, v],
        None => Seq::empty(),
    }
}

/// The value alone, for an optional field that is present and not blank.
pub open spec fn value_args(o: Option<Seq<char>>) -> Seq<Seq<char>> {
    match opt_trimmed_spec(o) {
        Some(v) => seq![v],
        None => Seq::empty(),
    }
}

/// The whitespace-separated words of an optional field (extra options), trimmed first.
pub open spec fn word_args(o: Option<Seq<char>>) -> Seq<Seq<char>> {
    match o {
        Some(s) => if trim_seq(s).len() > 0 { words_seq(trim_seq(s)) } else { Seq::empty() },
        None => Seq::empty(),
    }
}

/// `flag` is immediately followed by `value` somewhere in the argument list `args`.
pub open spec fn has_pair(args: Seq<Seq<char>>, flag: Seq<char>, value: Seq<char>) -> bool {
    exists|i: int| 0 <= i && i + 1 < args.len() && #[trigger] args[i] == flag && args[i + 1] == value
}

/// Two entries of an argument list: 2 when the optional field is present and not blank, else 0.
pub open spec fn option_len(o: Option<Seq<char>>) -> int {
    if opt_trimmed_spec(o) is Some { 2 } else { 0 }
}

/// An argument list holds a flag and its value wherever they stand in it.
pub proof fn lemma_pair_between(x: Seq<Seq<char>>, z: Seq<Seq<char>>, flag: Seq<char>, value: Seq<char>)
    ensures
        has_pair(x + seq![flag, value] + z, flag, value),
{
    let a = x + seq![flag, value] + z;
    let i = x.len() as int;
    assert(a[i] == flag);
    assert(a[i + 1] == value);
}

/// A flag and its value stay together when more arguments are put before or after them.
pub proof fn lemma_pair_extend(x: Seq<Seq<char>>, y: Seq<Seq<char>>, flag: Seq<char>, value: Seq<char>)
    requires
        has_pair(x, flag, value),
    ensures
        has_pair(x + y, flag, value),
        has_pair(y + x, flag, value),
{
    let i = choose|i: int| 0 <= i && i + 1 < x.len() && #[trigger] x[i] == flag && x[i + 1] == value;
    assert((x + y)[i] == flag && (x + y)[i + 1] == value);
    assert((y + x)[y.len() + i] == flag && (y + x)[y.len() + i + 1] == value);
}

/// An optional field trimmed, `None` when absent or blank.
pub fn opt_trimmed(o: &Option<String>) -> (r: Option<String>)
    ensures
        opt_text(r) == opt_trimmed_spec(opt_text(*o)),
{
    match o {
        Some(s) => {
            let t = trim(s.as_str());
            if t.as_str().is_empty() { None } else { Some(t) }
        },
        None => None,
    }
}

/// An optional field trimmed, or `default` when absent or blank.
pub open spec fn trimmed_or(o: Option<Seq<char>>, default: Seq<char>) -> Seq<char> {
    match opt_trimmed_spec(o) {
        Some(v) => v,
        None => default,
    }
}

fn trimmed_or_default(o: &Option<String>, default: &str) -> (r: String)
    ensures
        r@ == trimmed_or(opt_text(*o), default@),
{
    match opt_trimmed(o) {
        Some(v) => v,
        None => default.to_owned(),
    }
}

fn push_text(args: &mut Vec<String>, s: &str)
    ensures
        final(args).deep_view() == old(args).deep_view().push(s@),
{
    let ghost before = args.deep_view();
    args.push(s.to_owned());
    assert(args.deep_view() == before.push(s@));
}

fn push_flag(args: &mut Vec<String>, flag: &str, o: &Option<String>)
    ensures
        final(args).deep_view() == old(args).deep_view() + flag_args(flag@, opt_text(*o)),
{
    let ghost before = args.deep_view();
    match opt_trimmed(o) {
        Some(v) => {
            push_text(args, flag);
            push_text(args, v.as_str());
            assert(args.deep_view() == before + seq![flag@, v@]);
        },
        None => {
            assert(args.deep_view() == before + Seq::<Seq<char>>::empty());
        },
    }
}

fn push_value(args: &mut Vec<String>, o: &Option<String>)
    ensures
        final(args).deep_view() == old(args).deep_view() + value_args(opt_text(*o)),
{
    let ghost before = args.deep_view();
    match opt_trimmed(o) {
        Some(v) => {
            push_text(args, v.as_str());
            assert(args.deep_view() == before + seq![v@]);
        },
        None => {
            assert(args.deep_view() == before + Seq::<Seq<char>>::empty());
        },
    }
}

fn push_all(args: &mut Vec<String>, words: Vec<String>)
    ensures
        final(args).deep_view() == old(args).deep_view() + words.deep_view(),
{
    let ghost before = args.deep_view();
    let mut i: usize = 0;
    while i < words.len()
        invariant
            i <= words.len(),
            args.deep_view() == before + words.deep_view().take(i as int),
        decreases words.len() - i,
    {
        push_text(args, words[i].as_str());
        assert(words.deep_view().take(i + 1) == words.deep_view().take(i as int).push(words[i as int]@));
        i += 1;
    }
    assert(words.deep_view().take(words.len() as int) == words.deep_view());
}

fn push_words(args: &mut Vec<String>, o: &Option<String>)
    ensures
        final(args).deep_view() == old(args).deep_view() + word_args(opt_text(*o)),
{
    let ghost before = args.deep_view();
    match o {
        Some(s) => {
            let t = trim(s.as_str());
            if !t.as_str().is_empty() {
                let w = split_whitespace(t.as_str());
                push_all(args, w);
            } else {
                assert(args.deep_view() == before + Seq::<Seq<char>>::empty());
            }
        },
        None => {
            assert(args.deep_view() == before + Seq::<Seq<char>>::empty());
        },
    }
}

/// A refusal with status 400 (bad request).
pub fn bad_request(message: &str) -> (r: Rejection)
    ensures
        r.status == 400,
        r.message@ == message@,
{
    Rejection { status: 400, message: message.to_owned() }
}

/// A refusal with status 400 whose message is `prefix` followed by `detail`.
fn bad_request_about(prefix: &str, detail: &str) -> (r: Rejection)
    ensures
        r.status == 400,
        r.message@ == prefix@ + detail@,
{
    Rejection { status: 400, message: crate::text::concat(prefix, detail) }
}

/// The refusal, if any, for a request whose `input` or `output` is blank.
pub open spec fn io_refusal(input: Seq<char>, output: Seq<char>) -> Option<Seq<char>> {
    if trim_seq(input).len() == 0 {
        Some("input is required"@)
    } else if trim_seq(output).len() == 0 {
        Some("output is required"@)
    } else {
        None
    }
}

/// Checks that a conversion request names an input and an output.
pub fn check_input_output(input: &str, output: &str) -> (r: Result<(), Rejection>)
    ensures
        match (r, io_refusal(input@, output@)) {
            (Ok(()), None) => true,
            (Err(e), Some(m)) => e.status == 400 && e.message@ == m,
            _ => false,
        },
{
    if trim(input).as_str().is_empty() {
        return Err(bad_request("input is required"));
    }
    if trim(output).as_str().is_empty() {
        return Err(bad_request("output is required"));
    }
    Ok(())
}

/// A mago-3d-tiler conversion request.
#[derive(Debug)]
pub struct ConvertRequest {
    pub input: String,
    pub output: String,
    pub input_type: Option<String>,
    pub output_type: Option<String>,
    pub crs: Option<String>,
    pub x_offset: Option<String>,
    pub y_offset: Option<String>,
    pub z_offset: Option<String>,
    pub longitude: Option<String>,
    pub latitude: Option<String>,
    pub java_path: Option<String>,
    pub jar_path: Option<String>,
    pub jvm_options: Option<String>,
    pub extra_args: Option<String>,
}

/// The java executable: the request's path if not blank, else the `MAGO_JAVA_PATH`
/// environment value, else `java`.
pub open spec fn java_path_spec(req: Option<Seq<char>>, env: Option<Seq<char>>) -> Seq<char> {
    match opt_trimmed_spec(req) {
        Some(p) => p,
        None => match env { Some(e) => e, None => "java"@ },
    }
}

/// The mago-3d-tiler jar: the request's path if not blank, else the `MAGO_JAR_PATH`
/// environment value, else `tools/mago-3d-tiler.jar`.
pub open spec fn jar_path_spec(req: Option<Seq<char>>, env: Option<Seq<char>>) -> Seq<char> {
    match opt_trimmed_spec(req) {
        Some(p) => p,
        None => match env { Some(e) => e, None => "tools/mago-3d-tiler.jar"@ },
    }
}

/// The view of an optional borrowed string.
pub open spec fn opt_str(o: Option<&str>) -> Option<Seq<char>> {
    match o { Some(s) => Some(s@), None => None }
}

/// The java executable for a mago-3d-tiler run.
pub fn mago_java_path(req_java: &Option<String>, env_java: Option<&str>) -> (r: String)
    ensures
        r@ == java_path_spec(opt_text(*req_java), opt_str(env_java)),
{
    match opt_trimmed(req_java) {
        Some(p) => p,
        None => match env_java { Some(e) => e.to_owned(), None => "java".to_owned() },
    }
}

/// The mago-3d-tiler jar for a run.
pub fn mago_jar_path(req_jar: &Option<String>, env_jar: Option<&str>) -> (r: String)
    ensures
        r@ == jar_path_spec(opt_text(*req_jar), opt_str(env_jar)),
{
    match opt_trimmed(req_jar) {
        Some(p) => p,
        None => match env_jar { Some(e) => e.to_owned(), None => "tools/mago-3d-tiler.jar".to_owned() },
    }
}

/// The mago-3d-tiler arguments of a conversion request that uses `jar`.
pub open spec fn mago_args_spec(req: ConvertRequest, jar: Seq<char>) -> Seq<Seq<char>> {
    word_args(opt_text(req.jvm_options))
        + seq!["-jar"@, jar, "--input"@, trim_seq(req.input@), "--output"@, trim_seq(req.output@)]
        + flag_args("--inputType"@, opt_text(req.input_type))
        + flag_args("--outputType"@, opt_text(req.output_type))
        + flag_args("--crs"@, opt_text(req.crs))
        + flag_args("--xOffset"@, opt_text(req.x_offset))
        + flag_args("--yOffset"@, opt_text(req.y_offset))
        + flag_args("--zOffset"@, opt_text(req.z_offset))
        + flag_args("--longitude"@, opt_text(req.longitude))
        + flag_args("--latitude"@, opt_text(req.latitude))
        + word_args(opt_text(req.extra_args))
}

/// The mago-3d-tiler arguments carry each given value right after its flag: the jar after
/// `-jar`, the trimmed input after `--input`, the trimmed output after `--output`, and each
/// option present and not blank, trimmed, after its own flag (`--inputType`, `--outputType`,
/// `--crs`, `--xOffset`, `--yOffset`, `--zOffset`, `--longitude`, `--latitude`). The list
/// holds nothing else besides the JVM options and extra options: two entries per option
/// present, none for an option absent or blank.
#[verifier::spinoff_prover]
#[verifier::rlimit(80)]
pub proof fn law_mago_arguments(req: ConvertRequest, jar: Seq<char>)
    ensures
        has_pair(mago_args_spec(req, jar), "-jar"@, jar),
        has_pair(mago_args_spec(req, jar), "--input"@, trim_seq(req.input@)),
        has_pair(mago_args_spec(req, jar), "--output"@, trim_seq(req.output@)),
        opt_trimmed_spec(opt_text(req.input_type)) matches Some(v) ==> has_pair(mago_args_spec(req, jar), "--inputType"@, v),
        opt_trimmed_spec(opt_text(req.output_type)) matches Some(v) ==> has_pair(mago_args_spec(req, jar), "--outputType"@, v),
        opt_trimmed_spec(opt_text(req.crs)) matches Some(v) ==> has_pair(mago_args_spec(req, jar), "--crs"@, v),
        opt_trimmed_spec(opt_text(req.x_offset)) matches Some(v) ==> has_pair(mago_args_spec(req, jar), "--xOffset"@, v),
        opt_trimmed_spec(opt_text(req.y_offset)) matches Some(v) ==> has_pair(mago_args_spec(req, jar), "--yOffset"@, v),
        opt_trimmed_spec(opt_text(req.z_offset)) matches Some(v) ==> has_pair(mago_args_spec(req, jar), "--zOffset"@, v),
        opt_trimmed_spec(opt_text(req.longitude)) matches Some(v) ==> has_pair(mago_args_spec(req, jar), "--longitude"@, v),
        opt_trimmed_spec(opt_text(req.latitude)) matches Some(v) ==> has_pair(mago_args_spec(req, jar), "--latitude"@, v),
        mago_args_spec(req, jar).len() == word_args(opt_text(req.jvm_options)).len() + 6
            + option_len(opt_text(req.input_type))
            + option_len(opt_text(req.output_type))
            + option_len(opt_text(req.crs))
            + option_len(opt_text(req.x_offset))
            + option_len(opt_text(req.y_offset))
            + option_len(opt_text(req.z_offset))
            + option_len(opt_text(req.longitude))
            + option_len(opt_text(req.latitude))
            + word_args(opt_text(req.extra_args)).len(),
{
    let a0 = word_args(opt_text(req.jvm_options));
    let a1 = seq!["-jar"@, jar, "--input"@, trim_seq(req.input@), "--output"@, trim_seq(req.output@)];
    let a2 = flag_args("--inputType"@, opt_text(req.input_type));
    let a3 = flag_args("--outputType"@, opt_text(req.output_type));
    let a4 = flag_args("--crs"@, opt_text(req.crs));
    let a5 = flag_args("--xOffset"@, opt_text(req.x_offset));
    let a6 = flag_args("--yOffset"@, opt_text(req.y_offset));
    let a7 = flag_args("--zOffset"@, opt_text(req.z_offset));
    let a8 = flag_args("--longitude"@, opt_text(req.longitude));
    let a9 = flag_args("--latitude"@, opt_text(req.latitude));
    let a10 = word_args(opt_text(req.extra_args));
    assert(mago_args_spec(req, jar) == a0 + a1 + a2 + a3 + a4 + a5 + a6 + a7 + a8 + a9 + a10);
    assert(has_pair(mago_args_spec(req, jar), "-jar"@, jar)) by {
        assert(a1[0] == "-jar"@ && a1[1] == jar);
        lemma_pair_extend(a1, a0, "-jar"@, jar);
        lemma_pair_extend(a0 + a1, a2, "-jar"@, jar);
        lemma_pair_extend(a0 + a1 + a2, a3, "-jar"@, jar);
        lemma_pair_extend(a0 + a1 + a2 + a3, a4, "-jar"@, jar);
        lemma_pair_extend(a0 + a1 + a2 + a3 + a4, a5, "-jar"@, jar);
        lemma_pair_extend(a0 + a1 + a2 + a3 + a4 + a5, a6, "-jar"@, jar);
        lemma_pair_extend(a0 + a1 + a2 + a3 + a4 + a5 + a6, a7, "-jar"@, jar);
        lemma_pair_extend(a0 + a1 + a2 + a3 + a4 + a5 + a6 + a7, a8, "-jar"@, jar);
        lemma_pair_extend(a0 + a1 + a2 + a3 + a4 + a5 + a6 + a7 + a8, a9, "-jar"@, jar);
        lemma_pair_extend(a0 + a1 + a2 + a3 + a4 + a5 + a6 + a7 + a8 + a9, a10, "-jar"@, jar);
    }
    assert(has_pair(mago_args_spec(req, jar), "--input"@, trim_seq(req.input@))) by {
        assert(a1[2] == "--input"@ && a1[3] == trim_seq(req.input@));
        lemma_pair_extend(a1, a0, "--input"@, trim_seq(req.input@));
        lemma_pair_extend(a0 + a1, a2, "--input"@, trim_seq(req.input@));
        lemma_pair_extend(a0 + a1 + a2, a3, "--input"@, trim_seq(req.input@));
        lemma_pair_extend(a0 + a1 + a2 + a3, a4, "--input"@, trim_seq(req.input@));
        lemma_pair_extend(a0 + a1 + a2 + a3 + a4, a5, "--input"@, trim_seq(req.input@));
        lemma_pair_extend(a0 + a1 + a2 + a3 + a4 + a5, a6, "--input"@, trim_seq(req.input@));
        lemma_pair_extend(a0 + a1 + a2 + a3 + a4 + a5 + a6, a7, "--input"@, trim_seq(req.input@));
        lemma_pair_extend(a0 + a1 + a2 + a3 + a4 + a5 + a6 + a7, a8, "--input"@, trim_seq(req.input@));
        lemma_pair_extend(a0 + a1 + a2 + a3 + a4 + a5 + a6 + a7 + a8, a9, "--input"@, trim_seq(req.input@));
        lemma_pair_extend(a0 + a1 + a2 + a3 + a4 + a5 + a6 + a7 + a8 + a9, a10, "--input"@, trim_seq(req.input@));
    }
    assert(has_pair(mago_args_spec(req, jar), "--output"@, trim_seq(req.output@))) by {
        assert(a1[4] == "--output"@ && a1[5] == trim_seq(req.output@));
        lemma_pair_extend(a1, a0, "--output"@, trim_seq(req.output@));
        lemma_pair_extend(a0 + a1, a2, "--output"@, trim_seq(req.output@));
        lemma_pair_extend(a0 + a1 + a2, a3, "--output"@, trim_seq(req.output@));
        lemma_pair_extend(a0 + a1 + a2 + a3, a4, "--output"@, trim_seq(req.output@));
        lemma_pair_extend(a0 + a1 + a2 + a3 + a4, a5, "--output"@, trim_seq(req.output@));
        lemma_pair_extend(a0 + a1 + a2 + a3 + a4 + a5, a6, "--output"@, trim_seq(req.output@));
        lemma_pair_extend(a0 + a1 + a2 + a3 + a4 + a5 + a6, a7, "--output"@, trim_seq(req.output@));
        lemma_pair_extend(a0 + a1 + a2 + a3 + a4 + a5 + a6 + a7, a8, "--output"@, trim_seq(req.output@));
        lemma_pair_extend(a0 + a1 + a2 + a3 + a4 + a5 + a6 + a7 + a8, a9, "--output"@, trim_seq(req.output@));
        lemma_pair_extend(a0 + a1 + a2 + a3 + a4 + a5 + a6 + a7 + a8 + a9, a10, "--output"@, trim_seq(req.output@));
    }
    assert(opt_trimmed_spec(opt_text(req.input_type)) matches Some(v) ==> has_pair(mago_args_spec(req, jar), "--inputType"@, v)) by {
        if let Some(v) = opt_trimmed_spec(opt_text(req.input_type)) {
            assert(a2[0] == "--inputType"@ && a2[1] == v);
            lemma_pair_extend(a2, a0 + a1, "--inputType"@, v);
            lemma_pair_extend(a0 + a1 + a2, a3, "--inputType"@, v);
            lemma_pair_extend(a0 + a1 + a2 + a3, a4, "--inputType"@, v);
            lemma_pair_extend(a0 + a1 + a2 + a3 + a4, a5, "--inputType"@, v);
            lemma_pair_extend(a0 + a1 + a2 + a3 + a4 + a5, a6, "--inputType"@, v);
            lemma_pair_extend(a0 + a1 + a2 + a3 + a4 + a5 + a6, a7, "--inputType"@, v);
            lemma_pair_extend(a0 + a1 + a2 + a3 + a4 + a5 + a6 + a7, a8, "--inputType"@, v);
            lemma_pair_extend(a0 + a1 + a2 + a3 + a4 + a5 + a6 + a7 + a8, a9, "--inputType"@, v);
            lemma_pair_extend(a0 + a1 + a2 + a3 + a4 + a5 + a6 + a7 + a8 + a9, a10, "--inputType"@, v);
        }
    }
    assert(opt_trimmed_spec(opt_text(req.output_type)) matches Some(v) ==> has_pair(mago_args_spec(req, jar), "--outputType"@, v)) by {
        if let Some(v) = opt_trimmed_spec(opt_text(req.output_type)) {
            assert(a3[0] == "--outputType"@ && a3[1] == v);
            lemma_pair_extend(a3, a0 + a1 + a2, "--outputType"@, v);
            lemma_pair_extend(a0 + a1 + a2 + a3, a4, "--outputType"@, v);
            lemma_pair_extend(a0 + a1 + a2 + a3 + a4, a5, "--outputType"@, v);
            lemma_pair_extend(a0 + a1 + a2 + a3 + a4 + a5, a6, "--outputType"@, v);
            lemma_pair_extend(a0 + a1 + a2 + a3 + a4 + a5 + a6, a7, "--outputType"@, v);
            lemma_pair_extend(a0 + a1 + a2 + a3 + a4 + a5 + a6 + a7, a8, "--outputType"@, v);
            lemma_pair_extend(a0 + a1 + a2 + a3 + a4 + a5 + a6 + a7 + a8, a9, "--outputType"@, v);
            lemma_pair_extend(a0 + a1 + a2 + a3 + a4 + a5 + a6 + a7 + a8 + a9, a10, "--outputType"@, v);
        }
    }
    assert(opt_trimmed_spec(opt_text(req.crs)) matches Some(v) ==> has_pair(mago_args_spec(req, jar), "--crs"@, v)) by {
        if let Some(v) = opt_trimmed_spec(opt_text(req.crs)) {
            assert(a4[0] == "--crs"@ && a4[1] == v);
            lemma_pair_extend(a4, a0 + a1 + a2 + a3, "--crs"@, v);
            lemma_pair_extend(a0 + a1 + a2 + a3 + a4, a5, "--crs"@, v);
            lemma_pair_extend(a0 + a1 + a2 + a3 + a4 + a5, a6, "--crs"@, v);
            lemma_pair_extend(a0 + a1 + a2 + a3 + a4 + a5 + a6, a7, "--crs"@, v);
            lemma_pair_extend(a0 + a1 + a2 + a3 + a4 + a5 + a6 + a7, a8, "--crs"@, v);
            lemma_pair_extend(a0 + a1 + a2 + a3 + a4 + a5 + a6 + a7 + a8, a9, "--crs"@, v);
            lemma_pair_extend(a0 + a1 + a2 + a3 + a4 + a5 + a6 + a7 + a8 + a9, a10, "--crs"@, v);
        }
    }
    assert(opt_trimmed_spec(opt_text(req.x_offset)) matches Some(v) ==> has_pair(mago_args_spec(req, jar), "--xOffset"@, v)) by {
        if let Some(v) = opt_trimmed_spec(opt_text(req.x_offset)) {
            assert(a5[0] == "--xOffset"@ && a5[1] == v);
            lemma_pair_extend(a5, a0 + a1 + a2 + a3 + a4, "--xOffset"@, v);
            lemma_pair_extend(a0 + a1 + a2 + a3 + a4 + a5, a6, "--xOffset"@, v);
            lemma_pair_extend(a0 + a1 + a2 + a3 + a4 + a5 + a6, a7, "--xOffset"@, v);
            lemma_pair_extend(a0 + a1 + a2 + a3 + a4 + a5 + a6 + a7, a8, "--xOffset"@, v);
            lemma_pair_extend(a0 + a1 + a2 + a3 + a4 + a5 + a6 + a7 + a8, a9, "--xOffset"@, v);
            lemma_pair_extend(a0 + a1 + a2 + a3 + a4 + a5 + a6 + a7 + a8 + a9, a10, "--xOffset"@, v);
        }
    }
    assert(opt_trimmed_spec(opt_text(req.y_offset)) matches Some(v) ==> has_pair(mago_args_spec(req, jar), "--yOffset"@, v)) by {
        if let Some(v) = opt_trimmed_spec(opt_text(req.y_offset)) {
            assert(a6[0] == "--yOffset"@ && a6[1] == v);
            lemma_pair_extend(a6, a0 + a1 + a2 + a3 + a4 + a5, "--yOffset"@, v);
            lemma_pair_extend(a0 + a1 + a2 + a3 + a4 + a5 + a6, a7, "--yOffset"@, v);
            lemma_pair_extend(a0 + a1 + a2 + a3 + a4 + a5 + a6 + a7, a8, "--yOffset"@, v);
            lemma_pair_extend(a0 + a1 + a2 + a3 + a4 + a5 + a6 + a7 + a8, a9, "--yOffset"@, v);
            lemma_pair_extend(a0 + a1 + a2 + a3 + a4 + a5 + a6 + a7 + a8 + a9, a10, "--yOffset"@, v);
        }
    }
    assert(opt_trimmed_spec(opt_text(req.z_offset)) matches Some(v) ==> has_pair(mago_args_spec(req, jar), "--zOffset"@, v)) by {
        if let Some(v) = opt_trimmed_spec(opt_text(req.z_offset)) {
            assert(a7[0] == "--zOffset"@ && a7[1] == v);
            lemma_pair_extend(a7, a0 + a1 + a2 + a3 + a4 + a5 + a6, "--zOffset"@, v);
            lemma_pair_extend(a0 + a1 + a2 + a3 + a4 + a5 + a6 + a7, a8, "--zOffset"@, v);
            lemma_pair_extend(a0 + a1 + a2 + a3 + a4 + a5 + a6 + a7 + a8, a9, "--zOffset"@, v);
            lemma_pair_extend(a0 + a1 + a2 + a3 + a4 + a5 + a6 + a7 + a8 + a9, a10, "--zOffset"@, v);
        }
    }
    assert(opt_trimmed_spec(opt_text(req.longitude)) matches Some(v) ==> has_pair(mago_args_spec(req, jar), "--longitude"@, v)) by {
        if let Some(v) = opt_trimmed_spec(opt_text(req.longitude)) {
            assert(a8[0] == "--longitude"@ && a8[1] == v);
            lemma_pair_extend(a8, a0 + a1 + a2 + a3 + a4 + a5 + a6 + a7, "--longitude"@, v);
            lemma_pair_extend(a0 + a1 + a2 + a3 + a4 + a5 + a6 + a7 + a8, a9, "--longitude"@, v);
            lemma_pair_extend(a0 + a1 + a2 + a3 + a4 + a5 + a6 + a7 + a8 + a9, a10, "--longitude"@, v);
        }
    }
    assert(opt_trimmed_spec(opt_text(req.latitude)) matches Some(v) ==> has_pair(mago_args_spec(req, jar), "--latitude"@, v)) by {
        if let Some(v) = opt_trimmed_spec(opt_text(req.latitude)) {
            assert(a9[0] == "--latitude"@ && a9[1] == v);
            lemma_pair_extend(a9, a0 + a1 + a2 + a3 + a4 + a5 + a6 + a7 + a8, "--latitude"@, v);
            lemma_pair_extend(a0 + a1 + a2 + a3 + a4 + a5 + a6 + a7 + a8 + a9, a10, "--latitude"@, v);
        }
    }
}

/// What a mago-3d-tiler request becomes: a refusal for a blank input or output, or a jar
/// that does not exist (`jar_exists`); otherwise the java executable with the arguments.
pub fn plan_mago(
    req: &ConvertRequest,
    env_java: Option<&str>,
    env_jar: Option<&str>,
    jar_exists: bool,
) -> (r: Result<CommandPlan, Rejection>)
    ensures
        ({
            let jar = jar_path_spec(opt_text(req.jar_path), opt_str(env_jar));
            match io_refusal(req.input@, req.output@) {
                Some(m) => r matches Err(e) && e.status == 400 && e.message@ == m,
                None => if !jar_exists {
                    r matches Err(e) && e.status == 400 && e.message@ == "jar not found: "@ + jar
                } else {
                    r matches Ok(p) && p.program@ == java_path_spec(opt_text(req.java_path), opt_str(env_java))
                        && p.args.deep_view() == mago_args_spec(*req, jar)
                },
            }
        }),
{
    check_input_output(req.input.as_str(), req.output.as_str())?;
    let java = mago_java_path(&req.java_path, env_java);
    let jar = mago_jar_path(&req.jar_path, env_jar);
    if !jar_exists {
        return Err(bad_request_about("jar not found: ", jar.as_str()));
    }
    let mut args: Vec<String> = Vec::new();
    push_words(&mut args, &req.jvm_options);
    push_text(&mut args, "-jar");
    push_text(&mut args, jar.as_str());
    push_text(&mut args, "--input");
    push_text(&mut args, trim(req.input.as_str()).as_str());
    push_text(&mut args, "--output");
    push_text(&mut args, trim(req.output.as_str()).as_str());
    push_flag(&mut args, "--inputType", &req.input_type);
    push_flag(&mut args, "--outputType", &req.output_type);
    push_flag(&mut args, "--crs", &req.crs);
    push_flag(&mut args, "--xOffset", &req.x_offset);
    push_flag(&mut args, "--yOffset", &req.y_offset);
    push_flag(&mut args, "--zOffset", &req.z_offset);
    push_flag(&mut args, "--longitude", &req.longitude);
    push_flag(&mut args, "--latitude", &req.latitude);
    push_words(&mut args, &req.extra_args);
    Ok(CommandPlan { program: java, args })
}


/// A Py3DTiles conversion request.
#[derive(Debug)]
pub struct ConvertPy3dtilesRequest {
    pub input: String,
    pub output: String,
    pub srs_in: Option<String>,
    pub srs_out: Option<String>,
    pub command: Option<String>,
    pub extra_args: Option<String>,
}

/// The Py3DTiles arguments of a request.
pub open spec fn py3dtiles_args_spec(req: ConvertPy3dtilesRequest) -> Seq<Seq<char>> {
    seq!["convert"@, trim_seq(req.input@), "--out"@, trim_seq(req.output@)]
        + flag_args("--srs-in"@, opt_text(req.srs_in))
        + flag_args("--srs-out"@, opt_text(req.srs_out))
        + word_args(opt_text(req.extra_args))
}

/// What a Py3DTiles request becomes: a refusal for a blank input or output, else the
/// command (`py3dtiles` unless one is given) with its arguments.
pub fn plan_py3dtiles(req: &ConvertPy3dtilesRequest) -> (r: Result<CommandPlan, Rejection>)
    ensures
        match io_refusal(req.input@, req.output@) {
            Some(m) => r matches Err(e) && e.status == 400 && e.message@ == m,
            None => r matches Ok(p) && p.program@ == trimmed_or(opt_text(req.command), "py3dtiles"@)
                && p.args.deep_view() == py3dtiles_args_spec(*req),
        },
{
    check_input_output(req.input.as_str(), req.output.as_str())?;
    let program = trimmed_or_default(&req.command, "py3dtiles");
    let mut args: Vec<String> = Vec::new();
    push_text(&mut args, "convert");
    push_text(&mut args, trim(req.input.as_str()).as_str());
    push_text(&mut args, "--out");
    push_text(&mut args, trim(req.output.as_str()).as_str());
    push_flag(&mut args, "--srs-in", &req.srs_in);
    push_flag(&mut args, "--srs-out", &req.srs_out);
    push_words(&mut args, &req.extra_args);
    Ok(CommandPlan { program, args })
}

/// The Py3DTiles arguments start with `convert` and the trimmed input, carry the trimmed
/// output after `--out` and each SRS present and not blank, trimmed, after its own flag
/// (`--srs-in`, `--srs-out`); besides the extra options they hold nothing else.
#[verifier::spinoff_prover]
#[verifier::rlimit(80)]
pub proof fn law_py3dtiles_arguments(req: ConvertPy3dtilesRequest)
    ensures
        has_pair(py3dtiles_args_spec(req), "convert"@, trim_seq(req.input@)),
        has_pair(py3dtiles_args_spec(req), "--out"@, trim_seq(req.output@)),
        opt_trimmed_spec(opt_text(req.srs_in)) matches Some(v) ==> has_pair(py3dtiles_args_spec(req), "--srs-in"@, v),
        opt_trimmed_spec(opt_text(req.srs_out)) matches Some(v) ==> has_pair(py3dtiles_args_spec(req), "--srs-out"@, v),
        py3dtiles_args_spec(req)[0] == "convert"@,
        py3dtiles_args_spec(req)[1] == trim_seq(req.input@),
        py3dtiles_args_spec(req).len() == 4 + option_len(opt_text(req.srs_in)) + option_len(opt_text(req.srs_out)) + word_args(opt_text(req.extra_args)).len(),
{
    let a0 = seq!["convert"@, trim_seq(req.input@), "--out"@, trim_seq(req.output@)];
    let a1 = flag_args("--srs-in"@, opt_text(req.srs_in));
    let a2 = flag_args("--srs-out"@, opt_text(req.srs_out));
    let a3 = word_args(opt_text(req.extra_args));
    assert(py3dtiles_args_spec(req) == a0 + a1 + a2 + a3);
    assert(has_pair(py3dtiles_args_spec(req), "convert"@, trim_seq(req.input@))) by {
        assert(a0[0] == "convert"@ && a0[1] == trim_seq(req.input@));
        lemma_pair_extend(a0, a1, "convert"@, trim_seq(req.input@));
        lemma_pair_extend(a0 + a1, a2, "convert"@, trim_seq(req.input@));
        lemma_pair_extend(a0 + a1 + a2, a3, "convert"@, trim_seq(req.input@));
    }
    assert(has_pair(py3dtiles_args_spec(req), "--out"@, trim_seq(req.output@))) by {
        assert(a0[2] == "--out"@ && a0[3] == trim_seq(req.output@));
        lemma_pair_extend(a0, a1, "--out"@, trim_seq(req.output@));
        lemma_pair_extend(a0 + a1, a2, "--out"@, trim_seq(req.output@));
        lemma_pair_extend(a0 + a1 + a2, a3, "--out"@, trim_seq(req.output@));
    }
    assert(opt_trimmed_spec(opt_text(req.srs_in)) matches Some(v) ==> has_pair(py3dtiles_args_spec(req), "--srs-in"@, v)) by {
        if let Some(v) = opt_trimmed_spec(opt_text(req.srs_in)) {
            assert(a1[0] == "--srs-in"@ && a1[1] == v);
            lemma_pair_extend(a1, a0, "--srs-in"@, v);
            lemma_pair_extend(a0 + a1, a2, "--srs-in"@, v);
            lemma_pair_extend(a0 + a1 + a2, a3, "--srs-in"@, v);
        }
    }
    assert(opt_trimmed_spec(opt_text(req.srs_out)) matches Some(v) ==> has_pair(py3dtiles_args_spec(req), "--srs-out"@, v)) by {
        if let Some(v) = opt_trimmed_spec(opt_text(req.srs_out)) {
            assert(a2[0] == "--srs-out"@ && a2[1] == v);
            lemma_pair_extend(a2, a0 + a1, "--srs-out"@, v);
            lemma_pair_extend(a0 + a1 + a2, a3, "--srs-out"@, v);
        }
    }
}

/// A pg2b3dm conversion request.
#[derive(Debug)]
pub struct ConvertPg2b3dmRequest {
    pub connection: String,
    pub table: String,
    pub column: Option<String>,
    pub output: Option<String>,
    pub attribute_columns: Option<String>,
    pub query: Option<String>,
    pub shader_column: Option<String>,
    pub geometric_errors: Option<String>,
    pub command: Option<String>,
    pub extra_args: Option<String>,
}

/// The refusal, if any, for a pg2b3dm request without connection or table.
pub open spec fn pg2b3dm_refusal(req: ConvertPg2b3dmRequest) -> Option<Seq<char>> {
    if trim_seq(req.connection@).len() == 0 {
        Some("connection is required"@)
    } else if trim_seq(req.table@).len() == 0 {
        Some("table is required"@)
    } else {
        None
    }
}

/// The pg2b3dm arguments of a request.
pub open spec fn pg2b3dm_args_spec(req: ConvertPg2b3dmRequest) -> Seq<Seq<char>> {
    seq!["--connection"@, trim_seq(req.connection@), "-t"@, trim_seq(req.table@)]
        + flag_args("-c"@, opt_text(req.column))
        + flag_args("-o"@, opt_text(req.output))
        + flag_args("-a"@, opt_text(req.attribute_columns))
        + flag_args("-q"@, opt_text(req.query))
        + flag_args("--shaderscolumn"@, opt_text(req.shader_column))
        + flag_args("-g"@, opt_text(req.geometric_errors))
        + word_args(opt_text(req.extra_args))
}

/// What a pg2b3dm request becomes: a refusal without connection or table, else the command
/// (`pg2b3dm` unless one is given) with its arguments.
pub fn plan_pg2b3dm(req: &ConvertPg2b3dmRequest) -> (r: Result<CommandPlan, Rejection>)
    ensures
        match pg2b3dm_refusal(*req) {
            Some(m) => r matches Err(e) && e.status == 400 && e.message@ == m,
            None => r matches Ok(p) && p.program@ == trimmed_or(opt_text(req.command), "pg2b3dm"@)
                && p.args.deep_view() == pg2b3dm_args_spec(*req),
        },
{
    if trim(req.connection.as_str()).as_str().is_empty() {
        return Err(bad_request("connection is required"));
    }
    if trim(req.table.as_str()).as_str().is_empty() {
        return Err(bad_request("table is required"));
    }
    let program = trimmed_or_default(&req.command, "pg2b3dm");
    let mut args: Vec<String> = Vec::new();
    push_text(&mut args, "--connection");
    push_text(&mut args, trim(req.connection.as_str()).as_str());
    push_text(&mut args, "-t");
    push_text(&mut args, trim(req.table.as_str()).as_str());
    push_flag(&mut args, "-c", &req.column);
    push_flag(&mut args, "-o", &req.output);
    push_flag(&mut args, "-a", &req.attribute_columns);
    push_flag(&mut args, "-q", &req.query);
    push_flag(&mut args, "--shaderscolumn", &req.shader_column);
    push_flag(&mut args, "-g", &req.geometric_errors);
    push_words(&mut args, &req.extra_args);
    Ok(CommandPlan { program, args })
}

/// The pg2b3dm arguments carry the trimmed connection after `--connection`, the trimmed
/// table after `-t`, and each option present and not blank, trimmed, after its own flag
/// (`-c` column, `-o` output, `-a` attribute columns, `-q` query, `--shaderscolumn`, `-g`
/// geometric errors); besides the extra options they hold nothing else.
#[verifier::spinoff_prover]
#[verifier::rlimit(80)]
pub proof fn law_pg2b3dm_arguments(req: ConvertPg2b3dmRequest)
    ensures
        has_pair(pg2b3dm_args_spec(req), "--connection"@, trim_seq(req.connection@)),
        has_pair(pg2b3dm_args_spec(req), "-t"@, trim_seq(req.table@)),
        opt_trimmed_spec(opt_text(req.column)) matches Some(v) ==> has_pair(pg2b3dm_args_spec(req), "-c"@, v),
        opt_trimmed_spec(opt_text(req.output)) matches Some(v) ==> has_pair(pg2b3dm_args_spec(req), "-o"@, v),
        opt_trimmed_spec(opt_text(req.attribute_columns)) matches Some(v) ==> has_pair(pg2b3dm_args_spec(req), "-a"@, v),
        opt_trimmed_spec(opt_text(req.query)) matches Some(v) ==> has_pair(pg2b3dm_args_spec(req), "-q"@, v),
        opt_trimmed_spec(opt_text(req.shader_column)) matches Some(v) ==> has_pair(pg2b3dm_args_spec(req), "--shaderscolumn"@, v),
        opt_trimmed_spec(opt_text(req.geometric_errors)) matches Some(v) ==> has_pair(pg2b3dm_args_spec(req), "-g"@, v),
        pg2b3dm_args_spec(req).len() == 4 + option_len(opt_text(req.column)) + option_len(opt_text(req.output)) + option_len(opt_text(req.attribute_columns)) + option_len(opt_text(req.query)) + option_len(opt_text(req.shader_column)) + option_len(opt_text(req.geometric_errors)) + word_args(opt_text(req.extra_args)).len(),
{
    let a0 = seq!["--connection"@, trim_seq(req.connection@), "-t"@, trim_seq(req.table@)];
    let a1 = flag_args("-c"@, opt_text(req.column));
    let a2 = flag_args("-o"@, opt_text(req.output));
    let a3 = flag_args("-a"@, opt_text(req.attribute_columns));
    let a4 = flag_args("-q"@, opt_text(req.query));
    let a5 = flag_args("--shaderscolumn"@, opt_text(req.shader_column));
    let a6 = flag_args("-g"@, opt_text(req.geometric_errors));
    let a7 = word_args(opt_text(req.extra_args));
    assert(pg2b3dm_args_spec(req) == a0 + a1 + a2 + a3 + a4 + a5 + a6 + a7);
    assert(has_pair(pg2b3dm_args_spec(req), "--connection"@, trim_seq(req.connection@))) by {
        assert(a0[0] == "--connection"@ && a0[1] == trim_seq(req.connection@));
        lemma_pair_extend(a0, a1, "--connection"@, trim_seq(req.connection@));
        lemma_pair_extend(a0 + a1, a2, "--connection"@, trim_seq(req.connection@));
        lemma_pair_extend(a0 + a1 + a2, a3, "--connection"@, trim_seq(req.connection@));
        lemma_pair_extend(a0 + a1 + a2 + a3, a4, "--connection"@, trim_seq(req.connection@));
        lemma_pair_extend(a0 + a1 + a2 + a3 + a4, a5, "--connection"@, trim_seq(req.connection@));
        lemma_pair_extend(a0 + a1 + a2 + a3 + a4 + a5, a6, "--connection"@, trim_seq(req.connection@));
        lemma_pair_extend(a0 + a1 + a2 + a3 + a4 + a5 + a6, a7, "--connection"@, trim_seq(req.connection@));
    }
    assert(has_pair(pg2b3dm_args_spec(req), "-t"@, trim_seq(req.table@))) by {
        assert(a0[2] == "-t"@ && a0[3] == trim_seq(req.table@));
        lemma_pair_extend(a0, a1, "-t"@, trim_seq(req.table@));
        lemma_pair_extend(a0 + a1, a2, "-t"@, trim_seq(req.table@));
        lemma_pair_extend(a0 + a1 + a2, a3, "-t"@, trim_seq(req.table@));
        lemma_pair_extend(a0 + a1 + a2 + a3, a4, "-t"@, trim_seq(req.table@));
        lemma_pair_extend(a0 + a1 + a2 + a3 + a4, a5, "-t"@, trim_seq(req.table@));
        lemma_pair_extend(a0 + a1 + a2 + a3 + a4 + a5, a6, "-t"@, trim_seq(req.table@));
        lemma_pair_extend(a0 + a1 + a2 + a3 + a4 + a5 + a6, a7, "-t"@, trim_seq(req.table@));
    }
    assert(opt_trimmed_spec(opt_text(req.column)) matches Some(v) ==> has_pair(pg2b3dm_args_spec(req), "-c"@, v)) by {
        if let Some(v) = opt_trimmed_spec(opt_text(req.column)) {
            assert(a1[0] == "-c"@ && a1[1] == v);
            lemma_pair_extend(a1, a0, "-c"@, v);
            lemma_pair_extend(a0 + a1, a2, "-c"@, v);
            lemma_pair_extend(a0 + a1 + a2, a3, "-c"@, v);
            lemma_pair_extend(a0 + a1 + a2 + a3, a4, "-c"@, v);
            lemma_pair_extend(a0 + a1 + a2 + a3 + a4, a5, "-c"@, v);
            lemma_pair_extend(a0 + a1 + a2 + a3 + a4 + a5, a6, "-c"@, v);
            lemma_pair_extend(a0 + a1 + a2 + a3 + a4 + a5 + a6, a7, "-c"@, v);
        }
    }
    assert(opt_trimmed_spec(opt_text(req.output)) matches Some(v) ==> has_pair(pg2b3dm_args_spec(req), "-o"@, v)) by {
        if let Some(v) = opt_trimmed_spec(opt_text(req.output)) {
            assert(a2[0] == "-o"@ && a2[1] == v);
            lemma_pair_extend(a2, a0 + a1, "-o"@, v);
            lemma_pair_extend(a0 + a1 + a2, a3, "-o"@, v);
            lemma_pair_extend(a0 + a1 + a2 + a3, a4, "-o"@, v);
            lemma_pair_extend(a0 + a1 + a2 + a3 + a4, a5, "-o"@, v);
            lemma_pair_extend(a0 + a1 + a2 + a3 + a4 + a5, a6, "-o"@, v);
            lemma_pair_extend(a0 + a1 + a2 + a3 + a4 + a5 + a6, a7, "-o"@, v);
        }
    }
    assert(opt_trimmed_spec(opt_text(req.attribute_columns)) matches Some(v) ==> has_pair(pg2b3dm_args_spec(req), "-a"@, v)) by {
        if let Some(v) = opt_trimmed_spec(opt_text(req.attribute_columns)) {
            assert(a3[0] == "-a"@ && a3[1] == v);
            lemma_pair_extend(a3, a0 + a1 + a2, "-a"@, v);
            lemma_pair_extend(a0 + a1 + a2 + a3, a4, "-a"@, v);
            lemma_pair_extend(a0 + a1 + a2 + a3 + a4, a5, "-a"@, v);
            lemma_pair_extend(a0 + a1 + a2 + a3 + a4 + a5, a6, "-a"@, v);
            lemma_pair_extend(a0 + a1 + a2 + a3 + a4 + a5 + a6, a7, "-a"@, v);
        }
    }
    assert(opt_trimmed_spec(opt_text(req.query)) matches Some(v) ==> has_pair(pg2b3dm_args_spec(req), "-q"@, v)) by {
        if let Some(v) = opt_trimmed_spec(opt_text(req.query)) {
            assert(a4[0] == "-q"@ && a4[1] == v);
            lemma_pair_extend(a4, a0 + a1 + a2 + a3, "-q"@, v);
            lemma_pair_extend(a0 + a1 + a2 + a3 + a4, a5, "-q"@, v);
            lemma_pair_extend(a0 + a1 + a2 + a3 + a4 + a5, a6, "-q"@, v);
            lemma_pair_extend(a0 + a1 + a2 + a3 + a4 + a5 + a6, a7, "-q"@, v);
        }
    }
    assert(opt_trimmed_spec(opt_text(req.shader_column)) matches Some(v) ==> has_pair(pg2b3dm_args_spec(req), "--shaderscolumn"@, v)) by {
        if let Some(v) = opt_trimmed_spec(opt_text(req.shader_column)) {
            assert(a5[0] == "--shaderscolumn"@ && a5[1] == v);
            lemma_pair_extend(a5, a0 + a1 + a2 + a3 + a4, "--shaderscolumn"@, v);
            lemma_pair_extend(a0 + a1 + a2 + a3 + a4 + a5, a6, "--shaderscolumn"@, v);
            lemma_pair_extend(a0 + a1 + a2 + a3 + a4 + a5 + a6, a7, "--shaderscolumn"@, v);
        }
    }
    assert(opt_trimmed_spec(opt_text(req.geometric_errors)) matches Some(v) ==> has_pair(pg2b3dm_args_spec(req), "-g"@, v)) by {
        if let Some(v) = opt_trimmed_spec(opt_text(req.geometric_errors)) {
            assert(a6[0] == "-g"@ && a6[1] == v);
            lemma_pair_extend(a6, a0 + a1 + a2 + a3 + a4 + a5, "-g"@, v);
            lemma_pair_extend(a0 + a1 + a2 + a3 + a4 + a5 + a6, a7, "-g"@, v);
        }
    }
}

/// A gocesiumtiler conversion request.
#[derive(Debug)]
pub struct ConvertGocesiumtilerRequest {
    pub input: String,
    pub output: String,
    pub epsg: Option<String>,
    pub resolution: Option<String>,
    pub depth: Option<String>,
    pub min_points_per_tile: Option<String>,
    pub version: Option<String>,
    pub command: Option<String>,
    pub extra_args: Option<String>,
}

/// The gocesiumtiler arguments of a request; the output and input come last.
pub open spec fn gocesiumtiler_args_spec(req: ConvertGocesiumtilerRequest) -> Seq<Seq<char>> {
    seq!["file"@]
        + flag_args("--epsg"@, opt_text(req.epsg))
        + flag_args("--resolution"@, opt_text(req.resolution))
        + flag_args("--depth"@, opt_text(req.depth))
        + flag_args("--min-points-per-tile"@, opt_text(req.min_points_per_tile))
        + flag_args("--version"@, opt_text(req.version))
        + word_args(opt_text(req.extra_args))
        + seq!["--out"@, trim_seq(req.output@), trim_seq(req.input@)]
}

/// What a gocesiumtiler request becomes: a refusal for a blank input or output, else the
/// command (the bundled `tools/gocesiumtiler/gocesiumtiler.exe` unless one is given) with
/// its arguments.
pub fn plan_gocesiumtiler(req: &ConvertGocesiumtilerRequest) -> (r: Result<CommandPlan, Rejection>)
    ensures
        match io_refusal(req.input@, req.output@) {
            Some(m) => r matches Err(e) && e.status == 400 && e.message@ == m,
            None => r matches Ok(p)
                && p.program@ == trimmed_or(opt_text(req.command), "tools/gocesiumtiler/gocesiumtiler.exe"@)
                && p.args.deep_view() == gocesiumtiler_args_spec(*req),
        },
{
    check_input_output(req.input.as_str(), req.output.as_str())?;
    let program = trimmed_or_default(&req.command, "tools/gocesiumtiler/gocesiumtiler.exe");
    let mut args: Vec<String> = Vec::new();
    push_text(&mut args, "file");
    push_flag(&mut args, "--epsg", &req.epsg);
    push_flag(&mut args, "--resolution", &req.resolution);
    push_flag(&mut args, "--depth", &req.depth);
    push_flag(&mut args, "--min-points-per-tile", &req.min_points_per_tile);
    push_flag(&mut args, "--version", &req.version);
    push_words(&mut args, &req.extra_args);
    push_text(&mut args, "--out");
    push_text(&mut args, trim(req.output.as_str()).as_str());
    push_text(&mut args, trim(req.input.as_str()).as_str());
    Ok(CommandPlan { program, args })
}

/// The gocesiumtiler arguments start with `file`, carry each option present and not blank,
/// trimmed, after its own flag (`--epsg`, `--resolution`, `--depth`,
/// `--min-points-per-tile`, `--version`), then the trimmed output after `--out`, and end with
/// the trimmed input; besides the extra options they hold nothing else.
#[verifier::spinoff_prover]
#[verifier::rlimit(80)]
pub proof fn law_gocesiumtiler_arguments(req: ConvertGocesiumtilerRequest)
    ensures
        opt_trimmed_spec(opt_text(req.epsg)) matches Some(v) ==> has_pair(gocesiumtiler_args_spec(req), "--epsg"@, v),
        opt_trimmed_spec(opt_text(req.resolution)) matches Some(v) ==> has_pair(gocesiumtiler_args_spec(req), "--resolution"@, v),
        opt_trimmed_spec(opt_text(req.depth)) matches Some(v) ==> has_pair(gocesiumtiler_args_spec(req), "--depth"@, v),
        opt_trimmed_spec(opt_text(req.min_points_per_tile)) matches Some(v) ==> has_pair(gocesiumtiler_args_spec(req), "--min-points-per-tile"@, v),
        opt_trimmed_spec(opt_text(req.version)) matches Some(v) ==> has_pair(gocesiumtiler_args_spec(req), "--version"@, v),
        has_pair(gocesiumtiler_args_spec(req), "--out"@, trim_seq(req.output@)),
        gocesiumtiler_args_spec(req)[0] == "file"@,
        gocesiumtiler_args_spec(req).last() == trim_seq(req.input@),
        gocesiumtiler_args_spec(req).len() == 1 + option_len(opt_text(req.epsg)) + option_len(opt_text(req.resolution)) + option_len(opt_text(req.depth)) + option_len(opt_text(req.min_points_per_tile)) + option_len(opt_text(req.version)) + word_args(opt_text(req.extra_args)).len() + 3,
{
    let a0 = seq!["file"@];
    let a1 = flag_args("--epsg"@, opt_text(req.epsg));
    let a2 = flag_args("--resolution"@, opt_text(req.resolution));
    let a3 = flag_args("--depth"@, opt_text(req.depth));
    let a4 = flag_args("--min-points-per-tile"@, opt_text(req.min_points_per_tile));
    let a5 = flag_args("--version"@, opt_text(req.version));
    let a6 = word_args(opt_text(req.extra_args));
    let a7 = seq!["--out"@, trim_seq(req.output@), trim_seq(req.input@)];
    assert(gocesiumtiler_args_spec(req) == a0 + a1 + a2 + a3 + a4 + a5 + a6 + a7);
    assert(opt_trimmed_spec(opt_text(req.epsg)) matches Some(v) ==> has_pair(gocesiumtiler_args_spec(req), "--epsg"@, v)) by {
        if let Some(v) = opt_trimmed_spec(opt_text(req.epsg)) {
            assert(a1[0] == "--epsg"@ && a1[1] == v);
            lemma_pair_extend(a1, a0, "--epsg"@, v);
            lemma_pair_extend(a0 + a1, a2, "--epsg"@, v);
            lemma_pair_extend(a0 + a1 + a2, a3, "--epsg"@, v);
            lemma_pair_extend(a0 + a1 + a2 + a3, a4, "--epsg"@, v);
            lemma_pair_extend(a0 + a1 + a2 + a3 + a4, a5, "--epsg"@, v);
            lemma_pair_extend(a0 + a1 + a2 + a3 + a4 + a5, a6, "--epsg"@, v);
            lemma_pair_extend(a0 + a1 + a2 + a3 + a4 + a5 + a6, a7, "--epsg"@, v);
        }
    }
    assert(opt_trimmed_spec(opt_text(req.resolution)) matches Some(v) ==> has_pair(gocesiumtiler_args_spec(req), "--resolution"@, v)) by {
        if let Some(v) = opt_trimmed_spec(opt_text(req.resolution)) {
            assert(a2[0] == "--resolution"@ && a2[1] == v);
            lemma_pair_extend(a2, a0 + a1, "--resolution"@, v);
            lemma_pair_extend(a0 + a1 + a2, a3, "--resolution"@, v);
            lemma_pair_extend(a0 + a1 + a2 + a3, a4, "--resolution"@, v);
            lemma_pair_extend(a0 + a1 + a2 + a3 + a4, a5, "--resolution"@, v);
            lemma_pair_extend(a0 + a1 + a2 + a3 + a4 + a5, a6, "--resolution"@, v);
            lemma_pair_extend(a0 + a1 + a2 + a3 + a4 + a5 + a6, a7, "--resolution"@, v);
        }
    }
    assert(opt_trimmed_spec(opt_text(req.depth)) matches Some(v) ==> has_pair(gocesiumtiler_args_spec(req), "--depth"@, v)) by {
        if let Some(v) = opt_trimmed_spec(opt_text(req.depth)) {
            assert(a3[0] == "--depth"@ && a3[1] == v);
            lemma_pair_extend(a3, a0 + a1 + a2, "--depth"@, v);
            lemma_pair_extend(a0 + a1 + a2 + a3, a4, "--depth"@, v);
            lemma_pair_extend(a0 + a1 + a2 + a3 + a4, a5, "--depth"@, v);
            lemma_pair_extend(a0 + a1 + a2 + a3 + a4 + a5, a6, "--depth"@, v);
            lemma_pair_extend(a0 + a1 + a2 + a3 + a4 + a5 + a6, a7, "--depth"@, v);
        }
    }
    assert(opt_trimmed_spec(opt_text(req.min_points_per_tile)) matches Some(v) ==> has_pair(gocesiumtiler_args_spec(req), "--min-points-per-tile"@, v)) by {
        if let Some(v) = opt_trimmed_spec(opt_text(req.min_points_per_tile)) {
            assert(a4[0] == "--min-points-per-tile"@ && a4[1] == v);
            lemma_pair_extend(a4, a0 + a1 + a2 + a3, "--min-points-per-tile"@, v);
            lemma_pair_extend(a0 + a1 + a2 + a3 + a4, a5, "--min-points-per-tile"@, v);
            lemma_pair_extend(a0 + a1 + a2 + a3 + a4 + a5, a6, "--min-points-per-tile"@, v);
            lemma_pair_extend(a0 + a1 + a2 + a3 + a4 + a5 + a6, a7, "--min-points-per-tile"@, v);
        }
    }
    assert(opt_trimmed_spec(opt_text(req.version)) matches Some(v) ==> has_pair(gocesiumtiler_args_spec(req), "--version"@, v)) by {
        if let Some(v) = opt_trimmed_spec(opt_text(req.version)) {
            assert(a5[0] == "--version"@ && a5[1] == v);
            lemma_pair_extend(a5, a0 + a1 + a2 + a3 + a4, "--version"@, v);
            lemma_pair_extend(a0 + a1 + a2 + a3 + a4 + a5, a6, "--version"@, v);
            lemma_pair_extend(a0 + a1 + a2 + a3 + a4 + a5 + a6, a7, "--version"@, v);
        }
    }
    assert(has_pair(gocesiumtiler_args_spec(req), "--out"@, trim_seq(req.output@))) by {
        assert(a7[0] == "--out"@ && a7[1] == trim_seq(req.output@));
        lemma_pair_extend(a7, a0 + a1 + a2 + a3 + a4 + a5 + a6, "--out"@, trim_seq(req.output@));
    }
}

/// A preprocessing request: a program line (with its own options) plus input and output.
#[derive(Debug)]
pub struct PreprocessRequest {
    pub program: String,
    pub input: Option<String>,
    pub output: Option<String>,
    pub extra_args: Option<String>,
}

/// What a preprocessing request becomes: a refusal when the program line is blank; else its
/// first word as the program, then its other words, the extra options, the input and the
/// output.
pub fn plan_preprocess(req: &PreprocessRequest) -> (r: Result<CommandPlan, Rejection>)
    ensures
        ({
            let words = words_seq(trim_seq(req.program@));
            if words.len() == 0 {
                r matches Err(e) && e.status == 400 && e.message@ == "program is required"@
            } else {
                r matches Ok(p) && p.program@ == words[0]
                    && p.args.deep_view() == words.drop_first() + word_args(opt_text(req.extra_args))
                        + value_args(opt_text(req.input)) + value_args(opt_text(req.output))
            }
        }),
{
    let t = trim(req.program.as_str());
    let mut parts = split_whitespace(t.as_str());
    if parts.len() == 0 {
        return Err(bad_request("program is required"));
    }
    let ghost pv = parts.deep_view();
    let program = parts.remove(0);
    assert(parts.deep_view() == pv.drop_first());
    let mut args = parts;
    push_words(&mut args, &req.extra_args);
    push_value(&mut args, &req.input);
    push_value(&mut args, &req.output);
    Ok(CommandPlan { program, args })
}

/// A BIM/CIM conversion request (IfcConvert or cjio).
#[derive(Debug)]
pub struct ConvertBimcimRequest {
    pub tool: String,
    pub input: String,
    pub output: String,
    pub output_format: Option<String>,
    pub command: Option<String>,
    pub extra_args: Option<String>,
}

/// The PowerShell line that runs IfcConvert from its own folder, with quoted input and
/// output (a `'` doubled inside the quotes).
pub open spec fn ifcconvert_script(exe: Seq<char>, input: Seq<char>, output: Seq<char>) -> Seq<char> {
    "cd (Split-Path -Parent '"@ + exe + "'); & (Split-Path -Leaf '"@ + exe + "') '"@
        + crate::text::replace_seq(input, "'"@, "''"@) + "' '"@ + crate::text::replace_seq(output, "'"@, "''"@) + "'"@
}

/// The refusal, if any, of a BIM/CIM request; the tool is checked first.
pub open spec fn bimcim_refusal(req: ConvertBimcimRequest) -> Option<Seq<char>> {
    let tool = trim_seq(req.tool@);
    if tool.len() == 0 {
        Some("tool is required"@)
    } else if io_refusal(req.input@, req.output@) is Some {
        io_refusal(req.input@, req.output@)
    } else if tool != "ifcconvert"@ && tool != "cjio"@ {
        Some("unknown tool"@)
    } else {
        None
    }
}

/// The command of an accepted BIM/CIM request, before the extra options.
pub open spec fn bimcim_base(req: ConvertBimcimRequest) -> (Seq<char>, Seq<Seq<char>>) {
    if trim_seq(req.tool@) == "ifcconvert"@ {
        let exe = trimmed_or(opt_text(req.command), "tools/ifcopenshell/IfcConvert.exe"@);
        ("powershell"@, seq!["-Command"@, ifcconvert_script(exe, trim_seq(req.input@), trim_seq(req.output@))])
    } else {
        (trimmed_or(opt_text(req.command), "tools/python/Scripts/cjio.exe"@),
            seq![trim_seq(req.input@), "export"@] + value_args(opt_text(req.output_format)) + seq![trim_seq(req.output@)])
    }
}

/// The cjio command line exports the trimmed input to the trimmed output: the input first,
/// then `export`, then the output format when one is given (trimmed), then the output; the
/// IfcConvert one runs PowerShell with a `-Command` script.
pub proof fn law_bimcim_command_lines(req: ConvertBimcimRequest)
    ensures
        trim_seq(req.tool@) == "cjio"@ ==> {
            let a = bimcim_base(req).1;
            &&& a.len() == (if opt_trimmed_spec(opt_text(req.output_format)) is Some { 4int } else { 3int })
            &&& a[0] == trim_seq(req.input@)
            &&& a[1] == "export"@
            &&& a.last() == trim_seq(req.output@)
            &&& (opt_trimmed_spec(opt_text(req.output_format)) matches Some(f) ==> a[2] == f)
        },
        trim_seq(req.tool@) == "ifcconvert"@ ==> bimcim_base(req).0 == "powershell"@
            && bimcim_base(req).1.len() == 2 && bimcim_base(req).1[0] == "-Command"@,
{
    reveal_strlit("cjio");
    reveal_strlit("ifcconvert");
    assert("cjio"@ != "ifcconvert"@) by {
        assert("cjio"@.len() != "ifcconvert"@.len());
    }
    if trim_seq(req.tool@) == "cjio"@ {
        let head = seq![trim_seq(req.input@), "export"@];
        let va = value_args(opt_text(req.output_format));
        let tail = seq![trim_seq(req.output@)];
        let a = bimcim_base(req).1;
        assert(a == head + va + tail);
        assert(a[0] == head[0] && a[1] == head[1]);
        assert(a.last() == tail[0]);
        if let Some(f) = opt_trimmed_spec(opt_text(req.output_format)) {
            assert(va == seq![f]);
            assert(a[2] == va[0]);
        }
    }
}

/// What a BIM/CIM request becomes: IfcConvert runs through PowerShell, cjio directly with
/// `export`; the extra options follow either way.
pub fn plan_bimcim(req: &ConvertBimcimRequest) -> (r: Result<CommandPlan, Rejection>)
    ensures
        match bimcim_refusal(*req) {
            Some(m) => r matches Err(e) && e.status == 400 && e.message@ == m,
            None => r matches Ok(p) && p.program@ == bimcim_base(*req).0
                && p.args.deep_view() == bimcim_base(*req).1 + word_args(opt_text(req.extra_args)),
        },
{
    let tool = trim(req.tool.as_str());
    if tool.as_str().is_empty() {
        return Err(bad_request("tool is required"));
    }
    check_input_output(req.input.as_str(), req.output.as_str())?;
    let input = trim(req.input.as_str());
    let output = trim(req.output.as_str());
    let (program, mut args) = if crate::catalog::same_text(tool.as_str(), "ifcconvert") {
        let exe = trimmed_or_default(&req.command, "tools/ifcopenshell/IfcConvert.exe");
        proof { reveal_strlit("'"); }
        let i = crate::text::replace(input.as_str(), "'", "''");
        let o = crate::text::replace(output.as_str(), "'", "''");
        let s1 = crate::text::concat("cd (Split-Path -Parent '", exe.as_str());
        let s2 = crate::text::concat(s1.as_str(), "'); & (Split-Path -Leaf '");
        let s3 = crate::text::concat(s2.as_str(), exe.as_str());
        let s4 = crate::text::concat(s3.as_str(), "') '");
        let s5 = crate::text::concat(s4.as_str(), i.as_str());
        let s6 = crate::text::concat(s5.as_str(), "' '");
        let s7 = crate::text::concat(s6.as_str(), o.as_str());
        let script = crate::text::concat(s7.as_str(), "'");
        let mut a: Vec<String> = Vec::new();
        push_text(&mut a, "-Command");
        push_text(&mut a, script.as_str());
        ("powershell".to_owned(), a)
    } else if crate::catalog::same_text(tool.as_str(), "cjio") {
        let command = trimmed_or_default(&req.command, "tools/python/Scripts/cjio.exe");
        let mut a: Vec<String> = Vec::new();
        push_text(&mut a, input.as_str());
        push_text(&mut a, "export");
        push_value(&mut a, &req.output_format);
        push_text(&mut a, output.as_str());
        (command, a)
    } else {
        return Err(bad_request("unknown tool"));
    };
    push_words(&mut args, &req.extra_args);
    Ok(CommandPlan { program, args })
}


/// An automatic conversion request: the converter is chosen by the output format.
#[derive(Debug)]
pub struct AutoConvertRequest {
    pub input: String,
    pub output: String,
    pub output_format: Option<String>,
    pub input_format: Option<String>,
    pub crs: Option<String>,
    pub x_offset: Option<String>,
    pub y_offset: Option<String>,
    pub z_offset: Option<String>,
    pub longitude: Option<String>,
    pub latitude: Option<String>,
}

/// An OBJ to 3D Tiles 1.1 request: mago-3d-tiler makes 3D Tiles 1.0, then 3d-tiles-tools
/// upgrades them.
#[derive(Debug)]
pub struct ConvertObjTo3dtiles11Request {
    pub input: String,
    pub output: String,
    pub crs: Option<String>,
    pub origin: Option<String>,
    pub x_offset: Option<String>,
    pub y_offset: Option<String>,
    pub z_offset: Option<String>,
    pub longitude: Option<String>,
    pub latitude: Option<String>,
    pub output_type: Option<String>,
    pub java_path: Option<String>,
    pub jar_path: Option<String>,
    pub jvm_options: Option<String>,
    pub mago_extra_args: Option<String>,
    pub tdt_command: Option<String>,
    pub tdt_extra_args: Option<String>,
}

/// Where an automatic conversion goes.
#[derive(Debug)]
pub enum AutoRoute {
    /// `b3dm` and `i3dm`: mago-3d-tiler.
    Mago(ConvertRequest),
    /// `pnts`: gocesiumtiler.
    Gocesiumtiler(ConvertGocesiumtilerRequest),
    /// `3dtiles-1-1-glb`: the OBJ to 3D Tiles 1.1 conversion.
    ObjTo3dtiles11(ConvertObjTo3dtiles11Request),
    /// Any other format: the job completes with this message.
    Placeholder { message: String },
}

/// The message of a job whose output format has no converter yet.
pub open spec fn placeholder_message(input: Seq<char>, output_format: Option<Seq<char>>, input_format: Option<Seq<char>>) -> Seq<char> {
    "auto converter not yet implemented: "@ + trim_seq(input)
        + (match opt_trimmed_spec(output_format) { Some(f) => ", output_format: "@ + f, None => Seq::empty() })
        + (match opt_trimmed_spec(input_format) { Some(f) => ", input_format: "@ + f, None => Seq::empty() })
}

/// The automatic conversion's routing, as the documentation's table gives it.
pub open spec fn auto_route_spec(req: AutoConvertRequest, r: AutoRoute) -> bool {
    let fmt = opt_trimmed_spec(opt_text(req.output_format));
    let crs = opt_trimmed_spec(opt_text(req.crs));
    if fmt == Some("b3dm"@) || fmt == Some("i3dm"@) {
        r matches AutoRoute::Mago(c) && {
            &&& c.input@ == trim_seq(req.input@) && c.output@ == trim_seq(req.output@)
            &&& opt_text(c.input_type) == opt_trimmed_spec(opt_text(req.input_format))
            &&& opt_text(c.output_type) == fmt
            &&& opt_text(c.crs) == crs
            &&& opt_text(c.x_offset) == opt_trimmed_spec(opt_text(req.x_offset))
            &&& opt_text(c.y_offset) == opt_trimmed_spec(opt_text(req.y_offset))
            &&& opt_text(c.z_offset) == opt_trimmed_spec(opt_text(req.z_offset))
            &&& opt_text(c.longitude) == opt_trimmed_spec(opt_text(req.longitude))
            &&& opt_text(c.latitude) == opt_trimmed_spec(opt_text(req.latitude))
            &&& c.java_path is None && c.jar_path is None && c.jvm_options is None && c.extra_args is None
        }
    } else if fmt == Some("pnts"@) {
        r matches AutoRoute::Gocesiumtiler(g) && {
            &&& g.input@ == trim_seq(req.input@) && g.output@ == trim_seq(req.output@)
            &&& opt_text(g.epsg) == crs
            &&& g.resolution is None && g.depth is None && g.min_points_per_tile is None
            &&& g.version is None && g.command is None && g.extra_args is None
        }
    } else if fmt == Some("3dtiles-1-1-glb"@) {
        r matches AutoRoute::ObjTo3dtiles11(o) && {
            &&& o.input@ == trim_seq(req.input@) && o.output@ == trim_seq(req.output@)
            &&& opt_text(o.crs) == crs
            &&& o.origin is None
            &&& opt_text(o.x_offset) == opt_trimmed_spec(opt_text(req.x_offset))
            &&& opt_text(o.y_offset) == opt_trimmed_spec(opt_text(req.y_offset))
            &&& opt_text(o.z_offset) == opt_trimmed_spec(opt_text(req.z_offset))
            &&& opt_text(o.longitude) == opt_trimmed_spec(opt_text(req.longitude))
            &&& opt_text(o.latitude) == opt_trimmed_spec(opt_text(req.latitude))
            &&& o.output_type is None && o.java_path is None && o.jar_path is None && o.jvm_options is None
            &&& o.mago_extra_args is None && o.tdt_command is None && o.tdt_extra_args is None
        }
    } else {
        r matches AutoRoute::Placeholder { message }
            && message@ == placeholder_message(req.input@, opt_text(req.output_format), opt_text(req.input_format))
    }
}

/// Chooses the converter of an automatic conversion by its output format.
pub fn route_auto(req: &AutoConvertRequest) -> (r: AutoRoute)
    ensures
        auto_route_spec(*req, r),
{
    let input = trim(req.input.as_str());
    let output = trim(req.output.as_str());
    let fmt = opt_trimmed(&req.output_format);
    let input_format = opt_trimmed(&req.input_format);
    let crs = opt_trimmed(&req.crs);
    let x_offset = opt_trimmed(&req.x_offset);
    let y_offset = opt_trimmed(&req.y_offset);
    let z_offset = opt_trimmed(&req.z_offset);
    let longitude = opt_trimmed(&req.longitude);
    let latitude = opt_trimmed(&req.latitude);
    proof {
        reveal_strlit("b3dm");
        reveal_strlit("i3dm");
        reveal_strlit("pnts");
        reveal_strlit("3dtiles-1-1-glb");
    }
    if let Some(f) = &fmt {
        if crate::catalog::same_text(f.as_str(), "b3dm") || crate::catalog::same_text(f.as_str(), "i3dm") {
            return AutoRoute::Mago(ConvertRequest {
                input,
                output,
                input_type: input_format,
                output_type: Some(f.clone()),
                crs,
                x_offset,
                y_offset,
                z_offset,
                longitude,
                latitude,
                java_path: None,
                jar_path: None,
                jvm_options: None,
                extra_args: None,
            });
        }
        if crate::catalog::same_text(f.as_str(), "pnts") {
            return AutoRoute::Gocesiumtiler(ConvertGocesiumtilerRequest {
                input,
                output,
                epsg: crs,
                resolution: None,
                depth: None,
                min_points_per_tile: None,
                version: None,
                command: None,
                extra_args: None,
            });
        }
        if crate::catalog::same_text(f.as_str(), "3dtiles-1-1-glb") {
            return AutoRoute::ObjTo3dtiles11(ConvertObjTo3dtiles11Request {
                input,
                output,
                crs,
                origin: None,
                x_offset,
                y_offset,
                z_offset,
                longitude,
                latitude,
                output_type: None,
                java_path: None,
                jar_path: None,
                jvm_options: None,
                mago_extra_args: None,
                tdt_command: None,
                tdt_extra_args: None,
            });
        }
    }
    let mut message = crate::text::concat("auto converter not yet implemented: ", input.as_str());
    let ghost m0 = message@;
    if let Some(f) = &fmt {
        message.append(", output_format: ");
        message.append(f.as_str());
        assert(message@ == m0 + (", output_format: "@ + f@));
    } else {
        assert(message@ == m0 + Seq::<char>::empty());
    }
    let ghost m1 = message@;
    if let Some(f) = &input_format {
        message.append(", input_format: ");
        message.append(f.as_str());
        assert(message@ == m1 + (", input_format: "@ + f@));
    } else {
        assert(message@ == m1 + Seq::<char>::empty());
    }
    AutoRoute::Placeholder { message }
}

/// The automatic conversion goes by the trimmed output format alone: `b3dm` and `i3dm` to
/// mago-3d-tiler with that tile type, `pnts` to gocesiumtiler, `3dtiles-1-1-glb` to the OBJ
/// to 3D Tiles 1.1 conversion, each with the trimmed input and output and the request's
/// coordinate settings; any other format, or none, to the placeholder job.
pub proof fn law_auto_routes_by_output_format(req: AutoConvertRequest, r: AutoRoute)
    requires
        auto_route_spec(req, r),
    ensures
        ({
            let fmt = opt_trimmed_spec(opt_text(req.output_format));
            let crs = opt_trimmed_spec(opt_text(req.crs));
            &&& (fmt == Some("b3dm"@) || fmt == Some("i3dm"@)) ==> (r matches AutoRoute::Mago(c) && {
                &&& opt_text(c.output_type) == fmt
                &&& c.input@ == trim_seq(req.input@)
                &&& c.output@ == trim_seq(req.output@)
                &&& opt_text(c.input_type) == opt_trimmed_spec(opt_text(req.input_format))
                &&& opt_text(c.crs) == crs
                &&& opt_text(c.x_offset) == opt_trimmed_spec(opt_text(req.x_offset))
                &&& opt_text(c.y_offset) == opt_trimmed_spec(opt_text(req.y_offset))
                &&& opt_text(c.z_offset) == opt_trimmed_spec(opt_text(req.z_offset))
                &&& opt_text(c.longitude) == opt_trimmed_spec(opt_text(req.longitude))
                &&& opt_text(c.latitude) == opt_trimmed_spec(opt_text(req.latitude))
            })
            &&& fmt == Some("pnts"@) ==> (r matches AutoRoute::Gocesiumtiler(g) && {
                &&& g.input@ == trim_seq(req.input@)
                &&& g.output@ == trim_seq(req.output@)
                &&& opt_text(g.epsg) == crs
            })
            &&& fmt == Some("3dtiles-1-1-glb"@) ==> (r matches AutoRoute::ObjTo3dtiles11(o) && {
                &&& o.input@ == trim_seq(req.input@)
                &&& o.output@ == trim_seq(req.output@)
                &&& opt_text(o.crs) == crs
                &&& opt_text(o.x_offset) == opt_trimmed_spec(opt_text(req.x_offset))
                &&& opt_text(o.y_offset) == opt_trimmed_spec(opt_text(req.y_offset))
                &&& opt_text(o.z_offset) == opt_trimmed_spec(opt_text(req.z_offset))
                &&& opt_text(o.longitude) == opt_trimmed_spec(opt_text(req.longitude))
                &&& opt_text(o.latitude) == opt_trimmed_spec(opt_text(req.latitude))
            })
            &&& (r is Placeholder) == (fmt != Some("b3dm"@) && fmt != Some("i3dm"@) && fmt != Some("pnts"@)
                && fmt != Some("3dtiles-1-1-glb"@))
        }),
{
    reveal_strlit("b3dm");
    reveal_strlit("i3dm");
    reveal_strlit("pnts");
    reveal_strlit("3dtiles-1-1-glb");
    assert("b3dm"@ != "pnts"@ && "i3dm"@ != "pnts"@ && "b3dm"@ != "i3dm"@) by {
        assert("b3dm"@[0] != "pnts"@[0] && "i3dm"@[0] != "pnts"@[0] && "b3dm"@[0] != "i3dm"@[0]);
    }
    assert("b3dm"@ != "3dtiles-1-1-glb"@ && "i3dm"@ != "3dtiles-1-1-glb"@ && "pnts"@ != "3dtiles-1-1-glb"@) by {
        assert("3dtiles-1-1-glb"@.len() != 4);
    }
}

} // verus!
