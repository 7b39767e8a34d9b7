use kasugai_converter::commands::{
    check_input_output, mago_jar_path, mago_java_path, plan_bimcim, plan_gocesiumtiler, plan_mago, plan_pg2b3dm,
    plan_preprocess, plan_py3dtiles, route_auto, AutoConvertRequest, AutoRoute, ConvertBimcimRequest,
    ConvertGocesiumtilerRequest, ConvertPg2b3dmRequest, ConvertPy3dtilesRequest, ConvertRequest, PreprocessRequest,
};
use kasugai_converter::installers::{plan_install, NODE_INSTALL_SCRIPT, PYTHON_INSTALL_SCRIPT};

fn s(x: &str) -> String {
    x.to_string()
}

fn o(x: &str) -> Option<String> {
    Some(x.to_string())
}

fn mago_request() -> ConvertRequest {
    ConvertRequest {
        input: s(" C:/in "),
        output: s("C:/out"),
        input_type: o("obj"),
        output_type: o(" b3dm "),
        crs: o("6677"),
        x_offset: o(" "),
        y_offset: None,
        z_offset: o("10"),
        longitude: None,
        latitude: o("35.6"),
        java_path: None,
        jar_path: None,
        jvm_options: o(" -Xmx4g  -Dx=y "),
        extra_args: o("--debug"),
    }
}

#[test]
fn io_is_required() {
    assert_eq!(check_input_output(" ", "x").unwrap_err().message, "input is required");
    assert_eq!(check_input_output("x", "").unwrap_err().message, "output is required");
    assert_eq!(check_input_output("x", "").unwrap_err().status, 400);
    assert!(check_input_output("a", "b").is_ok());
}

#[test]
fn mago_command_line() {
    let req = mago_request();
    let p = plan_mago(&req, None, None, true).unwrap();
    assert_eq!(p.program, "java");
    assert_eq!(
        p.args,
        vec![
            "-Xmx4g", "-Dx=y", "-jar", "tools/mago-3d-tiler.jar", "--input", "C:/in", "--output", "C:/out",
            "--inputType", "obj", "--outputType", "b3dm", "--crs", "6677", "--zOffset", "10", "--latitude", "35.6",
            "--debug"
        ]
    );
    let e = plan_mago(&req, Some("/usr/bin/java"), Some("/opt/m.jar"), false).unwrap_err();
    assert_eq!(e.message, "jar not found: /opt/m.jar");
    assert_eq!(mago_java_path(&o("  "), Some("J")), "J");
    assert_eq!(mago_java_path(&o(" /j/java "), Some("J")), "/j/java");
    assert_eq!(mago_jar_path(&None, None), "tools/mago-3d-tiler.jar");
}

#[test]
fn py3dtiles_command_line() {
    let req = ConvertPy3dtilesRequest {
        input: s("sample.las"),
        output: s(" out "),
        srs_in: o("6677"),
        srs_out: None,
        command: None,
        extra_args: None,
    };
    let p = plan_py3dtiles(&req).unwrap();
    assert_eq!(p.program, "py3dtiles");
    assert_eq!(p.args, vec!["convert", "sample.las", "--out", "out", "--srs-in", "6677"]);
}

#[test]
fn pg2b3dm_command_line() {
    let mut req = ConvertPg2b3dmRequest {
        connection: s("Host=localhost"),
        table: s("bldg"),
        column: o("geom"),
        output: None,
        attribute_columns: o("a,b"),
        query: None,
        shader_column: o("shader"),
        geometric_errors: o("2000,0"),
        command: o(" /t/pg2b3dm "),
        extra_args: None,
    };
    let p = plan_pg2b3dm(&req).unwrap();
    assert_eq!(p.program, "/t/pg2b3dm");
    assert_eq!(
        p.args,
        vec!["--connection", "Host=localhost", "-t", "bldg", "-c", "geom", "-a", "a,b", "--shaderscolumn", "shader", "-g", "2000,0"]
    );
    req.table = s(" ");
    assert_eq!(plan_pg2b3dm(&req).unwrap_err().message, "table is required");
    req.connection = s("");
    assert_eq!(plan_pg2b3dm(&req).unwrap_err().message, "connection is required");
}

#[test]
fn gocesiumtiler_puts_output_and_input_last() {
    let req = ConvertGocesiumtilerRequest {
        input: s("in.las"),
        output: s("out"),
        epsg: o("6677"),
        resolution: None,
        depth: None,
        min_points_per_tile: None,
        version: o("1.1"),
        command: None,
        extra_args: o("-q"),
    };
    let p = plan_gocesiumtiler(&req).unwrap();
    assert_eq!(p.program, "tools/gocesiumtiler/gocesiumtiler.exe");
    assert_eq!(p.args, vec!["file", "--epsg", "6677", "--version", "1.1", "-q", "--out", "out", "in.las"]);
}

#[test]
fn preprocess_command_line() {
    let req = PreprocessRequest {
        program: s(" pdal   translate "),
        input: o("in.las"),
        output: o("out.laz"),
        extra_args: o("--x y"),
    };
    let p = plan_preprocess(&req).unwrap();
    assert_eq!(p.program, "pdal");
    assert_eq!(p.args, vec!["translate", "--x", "y", "in.las", "out.laz"]);
    let empty = PreprocessRequest { program: s("  "), input: None, output: None, extra_args: None };
    assert_eq!(plan_preprocess(&empty).unwrap_err().message, "program is required");
}

#[test]
fn bimcim_command_lines() {
    let mut req = ConvertBimcimRequest {
        tool: s(" ifcconvert "),
        input: s("C:/a b/x'y.ifc"),
        output: s("C:/out.glb"),
        output_format: None,
        command: None,
        extra_args: None,
    };
    let p = plan_bimcim(&req).unwrap();
    assert_eq!(p.program, "powershell");
    assert_eq!(
        p.args,
        vec![
            "-Command",
            "cd (Split-Path -Parent 'tools/ifcopenshell/IfcConvert.exe'); & (Split-Path -Leaf 'tools/ifcopenshell/IfcConvert.exe') 'C:/a b/x''y.ifc' 'C:/out.glb'"
        ]
    );
    req.tool = s("cjio");
    req.output_format = o("glb");
    req.extra_args = o("--v");
    let p = plan_bimcim(&req).unwrap();
    assert_eq!(p.program, "tools/python/Scripts/cjio.exe");
    assert_eq!(p.args, vec!["C:/a b/x'y.ifc", "export", "glb", "C:/out.glb", "--v"]);
    req.tool = s("other");
    assert_eq!(plan_bimcim(&req).unwrap_err().message, "unknown tool");
    req.tool = s("");
    assert_eq!(plan_bimcim(&req).unwrap_err().message, "tool is required");
}

#[test]
fn installers() {
    let p = plan_install("python", None).unwrap();
    assert_eq!(p.program, "powershell");
    assert_eq!(p.args, vec![s("-Command"), s(PYTHON_INSTALL_SCRIPT)]);
    let n = plan_install("node", Some("v20.1.0")).unwrap();
    assert_eq!(n.args[1], NODE_INSTALL_SCRIPT.replace("{version}", "v20.1.0"));
    assert!(n.args[1].contains("node-v20.1.0-win-x64.zip"));
    let d = plan_install("node", None).unwrap();
    assert!(d.args[1].contains("node-v24.18.0-win-x64.zip"));
    let e = plan_install("gdal", None).unwrap_err();
    assert_eq!((e.status, e.message.as_str()), (404, "install target not found"));
}

fn auto(fmt: Option<&str>) -> AutoConvertRequest {
    AutoConvertRequest {
        input: s(" in.obj "),
        output: s("out"),
        output_format: fmt.map(s),
        input_format: o("obj"),
        crs: o(" 6677 "),
        x_offset: None,
        y_offset: None,
        z_offset: None,
        longitude: o("139.7"),
        latitude: None,
    }
}

#[test]
fn auto_conversion_routes_by_output_format() {
    match route_auto(&auto(Some(" i3dm "))) {
        AutoRoute::Mago(c) => {
            assert_eq!(c.input, "in.obj");
            assert_eq!(c.output_type.as_deref(), Some("i3dm"));
            assert_eq!(c.input_type.as_deref(), Some("obj"));
            assert_eq!(c.crs.as_deref(), Some("6677"));
            assert_eq!(c.longitude.as_deref(), Some("139.7"));
        },
        _ => panic!("expected mago"),
    }
    match route_auto(&auto(Some("pnts"))) {
        AutoRoute::Gocesiumtiler(g) => assert_eq!(g.epsg.as_deref(), Some("6677")),
        _ => panic!("expected gocesiumtiler"),
    }
    match route_auto(&auto(Some("3dtiles-1-1-glb"))) {
        AutoRoute::ObjTo3dtiles11(r) => {
            assert_eq!(r.crs.as_deref(), Some("6677"));
            assert!(r.origin.is_none());
        },
        _ => panic!("expected 3D Tiles 1.1"),
    }
    match route_auto(&auto(Some("geojson"))) {
        AutoRoute::Placeholder { message } => {
            assert_eq!(message, "auto converter not yet implemented: in.obj, output_format: geojson, input_format: obj")
        },
        _ => panic!("expected placeholder"),
    }
    match route_auto(&auto(None)) {
        AutoRoute::Placeholder { message } => {
            assert_eq!(message, "auto converter not yet implemented: in.obj, input_format: obj")
        },
        _ => panic!("expected placeholder"),
    }
}
