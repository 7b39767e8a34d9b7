use kasugai_converter::catalog::{
    canonical_from_final_url, ckan_action_url, ckan_group, ckan_query, ckan_resource_kept, dpf_api_key,
    dpf_attribute_filter, dpf_catalog_endpoint, dpf_download_query, dpf_endpoint, dpf_group, dpf_instance,
    dpf_search_query, extension, filter_ckan_package, filter_dpf_result, groups_from_dpf, is_dpf_catalog,
    is_dpf_url, map_dpf_result, merge_instances, package_search_base, resolve_canonical_url, search_window,
    selected_formats, to_json_pointer, url_file_name, validate_ckan_url, CatalogInstance, DpfFile,
    GroupsRequest, JsonText, ProbeOutcome, ResourceFields, ResultFilter,
};

fn s(x: &str) -> String {
    x.to_string()
}

#[test]
fn dpf_urls_are_recognised_in_any_case() {
    assert!(is_dpf_url("https://data-platform.mlit.go.jp/api/v1/"));
    assert!(is_dpf_url("HTTPS://DATA-PLATFORM.MLIT.GO.JP/"));
    assert!(is_dpf_url("https://www.MLIT-DATA.jp/"));
    assert!(!is_dpf_url("https://catalog.data.metro.tokyo.lg.jp/api/3/"));
}

#[test]
fn ckan_urls_are_normalised() {
    assert_eq!(validate_ckan_url("  https://example.org/api/3 \n").unwrap(), "https://example.org/api/3/");
    assert_eq!(validate_ckan_url("https://ex.org/api/\r\n3").unwrap(), "https://ex.org/api/3/");
    assert_eq!(validate_ckan_url("https://ex.org/backend/api").unwrap(), "https://ex.org/backend/api/");
    assert_eq!(
        validate_ckan_url("https://ex.org/api/2").unwrap_err(),
        "未対応の CKAN API URL です: https://ex.org/api/2/"
    );
    assert_eq!(validate_ckan_url("").unwrap_err(), "未対応の CKAN API URL です: /");
}

#[test]
fn validating_an_accepted_url_again_keeps_it() {
    let once = validate_ckan_url(" \u{3000}https://ex.org/a\rpi/3\u{3000}").unwrap();
    assert_eq!(once, "https://ex.org/api/3/");
    assert_eq!(validate_ckan_url(&once).unwrap(), once);
}

#[test]
fn json_pointer_reads_back_to_the_path() {
    for path in ["data.search.totalNumber", "a~b.c/d", "", "a..b", "~1.~0/"] {
        let pointer = to_json_pointer(path);
        assert!(pointer.starts_with('/'));
        let back: Vec<String> =
            pointer[1..].split('/').map(|s| s.replace("~1", "/").replace("~0", "~")).collect();
        let segments: Vec<String> = path.split('.').map(String::from).collect();
        assert_eq!(back, segments);
    }
}

#[test]
fn dpf_key_prefers_the_request() {
    assert_eq!(dpf_api_key(Some("  k1 "), Some("env")).unwrap(), "k1");
    assert_eq!(dpf_api_key(Some("   "), Some(" env ")).unwrap(), "env");
    assert_eq!(dpf_api_key(None, Some("")).unwrap(), "");
    assert_eq!(dpf_api_key(Some(""), None).unwrap_err(), "MLIT_DPF_API_KEY 環境変数が必要です");
}

#[test]
fn json_pointer_escapes_segments() {
    assert_eq!(to_json_pointer("data.search.totalNumber"), "/data/search/totalNumber");
    assert_eq!(to_json_pointer("a~b.c/d"), "/a~0b/c~1d");
    assert_eq!(to_json_pointer(""), "/");
    assert_eq!(to_json_pointer("a..b"), "/a//b");
}

#[test]
fn attribute_filter_lists_catalogs() {
    assert_eq!(dpf_attribute_filter(&[]), "");
    assert_eq!(
        dpf_attribute_filter(&[s("c1"), s("x\"y")]),
        ", attributeFilter: { OR: [ { attributeName: \"DPF:catalog_id\", is: \"c1\" }, { attributeName: \"DPF:catalog_id\", is: \"x\\\"y\" } ] }"
    );
}

#[test]
fn search_window_defaults_and_clamps() {
    assert_eq!(search_window(None, None), (100, 0));
    assert_eq!(search_window(Some(0), Some(-5)), (1, 0));
    assert_eq!(search_window(Some(5000), Some(200)), (1000, 200));
    assert_eq!(search_window(Some(20), Some(100)), (20, 100));
}

#[test]
fn dpf_endpoints() {
    assert_eq!(dpf_endpoint("  ", "https://x/api"), "https://x/api/");
    assert_eq!(dpf_endpoint(" https://y/v1/ ", "https://x/api"), "https://y/v1/");
    assert_eq!(dpf_catalog_endpoint(""), "https://data-platform.mlit.go.jp/api/v1/");
}

#[test]
fn format_lists_are_split_trimmed_and_lowered() {
    assert_eq!(selected_formats(Some("GeoJSON, CSV\u{3000}las,, ")), vec!["geojson", "csv", "las"]);
    assert!(selected_formats(None).is_empty());
    assert!(selected_formats(Some(" , ")).is_empty());
}

#[test]
fn extensions_follow_the_last_dot() {
    assert_eq!(extension("a.b.tar.gz"), Some(s("gz")));
    assert_eq!(extension("noext"), None);
    assert_eq!(extension("trailing."), Some(s("")));
    assert_eq!(url_file_name("https://h/x/data.zip?dl=1"), "data.zip");
    assert_eq!(url_file_name("plain?q=a/b"), "b");
}

#[test]
fn dpf_result_filter() {
    let sel = vec![s("las")];
    let paths = vec![Some(s("a/b/POINTS.LAS")), Some(s("x.csv")), None, Some(s("y.las"))];
    match filter_dpf_result(&sel, &paths) {
        ResultFilter::Entries(k) => assert_eq!(k, vec![0, 3]),
        _ => panic!("expected entries"),
    }
    assert!(matches!(filter_dpf_result(&sel, &vec![Some(s("a.csv"))]), ResultFilter::Drop));
    assert!(matches!(filter_dpf_result(&sel, &vec![]), ResultFilter::Drop));
    assert!(matches!(filter_dpf_result(&vec![], &paths), ResultFilter::Whole));
}

fn res(format: Option<&str>, name: Option<&str>, url: Option<&str>) -> ResourceFields {
    ResourceFields { format: format.map(s), name: name.map(s), url: url.map(s) }
}

#[test]
fn ckan_resources_match_by_format_name_or_url() {
    let sel = vec![s("geojson")];
    assert!(ckan_resource_kept(&sel, &res(Some("GeoJSON"), None, None)));
    assert!(ckan_resource_kept(&sel, &res(Some("JSON"), Some("Areas.GeoJSON"), None)));
    assert!(ckan_resource_kept(&sel, &res(None, None, Some("https://h/f/areas.geojson?x=1"))));
    assert!(!ckan_resource_kept(&sel, &res(Some("csv"), Some("a.csv"), Some("https://h/a.csv"))));
    assert!(ckan_resource_kept(&vec![], &res(None, None, None)));
}

#[test]
fn ckan_packages_are_filtered_by_resources() {
    let sel = vec![s("csv")];
    let pkg = vec![res(Some("CSV"), None, None), res(Some("pdf"), None, None), res(None, Some("b.csv"), None)];
    match filter_ckan_package(&sel, &pkg) {
        ResultFilter::Entries(k) => assert_eq!(k, vec![0, 2]),
        _ => panic!("expected entries"),
    }
    assert!(matches!(filter_ckan_package(&sel, &vec![res(Some("pdf"), None, None)]), ResultFilter::Drop));
    match filter_ckan_package(&vec![], &pkg) {
        ResultFilter::Entries(k) => assert_eq!(k, vec![0, 1, 2]),
        _ => panic!("expected entries"),
    }
    assert!(matches!(filter_ckan_package(&vec![], &vec![]), ResultFilter::Drop));
}

#[test]
fn ckan_query_bodies() {
    let q = ckan_query("  ", 100, 0, None);
    assert_eq!(q.q, "*:*");
    assert_eq!(q.rows, 100);
    assert_eq!(q.start, 0);
    assert!(q.fq.is_none());
    let g = vec![s("env"), s("road")];
    let q = ckan_query(" 道路 ", 20, 40, Some(&g));
    assert_eq!(q.q, "道路");
    assert_eq!(q.fq.as_deref(), Some("groups:(env OR road)"));
    assert!(ckan_query("x", 1, 0, Some(&vec![])).fq.is_none());
    assert_eq!(ckan_action_url("https://h/api/3/", "package_search"), "https://h/api/3/action/package_search");
}

#[test]
fn dpf_search_template_is_filled_in_order() {
    let t = "q(term: \"{{term}}\", first: {{start}}, size: {{rows}}{{attribute_filter}}) { {{fields}} }";
    let r = dpf_search_query(t, "id title", " say \"hi\" ", 200, 100, &[s("c9")]);
    assert_eq!(
        r,
        "q(term: \"say \\\"hi\\\"\", first: 200, size: 100, attributeFilter: { OR: [ { attributeName: \"DPF:catalog_id\", is: \"c9\" } ] }) { id title }"
    );
    assert_eq!(dpf_search_query("{{term}}", "", "{{rows}}", 0, 7, &[]), "7");
}

#[test]
fn dpf_download_template() {
    let files = vec![
        DpfFile { id: s("1"), original_path: s("a/b.las") },
        DpfFile { id: s("2\""), original_path: s("c") },
    ];
    assert_eq!(
        dpf_download_query("files: [{{files}}]", &files),
        "files: [{ id: \"1\", original_path: \"a/b.las\" }, { id: \"2\\\"\", original_path: \"c\" }]"
    );
    assert_eq!(dpf_download_query("[{{files}}]", &vec![]), "[]");
}

#[test]
fn groups_are_read_with_fallbacks() {
    let g = ckan_group(JsonText::Text(s("env")), JsonText::Text(s("Environment")), JsonText::Text(s("T"))).unwrap();
    assert_eq!((g.name.as_str(), g.title.as_str()), ("env", "Environment"));
    let g = ckan_group(JsonText::Text(s("env")), JsonText::Missing, JsonText::Text(s("T"))).unwrap();
    assert_eq!(g.title, "T");
    let g = ckan_group(JsonText::Text(s("env")), JsonText::NotText, JsonText::Text(s("T"))).unwrap();
    assert_eq!(g.title, "env");
    assert!(ckan_group(JsonText::NotText, JsonText::Missing, JsonText::Missing).is_none());
    let d = dpf_group(Some(s("id1")), None).unwrap();
    assert_eq!((d.name.as_str(), d.title.as_str()), ("id1", "id1"));
    assert!(dpf_group(None, Some(s("t"))).is_none());
}

#[test]
fn groups_route_to_dpf() {
    let r = GroupsRequest { api_url: s("https://data-platform.mlit.go.jp/api/v1/"), catalog_type: s(""), api_key: None };
    assert!(groups_from_dpf(&r));
    let r = GroupsRequest { api_url: s("https://h/api/3/"), catalog_type: s("dpf"), api_key: None };
    assert!(groups_from_dpf(&r));
    let r = GroupsRequest { api_url: s("https://h/api/3/"), catalog_type: s("ckan"), api_key: None };
    assert!(!groups_from_dpf(&r));
    assert!(is_dpf_catalog("dpf"));
    assert!(!is_dpf_catalog("DPF"));
}

fn inst(t: &str) -> CatalogInstance {
    CatalogInstance { title: s("t"), url: s("u"), url_api: s("a"), catalog_type: s(t), country: None, description: None }
}

#[test]
fn merged_catalogs_always_include_dpf() {
    let r = merge_instances(&vec![vec![inst("ckan")], vec![], vec![inst("ckan")]]).unwrap();
    assert_eq!(r.len(), 3);
    assert_eq!(r[2].catalog_type, "dpf");
    assert_eq!(r[2].url_api, "https://data-platform.mlit.go.jp/api/v1/");
    let r = merge_instances(&vec![vec![inst("dpf"), inst("ckan")]]).unwrap();
    assert_eq!(r.len(), 2);
    let r = merge_instances(&vec![]).unwrap();
    assert_eq!(r.len(), 1);
    assert_eq!(dpf_instance().country.as_deref(), Some("JP"));
    let d = &r[0];
    assert_eq!(d.title, "国土交通データプラットフォーム");
    assert_eq!(d.url, "https://data-platform.mlit.go.jp/");
    assert_eq!(d.url_api, "https://data-platform.mlit.go.jp/api/v1/");
    assert_eq!(d.catalog_type, "dpf");
    assert_eq!(d.country.as_deref(), Some("JP"));
    assert_eq!(d.description.as_deref(), Some("国土交通省 DPF（GraphQL）"));
}

#[test]
fn dpf_fields_are_mapped_when_present() {
    let map = vec![(s("title"), s("name")), (s("id"), s("dataset_id")), (s("x"), s("missing"))];
    let keys = vec![s("dataset_id"), s("name")];
    assert_eq!(map_dpf_result(&map, &keys), vec![(s("title"), s("name")), (s("id"), s("dataset_id"))]);
}

#[test]
fn canonical_url_follows_redirects() {
    assert_eq!(
        canonical_from_final_url("https://a/api/3/", "https://b.example/data/api/3/action/package_search?rows=0"),
        "https://b.example/data/api/3/"
    );
    assert_eq!(canonical_from_final_url("https://a/api/3/", "https://b.example/other"), "https://a/api/3/");
    assert_eq!(package_search_base("/api/3/action/package_search"), Some(s("/api/3/")));
    assert_eq!(package_search_base("/api/3/"), None);
}

#[test]
fn probe_outcomes() {
    let api = "https://a/api/3/";
    assert_eq!(
        resolve_canonical_url(api, ProbeOutcome::Reached { final_url: s("https://a/api/3/action/package_search?rows=0") })
            .unwrap(),
        "https://a/api/3/"
    );
    assert_eq!(
        resolve_canonical_url(api, ProbeOutcome::Refused { status: s("404 Not Found") }).unwrap_err(),
        "接続先が応答しません (404 Not Found): https://a/api/3/"
    );
    assert_eq!(
        resolve_canonical_url(api, ProbeOutcome::Failed { error: s("dns") }).unwrap_err(),
        "接続エラー: dns (https://a/api/3/)"
    );
    assert_eq!(resolve_canonical_url(api, ProbeOutcome::TimedOut).unwrap_err(), "接続タイムアウト: https://a/api/3/");
}
