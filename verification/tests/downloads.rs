use kasugai_converter::files::{
    cuts_on_boundary, filename_from_url, import_base_dir, item_names_cuttable, plan_download, sanitize_filename,
    DownloadItem,
};

fn s(x: &str) -> String {
    x.to_string()
}

#[test]
fn file_names_come_from_the_last_segment() {
    assert_eq!(filename_from_url("https://h/a/b/data.zip?x=1/2", 0), "data.zip");
    assert_eq!(filename_from_url("https://h/a/b/", 3), "resource");
    assert_eq!(filename_from_url("", 1), "resource");
    assert_eq!(filename_from_url("name.csv", 0), "name.csv");
    assert_eq!(filename_from_url("https://h/dir?", 0), "dir");
}

#[test]
fn names_are_made_safe() {
    assert_eq!(sanitize_filename("a<b>c:d\"e/f\\g|h?i*j%k#l"), "a_b_c_d_e_f_g_h_i_j_k_l");
    assert_eq!(sanitize_filename("   "), "resource");
    assert_eq!(sanitize_filename(""), "resource");
    assert_eq!(sanitize_filename("道路データ"), "道路データ");
    let long = "x".repeat(250);
    assert_eq!(sanitize_filename(&long), "x".repeat(200));
    let wide = "あ".repeat(70);
    assert!(!cuts_on_boundary(&wide));
    let fits = format!("{}{}", "ab", "あ".repeat(66));
    assert!(cuts_on_boundary(&fits));
    assert_eq!(sanitize_filename(&fits).len(), 200);
}

#[test]
fn sanitizing_twice_changes_nothing_more() {
    let once = sanitize_filename(" a?b ");
    assert_eq!(once, " a_b ");
    assert_eq!(sanitize_filename(&once), once);
    let blank_head = format!("{}x", " ".repeat(200));
    let first = sanitize_filename(&blank_head);
    assert_eq!(first, " ".repeat(200));
    assert_eq!(sanitize_filename(&first), "resource");
}

#[test]
fn base_dir_choice() {
    assert_eq!(import_base_dir(Some("D:/in"), Some("E:/env")), "D:/in");
    assert_eq!(import_base_dir(None, Some("E:/env")), "E:/env");
    assert_eq!(import_base_dir(None, None), "C:\\kasugai\\data\\import");
}

#[test]
fn download_plans() {
    let item = DownloadItem {
        url: s("  https://h/x/data.zip?a=b "),
        filename: Some(s("  ")),
        catalog_title: Some(s("東京都/オープンデータ")),
        dataset_title: None,
    };
    assert!(item_names_cuttable(&item));
    let t = plan_download(&item, 4).unwrap();
    assert_eq!(t.url, "https://h/x/data.zip?a=b");
    assert_eq!(t.file_name, "data.zip");
    assert_eq!(t.catalog, "東京都_オープンデータ");
    assert_eq!(t.dataset, "default");

    let named = DownloadItem { url: s("https://h/"), filename: Some(s(" my:file ")), catalog_title: Some(s("  ")), dataset_title: Some(s("d")) };
    let t = plan_download(&named, 0).unwrap();
    assert_eq!(t.file_name, "my_file");
    assert_eq!(t.catalog, "resource");
    assert_eq!(t.dataset, "d");

    let blank = DownloadItem { url: s("   "), filename: None, catalog_title: None, dataset_title: None };
    assert!(plan_download(&blank, 0).is_none());
}
