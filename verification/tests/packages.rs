use qi_lsp::packages::{
    normalize_uri_to_path, normalize_windows_uri_to_path, path_to_uri, percent_decode_path,
    resolve_module_path, windows_path_to_uri, PackageSearch,
};

fn segs(v: &[&str]) -> Vec<String> {
    v.iter().map(|s| s.to_string()).collect()
}

#[test]
fn percent_decoding_of_paths() {
    assert_eq!(percent_decode_path("/a%20b/c.qi"), "/a b/c.qi");
    assert_eq!(percent_decode_path("/plain/path"), "/plain/path");
    assert_eq!(percent_decode_path("%zz!"), "%zz!");
    assert_eq!(percent_decode_path("x%4"), "x%4");
    assert_eq!(percent_decode_path("%+1"), "\u{1}");
    assert_eq!(percent_decode_path("%e4%b8%ad"), "中");
    assert_eq!(percent_decode_path("/my%20dir/%E5%8F%98.qi"), "/my dir/变.qi");
    assert_eq!(percent_decode_path("%F0%9F%98%80"), "😀");
    assert_eq!(percent_decode_path("%C3%A9t%C3%A9"), "été");
    // Bytes that do not form a character in UTF-8 each stand for themselves.
    assert_eq!(percent_decode_path("%E5%8F"), "\u{e5}\u{8f}");
    assert_eq!(percent_decode_path("%C0%80"), "\u{c0}\u{80}");
    assert_eq!(percent_decode_path("%ED%A0%80"), "\u{ed}\u{a0}\u{80}");
    assert_eq!(percent_decode_path("%E5x"), "\u{e5}x");
}

#[test]
fn uris_and_paths_both_ways() {
    assert_eq!(normalize_uri_to_path("file:///home/a%20b.qi"), Some("/home/a b.qi".to_string()));
    assert_eq!(normalize_uri_to_path("http://x/y"), None);
    assert_eq!(normalize_windows_uri_to_path("file:///C:/Users/x.qi"), Some("C:\\Users\\x.qi".to_string()));
    assert_eq!(path_to_uri("/a/b.qi"), "file:///a/b.qi");
    assert_eq!(windows_path_to_uri("C:\\a\\b.qi"), "file:///C:/a/b.qi");
    let p = "/home/user/项目/main.qi";
    assert_eq!(normalize_uri_to_path(&path_to_uri(p)).as_deref(), Some(p));
    let w = "D:\\work\\main.qi";
    assert_eq!(normalize_windows_uri_to_path(&windows_path_to_uri(w)).as_deref(), Some(w));
}

#[test]
fn module_candidates_in_resolution_order() {
    let search = PackageSearch {
        packages_root: Some("/pk".to_string()),
        work_dir: Some("/w".to_string()),
        home_dir: Some("/home/u".to_string()),
        windows: false,
        existing_files: Vec::new(),
    };
    assert_eq!(
        resolve_module_path(&segs(&["工具"]), "/proj", &search),
        segs(&[
            "/proj/工具.qi",
            "/proj/工具/工具.qi",
            "/pk/工具/工具.qi",
            "/w/qi_packages/工具/工具.qi",
            "/home/u/.qi/packages/工具/工具.qi",
            "/usr/local/lib/qi/packages/工具/工具.qi",
        ])
    );
    let bare = PackageSearch { packages_root: None, work_dir: None, home_dir: None, windows: false, existing_files: Vec::new() };
    assert_eq!(
        resolve_module_path(&segs(&["a", "b"]), "/proj", &bare),
        segs(&["/proj/a.qi", "/proj/a/b.qi", "/proj/a/a.qi", "/usr/local/lib/qi/packages/a/a.qi"])
    );
    assert_eq!(resolve_module_path(&segs(&[".", "x"]), "/proj", &bare), segs(&["/proj/x.qi"]));
    assert_eq!(resolve_module_path(&segs(&["..", "x"]), "/proj/sub", &bare), segs(&["/proj/x.qi"]));
    assert_eq!(resolve_module_path(&segs(&["."]), "/proj", &bare), Vec::<String>::new());
    assert_eq!(resolve_module_path(&Vec::new(), "/proj", &bare), Vec::<String>::new());
}
