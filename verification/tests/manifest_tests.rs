use echidna_lib::manifest::{parse_exts, process_utis_exec, render_info_plist, DocTypes};

/// The type list of a rendered manifest: the `<string>` entries of the
/// array under the document-type key.
fn extract_type_list(manifest: &str) -> Vec<String> {
    let key_pos = manifest
        .find("<key>LSItemContentTypes</key>")
        .or_else(|| manifest.find("<key>CFBundleTypeExtensions</key>"))
        .expect("no type-list key");
    let rest = &manifest[key_pos..];
    let end = rest.find("</array>").expect("no array end");
    let section = &rest[..end];
    let mut out = Vec::new();
    let mut cursor = section;
    while let Some(s) = cursor.find("<string>") {
        let after = &cursor[s + "<string>".len()..];
        let e = after.find("</string>").expect("unterminated entry");
        out.push(after[..e].to_string());
        cursor = &after[e..];
    }
    out
}

#[test]
fn round_trip_text_files() {
    let m = render_info_plist("MyApp", &DocTypes::TextFiles, "com.example.My");
    assert_eq!(extract_type_list(&m), vec!["public.text", "public.data"]);
    assert!(m.contains("<key>LSItemContentTypes</key>"));
    assert!(!m.contains("<key>CFBundleTypeExtensions</key>"));
}

#[test]
fn round_trip_all_docs() {
    let m = render_info_plist("MyApp", &DocTypes::AllDocs, "com.example.My");
    assert_eq!(extract_type_list(&m), vec!["public.content", "public.data"]);
}

#[test]
fn round_trip_utis() {
    // Entries trimmed, empties removed, order kept.
    let dt = DocTypes::UTIs(" public.text , ,  public.image,com.x.y ".to_string());
    let m = render_info_plist("MyApp", &dt, "id");
    assert_eq!(
        extract_type_list(&m),
        vec!["public.text", "public.image", "com.x.y"]
    );
}

#[test]
fn round_trip_exts() {
    // Extensions additionally lose their leading dots.
    let dt = DocTypes::Exts(" .txt, md ,,  ..x.y ".to_string());
    let m = render_info_plist("MyApp", &dt, "id");
    assert_eq!(extract_type_list(&m), vec!["txt", "md", "x.y"]);
    assert!(m.contains("<key>CFBundleTypeExtensions</key>"));
    assert!(!m.contains("<key>LSItemContentTypes</key>"));
}

#[test]
fn empty_list_renders_empty_section() {
    let dt = DocTypes::Exts(" , ".to_string());
    let m = render_info_plist("MyApp", &dt, "id");
    assert_eq!(extract_type_list(&m), Vec::<String>::new());
    assert!(m.contains("<key>CFBundleTypeExtensions</key>"));
    assert!(m.contains("<array>"));
}

#[test]
fn manifest_embeds_identity_fields() {
    let m = render_info_plist("NameX", &DocTypes::TextFiles, "local.host.NameX42");
    assert!(m.contains("<key>CFBundleExecutable</key>\n    <string>NameX</string>"));
    assert!(m.contains("<key>CFBundleName</key>\n    <string>NameX</string>"));
    assert!(m.contains("<key>CFBundleIdentifier</key>\n    <string>local.host.NameX42</string>"));
    assert!(m.contains("<key>CFBundleIconFile</key>\n    <string>AppIcon.icns</string>"));
    assert!(m.starts_with("<?xml version=\"1.0\" encoding=\"UTF-8\"?>"));
    assert!(m.trim_end().ends_with("</plist>"));
}

#[test]
fn to_info_kv_values() {
    let (k, v) = DocTypes::TextFiles.to_info_kv();
    assert_eq!(k, "utis");
    assert_eq!(v, vec!["public.text", "public.data"]);

    let (k, v) = DocTypes::AllDocs.to_info_kv();
    assert_eq!(k, "utis");
    assert_eq!(v, vec!["public.content", "public.data"]);

    let (k, v) = DocTypes::UTIs("a, b".to_string()).to_info_kv();
    assert_eq!(k, "utis");
    assert_eq!(v, vec!["a", "b"]);

    let (k, v) = DocTypes::Exts(".rs,.toml".to_string()).to_info_kv();
    assert_eq!(k, "exts");
    assert_eq!(v, vec!["rs", "toml"]);
}

#[test]
fn parse_exts_cases() {
    assert_eq!(parse_exts(""), Vec::<String>::new());
    assert_eq!(parse_exts(",,,"), Vec::<String>::new());
    assert_eq!(parse_exts("txt"), vec!["txt"]);
    assert_eq!(parse_exts(" .txt , .tar.gz "), vec!["txt", "tar.gz"]);
    assert_eq!(parse_exts("...a"), vec!["a"]);
    // Trimming happens before the dots are stripped.
    assert_eq!(parse_exts("  .b  "), vec!["b"]);
}

#[test]
fn process_utis_keeps_inner_spaces() {
    assert_eq!(process_utis_exec("a b, c"), vec!["a b", "c"]);
}

#[test]
fn display_names() {
    assert_eq!(DocTypes::TextFiles.display_name(), "Text Files");
    assert_eq!(DocTypes::AllDocs.display_name(), "All Documents");
    assert_eq!(DocTypes::UTIs(String::new()).display_name(), "Specific UTIs:");
    assert_eq!(
        DocTypes::Exts(String::new()).display_name(),
        "Specific Extensions:"
    );
}
