use github_notifications::assets::{app_js, js_bundle, serve_embedded, static_path, Assets};

fn files() -> Assets {
    Assets::new(vec![
        ("index.html".into(), b"<title>github-notifications</title>".to_vec()),
        ("js/main.js".into(), b"// js/main.js: main".to_vec()),
        ("js/api.js".into(), b"// js/api.js: api".to_vec()),
        ("vendor/htmx.js".into(), b"htmx\xff".to_vec()),
        ("js/unlisted.js".into(), b"unlisted".to_vec()),
    ])
}

#[test]
fn bundle_contains_each_module() {
    let assets = files();
    let bundle = app_js(&assets);
    assert!(!bundle.is_empty());
    for path in js_bundle() {
        if assets.get(&path).is_some() {
            // Vendored files are raw third-party JS without a header marker.
            if path.starts_with("vendor/") {
                continue;
            }
            let marker = format!("{path}:");
            assert!(
                bundle.contains(&marker),
                "module {path} missing from bundle"
            );
        }
    }
    assert_eq!(
        bundle,
        "htmx\u{fffd}\n// js/api.js: api\n// js/main.js: main\n"
    );
    assert_eq!(js_bundle().len(), 10);
    assert_eq!(app_js(&Assets::new(vec![])), "");
}

#[test]
fn index_html_embedded() {
    let assets = files();
    let file = assets.get("index.html").expect("index.html embedded");
    assert!(!file.is_empty());
}

#[test]
fn root_serves_index() {
    let assets = files();
    let (mime, data) = serve_embedded(&assets, static_path("/")).expect("index");
    assert_eq!(mime, "text/html");
    assert!(String::from_utf8_lossy(data).contains("github-notifications"));
    assert_eq!(static_path(""), "index.html");
    assert_eq!(static_path("//js/api.js"), "js/api.js");
    let (mime, _) = serve_embedded(&assets, "js/api.js").expect("script");
    assert!(mime.ends_with("javascript"));
}

#[test]
fn app_js_is_served() {
    assert!(!app_js(&files()).is_empty());
}

#[test]
fn unknown_path_is_404() {
    assert!(serve_embedded(&files(), static_path("/nope")).is_none());
}
