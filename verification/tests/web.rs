use fancurve::web::{asset_path, serves_app_shell, static_reply, static_reply_with, StaticReply};

#[test]
fn asset_paths() {
    assert_eq!(asset_path("/"), "index.html");
    assert_eq!(asset_path(""), "index.html");
    assert_eq!(asset_path("///"), "index.html");
    assert_eq!(asset_path("/assets/app.js"), "assets/app.js");
    assert_eq!(asset_path("//favicon.ico"), "favicon.ico");
}

#[test]
fn app_shell_fallback() {
    assert!(serves_app_shell("settings"));
    assert!(serves_app_shell("apix"));
    assert!(!serves_app_shell("api/status"));
    assert!(!serves_app_shell("api/"));
}

fn content_type(r: StaticReply) -> Option<String> {
    match r {
        StaticReply::Asset { content_type } => Some(content_type),
        _ => None,
    }
}

#[test]
fn found_assets_carry_their_mime_type() {
    assert_eq!(content_type(static_reply("index.html", true)).as_deref(), Some("text/html"));
    assert_eq!(content_type(static_reply("assets/app.css", true)).as_deref(), Some("text/css"));
    assert_eq!(content_type(static_reply("assets/app.js", true)).as_deref(), Some("text/javascript"));
    assert_eq!(content_type(static_reply("icon.svg", true)).as_deref(), Some("image/svg+xml"));
    assert_eq!(
        content_type(static_reply("LICENSE", true)).as_deref(),
        Some("application/octet-stream")
    );
}

#[test]
fn missing_assets() {
    assert!(matches!(static_reply("settings/fans", false), StaticReply::AppShell));
    assert!(matches!(static_reply("api/unknown", false), StaticReply::NotFound));
    assert!(matches!(
        static_reply_with("x.bin", true, "a/b".to_string()),
        StaticReply::Asset { content_type } if content_type == "a/b"
    ));
}
