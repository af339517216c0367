use ai_task::assets::{
    asset_headers, asset_key, cache_control, etag, has_extension, is_fresh, route,
    sidecar_candidates, sidecar_key, Encoding, Route,
};

#[test]
fn detects_asset_paths() {
    assert!(has_extension("_app/immutable/chunks/abc.js"));
    assert!(has_extension("favicon.svg"));
    assert!(!has_extension("runs"));
    assert!(!has_extension("runs/0199a1f0-9c3a-7c11-9f6e-2b1c7a0d4e55"));
}

#[test]
fn unknown_route_falls_back_to_spa_but_missing_asset_is_a_real_404() {
    assert_eq!(asset_key("/runs/abc"), "runs/abc");
    assert_eq!(asset_key("/"), "index.html");
    assert_eq!(route("runs/abc", false, true), Route::Index);
    assert_eq!(route("_app/immutable/nope.js", false, true), Route::Missing);
    assert_eq!(route("index.html", true, true), Route::Asset);
    assert_eq!(route("runs/abc", false, false), Route::Missing);
}

#[test]
fn hashed_assets_are_immutable_and_index_is_revalidated() {
    assert_eq!(cache_control("_app/immutable/chunks/abc.js"), "public, max-age=31536000, immutable");
    assert_eq!(cache_control("index.html"), "no-cache");
}

#[test]
fn matching_etag_returns_304_without_a_body() {
    let sha = [0xabu8; 32];
    let tag = etag(&sha);
    assert_eq!(tag, format!("\"{}\"", "ab".repeat(32)));
    assert!(is_fresh(Some(&format!("\"x\", {tag}")), &tag));
    assert!(!is_fresh(None, &tag));
    let h = asset_headers("app.js", &sha, Some(&tag), Some(Encoding::Brotli));
    assert_eq!(h.status, 304);
    assert_eq!(h.content_type, None);
    let h = asset_headers("app.js", &sha, None, Some(Encoding::Brotli));
    assert_eq!(h.status, 200);
    assert_eq!(h.content_encoding, Some("br"));
    assert!(h.vary_accept_encoding);
    assert_eq!(h.content_type.as_deref(), Some("text/javascript"));
    assert_eq!(h.cache_control, Some("no-cache"));
    let h = asset_headers("logo.bin.unknownext", &sha, None, None);
    assert_eq!(h.content_type.as_deref(), Some("application/octet-stream"));
}

#[test]
fn sidecars_follow_accept_encoding() {
    assert_eq!(sidecar_candidates(Some("gzip, br")), vec![Encoding::Brotli, Encoding::Gzip]);
    assert_eq!(sidecar_candidates(Some("gzip")), vec![Encoding::Gzip]);
    assert!(sidecar_candidates(None).is_empty());
    assert_eq!(sidecar_key("app.js", Encoding::Gzip), "app.js.gz");
    assert_eq!(sidecar_key("app.js", Encoding::Brotli), "app.js.br");
}
