use zerolaunch::zlplugin::{asset_request, mime_from_extension, parse_resource, percent_decode_str, plugin_id_shape};

#[test]
fn parse_resource_supports_scheme_prefixes() {
    assert_eq!(
        parse_resource("zlplugin://com.ghost-him.everything/ui/panel.mjs"),
        Some((
            "com.ghost-him.everything".to_string(),
            "ui/panel.mjs".to_string()
        ))
    );
    assert_eq!(
        parse_resource("http://zlplugin.localhost/com.example.hello/ui/panel.mjs?v=0.2.0"),
        Some(("com.example.hello".to_string(), "ui/panel.mjs".to_string()))
    );
    assert_eq!(
        parse_resource("https://zlplugin.localhost/com.example.hello/ui/panel.mjs?v=0.2.0&x=1"),
        Some(("com.example.hello".to_string(), "ui/panel.mjs".to_string()))
    );
}

#[test]
fn percent_decode_handles_encoded_chars() {
    assert_eq!(
        percent_decode_str("ui/my%20panel.mjs").as_deref(),
        Some("ui/my panel.mjs")
    );
    assert_eq!(
        percent_decode_str("ui/%E6%88%91%E7%9A%84%E9%9D%A2%E6%9D%BF.mjs").as_deref(),
        Some("ui/我的面板.mjs")
    );
    assert_eq!(percent_decode_str("plain.mjs").as_deref(), Some("plain.mjs"));
}

#[test]
fn percent_decode_rejects_invalid() {
    assert_eq!(percent_decode_str("ui/%zz.mjs"), None);
    assert_eq!(percent_decode_str("ui/%2").as_deref(), Some("ui/%2"));
    assert_eq!(percent_decode_str("ui/%").as_deref(), Some("ui/%"));
    assert_eq!(percent_decode_str("ui/%E6%88"), None);
}

#[test]
fn percent_decode_dotdot_stays_detectable() {
    assert_eq!(
        percent_decode_str("%2e%2e/secret").as_deref(),
        Some("../secret")
    );
}

#[test]
fn parse_resource_decodes_path() {
    assert_eq!(
        parse_resource("zlplugin://com.example.hello/ui/my%20panel.mjs"),
        Some((
            "com.example.hello".to_string(),
            "ui/my panel.mjs".to_string()
        ))
    );
}

#[test]
fn parse_resource_rejects_invalid() {
    assert_eq!(parse_resource("http://example.com/x"), None);
    assert_eq!(parse_resource("zlplugin://localhost/no-plugin-id"), None);
    assert_eq!(parse_resource("not-a-uri"), None);
}

#[test]
fn percent_decode_refuses_escapes_that_are_not_two_hex_digits() {
    assert_eq!(percent_decode_str("a%+41"), None);
    assert_eq!(percent_decode_str("ui/%zz.mjs"), None);
    assert_eq!(percent_decode_str("ui/%E6%88"), None);
    assert_eq!(percent_decode_str("a%-4"), None);
    assert_eq!(percent_decode_str("%41%62").as_deref(), Some("Ab"));
}

#[test]
fn parse_resource_keeps_localhost_segment_optional() {
    assert_eq!(
        parse_resource("zlplugin://localhost/com.example.hello/ui/a.js"),
        Some(("com.example.hello".to_string(), "ui/a.js".to_string()))
    );
    assert_eq!(parse_resource("zlplugin://%zz/ui/a.js"), None);
}

#[test]
fn asset_request_checks_id_and_ui_prefix() {
    assert_eq!(
        asset_request("zlplugin://com.example.hello/ui/panel.mjs"),
        Ok(("com.example.hello".to_string(), "ui/panel.mjs".to_string()))
    );
    assert_eq!(
        asset_request("zlplugin://com.example.hello/secret.txt"),
        Err("access denied: only ui/ path allowed".to_string())
    );
    assert_eq!(
        asset_request("zlplugin:///ui/panel.mjs"),
        Err("invalid plugin id".to_string())
    );
    assert_eq!(asset_request("ftp://x/ui"), Err("not a zlplugin URI".to_string()));
    assert_eq!(
        asset_request("zlplugin://com.example.hello/%2e%2e/secret"),
        Err("access denied: only ui/ path allowed".to_string())
    );
}

#[test]
fn mime_types_follow_the_extension() {
    assert_eq!(mime_from_extension("/p/ui/panel.mjs"), "text/javascript");
    assert_eq!(mime_from_extension("/p/ui/app.js"), "text/javascript");
    assert_eq!(mime_from_extension("/p/ui/s.css"), "text/css");
    assert_eq!(mime_from_extension("/p/ui/index.html"), "text/html");
    assert_eq!(mime_from_extension("/p/ui/d.json"), "application/json");
    assert_eq!(mime_from_extension("/p/ui/i.png"), "image/png");
    assert_eq!(mime_from_extension("/p/ui/i.svg"), "image/svg+xml");
    assert_eq!(mime_from_extension("/p/ui/f.ico"), "image/x-icon");
    assert_eq!(mime_from_extension("/p/ui/f.woff"), "font/woff2");
    assert_eq!(mime_from_extension("/p/ui/f.woff2"), "font/woff2");
    assert_eq!(mime_from_extension("/p/ui/blob.bin"), "application/octet-stream");
    assert_eq!(mime_from_extension("/p/ui/noext"), "application/octet-stream");
}

#[test]
fn plugin_ids_must_have_reverse_domain_form() {
    assert!(plugin_id_shape("com.example.hello"));
    assert!(plugin_id_shape("hello-world"));
    assert!(!plugin_id_shape(".."));
    assert!(!plugin_id_shape("."));
    assert!(!plugin_id_shape("com..example"));
    assert!(!plugin_id_shape(".hidden"));
    assert!(!plugin_id_shape("a/b"));
    assert!(!plugin_id_shape("a\\b"));
    assert_eq!(asset_request("zlplugin://../ui/x.mjs"), Err("invalid plugin id".to_string()));
    assert_eq!(asset_request("zlplugin://a%2Fb/ui/x.mjs"), Err("invalid plugin id".to_string()));
}
