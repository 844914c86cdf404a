use zerolaunch::platform::{favicon_url, theme_from_registry, HostApiError, MacosIconExtractor, Theme, WindowsThemeProvider};

#[test]
fn registry_value_selects_theme() {
    let _provider = WindowsThemeProvider::new();
    assert!(matches!(theme_from_registry(Ok(0)), Ok(Theme::Dark)));
    assert!(matches!(theme_from_registry(Ok(1)), Ok(Theme::Light)));
    assert!(matches!(theme_from_registry(Ok(7)), Ok(Theme::Light)));
    match theme_from_registry(Err("access denied".to_string())) {
        Err(HostApiError::ExecutionFailed { service, reason }) => {
            assert_eq!(service, "theme");
            assert_eq!(reason, "access denied");
        }
        _ => panic!("expected ExecutionFailed"),
    }
}

#[test]
fn icon_extractor_keeps_fallback_icons() {
    let e = MacosIconExtractor::new("/app.png".to_string(), "/web.png".to_string());
    assert_eq!(e.default_app_icon_path(), "/app.png");
    assert_eq!(e.default_web_icon_path(), "/web.png");
    assert!(e.is_network_available());
}

#[test]
fn favicon_address_uses_scheme_and_host() {
    match favicon_url("https://example.com/some/page?q=1") {
        Ok(u) => assert_eq!(u, "https://example.com/favicon.ico"),
        Err(_) => panic!("expected an address"),
    }
    match favicon_url("mailto:someone@example.com") {
        Err(HostApiError::IconExtractionFailed { request, reason }) => {
            assert_eq!(request, "mailto:someone@example.com");
            assert_eq!(reason, "URL has no host");
        }
        _ => panic!("expected IconExtractionFailed"),
    }
    match favicon_url("not a url") {
        Err(HostApiError::IconExtractionFailed { request, .. }) => assert_eq!(request, "not a url"),
        _ => panic!("expected IconExtractionFailed"),
    }
}
