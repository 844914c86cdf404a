//! Platform services seen by plugins: the system theme and application icons.
use vstd::prelude::*;
use crate::text::{owned, push_str};

verus! {

/// Errors of host services.
#[derive(Debug)]
pub enum HostApiError {
    /// A service failed while running.
    ExecutionFailed { service: String, reason: String },
    /// An icon could not be extracted.
    IconExtractionFailed { request: String, reason: String },
}

/// The interface theme the host actually uses.
#[derive(Debug, Clone, Copy, PartialEq, Eq, Structural)]
pub enum Theme {
    /// Light colours.
    Light,
    /// Dark colours.
    Dark,
}

/// Platform capability that reports the system theme; a theme explicitly
/// configured in the host takes precedence above it.
pub trait ThemeProvider {
    /// The current system theme.
    fn current_system_theme(&self) -> Result<Theme, HostApiError>;
}

/// Windows system theme, read from the personalization settings in the
/// registry (`AppsUseLightTheme`).
#[derive(Debug)]
pub struct WindowsThemeProvider;

impl WindowsThemeProvider {
    /// A Windows theme provider.
    pub fn new() -> (r: Self) {
        WindowsThemeProvider
    }
}

/// The theme that a value of `AppsUseLightTheme` selects: 0 is dark, any
/// other value light.
pub open spec fn theme_of_light_value(value: u32) -> Theme {
    if value == 0 {
        Theme::Dark
    } else {
        Theme::Light
    }
}

/// The theme from the outcome of reading `AppsUseLightTheme`: a failed read
/// becomes `ExecutionFailed` of the `theme` service with the failure's text.
pub fn theme_from_registry(read: Result<u32, String>) -> (r: Result<Theme, HostApiError>)
    ensures
        match read {
            Ok(v) => r == Ok::<Theme, HostApiError>(theme_of_light_value(v)),
            Err(e) => r matches Err(HostApiError::ExecutionFailed { service, reason }) && service@ == "theme"@
                && reason@ == e@,
        },
{
    match read {
        Ok(v) => Ok(
            if v == 0 {
                Theme::Dark
            } else {
                Theme::Light
            },
        ),
        Err(reason) => Err(HostApiError::ExecutionFailed { service: owned("theme"), reason }),
    }
}

/// Extracts macOS application icons as PNG bytes.
#[derive(Debug)]
pub struct MacosIconExtractor {
    /// Icon for applications without an icon of their own.
    default_app_icon_path: String,
    /// Icon for web and other non-application targets.
    default_web_icon_path: String,
}

impl MacosIconExtractor {
    /// An extractor with the two fallback icons.
    pub fn new(default_app_icon_path: String, default_web_icon_path: String) -> (r: Self)
        ensures
            r.app_icon_path() == default_app_icon_path@,
            r.web_icon_path() == default_web_icon_path@,
    {
        MacosIconExtractor { default_app_icon_path, default_web_icon_path }
    }

    /// The fallback icon of applications.
    pub closed spec fn app_icon_path(&self) -> Seq<char> {
        self.default_app_icon_path@
    }

    /// The fallback icon of web targets.
    pub closed spec fn web_icon_path(&self) -> Seq<char> {
        self.default_web_icon_path@
    }

    /// The fallback icon of applications.
    pub fn default_app_icon_path(&self) -> (r: &str)
        ensures
            r@ == self.app_icon_path(),
    {
        self.default_app_icon_path.as_str()
    }

    /// The fallback icon of web targets.
    pub fn default_web_icon_path(&self) -> (r: &str)
        ensures
            r@ == self.web_icon_path(),
    {
        self.default_web_icon_path.as_str()
    }

    /// Icons of web targets may be fetched: the network counts as available.
    pub fn is_network_available(&self) -> (b: bool)
        ensures
            b,
    {
        true
    }
}

/// What `url::Url::parse` gives for a text: its scheme and host, or the text
/// of the parse error.
pub uninterp spec fn parsed_url(url: Seq<char>) -> Result<(Seq<char>, Option<Seq<char>>), Seq<char>>;

/// Parses a URL (`url::Url::parse`), keeping its scheme (`Url::scheme`) and
/// host (`Url::host_str`); an error gives the parse error's text.
#[verifier::external_body]
fn parse_url(url: &str) -> (r: Result<(String, Option<String>), String>)
    ensures
        match r {
            Ok((scheme, host)) => parsed_url(url@) == Ok::<(Seq<char>, Option<Seq<char>>), Seq<char>>((
                scheme@,
                match host {
                    Some(h) => Some(h@),
                    None => None,
                },
            )),
            Err(e) => parsed_url(url@) == Err::<(Seq<char>, Option<Seq<char>>), Seq<char>>(e@),
        },
{
    match url::Url::parse(url) {
        Ok(u) => Ok((u.scheme().to_string(), u.host_str().map(|h| h.to_string()))),
        Err(e) => Err(e.to_string()),
    }
}

/// The favicon address of a web page, `<scheme>://<host>/favicon.ico`, or
/// the error for the page.
pub open spec fn favicon_for(url: Seq<char>, parsed: Result<(Seq<char>, Option<Seq<char>>), Seq<char>>) -> Result<
    Seq<char>,
    (Seq<char>, Seq<char>),
> {
    match parsed {
        Ok((scheme, Some(host))) => Ok(scheme + "://"@ + host + "/favicon.ico"@),
        Ok((_, None)) => Err((url, "URL has no host"@)),
        Err(e) => Err((url, e)),
    }
}

/// The favicon address of a web page; failures are `IconExtractionFailed`
/// for the page.
pub fn favicon_url(url: &str) -> (r: Result<String, HostApiError>)
    ensures
        match favicon_for(url@, parsed_url(url@)) {
            Ok(f) => r matches Ok(s) && s@ == f,
            Err((q, why)) => r matches Err(HostApiError::IconExtractionFailed { request, reason }) && request@ == q
                && reason@ == why,
        },
{
    match parse_url(url) {
        Ok((scheme, Some(host))) => {
            let mut out = String::new();
            push_str(&mut out, scheme.as_str());
            push_str(&mut out, "://");
            push_str(&mut out, host.as_str());
            push_str(&mut out, "/favicon.ico");
            Ok(out)
        },
        Ok((_, None)) => Err(HostApiError::IconExtractionFailed { request: owned(url), reason: owned("URL has no host") }),
        Err(e) => Err(HostApiError::IconExtractionFailed { request: owned(url), reason: e }),
    }
}

} // verus!
