//! Crash reporting: when it is on, where reports go, and what is taken out of
//! them before they go.

use vstd::prelude::*;
use vstd::utf8::encode_utf8;

use crate::clock;
use crate::config::{AppConfig, enclose, enclose_number, join_path, RawPath};
use crate::config;
use crate::text;

verus! {

// ---------------------------------------------------------------------------
// Addresses of reporting services
// ---------------------------------------------------------------------------

/// Whether an address stands for reports to a local file.
pub open spec fn is_test_address(dsn: Seq<char>) -> bool {
    text::ascii_lowered(dsn) == "test"@ || text::has_prefix(dsn, "test://"@)
}

fn is_test_text(dsn: &str) -> (r: bool)
    ensures
        r == is_test_address(dsn@),
{
    let chars = text::chars_of(dsn);
    let scheme = text::chars_of("test://");
    if text::starts_with(chars.as_slice(), scheme.as_slice()) {
        return true;
    }
    let name = text::chars_of("test");
    proof {
        reveal_strlit("test");
    }
    let ghost lower = text::ascii_lowered(dsn@);
    if chars.len() != 4 {
        assert(lower.len() != name@.len());
        return false;
    }
    let mut i: usize = 0;
    while i < 4
        invariant
            i <= 4,
            chars@ == dsn@,
            chars@.len() == 4,
            name@ == "test"@,
            name@.len() == 4,
            lower == text::ascii_lowered(dsn@),
            forall|j: int| 0 <= j < i ==> #[trigger] lower[j] == name@[j],
            !text::has_prefix(dsn@, "test://"@),
        decreases 4 - i,
    {
        assert(lower[i as int] == text::ascii_lower(dsn@[i as int]));
        if text::to_ascii_lower(chars[i]) != name[i] {
            assert(lower[i as int] != name@[i as int]);
            return false;
        }
        i = i + 1;
    }
    assert(lower =~= "test"@);
    true
}

/// Whether an address, if there is one, stands for reports to a local file.
pub fn is_test_dsn(dsn: Option<&str>) -> (r: bool)
    ensures
        r == match dsn {
            Some(s) => is_test_address(s@),
            None => false,
        },
{
    match dsn {
        Some(s) => is_test_text(s),
        None => false,
    }
}

/// The parts of an address that may be shown.
#[derive(Debug, PartialEq, Eq)]
pub struct DsnParts {
    pub scheme: String,
    pub host: String,
    pub project_id: String,
}

impl DeepView for DsnParts {
    type V = (Seq<char>, Seq<char>, Seq<char>);

    open spec fn deep_view(&self) -> (Seq<char>, Seq<char>, Seq<char>) {
        (self.scheme@, self.host@, self.project_id@)
    }
}

/// The scheme, the host and the project of an address, as
/// `sentry::types::Dsn::from_str` reads it; none where it is no address.
pub uninterp spec fn dsn_parts(dsn: Seq<char>) -> Option<(Seq<char>, Seq<char>, Seq<char>)>;

/// `sentry::types::Dsn::from_str`: the scheme, the host and the project of an
/// address, and none where it is no address of a reporting service. It depends
/// on the text alone.
#[verifier::external_body]
fn parse_dsn(dsn: &str) -> (r: Option<DsnParts>)
    ensures
        r.deep_view() == dsn_parts(dsn@),
{
    let parsed = <sentry::types::Dsn as std::str::FromStr>::from_str(dsn).ok()?;
    Some(DsnParts {
        scheme: parsed.scheme().to_string(),
        host: parsed.host().to_string(),
        project_id: parsed.project_id().to_string(),
    })
}

/// Whether reports can go to an address.
pub open spec fn dsn_is_valid(dsn: Seq<char>) -> bool {
    is_test_address(dsn) || dsn_parts(dsn) is Some
}

/// Whether reports can go to an address.
pub fn validate_dsn(dsn: &str) -> (r: bool)
    ensures
        r == dsn_is_valid(dsn@),
{
    if is_test_text(dsn) {
        return true;
    }
    parse_dsn(dsn).is_some()
}

/// An address as it may be shown, from its parts.
pub open spec fn shown_address(
    dsn: Seq<char>,
    parts: Option<(Seq<char>, Seq<char>, Seq<char>)>,
) -> Seq<char> {
    if is_test_address(dsn) {
        dsn
    } else {
        match parts {
            Some((scheme, host, project)) => scheme + "://...@"@ + host + " /"@ + project,
            None => "invalid"@,
        }
    }
}

/// An address as it may be shown, from its parts.
pub fn show_address(dsn: &str, parts: Option<DsnParts>) -> (r: String)
    ensures
        r@ == shown_address(dsn@, parts.deep_view()),
{
    if is_test_text(dsn) {
        return dsn.to_owned();
    }
    match parts {
        Some(p) => {
            let mut out = enclose(p.scheme.as_str(), "://...@", p.host.as_str());
            out.append(" /");
            out.append(p.project_id.as_str());
            out
        },
        None => "invalid".to_string(),
    }
}

/// An address as it may be shown: without its keys.
pub fn redact_dsn(dsn: &str) -> (r: String)
    ensures
        r@ == shown_address(dsn@, dsn_parts(dsn@)),
{
    let parts = parse_dsn(dsn);
    show_address(dsn, parts)
}

// ---------------------------------------------------------------------------
// What is taken out of reports
// ---------------------------------------------------------------------------

/// A text with every match of a pattern replaced, as
/// `regex::Regex::replace_all` does it; none where the pattern is no regular
/// expression.
pub uninterp spec fn regex_replaced(
    pattern: Seq<char>,
    input: Seq<char>,
    with: Seq<char>,
) -> Option<Seq<char>>;

/// `regex::Regex::new` and `regex::Regex::replace_all`: a text with every
/// match of a pattern replaced, and none where the pattern is no regular
/// expression. It depends on the three texts alone.
#[verifier::external_body]
fn regex_replace_all(pattern: &str, input: &str, with: &str) -> (r: Option<String>)
    ensures
        r.deep_view() == regex_replaced(pattern@, input@, with@),
{
    let re = regex::Regex::new(pattern).ok()?;
    Some(re.replace_all(input, with).into_owned())
}

/// A text with every match of a pattern replaced, or as it is where the
/// pattern is no regular expression.
pub open spec fn replaced(pattern: Seq<char>, input: Seq<char>, with: Seq<char>) -> Seq<char> {
    match regex_replaced(pattern, input, with) {
        Some(s) => s,
        None => input,
    }
}

fn replace_matches(pattern: &str, input: &str, with: &str) -> (r: String)
    ensures
        r@ == replaced(pattern@, input@, with@),
{
    match regex_replace_all(pattern, input, with) {
        Some(s) => s,
        None => input.to_owned(),
    }
}

/// Six pairs of hexadecimal digits with colons or hyphens between them.
pub open spec fn mac_pattern() -> Seq<char> {
    "(?i)\\b(?:[0-9a-f]{2}[:-]){5}[0-9a-f]{2}\\b"@
}

/// A path from a drive letter, or from a root through at least one directory.
pub open spec fn path_pattern() -> Seq<char> {
    "(?i)([A-Za-z]:\\\\(?:[^\\\\\\\\/:*?\\\"<>|\\r\\n]+\\\\)*[^\\\\\\\\/:*?\\\"<>|\\r\\n]*)|(/(?:[^/ \\t\\r\\n]+/)+[^/ \\t\\r\\n]*)"@
}

/// Twelve or more capital letters and digits.
pub open spec fn serial_pattern() -> Seq<char> {
    "\\b[A-Z0-9]{12,}\\b"@
}

/// Four groups of up to three digits with dots between them.
pub open spec fn ip_pattern() -> Seq<char> {
    "\\b(?:\\d{1,3}\\.){3}\\d{1,3}\\b"@
}

/// A text with addresses of devices, paths, serial numbers and addresses of
/// machines replaced, in this order.
pub open spec fn scrubbed(input: Seq<char>) -> Seq<char> {
    let a = replaced(mac_pattern(), input, "<MAC>"@);
    let b = replaced(path_pattern(), a, "<PATH>"@);
    let c = replaced(serial_pattern(), b, "<SERIAL>"@);
    replaced(ip_pattern(), c, "<IP>"@)
}

/// Takes out of a text what could identify a person or a machine.
pub fn scrub_pii(input: &str) -> (r: String)
    ensures
        r@ == scrubbed(input@),
{
    let a = replace_matches("(?i)\\b(?:[0-9a-f]{2}[:-]){5}[0-9a-f]{2}\\b", input, "<MAC>");
    let b = replace_matches(
        "(?i)([A-Za-z]:\\\\(?:[^\\\\\\\\/:*?\\\"<>|\\r\\n]+\\\\)*[^\\\\\\\\/:*?\\\"<>|\\r\\n]*)|(/(?:[^/ \\t\\r\\n]+/)+[^/ \\t\\r\\n]*)",
        a.as_str(),
        "<PATH>",
    );
    let c = replace_matches("\\b[A-Z0-9]{12,}\\b", b.as_str(), "<SERIAL>");
    replace_matches("\\b(?:\\d{1,3}\\.){3}\\d{1,3}\\b", c.as_str(), "<IP>")
}

/// A place in a stack trace.
#[derive(Debug, PartialEq, Eq)]
pub struct CrashFrame {
    pub abs_path: Option<String>,
    pub filename: Option<String>,
}

/// What a `CrashFrame` holds.
#[verifier::ext_equal]
pub struct FrameModel {
    pub abs_path: Option<Seq<char>>,
    pub filename: Option<Seq<char>>,
}

impl DeepView for CrashFrame {
    type V = FrameModel;

    open spec fn deep_view(&self) -> FrameModel {
        FrameModel {
            abs_path: self.abs_path.deep_view(),
            filename: self.filename.deep_view(),
        }
    }
}

/// An error in a report.
#[derive(Debug, PartialEq, Eq)]
pub struct CrashException {
    pub value: Option<String>,
    pub stacktrace: Option<Vec<CrashFrame>>,
    pub raw_stacktrace: Option<Vec<CrashFrame>>,
}

/// What a `CrashException` holds.
#[verifier::ext_equal]
pub struct ExceptionModel {
    pub value: Option<Seq<char>>,
    pub stacktrace: Option<Seq<FrameModel>>,
    pub raw_stacktrace: Option<Seq<FrameModel>>,
}

impl DeepView for CrashException {
    type V = ExceptionModel;

    open spec fn deep_view(&self) -> ExceptionModel {
        ExceptionModel {
            value: self.value.deep_view(),
            stacktrace: self.stacktrace.deep_view(),
            raw_stacktrace: self.raw_stacktrace.deep_view(),
        }
    }
}

/// A report: what it says of the machine and the user, and what went wrong.
#[derive(Debug, PartialEq, Eq)]
pub struct CrashEvent {
    pub server_name: Option<String>,
    pub environment: Option<String>,
    pub release: Option<String>,
    pub dist: Option<String>,
    /// Whether there is anything on the user.
    pub user: bool,
    /// Whether there is anything on a request.
    pub request: bool,
    /// The keys of the contexts, the tags and the extra values.
    pub contexts: Vec<String>,
    pub tags: Vec<String>,
    pub extra: Vec<String>,
    pub message: Option<String>,
    pub exceptions: Vec<CrashException>,
}

/// A text, if there is one, with what identifies taken out.
pub open spec fn scrubbed_option(s: Option<Seq<char>>) -> Option<Seq<char>> {
    match s {
        Some(t) => Some(scrubbed(t)),
        None => None,
    }
}

/// A place with what identifies taken out.
pub open spec fn scrubbed_frame(f: FrameModel) -> FrameModel {
    FrameModel {
        abs_path: scrubbed_option(f.abs_path),
        filename: scrubbed_option(f.filename),
    }
}

/// A stack trace, if there is one, with what identifies taken out.
pub open spec fn scrubbed_trace(t: Option<Seq<FrameModel>>) -> Option<Seq<FrameModel>> {
    match t {
        Some(frames) => Some(frames.map_values(|f: FrameModel| scrubbed_frame(f))),
        None => None,
    }
}

/// An error with what identifies taken out.
pub open spec fn scrubbed_exception(e: ExceptionModel) -> ExceptionModel {
    ExceptionModel {
        value: scrubbed_option(e.value),
        stacktrace: scrubbed_trace(e.stacktrace),
        raw_stacktrace: scrubbed_trace(e.raw_stacktrace),
    }
}

fn scrub_option(s: &Option<String>) -> (r: Option<String>)
    ensures
        r.deep_view() == scrubbed_option(s.deep_view()),
{
    match s {
        Some(t) => Some(scrub_pii(t.as_str())),
        None => None,
    }
}

/// Takes what identifies out of a stack trace.
pub fn scrub_stacktrace(frames: &Vec<CrashFrame>) -> (r: Vec<CrashFrame>)
    ensures
        r.deep_view() == frames.deep_view().map_values(|f: FrameModel| scrubbed_frame(f)),
{
    let mut out: Vec<CrashFrame> = Vec::new();
    let mut i: usize = 0;
    while i < frames.len()
        invariant
            i <= frames@.len(),
            out@.len() == i,
            forall|j: int|
                0 <= j < i ==> (#[trigger] out@[j]).deep_view() == scrubbed_frame(
                    frames@[j].deep_view(),
                ),
        decreases frames@.len() - i,
    {
        out.push(
            CrashFrame {
                abs_path: scrub_option(&frames[i].abs_path),
                filename: scrub_option(&frames[i].filename),
            },
        );
        i = i + 1;
    }
    assert(out.deep_view() =~= frames.deep_view().map_values(|f: FrameModel| scrubbed_frame(f)));
    out
}

fn scrub_trace(t: &Option<Vec<CrashFrame>>) -> (r: Option<Vec<CrashFrame>>)
    ensures
        r.deep_view() == scrubbed_trace(t.deep_view()),
{
    match t {
        Some(frames) => Some(scrub_stacktrace(frames)),
        None => None,
    }
}

fn scrub_exceptions(all: &Vec<CrashException>) -> (r: Vec<CrashException>)
    ensures
        r.deep_view() == all.deep_view().map_values(|e: ExceptionModel| scrubbed_exception(e)),
{
    let mut out: Vec<CrashException> = Vec::new();
    let mut i: usize = 0;
    while i < all.len()
        invariant
            i <= all@.len(),
            out@.len() == i,
            forall|j: int|
                0 <= j < i ==> (#[trigger] out@[j]).deep_view() == scrubbed_exception(
                    all@[j].deep_view(),
                ),
        decreases all@.len() - i,
    {
        out.push(
            CrashException {
                value: scrub_option(&all[i].value),
                stacktrace: scrub_trace(&all[i].stacktrace),
                raw_stacktrace: scrub_trace(&all[i].raw_stacktrace),
            },
        );
        i = i + 1;
    }
    assert(out.deep_view() =~= all.deep_view().map_values(
        |e: ExceptionModel| scrubbed_exception(e),
    ));
    out
}

/// A report as it is sent: nothing on the machine or the user, and the rest
/// with what identifies taken out. None while reporting is off.
pub fn before_send(enabled: bool, event: &CrashEvent) -> (r: Option<CrashEvent>)
    ensures
        r is Some == enabled,
        r matches Some(e) ==> {
            &&& e.server_name is None && e.environment is None && e.release is None
                && e.dist is None
            &&& !e.user && !e.request
            &&& e.contexts@.len() == 0 && e.tags@.len() == 0 && e.extra@.len() == 0
            &&& e.message.deep_view() == scrubbed_option(event.message.deep_view())
            &&& e.exceptions.deep_view() == event.exceptions.deep_view().map_values(
                |x: ExceptionModel| scrubbed_exception(x),
            )
        },
{
    if !enabled {
        return None;
    }
    Some(
        CrashEvent {
            server_name: None,
            environment: None,
            release: None,
            dist: None,
            user: false,
            request: false,
            contexts: Vec::new(),
            tags: Vec::new(),
            extra: Vec::new(),
            message: scrub_option(&event.message),
            exceptions: scrub_exceptions(&event.exceptions),
        },
    )
}

// ---------------------------------------------------------------------------
// When reporting is on
// ---------------------------------------------------------------------------

/// Whether reporting is on, and where reports go.
#[derive(Debug)]
pub struct CrashState {
    pub enabled: bool,
    pub test_mode: bool,
    pub dsn: Option<String>,
}

/// What a `CrashState` holds.
#[verifier::ext_equal]
pub struct CrashModel {
    pub enabled: bool,
    pub test_mode: bool,
    pub dsn: Option<Seq<char>>,
}

impl DeepView for CrashState {
    type V = CrashModel;

    open spec fn deep_view(&self) -> CrashModel {
        CrashModel {
            enabled: self.enabled,
            test_mode: self.test_mode,
            dsn: self.dsn.deep_view(),
        }
    }
}

impl CrashState {
    /// Reporting is off.
    pub fn new() -> (r: Self)
        ensures
            r.deep_view() == (CrashModel { enabled: false, test_mode: false, dsn: None }),
    {
        CrashState { enabled: false, test_mode: false, dsn: None }
    }
}

/// An address, if it is not blank.
pub open spec fn given_address(dsn: Option<Seq<char>>) -> Option<Seq<char>> {
    match dsn {
        Some(s) => if text::trimmed(s).len() > 0 {
            Some(s)
        } else {
            None
        },
        None => None,
    }
}

/// Whether reports go to a local file: by the address, or because the
/// environment says so.
pub open spec fn is_local_mode(dsn: Option<Seq<char>>, env_test: bool) -> bool {
    env_test || match dsn {
        Some(s) => is_test_address(s),
        None => false,
    }
}

/// Whether reporting is on and where reports go, for an address. `valid` says
/// whether reports can go there.
pub open spec fn initial_state(dsn: Option<Seq<char>>, env_test: bool, valid: bool) -> CrashModel {
    let given = given_address(dsn);
    let local = is_local_mode(given, env_test);
    CrashModel { enabled: local || (given is Some && valid), test_mode: local, dsn: given }
}

/// Whether a reporting service is connected to, for an address.
pub open spec fn connects(dsn: Option<Seq<char>>, env_test: bool, valid: bool) -> bool {
    let given = given_address(dsn);
    given is Some && !is_local_mode(given, env_test) && valid
}

/// Whether reports can go to an address, if there is one.
pub open spec fn address_is_valid(dsn: Option<Seq<char>>) -> bool {
    match given_address(dsn) {
        Some(s) => dsn_is_valid(s),
        None => false,
    }
}

fn keep_given(dsn: Option<String>) -> (r: Option<String>)
    ensures
        r.deep_view() == given_address(dsn.deep_view()),
{
    match dsn {
        Some(s) => {
            let chars = text::chars_of(s.as_str());
            if text::trim(chars.as_slice()).len() > 0 {
                Some(s)
            } else {
                None
            }
        },
        None => None,
    }
}

fn local_mode(dsn: &Option<String>, env_test: bool) -> (r: bool)
    ensures
        r == is_local_mode(dsn.deep_view(), env_test),
{
    match dsn {
        Some(s) => env_test || is_test_text(s.as_str()),
        None => env_test,
    }
}

/// Sets reporting up for an address, of which it is known whether reports can
/// go there. Whether a reporting service is connected to.
pub fn set_up(state: &mut CrashState, dsn: Option<String>, env_test: bool, valid: bool) -> (r: bool)
    ensures
        final(state).deep_view() == initial_state(dsn.deep_view(), env_test, valid),
        r == connects(dsn.deep_view(), env_test, valid),
{
    let given = keep_given(dsn);
    let local = local_mode(&given, env_test);
    let present = given.is_some();
    state.test_mode = local;
    state.enabled = local || (present && valid);
    state.dsn = given;
    present && !local && valid
}

/// Sets reporting up for an address. Whether a reporting service is connected
/// to.
pub fn init_crash_reporting(state: &mut CrashState, dsn: Option<String>, env_test: bool) -> (r:
    bool)
    ensures
        final(state).deep_view() == initial_state(
            dsn.deep_view(),
            env_test,
            address_is_valid(dsn.deep_view()),
        ),
        r == connects(dsn.deep_view(), env_test, address_is_valid(dsn.deep_view())),
{
    let given = keep_given(dsn);
    proof {
        assert(given_address(given.deep_view()) == given.deep_view());
    }
    let valid = match &given {
        Some(s) => validate_dsn(s.as_str()),
        None => false,
    };
    set_up(state, given, env_test, valid)
}

/// Whether reporting is on and where reports go once it was switched. `valid`
/// says whether reports can go to the given address.
pub open spec fn switched(
    state: CrashModel,
    enabled: bool,
    dsn: Option<Seq<char>>,
    env_test: bool,
    valid: bool,
) -> CrashModel {
    if !enabled {
        CrashModel { enabled: false, test_mode: false, dsn: None }
    } else if state.dsn != given_address(dsn) {
        initial_state(dsn, env_test, valid)
    } else {
        CrashModel {
            enabled: true,
            test_mode: is_local_mode(given_address(dsn), env_test),
            dsn: state.dsn,
        }
    }
}

fn same_option(a: &Option<String>, b: &Option<String>) -> (r: bool)
    ensures
        r == (a.deep_view() == b.deep_view()),
{
    match a {
        Some(x) => match b {
            Some(y) => text::same(x.as_str(), y.as_str()),
            None => false,
        },
        None => b.is_none(),
    }
}

/// Whether reporting is on, and where reports go, as it may be shown.
#[derive(Debug, PartialEq, Eq)]
pub struct CrashReportingStatus {
    pub enabled: bool,
    pub test_mode: bool,
    pub dsn: Option<String>,
}

impl Clone for CrashReportingStatus {
    fn clone(&self) -> (r: Self)
        ensures
            r.enabled == self.enabled,
            r.test_mode == self.test_mode,
            r.dsn.deep_view() == self.dsn.deep_view(),
    {
        let dsn: Option<String> = match &self.dsn {
            Some(s) => Some(s.clone()),
            None => None,
        };
        CrashReportingStatus { enabled: self.enabled, test_mode: self.test_mode, dsn }
    }
}

/// Whether reporting is on, and where reports go, as it may be shown.
pub open spec fn shows(r: CrashReportingStatus, state: CrashModel) -> bool {
    &&& r.enabled == state.enabled
    &&& r.test_mode == state.test_mode
    &&& r.dsn.deep_view() == match state.dsn {
        Some(s) => Some(shown_address(s, dsn_parts(s))),
        None => None,
    }
}

/// Whether reporting is on, and where reports go, as it may be shown.
pub fn status(state: &CrashState) -> (r: CrashReportingStatus)
    ensures
        shows(r, state.deep_view()),
{
    let dsn: Option<String> = match &state.dsn {
        Some(s) => Some(redact_dsn(s.as_str())),
        None => None,
    };
    CrashReportingStatus { enabled: state.enabled, test_mode: state.test_mode, dsn }
}

/// Switches reporting on or off. The new status, and whether a reporting
/// service is connected to.
pub fn set_crash_reporting_enabled(
    state: &mut CrashState,
    enabled: bool,
    dsn: Option<String>,
    env_test: bool,
) -> (r: (CrashReportingStatus, bool))
    ensures
        final(state).deep_view() == switched(
            old(state).deep_view(),
            enabled,
            dsn.deep_view(),
            env_test,
            address_is_valid(dsn.deep_view()),
        ),
        shows(r.0, final(state).deep_view()),
        r.1 == (enabled && old(state).deep_view().dsn != given_address(dsn.deep_view())
            && connects(dsn.deep_view(), env_test, address_is_valid(dsn.deep_view()))),
{
    let given = keep_given(dsn);
    proof {
        assert(given_address(given.deep_view()) == given.deep_view());
    }
    if !enabled {
        state.enabled = false;
        state.test_mode = false;
        state.dsn = None;
        return (status(state), false);
    }
    if same_option(&state.dsn, &given) {
        state.test_mode = local_mode(&given, env_test);
        state.enabled = true;
        return (status(state), false);
    }
    let connect = init_crash_reporting(state, given, env_test);
    (status(state), connect)
}

/// Switches reporting on or off, in the configuration too. The new status,
/// whether a reporting service is connected to, and whether the configuration
/// is to be saved.
pub fn set_crash_reporting(
    config: &mut AppConfig,
    state: &mut CrashState,
    enabled: bool,
    dsn: Option<String>,
    env_test: bool,
) -> (r: (CrashReportingStatus, bool, bool))
    ensures
        final(config).crash_reporting_enabled == enabled,
        final(config).crash_reporting_dsn.deep_view() == dsn.deep_view(),
        *final(config) == (AppConfig {
            crash_reporting_enabled: enabled,
            crash_reporting_dsn: final(config).crash_reporting_dsn,
            ..*old(config)
        }),
        final(state).deep_view() == switched(
            old(state).deep_view(),
            enabled,
            dsn.deep_view(),
            env_test,
            address_is_valid(dsn.deep_view()),
        ),
        shows(r.0, final(state).deep_view()),
        r.1 == (enabled && old(state).deep_view().dsn != given_address(dsn.deep_view())
            && connects(dsn.deep_view(), env_test, address_is_valid(dsn.deep_view()))),
        r.2 == old(config).config_persistence_enabled,
{
    config.crash_reporting_enabled = enabled;
    config.crash_reporting_dsn =
    match &dsn {
        Some(s) => Some(s.clone()),
        None => None,
    };
    let (shown, connect) = set_crash_reporting_enabled(state, enabled, dsn, env_test);
    (shown, connect, config.config_persistence_enabled)
}

// ---------------------------------------------------------------------------
// Panics
// ---------------------------------------------------------------------------

/// Where a report of a panic goes.
#[derive(Clone, Copy, Debug, PartialEq, Eq, Structural)]
pub enum PanicRoute {
    Nowhere,
    LocalFile,
    Service,
}

/// Where a report of a panic goes.
pub fn panic_route(state: &CrashState, has_client: bool) -> (r: PanicRoute)
    ensures
        r == (if !state.enabled {
            PanicRoute::Nowhere
        } else if state.test_mode {
            PanicRoute::LocalFile
        } else if has_client {
            PanicRoute::Service
        } else {
            PanicRoute::Nowhere
        }),
{
    if !state.enabled {
        return PanicRoute::Nowhere;
    }
    if state.test_mode {
        return PanicRoute::LocalFile;
    }
    if has_client {
        return PanicRoute::Service;
    }
    PanicRoute::Nowhere
}

/// A place in a source file, as text.
pub open spec fn place_text(file: Seq<char>, line: u32) -> Seq<char> {
    file + ":"@ + text::decimal(line as nat)
}

/// The report of a panic, from what is left of its message and its place.
pub open spec fn panic_text(payload: Seq<char>, place: Option<Seq<char>>) -> Seq<char> {
    match place {
        Some(p) => "panic: "@ + payload + " at "@ + p,
        None => "panic: "@ + payload,
    }
}

/// The report of a panic, from what is left of its message and its place.
pub fn assemble_panic(payload: &str, place: Option<&str>) -> (r: String)
    ensures
        r@ == panic_text(
            payload@,
            match place {
                Some(p) => Some(p@),
                None => None,
            },
        ),
{
    match place {
        Some(p) => {
            let mut out = enclose("panic: ", payload, " at ");
            out.append(p);
            out
        },
        None => {
            let mut out = "panic: ".to_string();
            out.append(payload);
            out
        },
    }
}

/// The report of a panic: its message and its place, with what identifies
/// taken out.
pub fn panic_report(payload: &str, location: Option<(&str, u32)>) -> (r: String)
    ensures
        r@ == panic_text(
            scrubbed(payload@),
            match location {
                Some((file, line)) => Some(scrubbed(place_text(file@, line))),
                None => None,
            },
        ),
{
    let message = scrub_pii(payload);
    match location {
        Some((file, line)) => {
            let mut place = file.to_owned();
            place.append(":");
            text::push_decimal(&mut place, line as u64);
            let clean = scrub_pii(place.as_str());
            assemble_panic(message.as_str(), Some(clean.as_str()))
        },
        None => assemble_panic(message.as_str(), None),
    }
}

/// `dirs_next::data_dir`: where the user's data files are kept, in the bytes
/// that the platform keeps the path in. It reads the environment, so nothing is
/// stated of the result.
#[verifier::external_body]
fn user_data_dir() -> (r: Option<RawPath>) {
    dirs_next::data_dir().map(|p| RawPath { bytes: p.into_os_string().into_encoded_bytes() })
}

/// The directory of local reports below the application's directory.
pub fn crash_dir_in(base: Option<RawPath>) -> (r: RawPath)
    ensures
        r@ == config::joined(config::app_dir(base.deep_view()), encode_utf8("crashes"@)),
{
    let dir = config::app_dir_in(base);
    join_path(&dir, "crashes")
}

/// The directory of local reports.
pub fn crash_dir() -> (r: RawPath)
    ensures
        exists|base: Option<Seq<u8>>|
            r@ == config::joined(#[trigger] config::app_dir(base), encode_utf8("crashes"@)),
{
    let base = user_data_dir();
    crash_dir_in(base)
}

/// The name of a local report.
pub fn crash_file_name(secs: u64) -> (r: String)
    ensures
        r@ == "crash_"@ + text::decimal(secs as nat) + ".txt"@,
{
    enclose_number("crash_", secs, ".txt")
}

/// The name of a local report that is written now.
pub fn crash_file_name_now() -> (r: String)
    ensures
        exists|secs: u64| r@ == "crash_"@ + #[trigger] text::decimal(secs as nat) + ".txt"@,
{
    let secs = clock::now_secs();
    crash_file_name(secs)
}

// ---------------------------------------------------------------------------
// Laws
// ---------------------------------------------------------------------------

/// Reporting is off unless it was asked for: set up with no address, or a
/// blank one, it stays off.
pub proof fn law_reporting_is_opt_in(dsn: Option<Seq<char>>, valid: bool)
    requires
        given_address(dsn) is None,
    ensures
        !initial_state(dsn, false, valid).enabled,
        !initial_state(dsn, false, valid).test_mode,
        initial_state(dsn, false, valid).dsn is None,
        !connects(dsn, false, valid),
{
}

/// Set up with an address that reports cannot go to, reporting stays off.
pub proof fn law_invalid_address_keeps_reporting_off(dsn: Option<Seq<char>>)
    requires
        !is_local_mode(given_address(dsn), false),
    ensures
        !initial_state(dsn, false, false).enabled,
        !connects(dsn, false, false),
{
}

/// Local reports never go to a service, and a service is connected to only
/// while reporting is on.
pub proof fn law_local_mode_connects_nowhere(dsn: Option<Seq<char>>, env_test: bool, valid: bool)
    ensures
        connects(dsn, env_test, valid) ==> initial_state(dsn, env_test, valid).enabled
            && !initial_state(dsn, env_test, valid).test_mode,
{
}

/// Switched on with another address than before, reporting is set up anew for
/// it, and so stays off where the address is missing or reports cannot go to
/// it. Switched on with the same address, even a missing or an invalid one, it
/// is on and keeps the address.
pub proof fn law_switching_on(
    state: CrashModel,
    dsn: Option<Seq<char>>,
    env_test: bool,
    valid: bool,
)
    ensures
        state.dsn != given_address(dsn) ==> switched(state, true, dsn, env_test, valid)
            == initial_state(dsn, env_test, valid),
        state.dsn != given_address(dsn) && !valid && !is_local_mode(given_address(dsn), env_test)
            ==> !switched(state, true, dsn, env_test, valid).enabled,
        state.dsn == given_address(dsn) ==> switched(state, true, dsn, env_test, valid) == (
        CrashModel {
            enabled: true,
            test_mode: is_local_mode(given_address(dsn), env_test),
            dsn: state.dsn,
        }),
{
}

/// Switched off, nothing is remembered of where reports went.
pub proof fn law_switching_off_forgets(
    state: CrashModel,
    dsn: Option<Seq<char>>,
    env_test: bool,
    valid: bool,
)
    ensures
        switched(state, false, dsn, env_test, valid) == (CrashModel {
            enabled: false,
            test_mode: false,
            dsn: None,
        }),
{
}

/// Two addresses of services that differ only in their keys are shown alike.
pub proof fn law_keys_are_not_shown(
    a: Seq<char>,
    b: Seq<char>,
    parts: Option<(Seq<char>, Seq<char>, Seq<char>)>,
)
    requires
        !is_test_address(a),
        !is_test_address(b),
    ensures
        shown_address(a, parts) == shown_address(b, parts),
{
}

/// An address stands for a local file if it is the word `test`, in capital or
/// small letters, or begins with `test://`.
pub proof fn law_test_addresses(dsn: Seq<char>, rest: Seq<char>)
    ensures
        is_test_address("test://"@ + rest),
        text::ascii_lowered(dsn) == "test"@ ==> is_test_address(dsn),
        is_test_address(dsn) && dsn.len() != 4 ==> text::has_prefix(dsn, "test://"@),
{
    reveal_strlit("test");
    assert("test"@.len() == 4);
    assert(text::ascii_lowered(dsn).len() == dsn.len());
    text::law_parts_of_a_text("test://"@, rest, Seq::empty());
}

/// Reporting is on where the environment or the address asks for local reports,
/// or where there is an address that reports can go to; it is local in the
/// first case alone. A blank address is none.
pub proof fn law_when_reporting_is_on(dsn: Option<Seq<char>>, env_test: bool, valid: bool)
    ensures
        ({
            let given = dsn is Some && text::trimmed(dsn->0).len() > 0;
            let local = env_test || given && is_test_address(dsn->0);
            let s = initial_state(dsn, env_test, valid);
            &&& s.test_mode == local
            &&& s.enabled == (local || given && valid)
            &&& s.dsn == (if given { dsn } else { None })
            &&& connects(dsn, env_test, valid) == (given && !local && valid)
            &&& dsn_is_valid(dsn->0) == (is_test_address(dsn->0) || dsn_parts(dsn->0) is Some)
        }),
{
}

/// An address is shown by its scheme, its host and its project, with its keys
/// left out; one of a local file as it is, and one that is none as invalid.
pub proof fn law_shown_addresses(
    dsn: Seq<char>,
    scheme: Seq<char>,
    host: Seq<char>,
    project: Seq<char>,
)
    ensures
        is_test_address(dsn) ==> shown_address(dsn, None) == dsn && shown_address(
            dsn,
            Some((scheme, host, project)),
        ) == dsn,
        !is_test_address(dsn) ==> shown_address(dsn, None) == "invalid"@,
        !is_test_address(dsn) ==> shown_address(dsn, Some((scheme, host, project))) == scheme
            + "://...@"@ + host + " /"@ + project,
{
}

/// What identifies is taken out in this order: addresses of devices, paths,
/// serial numbers, and addresses of machines, each with its own mark. Where no
/// pattern has a match nothing changes.
pub proof fn law_what_is_taken_out(a: Seq<char>, b: Seq<char>, c: Seq<char>, d: Seq<char>, e: Seq<
    char,
>)
    requires
        replaced("(?i)\\b(?:[0-9a-f]{2}[:-]){5}[0-9a-f]{2}\\b"@, a, "<MAC>"@) == b,
        replaced(path_pattern(), b, "<PATH>"@) == c,
        replaced("\\b[A-Z0-9]{12,}\\b"@, c, "<SERIAL>"@) == d,
        replaced("\\b(?:\\d{1,3}\\.){3}\\d{1,3}\\b"@, d, "<IP>"@) == e,
    ensures
        scrubbed(a) == e,
{
}

/// Every text of a report goes through the same scrubbing, place by place:
/// messages, values, file names and paths, in both stack traces.
pub proof fn law_every_text_is_scrubbed(e: ExceptionModel, frames: Seq<FrameModel>, i: int)
    requires
        e.stacktrace == Some(frames),
        e.raw_stacktrace == Some(frames),
        0 <= i < frames.len(),
    ensures
        ({
            let s = scrubbed_exception(e);
            let clean = |t: Option<Seq<char>>, u: Option<Seq<char>>|
                (t is Some) == (u is Some) && (t is Some ==> u->0 == scrubbed(t->0));
            &&& clean(e.value, s.value)
            &&& s.stacktrace is Some && s.stacktrace->0.len() == frames.len()
            &&& s.raw_stacktrace is Some && s.raw_stacktrace->0.len() == frames.len()
            &&& clean(frames[i].abs_path, s.stacktrace->0[i].abs_path)
            &&& clean(frames[i].filename, s.stacktrace->0[i].filename)
            &&& clean(frames[i].abs_path, s.raw_stacktrace->0[i].abs_path)
            &&& clean(frames[i].filename, s.raw_stacktrace->0[i].filename)
        }),
{
}

/// The report of a panic: its message, and its place where that is known, as a
/// file and a line.
pub proof fn law_panic_reports(
    payload: Seq<char>,
    place: Seq<char>,
    file: Seq<char>,
    line: u32,
)
    ensures
        panic_text(payload, None) == "panic: "@ + payload,
        panic_text(payload, Some(place)) == "panic: "@ + payload + " at "@ + place,
        place_text(file, line) == file + ":"@ + text::decimal(line as nat),
{
}

/// What is shown of the state: whether reporting is on and local, and the
/// address without its keys.
pub proof fn law_what_is_shown(r: CrashReportingStatus, state: CrashModel)
    requires
        shows(r, state),
    ensures
        r.enabled == state.enabled,
        r.test_mode == state.test_mode,
        state.dsn is None ==> r.dsn is None,
        state.dsn matches Some(s) ==> r.dsn is Some && r.dsn->0@ == shown_address(s, dsn_parts(s)),
        address_is_valid(state.dsn) == (state.dsn is Some && text::trimmed(state.dsn->0).len() > 0
            && dsn_is_valid(state.dsn->0)),
{
}

} // verus!
