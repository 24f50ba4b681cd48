//! Sharing profiles through a community server: which servers are accepted,
//! what is asked of them, and the codes that profiles are shared under.

use vstd::prelude::*;
use vstd::utf8::encode_utf8;

use crate::clock;
use crate::config;
use crate::config::{enclose, join_path, RawPath};
use crate::text;

verus! {

/// How the server is reached.
#[derive(Debug, PartialEq, Eq)]
pub struct CloudConfig {
    pub enabled: bool,
    pub endpoint: String,
    pub api_key: Option<String>,
    pub username: String,
    pub accepted_terms: bool,
}

impl Default for CloudConfig {
    fn default() -> (r: Self)
        ensures
            !r.enabled,
            r.endpoint@.len() == 0,
            r.api_key is None,
            r.username@.len() == 0,
            !r.accepted_terms,
    {
        CloudConfig {
            enabled: false,
            endpoint: String::new(),
            api_key: None,
            username: String::new(),
            accepted_terms: false,
        }
    }
}

impl Clone for CloudConfig {
    fn clone(&self) -> (r: Self)
        ensures
            r.enabled == self.enabled,
            r.endpoint@ == self.endpoint@,
            r.api_key.deep_view() == self.api_key.deep_view(),
            r.username@ == self.username@,
            r.accepted_terms == self.accepted_terms,
    {
        let api_key: Option<String> = match &self.api_key {
            Some(k) => Some(k.clone()),
            None => None,
        };
        CloudConfig {
            enabled: self.enabled,
            endpoint: self.endpoint.clone(),
            api_key,
            username: self.username.clone(),
            accepted_terms: self.accepted_terms,
        }
    }
}

// ---------------------------------------------------------------------------
// Which servers are accepted
// ---------------------------------------------------------------------------

/// Whether a character ends the part of an address that names the server.
pub open spec fn ends_authority(c: char) -> bool {
    c == '/' || c == '\\' || c == '?' || c == '#'
}

/// The part of an address that names the server, from what follows `https://`:
/// up to a slash, a backslash, a question mark or a number sign.
pub open spec fn authority(rest: Seq<char>) -> Seq<char>
    decreases rest.len(),
{
    if rest.len() == 0 || ends_authority(rest[0]) {
        Seq::empty()
    } else {
        seq![rest[0]] + authority(rest.skip(1))
    }
}

/// What follows the last at sign; everything where there is none.
pub open spec fn after_user(s: Seq<char>) -> Seq<char>
    decreases s.len(),
{
    if s.len() == 0 || s.last() == '@' {
        Seq::empty()
    } else {
        after_user(s.drop_last()).push(s.last())
    }
}

/// The host of an address that begins with `https://`: the part that names the
/// server, without a user before it and a port after it.
pub open spec fn host_of(endpoint: Seq<char>) -> Seq<char> {
    let named = after_user(authority(endpoint.skip(8)));
    named.take(text::before(named, ':'))
}

/// Whether a host stands for none. A dot after the last name changes nothing.
pub open spec fn is_placeholder(host: Seq<char>) -> bool {
    let lower = text::ascii_lowered(host);
    text::has_infix(lower, ".example"@) || text::has_suffix(lower, "example.com"@)
        || text::has_suffix(lower, "example.com."@)
}

/// Why an address is refused. An empty one is not: it stands for no server.
pub open spec fn endpoint_fault(endpoint: Seq<char>) -> Option<Seq<char>> {
    let lower = text::ascii_lowered(endpoint);
    if endpoint.len() == 0 {
        None
    } else if text::has_prefix(lower, "http://"@) {
        Some("cloud endpoint must use https://, http:// is not allowed"@)
    } else if !text::has_prefix(lower, "https://"@) {
        Some("cloud endpoint must use https://"@)
    } else if host_of(endpoint).len() == 0 {
        Some("cloud endpoint must have a host"@)
    } else if is_placeholder(host_of(endpoint)) {
        Some("cloud endpoint cannot reference .example or example.com hosts"@)
    } else {
        None
    }
}

/// What a check found, against what is wrong.
pub open spec fn refused_with(r: Result<(), String>, fault: Option<Seq<char>>) -> bool {
    match r {
        Ok(()) => fault is None,
        Err(e) => fault == Some(e@),
    }
}

fn lower_ascii(s: &Vec<char>) -> (r: Vec<char>)
    ensures
        r@ == text::ascii_lowered(s@),
{
    let mut out: Vec<char> = Vec::new();
    let mut i: usize = 0;
    while i < s.len()
        invariant
            i <= s@.len(),
            out@.len() == i,
            forall|j: int| 0 <= j < i ==> #[trigger] out@[j] == text::ascii_lower(s@[j]),
        decreases s@.len() - i,
    {
        out.push(text::to_ascii_lower(s[i]));
        i = i + 1;
    }
    assert(out@ =~= text::ascii_lowered(s@));
    out
}

fn find_authority(rest: &Vec<char>) -> (r: Vec<char>)
    ensures
        r@ == authority(rest@),
{
    let mut out: Vec<char> = Vec::new();
    let mut i: usize = 0;
    proof {
        assert(rest@.skip(0) =~= rest@);
        assert(out@ + authority(rest@) =~= authority(rest@));
    }
    while i < rest.len() && !(rest[i] == '/' || rest[i] == '\\' || rest[i] == '?' || rest[i]
        == '#')
        invariant
            i <= rest@.len(),
            authority(rest@) == out@ + authority(rest@.skip(i as int)),
        decreases rest@.len() - i,
    {
        let ghost left = rest@.skip(i as int);
        proof {
            assert(left[0] == rest@[i as int]);
            assert(left.skip(1) =~= rest@.skip(i + 1));
            assert(out@ + (seq![left[0]] + authority(left.skip(1))) =~= out@.push(left[0])
                + authority(left.skip(1)));
        }
        out.push(rest[i]);
        i = i + 1;
    }
    proof {
        let left = rest@.skip(i as int);
        if i < rest@.len() {
            assert(left[0] == rest@[i as int]);
        }
        assert(out@ + Seq::<char>::empty() =~= out@);
    }
    out
}

proof fn lemma_after_user(s: Seq<char>, from: int)
    requires
        0 <= from <= s.len(),
        forall|j: int| from <= j < s.len() ==> s[j] != '@',
        from > 0 ==> s[from - 1] == '@',
    ensures
        after_user(s) == s.skip(from),
    decreases s.len(),
{
    if from < s.len() {
        lemma_after_user(s.drop_last(), from);
        assert(s.drop_last().skip(from).push(s.last()) =~= s.skip(from));
    } else {
        assert(s.skip(from) =~= Seq::<char>::empty());
    }
}

fn find_host(chars: &Vec<char>) -> (r: Vec<char>)
    requires
        chars@.len() >= 8,
    ensures
        r@ == host_of(chars@),
{
    let rest = text::slice_chars(chars.as_slice(), 8, chars.len());
    assert(rest@ =~= chars@.skip(8));
    let server = find_authority(&rest);
    let mut from: usize = server.len();
    while from > 0 && server[from - 1] != '@'
        invariant
            from <= server@.len(),
            forall|j: int| from <= j < server@.len() ==> server@[j] != '@',
        decreases from,
    {
        from = from - 1;
    }
    let named = text::slice_chars(server.as_slice(), from, server.len());
    proof {
        lemma_after_user(server@, from as int);
        assert(named@ =~= server@.skip(from as int));
    }
    let colon: usize = text::position(named.as_slice(), ':');
    let host = text::slice_chars(named.as_slice(), 0, colon);
    assert(host@ =~= host_of(chars@));
    host
}

/// Refuses an address that is not encrypted, has no host, or is only an
/// example.
pub fn validate_cloud_endpoint(endpoint: &str) -> (r: Result<(), String>)
    ensures
        refused_with(r, endpoint_fault(endpoint@)),
{
    let chars = text::chars_of(endpoint);
    if chars.len() == 0 {
        return Ok(());
    }
    let lower = lower_ascii(&chars);
    let plain = text::chars_of("http://");
    let secure = text::chars_of("https://");
    if text::starts_with(lower.as_slice(), plain.as_slice()) {
        return Err("cloud endpoint must use https://, http:// is not allowed".to_string());
    }
    if !text::starts_with(lower.as_slice(), secure.as_slice()) {
        return Err("cloud endpoint must use https://".to_string());
    }
    proof {
        reveal_strlit("https://");
    }
    let host = find_host(&chars);
    if host.len() == 0 {
        return Err("cloud endpoint must have a host".to_string());
    }
    let host_lower = lower_ascii(&host);
    let inner = text::chars_of(".example");
    let tail = text::chars_of("example.com");
    let dotted = text::chars_of("example.com.");
    if text::contains(host_lower.as_slice(), inner.as_slice()) || text::ends_with(
        host_lower.as_slice(),
        tail.as_slice(),
    ) || text::ends_with(host_lower.as_slice(), dotted.as_slice()) {
        return Err("cloud endpoint cannot reference .example or example.com hosts".to_string());
    }
    Ok(())
}

/// Accepts a configuration whose server is accepted.
pub fn set_cloud_config(config: CloudConfig) -> (r: Result<CloudConfig, String>)
    ensures
        match r {
            Ok(c) => c == config && endpoint_fault(config.endpoint@) is None,
            Err(e) => endpoint_fault(config.endpoint@) == Some(e@),
        },
{
    match validate_cloud_endpoint(config.endpoint.as_str()) {
        Ok(()) => Ok(config),
        Err(e) => Err(e),
    }
}

// ---------------------------------------------------------------------------
// Share codes
// ---------------------------------------------------------------------------

/// The digit of a share code for a number below 64.
pub open spec fn share_char(d: int) -> char {
    if d < 26 {
        (65 + d) as char
    } else if d < 52 {
        (71 + d) as char
    } else if d < 62 {
        (d - 4) as char
    } else if d == 62 {
        '-'
    } else {
        '_'
    }
}

/// Whether a character can stand in a share code.
pub open spec fn is_share_char(c: char) -> bool {
    'A' <= c <= 'Z' || 'a' <= c <= 'z' || '0' <= c <= '9' || c == '-' || c == '_'
}

/// A number as a share code: in base 64, without leading zeros.
pub open spec fn share_digits(n: nat) -> Seq<char>
    decreases n,
{
    if n < 64 {
        seq![share_char(n as int)]
    } else {
        share_digits(n / 64).push(share_char((n % 64) as int))
    }
}

fn share_digit(d: u8) -> (r: char)
    requires
        d < 64,
    ensures
        r == share_char(d as int),
{
    if d < 26 {
        (65 + d) as char
    } else if d < 52 {
        (71 + d) as char
    } else if d < 62 {
        (d - 4) as char
    } else if d == 62 {
        '-'
    } else {
        '_'
    }
}

fn push_share(out: &mut String, n: u64)
    ensures
        final(out)@ == old(out)@ + share_digits(n as nat),
    decreases n,
{
    if n >= 64 {
        push_share(out, n / 64);
    }
    out.push(share_digit((n % 64) as u8));
    assert(out@ =~= old(out)@ + share_digits(n as nat));
}

/// A number as a share code.
pub fn encode_u64(n: u64) -> (r: String)
    ensures
        r@ == share_digits(n as nat),
{
    let mut out = String::new();
    push_share(&mut out, n);
    assert(out@ =~= share_digits(n as nat));
    out
}

/// The number of a share code: the time in its upper half, a counter in its
/// lower half, each as far as it fits.
pub open spec fn share_value(secs: u64, counter: u64) -> u64 {
    ((secs % 0x1_0000_0000) * 0x1_0000_0000 + counter % 0x1_0000_0000) as u64
}

/// The share code for a time and a counter.
pub fn share_code_at(secs: u64, counter: u64) -> (r: String)
    ensures
        r@ == share_digits(share_value(secs, counter) as nat),
{
    let value: u64 = (secs % 0x1_0000_0000) * 0x1_0000_0000 + counter % 0x1_0000_0000;
    encode_u64(value)
}

/// The counter after a share code, which starts anew at the end.
pub open spec fn next_count(counter: u64) -> u64 {
    if counter == u64::MAX {
        0
    } else {
        (counter + 1) as u64
    }
}

/// A share code that has not been given before: from the present time and a
/// counter of the codes given.
pub fn generate_share_code(counter: &mut u64) -> (r: String)
    ensures
        *final(counter) == next_count(*old(counter)),
        exists|secs: u64| r@ == share_digits(#[trigger] share_value(secs, *old(counter)) as nat),
{
    let secs = clock::now_secs();
    let code = share_code_at(secs, *counter);
    *counter = if *counter == u64::MAX {
        0
    } else {
        *counter + 1
    };
    code
}

// ---------------------------------------------------------------------------
// Requests
// ---------------------------------------------------------------------------

/// The address of the server, without the slashes at its end.
pub fn cloud_endpoint(config: &CloudConfig) -> (r: String)
    ensures
        r@ == text::without_trailing(config.endpoint@, '/'),
{
    let chars = text::chars_of(config.endpoint.as_str());
    let trimmed = text::trim_end_matches(chars.as_slice(), '/');
    text::string_of(trimmed.as_slice())
}

/// The address of the list of profiles, or of those with some tags.
pub open spec fn list_url(endpoint: Seq<char>, tags: Option<Seq<char>>) -> Seq<char> {
    let base = text::without_trailing(endpoint, '/') + "/profiles"@;
    match tags {
        Some(t) => if t.len() > 0 {
            base + "?tags="@ + t
        } else {
            base
        },
        None => base,
    }
}

/// The address of a profile, by its identifier or its share code.
pub open spec fn profile_url(endpoint: Seq<char>, id: Seq<char>) -> Seq<char> {
    text::without_trailing(endpoint, '/') + "/profiles/"@ + id
}

/// What becomes of a request to an address: it is sent, or it is refused
/// because sharing is off or the address is not accepted.
pub open spec fn request_for(enabled: bool, url: Seq<char>) -> Result<Seq<char>, Seq<char>> {
    if !enabled {
        Err("cloud sharing is disabled"@)
    } else {
        match endpoint_fault(url) {
            Some(e) => Err(e),
            None => Ok(url),
        }
    }
}

/// A request that is to be sent, or why it is not, against what it should be.
pub open spec fn is_request(r: Result<String, String>, want: Result<Seq<char>, Seq<char>>) -> bool {
    match r {
        Ok(url) => want == Ok::<Seq<char>, Seq<char>>(url@),
        Err(e) => want == Err::<Seq<char>, Seq<char>>(e@),
    }
}

fn checked_url(url: String) -> (r: Result<String, String>)
    ensures
        is_request(r, request_for(true, url@)),
{
    match validate_cloud_endpoint(url.as_str()) {
        Ok(()) => Ok(url),
        Err(e) => Err(e),
    }
}

/// The request for the list of profiles, or for those with some tags.
pub fn list_community_profiles(config: &CloudConfig, tags: &Option<String>) -> (r: Result<
    String,
    String,
>)
    ensures
        is_request(
            r,
            request_for(
                config.enabled,
                list_url(
                    config.endpoint@,
                    match tags {
                        Some(t) => Some(t@),
                        None => None,
                    },
                ),
            ),
        ),
{
    if !config.enabled {
        return Err("cloud sharing is disabled".to_string());
    }
    let mut url = cloud_endpoint(config);
    url.append("/profiles");
    match tags {
        Some(t) => {
            if text::chars_of(t.as_str()).len() > 0 {
                url.append("?tags=");
                url.append(t.as_str());
            }
        },
        None => {},
    }
    checked_url(url)
}

/// The request for a profile by its identifier.
pub fn download_profile(config: &CloudConfig, id: &str) -> (r: Result<String, String>)
    ensures
        is_request(r, request_for(config.enabled, profile_url(config.endpoint@, id@))),
{
    if !config.enabled {
        return Err("cloud sharing is disabled".to_string());
    }
    let base = cloud_endpoint(config);
    checked_url(enclose(base.as_str(), "/profiles/", id))
}

/// The request for a profile by its share code.
pub fn get_profile_by_code(config: &CloudConfig, code: &str) -> (r: Result<String, String>)
    ensures
        is_request(r, request_for(config.enabled, profile_url(config.endpoint@, code@))),
{
    download_profile(config, code)
}

/// The request that a profile is uploaded with.
pub fn upload_profile(config: &CloudConfig) -> (r: Result<String, String>)
    ensures
        is_request(r, request_for(config.enabled, list_url(config.endpoint@, None))),
{
    list_community_profiles(config, &None)
}

// ---------------------------------------------------------------------------
// The answer to an upload
// ---------------------------------------------------------------------------

/// The text that a JSON document is, where it is one, as
/// `serde_json::from_str::<String>` reads it.
pub uninterp spec fn json_text(document: Seq<char>) -> Option<Seq<char>>;

/// The text under a key of a JSON document, where the document has a text
/// there, as `serde_json::from_str::<Value>` reads it.
pub uninterp spec fn json_field(document: Seq<char>, key: Seq<char>) -> Option<Seq<char>>;

/// `serde_json::from_str::<String>`: the text that a JSON document is; none
/// where it is not JSON or not a text. It depends on the document alone.
#[verifier::external_body]
fn read_json_text(document: &str) -> (r: Option<String>)
    ensures
        r.deep_view() == json_text(document@),
{
    serde_json::from_str::<String>(document).ok()
}

/// `serde_json::from_str::<Value>` and `Value::get`: the text under a key of a
/// JSON document; none where the document is not JSON, has no such key, or has
/// no text there. It depends on the document and the key alone.
#[verifier::external_body]
fn read_json_field(document: &str, key: &str) -> (r: Option<String>)
    ensures
        r.deep_view() == json_field(document@, key@),
{
    let value = serde_json::from_str::<serde_json::Value>(document).ok()?;
    value.get(key).and_then(|v| v.as_str()).map(|s| s.to_string())
}

/// The code in the answer to an upload: the answer itself where it is a text
/// that is not empty, or else its share code, or else its identifier.
pub open spec fn answered_code(
    whole: Option<Seq<char>>,
    share_code: Option<Seq<char>>,
    id: Option<Seq<char>>,
) -> Option<Seq<char>> {
    match whole {
        Some(s) if s.len() > 0 => Some(s),
        _ => match share_code {
            Some(c) => Some(c),
            None => id,
        },
    }
}

/// The code in the answer to an upload, from what was read of it.
pub fn choose_code(whole: Option<String>, share_code: Option<String>, id: Option<String>) -> (r:
    Option<String>)
    ensures
        r.deep_view() == answered_code(
            whole.deep_view(),
            share_code.deep_view(),
            id.deep_view(),
        ),
{
    match whole {
        Some(s) => {
            if text::chars_of(s.as_str()).len() > 0 {
                return Some(s);
            }
        },
        None => {},
    }
    match share_code {
        Some(c) => Some(c),
        None => id,
    }
}

/// The share code after an upload: the one in the answer, or a new one.
pub fn upload_code(response: &str, counter: &mut u64) -> (r: String)
    ensures
        match answered_code(
            json_text(response@),
            json_field(response@, "share_code"@),
            json_field(response@, "id"@),
        ) {
            Some(code) => r@ == code && *final(counter) == *old(counter),
            None => *final(counter) == next_count(*old(counter)) && exists|secs: u64|
                r@ == share_digits(#[trigger] share_value(secs, *old(counter)) as nat),
        },
{
    let whole = read_json_text(response);
    let share_code = read_json_field(response, "share_code");
    let id = read_json_field(response, "id");
    match choose_code(whole, share_code, id) {
        Some(code) => code,
        None => generate_share_code(counter),
    }
}

// ---------------------------------------------------------------------------
// Where things are kept
// ---------------------------------------------------------------------------

/// The path of the configuration file.
pub fn cloud_config_path() -> (r: RawPath)
    ensures
        exists|base: Option<Seq<u8>>|
            r@ == config::joined(#[trigger] config::app_dir(base), encode_utf8("cloud.json"@)),
{
    let dir = config::config_store_base_dir();
    join_path(&dir, "cloud.json")
}

/// The directory that profiles are kept in after they were downloaded.
pub fn community_cache_dir() -> (r: RawPath)
    ensures
        exists|base: Option<Seq<u8>>|
            r@ == config::joined(
                #[trigger] config::app_dir(base),
                encode_utf8("community_cache"@),
            ),
{
    let dir = config::config_store_base_dir();
    join_path(&dir, "community_cache")
}

/// The name of the file that a profile is kept in.
pub fn cache_file_name(id: &str) -> (r: String)
    ensures
        r@ == id@ + ".json"@,
{
    let mut out = id.to_owned();
    out.append(".json");
    out
}

// ---------------------------------------------------------------------------
// Canned answers
// ---------------------------------------------------------------------------

/// Whether an address is that of this machine.
pub open spec fn is_local(url: Seq<char>) -> bool {
    text::has_infix(url, "localhost"@) || text::has_infix(url, "127.0.0.1"@)
}

/// Whether an address is that of this machine.
pub fn is_localhost(url: &str) -> (r: bool)
    ensures
        r == is_local(url@),
{
    let chars = text::chars_of(url);
    let name = text::chars_of("localhost");
    let number = text::chars_of("127.0.0.1");
    text::contains(chars.as_slice(), name.as_slice()) || text::contains(
        chars.as_slice(),
        number.as_slice(),
    )
}

/// An answer that needs no server.
#[derive(Clone, Copy, Debug, PartialEq, Eq, Structural)]
pub enum CannedAnswer {
    /// The list of profiles.
    Profiles,
    /// One profile.
    Profile,
    /// A share code.
    ShareCode,
}

/// The answer that a request gets without a server. What follows a question
/// mark does not matter.
pub open spec fn canned_answer(url: Seq<char>, method: Seq<char>) -> Option<CannedAnswer> {
    let path = url.take(text::before(url, '?'));
    if method == "GET"@ {
        if text::has_suffix(path, "/profiles"@) {
            Some(CannedAnswer::Profiles)
        } else if text::has_infix(path, "/profiles/"@) {
            Some(CannedAnswer::Profile)
        } else {
            None
        }
    } else if method == "POST"@ && text::has_suffix(path, "/profiles"@) {
        Some(CannedAnswer::ShareCode)
    } else {
        None
    }
}

/// The text of an answer that needs no server.
pub open spec fn canned_text(a: CannedAnswer) -> Seq<char> {
    match a {
        CannedAnswer::Profiles => "[\n                {\n                    \"id\": \"p1\",\n                    \"name\": \"Aim\",\n                    \"author\": \"alice\",\n                    \"description\": \"Fast aim profile\",\n                    \"download_url\": \"http://localhost:9999/profiles/p1\",\n                    \"tags\": [\"fps\"],\n                    \"downloads\": 42,\n                    \"rating\": 4.5,\n                    \"created_at\": \"2024-01-01\"\n                },\n                {\n                    \"id\": \"p2\",\n                    \"name\": \"RPG\",\n                    \"author\": \"bob\",\n                    \"description\": \"RPG profile\",\n                    \"download_url\": \"http://localhost:9999/profiles/p2\",\n                    \"tags\": [\"rpg\"],\n                    \"downloads\": 3,\n                    \"rating\": 3.0,\n                    \"created_at\": \"2024-01-02\"\n                }\n            ]"@,
        CannedAnswer::Profile => "{\n                \"id\": \"p1\",\n                \"name\": \"Aim\",\n                \"enabled\": true,\n                \"auto_rules\": [],\n                \"created_at\": 1,\n                \"updated_at\": 1\n            }"@,
        CannedAnswer::ShareCode => "\"share-mock-abc123\""@,
    }
}

impl CannedAnswer {
    /// The text of the answer.
    pub fn body(self) -> (r: String)
        ensures
            r@ == canned_text(self),
    {
        match self {
            CannedAnswer::Profiles => "[\n                {\n                    \"id\": \"p1\",\n                    \"name\": \"Aim\",\n                    \"author\": \"alice\",\n                    \"description\": \"Fast aim profile\",\n                    \"download_url\": \"http://localhost:9999/profiles/p1\",\n                    \"tags\": [\"fps\"],\n                    \"downloads\": 42,\n                    \"rating\": 4.5,\n                    \"created_at\": \"2024-01-01\"\n                },\n                {\n                    \"id\": \"p2\",\n                    \"name\": \"RPG\",\n                    \"author\": \"bob\",\n                    \"description\": \"RPG profile\",\n                    \"download_url\": \"http://localhost:9999/profiles/p2\",\n                    \"tags\": [\"rpg\"],\n                    \"downloads\": 3,\n                    \"rating\": 3.0,\n                    \"created_at\": \"2024-01-02\"\n                }\n            ]".to_string(),
            CannedAnswer::Profile => "{\n                \"id\": \"p1\",\n                \"name\": \"Aim\",\n                \"enabled\": true,\n                \"auto_rules\": [],\n                \"created_at\": 1,\n                \"updated_at\": 1\n            }".to_string(),
            CannedAnswer::ShareCode => "\"share-mock-abc123\"".to_string(),
        }
    }
}

/// The answer that a request gets without a server, or the message for one
/// that gets none.
pub fn mock_network_response(url: &str, method: &str) -> (r: Result<String, String>)
    ensures
        match r {
            Ok(body) => canned_answer(url@, method@) matches Some(a) && body@ == canned_text(a),
            Err(e) => canned_answer(url@, method@) is None && e@ == "mock: unexpected "@ + method@
                + " "@ + url@,
        },
{
    let chars = text::chars_of(url);
    let end: usize = text::position(chars.as_slice(), '?');
    let path = text::slice_chars(chars.as_slice(), 0, end);
    assert(path@ =~= url@.take(end as int));
    let list = text::chars_of("/profiles");
    let one = text::chars_of("/profiles/");
    if text::same(method, "GET") {
        if text::ends_with(path.as_slice(), list.as_slice()) {
            return Ok(CannedAnswer::Profiles.body());
        }
        if text::contains(path.as_slice(), one.as_slice()) {
            return Ok(CannedAnswer::Profile.body());
        }
    } else if text::same(method, "POST") && text::ends_with(path.as_slice(), list.as_slice()) {
        return Ok(CannedAnswer::ShareCode.body());
    }
    let mut e = enclose("mock: unexpected ", method, " ");
    e.append(url);
    Err(e)
}

// ---------------------------------------------------------------------------
// Laws
// ---------------------------------------------------------------------------

proof fn lemma_share_char_is_injective(a: int, b: int)
    requires
        0 <= a < 64,
        0 <= b < 64,
        share_char(a) == share_char(b),
    ensures
        a == b,
{
}

/// Two numbers with the same share code are the same.
pub proof fn law_share_digits_are_injective(a: nat, b: nat)
    requires
        share_digits(a) == share_digits(b),
    ensures
        a == b,
    decreases a,
{
    let x = share_digits(a);
    let y = share_digits(b);
    lemma_share_len(a);
    lemma_share_len(b);
    assert(x.last() == share_char((a % 64) as int));
    assert(y.last() == share_char((b % 64) as int));
    lemma_share_char_is_injective((a % 64) as int, (b % 64) as int);
    if a >= 64 && b >= 64 {
        assert(x.drop_last() =~= share_digits(a / 64));
        assert(y.drop_last() =~= share_digits(b / 64));
        law_share_digits_are_injective(a / 64, b / 64);
    } else if a >= 64 {
        lemma_share_len(a / 64);
        assert(x.len() > 1 && y.len() == 1);
    } else if b >= 64 {
        lemma_share_len(b / 64);
        assert(x.len() == 1 && y.len() > 1);
    }
}

proof fn lemma_share_len(n: nat)
    ensures
        share_digits(n).len() >= 1,
    decreases n,
{
    if n >= 64 {
        lemma_share_len(n / 64);
    }
}

/// A share code is not empty and needs no escaping in an address.
pub proof fn law_share_code_is_url_safe(n: nat)
    ensures
        share_digits(n).len() >= 1,
        forall|i: int| 0 <= i < share_digits(n).len() ==> is_share_char(#[trigger] share_digits(n)[i]),
    decreases n,
{
    if n >= 64 {
        law_share_code_is_url_safe(n / 64);
    }
}

/// Of 4294967296 share codes in a row, whenever they are given, no two are the
/// same.
pub proof fn law_share_codes_are_unique(
    first_secs: u64,
    first: u64,
    later_secs: u64,
    later: u64,
)
    requires
        first < later,
        later - first < 0x1_0000_0000,
    ensures
        share_digits(share_value(first_secs, first) as nat) != share_digits(
            share_value(later_secs, later) as nat,
        ),
{
    let a = share_value(first_secs, first);
    let b = share_value(later_secs, later);
    if share_digits(a as nat) == share_digits(b as nat) {
        law_share_digits_are_injective(a as nat, b as nat);
        assert(a % 0x1_0000_0000 == first % 0x1_0000_0000);
        assert(b % 0x1_0000_0000 == later % 0x1_0000_0000);
    }
}

/// Nothing is asked of any server while sharing is off.
pub proof fn law_disabled_asks_nothing(url: Seq<char>)
    ensures
        request_for(false, url) is Err,
{
}

/// Whatever is asked is asked over an encrypted connection, and not of a host
/// that stands for none.
pub proof fn law_requests_are_encrypted(
    enabled: bool,
    endpoint: Seq<char>,
    tags: Option<Seq<char>>,
    id: Seq<char>,
)
    ensures
        ({
            let list = list_url(endpoint, tags);
            let one = profile_url(endpoint, id);
            let secure = |url: Seq<char>|
                text::has_prefix(text::ascii_lowered(url), "https://"@) && host_of(url).len() > 0
                    && !is_placeholder(host_of(url));
            &&& request_for(enabled, list) is Ok ==> secure(list)
            &&& request_for(enabled, one) is Ok ==> secure(one)
        }),
{
    reveal_strlit("/profiles");
    reveal_strlit("/profiles/");
    assert(list_url(endpoint, tags).len() > 0);
    assert(profile_url(endpoint, id).len() > 0);
}

/// No character of a text ends the part of an address that names the server,
/// or sets a user or a port apart.
pub open spec fn is_plain_host(h: Seq<char>) -> bool {
    forall|i: int|
        0 <= i < h.len() ==> {
            let c = #[trigger] h[i];
            c != '/' && c != '\\' && c != '?' && c != '#' && c != '@' && c != ':'
        }
}

proof fn lemma_authority(named: Seq<char>, tail: Seq<char>)
    requires
        forall|i: int| 0 <= i < named.len() ==> !ends_authority(#[trigger] named[i]),
        tail.len() > 0 ==> ends_authority(tail[0]),
    ensures
        authority(named + tail) == named,
    decreases named.len(),
{
    let all = named + tail;
    if named.len() == 0 {
        assert(all =~= tail);
        assert(authority(all) =~= named);
    } else {
        let rest = named.skip(1);
        assert(all[0] == named[0]);
        assert(all.skip(1) =~= rest + tail);
        assert forall|i: int| 0 <= i < rest.len() implies !ends_authority(#[trigger] rest[i]) by {
            assert(rest[i] == named[i + 1]);
        }
        lemma_authority(rest, tail);
        assert(seq![named[0]] + rest =~= named);
    }
}

/// The host of an address is what stands between `https://`, or a user and an
/// at sign, and a port, a path, a query or a fragment.
pub proof fn law_host_of_an_address(
    scheme: Seq<char>,
    user: Seq<char>,
    host: Seq<char>,
    port: Seq<char>,
    tail: Seq<char>,
)
    requires
        scheme.len() == 8,
        is_plain_host(host),
        is_plain_host(port),
        forall|i: int|
            0 <= i < user.len() ==> {
                let c = #[trigger] user[i];
                c != '/' && c != '\\' && c != '?' && c != '#'
            },
        tail.len() > 0 ==> tail[0] == '/' || tail[0] == '\\' || tail[0] == '?' || tail[0] == '#',
    ensures
        host_of(scheme + (host + tail)) == host,
        host_of(scheme + ((host.push(':') + port) + tail)) == host,
        host_of(scheme + ((user.push('@') + host) + tail)) == host,
        host_of(scheme + ((user.push('@') + (host.push(':') + port)) + tail)) == host,
{
    let ported = host.push(':') + port;
    let n = host.len() as int;
    let from = user.len() as int + 1;
    let of_user = user.push('@') + host;
    let of_both = user.push('@') + ported;
    assert(host.subrange(0, n) =~= host);
    lemma_host(scheme, host, host, tail, 0);
    assert(ported.subrange(0, n) =~= host);
    lemma_host(scheme, ported, host, tail, 0);
    assert(of_user.subrange(from, from + n) =~= host);
    lemma_host(scheme, of_user, host, tail, from);
    assert(of_both.subrange(from, from + n) =~= host);
    lemma_host(scheme, of_both, host, tail, from);
}

proof fn lemma_host(
    scheme: Seq<char>,
    named: Seq<char>,
    host: Seq<char>,
    tail: Seq<char>,
    from: int,
)
    requires
        scheme.len() == 8,
        is_plain_host(host),
        0 <= from,
        from + host.len() <= named.len(),
        named.subrange(from, from + host.len()) == host,
        from + host.len() < named.len() ==> named[from + host.len()] == ':',
        from > 0 ==> named[from - 1] == '@',
        forall|i: int| 0 <= i < named.len() ==> !ends_authority(#[trigger] named[i]),
        forall|i: int| from <= i < named.len() ==> #[trigger] named[i] != '@',
        tail.len() > 0 ==> ends_authority(tail[0]),
    ensures
        host_of(scheme + (named + tail)) == host,
{
    let all = scheme + (named + tail);
    assert(all.skip(8) =~= named + tail);
    lemma_authority(named, tail);
    lemma_after_user(named, from);
    let shown = named.skip(from);
    assert forall|i: int| 0 <= i < host.len() implies shown[i] == host[i] && shown[i] != ':' by {
        assert(named.subrange(from, from + host.len())[i] == host[i]);
    }
    text::lemma_before_is(shown, ':', host.len() as int);
    assert(shown.take(host.len() as int) =~= host);
}

/// An address is accepted if it is empty, or if it is encrypted and names a
/// host that is no placeholder.
pub proof fn law_accepted_addresses(endpoint: Seq<char>)
    ensures
        ({
            let lower = text::ascii_lowered(endpoint);
            let secure = text::has_prefix(lower, "https://"@);
            let host = host_of(endpoint);
            let fault = endpoint_fault(endpoint);
            &&& (fault is None) == (endpoint.len() == 0 || secure && host.len() > 0
                && !is_placeholder(host))
            &&& endpoint.len() > 0 && text::has_prefix(lower, "http://"@) ==> fault == Some(
                "cloud endpoint must use https://, http:// is not allowed"@,
            )
            &&& endpoint.len() > 0 && !secure && !text::has_prefix(lower, "http://"@) ==> fault
                == Some("cloud endpoint must use https://"@)
            &&& secure && host.len() == 0 ==> fault == Some("cloud endpoint must have a host"@)
            &&& secure && host.len() > 0 && is_placeholder(host) ==> fault == Some(
                "cloud endpoint cannot reference .example or example.com hosts"@,
            )
        }),
{
    reveal_strlit("https://");
    reveal_strlit("http://");
    let lower = text::ascii_lowered(endpoint);
    if text::has_prefix(lower, "https://"@) && text::has_prefix(lower, "http://"@) {
        assert(lower.subrange(0, 8)[4] == 's');
        assert(lower.subrange(0, 7)[4] == ':');
    }
    if text::has_prefix(lower, "https://"@) {
        assert(endpoint.len() >= 8);
    }
}

proof fn lemma_lowered_sum(a: Seq<char>, b: Seq<char>)
    ensures
        text::ascii_lowered(a + b) == text::ascii_lowered(a) + text::ascii_lowered(b),
{
    assert(text::ascii_lowered(a + b) =~= text::ascii_lowered(a) + text::ascii_lowered(b));
}

/// The hosts that stand for none: those with `.example` in them, and those
/// that end in `example.com`, with a dot behind it or not, in capital or small
/// letters; and no others.
pub proof fn law_placeholder_hosts(name: Seq<char>, word: Seq<char>, rest: Seq<char>)
    ensures
        text::ascii_lowered(word) == ".example"@ ==> is_placeholder(name + word + rest),
        text::ascii_lowered(word) == "example.com"@ ==> is_placeholder(name + word),
        text::ascii_lowered(word) == "example.com."@ ==> is_placeholder(name + word),
        is_placeholder(name) ==> text::has_infix(text::ascii_lowered(name), ".example"@)
            || text::has_suffix(text::ascii_lowered(name), "example.com"@) || text::has_suffix(
            text::ascii_lowered(name),
            "example.com."@,
        ),
{
    let n = text::ascii_lowered(name);
    let w = text::ascii_lowered(word);
    let r = text::ascii_lowered(rest);
    lemma_lowered_sum(name, word);
    lemma_lowered_sum(name + word, rest);
    text::law_parts_of_a_text(n, w, r);
}

/// The digits of share codes: capital letters, small letters, numerals, the
/// hyphen and the underscore, in this order.
pub proof fn law_digits_of_share_codes(d: int)
    requires
        0 <= d < 64,
    ensures
        d < 26 ==> share_char(d) as u32 == 'A' as u32 + d,
        26 <= d < 52 ==> share_char(d) as u32 == 'a' as u32 + (d - 26),
        52 <= d < 62 ==> share_char(d) as u32 == '0' as u32 + (d - 52),
        d == 62 ==> share_char(d) == '-',
        d == 63 ==> share_char(d) == '_',
{
}

/// A share code counts by sixty-fours, from the left to the right.
pub proof fn law_share_codes_count_by_64(n: nat, d: int)
    requires
        0 <= d < 64,
        n > 0,
    ensures
        share_digits((64 * n + d) as nat) == share_digits(n).push(share_char(d)),
        share_digits(d as nat) == seq![share_char(d)],
{
    assert((64 * n + d) / 64 == n && (64 * n + d) % 64 == d);
}

/// A share code holds the low half of the time above the low half of the
/// counter, and the counter goes up by one with each.
pub proof fn law_what_a_share_code_holds(secs: u64, counter: u64)
    ensures
        share_value(secs, counter) / 0x1_0000_0000 == secs % 0x1_0000_0000,
        share_value(secs, counter) % 0x1_0000_0000 == counter % 0x1_0000_0000,
        counter < u64::MAX ==> next_count(counter) == counter + 1,
        counter == u64::MAX ==> next_count(counter) == 0,
{
}

/// The addresses that are asked: the profiles below the endpoint, with the
/// tags behind a question mark where there are some, or one profile by its
/// name. Slashes at the end of the endpoint do not matter.
pub proof fn law_addresses_that_are_asked(endpoint: Seq<char>, last: char, tags: Seq<char>, id: Seq<
    char,
>)
    requires
        last != '/',
    ensures
        ({
            let e = endpoint.push(last);
            let t = Some(tags);
            &&& list_url(e, None) == e + "/profiles"@
            &&& list_url(e, Some(Seq::empty())) == e + "/profiles"@
            &&& tags.len() > 0 ==> list_url(e, t) == e + "/profiles"@ + "?tags="@ + tags
            &&& profile_url(e, id) == e + "/profiles/"@ + id
            &&& list_url(endpoint.push('/'), t) == list_url(endpoint, t)
            &&& profile_url(endpoint.push('/'), id) == profile_url(endpoint, id)
        }),
{
    text::law_trailing_characters(endpoint, '/', last);
}

/// A request is sent as it is where sharing is on and the address is accepted,
/// and is refused with the reason otherwise.
pub proof fn law_what_becomes_of_a_request(url: Seq<char>)
    ensures
        endpoint_fault(url) is None ==> request_for(true, url) == Ok::<Seq<char>, Seq<char>>(url),
        endpoint_fault(url) matches Some(e) ==> request_for(true, url) == Err::<
            Seq<char>,
            Seq<char>,
        >(e),
        request_for(false, url) == Err::<Seq<char>, Seq<char>>("cloud sharing is disabled"@),
{
}

/// The code of an upload: the answer itself where it is a text with something
/// in it, and else its share code before its identifier.
pub proof fn law_code_of_an_upload(
    whole: Seq<char>,
    share_code: Option<Seq<char>>,
    id: Option<Seq<char>>,
)
    ensures
        whole.len() > 0 ==> answered_code(Some(whole), share_code, id) == Some(whole),
        whole.len() == 0 ==> answered_code(Some(whole), share_code, id) == answered_code(
            None,
            share_code,
            id,
        ),
        share_code is Some ==> answered_code(None, share_code, id) == share_code,
        share_code is None ==> answered_code(None, share_code, id) == id,
{
}

/// Without a server, the profiles are listed and uploaded at their address,
/// one of them is read below it, and nothing else is answered.
pub proof fn law_canned_answers(base: Seq<char>, id: Seq<char>, method: Seq<char>)
    requires
        !base.contains('?'),
        !id.contains('?'),
        !text::has_suffix(base + "/profiles/"@ + id, "/profiles"@),
    ensures
        ({
            let list = base + "/profiles"@;
            let one = base + "/profiles/"@ + id;
            &&& canned_answer(list, "GET"@) == Some(CannedAnswer::Profiles)
            &&& canned_answer(list, "POST"@) == Some(CannedAnswer::ShareCode)
            &&& canned_answer(one, "GET"@) == Some(CannedAnswer::Profile)
            &&& method != "GET"@ && method != "POST"@ ==> canned_answer(list, method) is None
        }),
{
    reveal_strlit("/profiles");
    reveal_strlit("/profiles/");
    reveal_strlit("GET");
    reveal_strlit("POST");
    let list = base + "/profiles"@;
    let one = base + "/profiles/"@ + id;
    assert("GET"@.len() == 3 && "POST"@.len() == 4);
    assert(!list.contains('?')) by {
        if list.contains('?') {
            let i = choose|i: int| 0 <= i < list.len() && list[i] == '?';
            if i < base.len() {
                assert(base[i] == '?');
            } else {
                assert("/profiles"@[i - base.len()] == '?');
            }
        }
    }
    assert(!one.contains('?')) by {
        if one.contains('?') {
            let i = choose|i: int| 0 <= i < one.len() && one[i] == '?';
            if i < base.len() {
                assert(base[i] == '?');
            } else if i < base.len() + 10 {
                assert("/profiles/"@[i - base.len()] == '?');
            } else {
                assert(id[i - base.len() - 10] == '?');
            }
        }
    }
    text::law_before_a_character(list, '?', Seq::empty());
    text::law_before_a_character(one, '?', Seq::empty());
    assert(list.take(list.len() as int) =~= list);
    assert(one.take(one.len() as int) =~= one);
    text::law_parts_of_a_text(base, "/profiles"@, Seq::empty());
    text::law_parts_of_a_text(base, "/profiles/"@, id);
}

/// An address is that of this machine by its name or its number.
pub proof fn law_addresses_of_this_machine(before: Seq<char>, after: Seq<char>)
    ensures
        is_local(before + "localhost"@ + after),
        is_local(before + "127.0.0.1"@ + after),
        is_local(before) ==> text::has_infix(before, "localhost"@) || text::has_infix(
            before,
            "127.0.0.1"@,
        ),
{
    text::law_parts_of_a_text(before, "localhost"@, after);
    text::law_parts_of_a_text(before, "127.0.0.1"@, after);
}

/// A check that passes has found no fault, and one that fails says which.
pub proof fn law_what_a_check_says(e: String, fault: Option<Seq<char>>, want: Result<
    Seq<char>,
    Seq<char>,
>)
    ensures
        refused_with(Ok(()), fault) == (fault is None),
        refused_with(Err(e), fault) == (fault == Some(e@)),
        is_request(Ok(e), want) == (want is Ok && want->Ok_0 == e@),
        is_request(Err(e), want) == (want is Err && want->Err_0 == e@),
{
}

} // verus!
