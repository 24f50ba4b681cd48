use oxidelink::cloud;
use oxidelink::cloud::{
    cache_file_name, choose_code, cloud_config_path, cloud_endpoint, community_cache_dir,
    encode_u64, generate_share_code, is_localhost, set_cloud_config, share_code_at, upload_code,
    validate_cloud_endpoint, CannedAnswer, CloudConfig,
};

const SHARE_CODE_ALPHABET: &[u8] =
    b"ABCDEFGHIJKLMNOPQRSTUVWXYZabcdefghijklmnopqrstuvwxyz0123456789-_";

#[derive(Debug)]
struct CloudProfile {
    id: String,
    name: String,
    author: String,
    tags: Vec<String>,
    downloads: u64,
    rating: f64,
}

#[derive(Debug, Default)]
struct Profile {
    id: String,
    name: String,
    enabled: bool,
}

fn text(v: &serde_json::Value, key: &str) -> String {
    v[key].as_str().unwrap().to_string()
}

fn read_profile(body: &str) -> Profile {
    let v: serde_json::Value = serde_json::from_str(body).unwrap();
    Profile {
        id: text(&v, "id"),
        name: text(&v, "name"),
        enabled: v["enabled"].as_bool().unwrap(),
    }
}

fn mock_network_response(url: &str, method: &str, _body: Option<&str>) -> Result<String, String> {
    cloud::mock_network_response(url, method)
}

fn list_community_profiles_with_config(
    config: &CloudConfig,
    tags: Option<String>,
) -> Result<Vec<CloudProfile>, String> {
    let url = cloud::list_community_profiles(config, &tags)?;
    assert!(is_localhost(&url));
    let body = mock_network_response(&url, "GET", None)?;
    let list: serde_json::Value = serde_json::from_str(&body).unwrap();
    Ok(list
        .as_array()
        .unwrap()
        .iter()
        .map(|v| CloudProfile {
            id: text(v, "id"),
            name: text(v, "name"),
            author: text(v, "author"),
            tags: v["tags"]
                .as_array()
                .unwrap()
                .iter()
                .map(|t| t.as_str().unwrap().to_string())
                .collect(),
            downloads: v["downloads"].as_u64().unwrap(),
            rating: v["rating"].as_f64().unwrap(),
        })
        .collect())
}

fn download_profile_with_config(config: &CloudConfig, id: String) -> Result<Profile, String> {
    let url = cloud::download_profile(config, &id)?;
    assert!(is_localhost(&url));
    Ok(read_profile(&mock_network_response(&url, "GET", None)?))
}

fn get_profile_by_code_with_config(config: &CloudConfig, code: String) -> Result<Profile, String> {
    let url = cloud::get_profile_by_code(config, &code)?;
    assert!(is_localhost(&url));
    Ok(read_profile(&mock_network_response(&url, "GET", None)?))
}

fn upload_profile_with_config(config: &CloudConfig, _profile: Profile) -> Result<String, String> {
    let url = cloud::upload_profile(config)?;
    assert!(is_localhost(&url));
    let mut counter = 0u64;
    Ok(upload_code(&mock_network_response(&url, "POST", Some("{}"))?, &mut counter))
}

#[test]
fn cloud_endpoint_validation_requires_non_placeholder_https() {
    assert!(validate_cloud_endpoint("https://cloud.oxidelink.dev/api").is_ok());
    assert!(validate_cloud_endpoint("http://cloud.oxidelink.dev").is_err());
    assert!(validate_cloud_endpoint("https://api.oxidelink.example").is_err());
    assert!(validate_cloud_endpoint("https://example.com/api").is_err());
}

#[test]
fn share_code_is_unique_and_url_safe() {
    let allowed: std::collections::HashSet<char> =
        SHARE_CODE_ALPHABET.iter().map(|&b| b as char).collect();
    let mut seen = std::collections::HashSet::new();
    let mut counter = 0u64;

    for _ in 0..200 {
        let code = generate_share_code(&mut counter);
        assert!(
            code.chars().all(|c| allowed.contains(&c)),
            "code '{}' contains an invalid character",
            code
        );
        assert!(seen.insert(code.clone()), "duplicate share code: {}", code);
    }
}

#[test]
fn network_calls_use_localhost_mock() {
    let mut config = CloudConfig::default();
    config.enabled = true;
    config.endpoint = "https://localhost:9999".into();

    let profiles = list_community_profiles_with_config(&config, Some("fps".into())).unwrap();
    assert_eq!(profiles.len(), 2);
    assert_eq!(profiles[0].id, "p1");

    let profile = download_profile_with_config(&config, "p1".into()).unwrap();
    assert_eq!(profile.id, "p1");

    let by_code = get_profile_by_code_with_config(&config, "share-mock".into()).unwrap();
    assert_eq!(by_code.id, "p1");

    let code = upload_profile_with_config(&config, profile).unwrap();
    assert_eq!(code, "share-mock-abc123");
}

#[test]
fn validate_cloud_endpoint_accepts_empty_and_localhost() {
    assert!(validate_cloud_endpoint("").is_ok());
    assert!(validate_cloud_endpoint("https://localhost:9999").is_ok());
    assert!(validate_cloud_endpoint("https://127.0.0.1:8080").is_ok());
}

#[test]
fn validate_cloud_endpoint_rejects_http_and_placeholders() {
    assert!(validate_cloud_endpoint("http://localhost:9999").is_err());
    assert!(validate_cloud_endpoint("https://api.oxidelink.example").is_err());
    assert!(validate_cloud_endpoint("https://example.com").is_err());
    assert!(validate_cloud_endpoint("ftp://host").is_err());
}

#[test]
fn cloud_config_clone_preserves_equality() {
    let cfg = CloudConfig {
        enabled: true,
        endpoint: "https://cloud.oxidelink.dev".into(),
        api_key: Some("key".into()),
        username: "user".into(),
        accepted_terms: true,
    };
    assert_eq!(cfg, cfg.clone());
}

#[test]
fn validate_cloud_endpoint_https_with_path_and_port() {
    assert!(validate_cloud_endpoint("https://cloud.oxidelink.dev:8443/api/v1").is_ok());
    assert!(validate_cloud_endpoint("https://api.oxidelink.dev/v2/profiles").is_ok());
}

#[test]
fn validate_cloud_endpoint_rejects_empty_host() {
    // "https://" with no host should fail.
    assert!(validate_cloud_endpoint("https://").is_err());
    assert!(validate_cloud_endpoint("https:///path").is_err());
}

#[test]
fn validate_cloud_endpoint_rejects_no_scheme() {
    assert!(validate_cloud_endpoint("cloud.oxidelink.dev").is_err());
    assert!(validate_cloud_endpoint("just-a-host").is_err());
}

#[test]
fn validate_cloud_endpoint_case_insensitive_scheme_check() {
    // Uppercase HTTPS should still be accepted (lowercased before check).
    assert!(validate_cloud_endpoint("HTTPS://cloud.oxidelink.dev").is_ok());
    // Mixed-case HTTP should be rejected.
    assert!(validate_cloud_endpoint("HTTP://cloud.oxidelink.dev").is_err());
}

#[test]
fn validate_cloud_endpoint_rejects_ftp_and_other_schemes() {
    assert!(validate_cloud_endpoint("ftp://cloud.oxidelink.dev").is_err());
    assert!(validate_cloud_endpoint("ws://cloud.oxidelink.dev").is_err());
    assert!(validate_cloud_endpoint("file:///path").is_err());
}

#[test]
fn validate_cloud_endpoint_rejects_example_subdomain() {
    assert!(validate_cloud_endpoint("https://my.example.org").is_err());
    assert!(validate_cloud_endpoint("https://sub.example.com").is_err());
}

#[test]
fn validate_cloud_endpoint_accepts_localhost_variants() {
    assert!(validate_cloud_endpoint("https://localhost").is_ok());
    assert!(validate_cloud_endpoint("https://localhost:3000").is_ok());
    assert!(validate_cloud_endpoint("https://127.0.0.1:8080").is_ok());
}

#[test]
fn encode_u64_zero_returns_first_alphabet_char() {
    let result = encode_u64(0);
    assert_eq!(result, "A");
}

#[test]
fn encode_u64_one_returns_b() {
    // 1 & 0x3F = 1 -> alphabet[1] = 'B'
    let result = encode_u64(1);
    assert_eq!(result, "B");
}

#[test]
fn encode_u64_63_returns_last_char() {
    // 63 & 0x3F = 63 -> alphabet[63] = last char '_'
    let result = encode_u64(63);
    assert_eq!(result, "_");
}

#[test]
fn encode_u64_64_returns_two_chars() {
    // 64 = 1*64 + 0 -> push alphabet[0]='A', then alphabet[1]='B', reversed -> "BA"
    let result = encode_u64(64);
    assert_eq!(result, "BA");
}

#[test]
fn encode_u64_output_only_contains_alphabet_chars() {
    let allowed: std::collections::HashSet<char> =
        SHARE_CODE_ALPHABET.iter().map(|&b| b as char).collect();
    for n in [0u64, 1, 63, 64, 4096, 1_000_000, u64::MAX / 2, u64::MAX] {
        let encoded = encode_u64(n);
        assert!(
            encoded.chars().all(|c| allowed.contains(&c)),
            "encode_u64({}) = '{}' contains invalid char",
            n,
            encoded
        );
    }
}

#[test]
fn generate_share_code_is_non_empty() {
    let mut counter = 0u64;
    let code = generate_share_code(&mut counter);
    assert!(!code.is_empty());
}

#[test]
fn generate_share_code_uses_alphabet_only() {
    let mut counter = 0u64;
    let allowed: std::collections::HashSet<char> =
        SHARE_CODE_ALPHABET.iter().map(|&b| b as char).collect();
    for _ in 0..50 {
        let code = generate_share_code(&mut counter);
        assert!(
            code.chars().all(|c| allowed.contains(&c)),
            "code '{}' contains invalid char",
            code
        );
    }
}

#[test]
fn generate_share_code_consecutive_calls_differ() {
    let mut counter = 0u64;
    let c1 = generate_share_code(&mut counter);
    let c2 = generate_share_code(&mut counter);
    // The counter increments so the encoded value should differ.
    assert_ne!(c1, c2);
}

#[test]
fn cloud_endpoint_trims_single_trailing_slash() {
    let cfg = CloudConfig {
        endpoint: "https://localhost:9999/".into(),
        ..Default::default()
    };
    assert_eq!(cloud_endpoint(&cfg), "https://localhost:9999");
}

#[test]
fn cloud_endpoint_trims_multiple_trailing_slashes() {
    let cfg = CloudConfig {
        endpoint: "https://localhost:9999///".into(),
        ..Default::default()
    };
    assert_eq!(cloud_endpoint(&cfg), "https://localhost:9999");
}

#[test]
fn cloud_endpoint_no_trailing_slash_unchanged() {
    let cfg = CloudConfig {
        endpoint: "https://cloud.oxidelink.dev/api".into(),
        ..Default::default()
    };
    assert_eq!(cloud_endpoint(&cfg), "https://cloud.oxidelink.dev/api");
}

#[test]
fn cloud_endpoint_empty_string_stays_empty() {
    let cfg = CloudConfig::default();
    assert_eq!(cloud_endpoint(&cfg), "");
}

#[test]
fn list_community_profiles_disabled_returns_error() {
    let config = CloudConfig::default(); // enabled = false
    let result = list_community_profiles_with_config(&config, None);
    assert!(result.is_err());
    assert_eq!(result.unwrap_err(), "cloud sharing is disabled");
}

#[test]
fn list_community_profiles_disabled_with_tags_returns_error() {
    let config = CloudConfig::default();
    let result = list_community_profiles_with_config(&config, Some("fps".into()));
    assert!(result.is_err());
}

#[test]
fn download_profile_disabled_returns_error() {
    let config = CloudConfig::default();
    let result = download_profile_with_config(&config, "p1".into());
    assert!(result.is_err());
    assert_eq!(result.unwrap_err(), "cloud sharing is disabled");
}

#[test]
fn upload_profile_disabled_returns_error() {
    let config = CloudConfig::default();
    let profile = Profile::default();
    let result = upload_profile_with_config(&config, profile);
    assert!(result.is_err());
    assert_eq!(result.unwrap_err(), "cloud sharing is disabled");
}

#[test]
fn get_profile_by_code_disabled_returns_error() {
    let config = CloudConfig::default();
    let result = get_profile_by_code_with_config(&config, "code1".into());
    assert!(result.is_err());
    assert_eq!(result.unwrap_err(), "cloud sharing is disabled");
}

#[test]
fn is_localhost_detects_localhost_and_127() {
    assert!(is_localhost("https://localhost:9999/profiles"));
    assert!(is_localhost("https://127.0.0.1:8080/api"));
    assert!(!is_localhost("https://cloud.oxidelink.dev"));
}

#[test]
fn mock_network_response_get_profiles_list() {
    let url = "https://localhost:9999/profiles";
    let result = mock_network_response(url, "GET", None);
    assert!(result.is_ok());
    let body = result.unwrap();
    assert!(body.contains("\"id\": \"p1\""));
    assert!(body.contains("\"id\": \"p2\""));
}

#[test]
fn mock_network_response_get_single_profile() {
    let url = "https://localhost:9999/profiles/p1";
    let result = mock_network_response(url, "GET", None);
    assert!(result.is_ok());
    let body = result.unwrap();
    assert!(body.contains("\"id\": \"p1\""));
    assert!(body.contains("\"enabled\": true"));
}

#[test]
fn mock_network_response_post_profiles_returns_share_code() {
    let url = "https://localhost:9999/profiles";
    let result = mock_network_response(url, "POST", Some("{}"));
    assert!(result.is_ok());
    assert_eq!(result.unwrap(), r#""share-mock-abc123""#);
}

#[test]
fn mock_network_response_unknown_path_returns_error() {
    let url = "https://localhost:9999/unknown";
    let result = mock_network_response(url, "GET", None);
    assert!(result.is_err());
}

#[test]
fn mock_network_response_delete_method_returns_error() {
    let url = "https://localhost:9999/profiles";
    let result = mock_network_response(url, "DELETE", None);
    assert!(result.is_err());
}

#[test]
fn list_community_profiles_mock_no_tags() {
    let config = CloudConfig {
        enabled: true,
        endpoint: "https://localhost:9999".into(),
        ..Default::default()
    };
    let profiles = list_community_profiles_with_config(&config, None).unwrap();
    assert_eq!(profiles.len(), 2);
    assert_eq!(profiles[0].id, "p1");
    assert_eq!(profiles[0].name, "Aim");
    assert_eq!(profiles[0].author, "alice");
    assert_eq!(profiles[0].downloads, 42);
    assert!((profiles[0].rating - 4.5).abs() < f64::EPSILON);
    assert_eq!(profiles[1].id, "p2");
    assert_eq!(profiles[1].tags, vec!["rpg"]);
}

#[test]
fn list_community_profiles_mock_with_tags() {
    let config = CloudConfig {
        enabled: true,
        endpoint: "https://localhost:9999".into(),
        ..Default::default()
    };
    // The mock ignores query params but still returns the list.
    let profiles = list_community_profiles_with_config(&config, Some("fps".into())).unwrap();
    assert_eq!(profiles.len(), 2);
}

#[test]
fn upload_profile_mock_returns_share_code() {
    let config = CloudConfig {
        enabled: true,
        endpoint: "https://localhost:9999".into(),
        ..Default::default()
    };
    let profile = Profile {
        id: "test".into(),
        name: "Test".into(),
        enabled: true,
        ..Default::default()
    };
    let code = upload_profile_with_config(&config, profile).unwrap();
    assert_eq!(code, "share-mock-abc123");
}

#[test]
fn download_profile_mock_returns_profile() {
    let config = CloudConfig {
        enabled: true,
        endpoint: "https://localhost:9999".into(),
        ..Default::default()
    };
    let profile = download_profile_with_config(&config, "p1".into()).unwrap();
    assert_eq!(profile.id, "p1");
    assert_eq!(profile.name, "Aim");
    assert!(profile.enabled);
}

#[test]
fn get_profile_by_code_mock_returns_profile() {
    let config = CloudConfig {
        enabled: true,
        endpoint: "https://localhost:9999".into(),
        ..Default::default()
    };
    let profile = get_profile_by_code_with_config(&config, "any-code".into()).unwrap();
    assert_eq!(profile.id, "p1");
}

#[test]
fn set_cloud_config_rejects_http_endpoint() {
    let cfg = CloudConfig {
        enabled: true,
        endpoint: "http://localhost:9999".into(),
        ..Default::default()
    };
    let result = set_cloud_config(cfg);
    assert!(result.is_err());
}

#[test]
fn set_cloud_config_rejects_placeholder_endpoint() {
    let cfg = CloudConfig {
        enabled: true,
        endpoint: "https://example.com".into(),
        ..Default::default()
    };
    let result = set_cloud_config(cfg);
    assert!(result.is_err());
}

#[test]
fn set_cloud_config_rejects_no_scheme() {
    let cfg = CloudConfig {
        enabled: true,
        endpoint: "just-a-host".into(),
        ..Default::default()
    };
    let result = set_cloud_config(cfg);
    assert!(result.is_err());
}

#[test]
fn cloud_config_defaults() {
    let cfg = CloudConfig::default();
    assert!(!cfg.enabled);
    assert!(cfg.endpoint.is_empty());
    assert!(cfg.api_key.is_none());
    assert!(cfg.username.is_empty());
    assert!(!cfg.accepted_terms);
}

#[test]
fn endpoint_refusals_say_why() {
    assert_eq!(
        validate_cloud_endpoint("http://host").unwrap_err(),
        "cloud endpoint must use https://, http:// is not allowed"
    );
    assert_eq!(
        validate_cloud_endpoint("ftp://host").unwrap_err(),
        "cloud endpoint must use https://"
    );
    assert_eq!(
        validate_cloud_endpoint("https://:80").unwrap_err(),
        "cloud endpoint must have a host"
    );
    assert_eq!(
        validate_cloud_endpoint("https://a.EXAMPLE/x").unwrap_err(),
        "cloud endpoint cannot reference .example or example.com hosts"
    );
    assert!(validate_cloud_endpoint("https://host/example.com").is_ok());
}

#[test]
fn accepted_config_is_kept() {
    let cfg = CloudConfig {
        enabled: true,
        endpoint: "https://cloud.oxidelink.dev".into(),
        api_key: Some("key".into()),
        username: "user".into(),
        accepted_terms: true,
    };
    assert_eq!(set_cloud_config(cfg.clone()), Ok(cfg));
}

#[test]
fn requests_are_built_from_the_endpoint() {
    let cfg = CloudConfig {
        enabled: true,
        endpoint: "https://cloud.oxidelink.dev/api//".into(),
        ..Default::default()
    };
    assert_eq!(
        cloud::list_community_profiles(&cfg, &None),
        Ok("https://cloud.oxidelink.dev/api/profiles".to_string())
    );
    assert_eq!(
        cloud::list_community_profiles(&cfg, &Some(String::new())),
        Ok("https://cloud.oxidelink.dev/api/profiles".to_string())
    );
    assert_eq!(
        cloud::list_community_profiles(&cfg, &Some("fps,pc".into())),
        Ok("https://cloud.oxidelink.dev/api/profiles?tags=fps,pc".to_string())
    );
    assert_eq!(
        cloud::download_profile(&cfg, "p7"),
        Ok("https://cloud.oxidelink.dev/api/profiles/p7".to_string())
    );
    assert_eq!(
        cloud::upload_profile(&cfg),
        Ok("https://cloud.oxidelink.dev/api/profiles".to_string())
    );
}

#[test]
fn unencrypted_requests_are_refused() {
    let cfg = CloudConfig {
        enabled: true,
        endpoint: "http://cloud.oxidelink.dev".into(),
        ..Default::default()
    };
    assert!(cloud::list_community_profiles(&cfg, &None).is_err());
    assert!(cloud::download_profile(&cfg, "p1").is_err());
    assert!(cloud::upload_profile(&cfg).is_err());
}

#[test]
fn share_code_holds_time_and_counter() {
    assert_eq!(share_code_at(0, 0), "A");
    assert_eq!(share_code_at(0, 64), "BA");
    assert_eq!(share_code_at(1, 0), encode_u64(1 << 32));
    assert_eq!(share_code_at(u64::MAX, 5), encode_u64((0xFFFF_FFFF << 32) | 5));
    assert_eq!(share_code_at(7, 0x1_0000_0003), share_code_at(7, 3));
}

#[test]
fn share_counter_starts_anew() {
    let mut counter = u64::MAX;
    generate_share_code(&mut counter);
    assert_eq!(counter, 0);
    generate_share_code(&mut counter);
    assert_eq!(counter, 1);
}

#[test]
fn upload_answer_is_read_in_order() {
    let mut counter = 9u64;
    assert_eq!(upload_code("\"abc\"", &mut counter), "abc");
    assert_eq!(upload_code("{\"share_code\": \"s1\", \"id\": \"i1\"}", &mut counter), "s1");
    assert_eq!(upload_code("{\"id\": \"i1\"}", &mut counter), "i1");
    assert_eq!(upload_code("{\"share_code\": 7, \"id\": \"i1\"}", &mut counter), "i1");
    assert_eq!(counter, 9);
    let code = upload_code("\"\"", &mut counter);
    assert!(!code.is_empty());
    assert_eq!(counter, 10);
    upload_code("no json", &mut counter);
    assert_eq!(counter, 11);
}

#[test]
fn choose_code_prefers_the_whole_answer() {
    let s = |t: &str| Some(t.to_string());
    assert_eq!(choose_code(s("a"), s("b"), s("c")), s("a"));
    assert_eq!(choose_code(s(""), s("b"), s("c")), s("b"));
    assert_eq!(choose_code(None, None, s("c")), s("c"));
    assert_eq!(choose_code(None, s(""), s("c")), s(""));
    assert_eq!(choose_code(None, None, None), None);
}

#[test]
fn cloud_files_stand_below_the_app_directory() {
    let path = String::from_utf8(cloud_config_path().bytes).unwrap();
    assert!(path.ends_with("OxideLink/cloud.json"), "{}", path);
    let dir = String::from_utf8(community_cache_dir().bytes).unwrap();
    assert!(dir.ends_with("OxideLink/community_cache"), "{}", dir);
    assert_eq!(cache_file_name("p1"), "p1.json");
}

#[test]
fn unexpected_request_is_named() {
    assert_eq!(
        cloud::mock_network_response("https://localhost/x?y", "PUT").unwrap_err(),
        "mock: unexpected PUT https://localhost/x?y"
    );
    assert_eq!(CannedAnswer::ShareCode.body(), "\"share-mock-abc123\"");
}

#[test]
fn placeholder_hosts_are_refused_however_the_address_goes_on() {
    let refused = "cloud endpoint cannot reference .example or example.com hosts".to_string();
    for address in [
        "https://example.com?x=1",
        "https://example.com#top",
        "https://example.com\\x",
        "https://EXAMPLE.com:443",
        "https://example.com.",
        "https://u:p@example.com",
        "https://a@b@example.com/api",
        "https://api.oxidelink.example?x=/y",
    ] {
        assert_eq!(validate_cloud_endpoint(address), Err(refused.clone()), "{address}");
    }
    for address in [
        "https://oxidelink.dev?next=example.com",
        "https://oxidelink.dev#example.com",
        "https://example.com@oxidelink.dev",
        "https://u:p@oxidelink.dev:8443/a@example.com",
    ] {
        assert_eq!(validate_cloud_endpoint(address), Ok(()), "{address}");
    }
    let no_host = "cloud endpoint must have a host".to_string();
    for address in ["https://?x", "https://#x", "https://user@", "https://user@/x", "https://@:80"] {
        assert_eq!(validate_cloud_endpoint(address), Err(no_host.clone()), "{address}");
    }
}
