use kube_autorollout::config::{
    DockerAuth, DockerAuthEntry, DockerConfig, RegistrySecret,
};
use kube_autorollout::image_reference::ImageReference;
use kube_autorollout::oci_registry::{
    AuthChallenge, FetchError, FetchMachine, FetchPhase, FetchStep, ResponseFacts,
    get_artifactory_fallback_url, get_authorization_header, is_artifactory_response, manifest_url,
    oci_accept_header, parse_authentication_challenge, rewrite_docker_io_registry_target,
    start_fetch, token_request_url,
};
use kube_autorollout::secret_string::SecretString;

fn image(s: &str) -> ImageReference {
    ImageReference::parse(s).expect("image should parse")
}

fn response(status: u16) -> ResponseFacts {
    ResponseFacts {
        status,
        docker_content_digest: None,
        www_authenticate: None,
        header_names: Vec::new(),
        body: String::new(),
    }
}

fn request_of(step: FetchStep) -> (String, String, FetchMachine) {
    match step {
        FetchStep::Request { url, authorization, state } => (url, authorization, state),
        _ => panic!("expected a request step"),
    }
}

#[test]
fn rewrites_docker_io_only() {
    assert_eq!(rewrite_docker_io_registry_target("docker.io"), "registry-1.docker.io");
    assert_eq!(rewrite_docker_io_registry_target("quay.io"), "quay.io");
    assert_eq!(
        rewrite_docker_io_registry_target("registry-1.docker.io"),
        "registry-1.docker.io"
    );
}

#[test]
fn manifest_url_shape() {
    assert_eq!(
        manifest_url("registry.example.com", "org/app", "v1.2.3"),
        "https://registry.example.com/v2/org/app/manifests/v1.2.3"
    );
}

#[test]
fn accept_header_names_oci_media_types() {
    assert_eq!(
        oci_accept_header(),
        "application/vnd.oci.image.manifest.v1+json, application/vnd.oci.image.index.v1+json"
    );
}

#[test]
fn artifactory_fallback_url_shape() {
    let img = image("artifactory.example.com/myrepo/myimage:tag1");
    let url = get_artifactory_fallback_url(&img, "artifactory.example.com").unwrap();
    assert_eq!(
        url,
        "https://artifactory.example.com/artifactory/api/docker/myrepo/v2/myrepo/myimage/manifests/tag1"
    );
}

#[test]
fn artifactory_fallback_needs_second_segment() {
    let img = image("artifactory.example.com/flat:tag1");
    let err = get_artifactory_fallback_url(&img, "artifactory.example.com").unwrap_err();
    assert_eq!(err, FetchError::MalformedRepository);
}

#[test]
fn artifactory_signature_headers() {
    assert!(is_artifactory_response(&vec!["x-jfrog-version".to_string()]));
    assert!(is_artifactory_response(&vec![
        "content-type".to_string(),
        "x-artifactory-id".to_string()
    ]));
    assert!(is_artifactory_response(&vec!["x-artifactory-node-id".to_string()]));
    assert!(!is_artifactory_response(&vec![
        "content-type".to_string(),
        "server".to_string()
    ]));
    assert!(!is_artifactory_response(&Vec::new()));
}

#[test]
fn authorization_header_per_credential() {
    let opaque = RegistrySecret::Opaque {
        username: None,
        token: SecretString::new("tok123".to_string()),
    };
    assert_eq!(get_authorization_header(&opaque), "Bearer tok123");

    let pull = RegistrySecret::ImagePullSecret {
        mount_path: String::new(),
        docker_config: DockerConfig {
            auths: vec![DockerAuthEntry {
                hostname: "reg.example.com".to_string(),
                auth: DockerAuth::new(
                    "user".to_string(),
                    SecretString::new("pw".to_string()),
                    SecretString::new("dXNlcjpwdw==".to_string()),
                    None,
                ),
            }],
        },
    };
    assert_eq!(get_authorization_header(&pull), "Basic dXNlcjpwdw==");

    assert_eq!(get_authorization_header(&RegistrySecret::NoAuth), "");
}

#[test]
fn challenge_parsing_extracts_quoted_fields() {
    let header = "Bearer realm=\"https://auth.docker.io/token\",service=\"registry.docker.io\",scope=\"repository:samalba/my-app:pull\"";
    let c = parse_authentication_challenge(header).expect("challenge should parse");
    assert_eq!(c.realm, "https://auth.docker.io/token");
    assert_eq!(c.service, "registry.docker.io");
    assert_eq!(c.scope, "repository:samalba/my-app:pull");
    assert_eq!(
        token_request_url(&c),
        "https://auth.docker.io/token?service=registry.docker.io&scope=repository:samalba/my-app:pull"
    );
}

#[test]
fn challenge_parsing_trims_whitespace_and_quotes() {
    let header = "Bearer realm= \"r\" , service = s , scope=\"\"x\"\"";
    let c = parse_authentication_challenge(header).expect("challenge should parse");
    assert_eq!(c.realm, "r");
    assert_eq!(c.service, "s");
    assert_eq!(c.scope, "x");
}

#[test]
fn challenge_parsing_requires_all_fields() {
    let missing_scope = "Bearer realm=\"r\",service=\"s\"";
    let err = parse_authentication_challenge(missing_scope).unwrap_err();
    assert_eq!(err, FetchError::MalformedChallenge);

    let too_short = "Basic";
    let err = parse_authentication_challenge(too_short).unwrap_err();
    assert_eq!(err, FetchError::MalformedChallenge);
}

#[test]
fn direct_success_reads_digest_header() {
    let img = image("registry.example.com/org/app:v1");
    let secret = RegistrySecret::NoAuth;
    let (url, auth, machine) = request_of(start_fetch(&img, &secret, false));
    assert_eq!(url, "https://registry.example.com/v2/org/app/manifests/v1");
    assert_eq!(auth, "");
    let mut ok = response(200);
    ok.docker_content_digest = Some("sha256:abc".to_string());
    match machine.on_response(&ok) {
        FetchStep::Done { digest } => assert_eq!(digest, "sha256:abc"),
        _ => panic!("expected the digest"),
    }
}

#[test]
fn direct_success_without_digest_header_fails() {
    let img = image("registry.example.com/org/app:v1");
    let (_, _, machine) = request_of(start_fetch(&img, &RegistrySecret::NoAuth, false));
    match machine.on_response(&response(200)) {
        FetchStep::Fail { error } => assert_eq!(error, FetchError::MissingDigestHeader),
        _ => panic!("expected a failure"),
    }
}

#[test]
fn start_fetch_rewrites_docker_io() {
    let img = image("docker.io/library/nginx:latest");
    let (url, _, _) = request_of(start_fetch(&img, &RegistrySecret::NoAuth, false));
    assert_eq!(url, "https://registry-1.docker.io/v2/library/nginx/manifests/latest");
}

#[test]
fn unexpected_status_is_registry_error() {
    let img = image("registry.example.com/org/app:v1");
    let (_, _, machine) = request_of(start_fetch(&img, &RegistrySecret::NoAuth, true));
    match machine.on_response(&response(500)) {
        FetchStep::Fail { error } => assert_eq!(error, FetchError::RegistryError(500)),
        _ => panic!("expected a failure"),
    }
}

#[test]
fn unauthorized_without_challenge_is_registry_error() {
    let img = image("registry.example.com/org/app:v1");
    let (_, _, machine) = request_of(start_fetch(&img, &RegistrySecret::NoAuth, false));
    match machine.on_response(&response(401)) {
        FetchStep::Fail { error } => assert_eq!(error, FetchError::RegistryError(401)),
        _ => panic!("expected a failure"),
    }
}

#[test]
fn oauth_challenge_round_trip() {
    let img = image("registry.example.com/org/app:v1");
    let secret = RegistrySecret::Opaque {
        username: None,
        token: SecretString::new("orig".to_string()),
    };
    let (_, auth, machine) = request_of(start_fetch(&img, &secret, false));
    assert_eq!(auth, "Bearer orig");

    let mut challenge = response(401);
    challenge.www_authenticate =
        Some("Bearer realm=\"https://auth.example.com/token\",service=\"svc\",scope=\"sc\"".to_string());
    let (token_url, token_auth, machine) = request_of(machine.on_response(&challenge));
    assert_eq!(token_url, "https://auth.example.com/token?service=svc&scope=sc");
    // The token request carries the original credential's header.
    assert_eq!(token_auth, "Bearer orig");
    assert_eq!(machine.phase, FetchPhase::TokenExchange);

    let mut token_ok = response(200);
    token_ok.body = "{\"token\":\"fresh\"}".to_string();
    let (retry_url, retry_auth, machine) = request_of(machine.on_response(&token_ok));
    assert_eq!(retry_url, "https://registry.example.com/v2/org/app/manifests/v1");
    assert_eq!(retry_auth, "Bearer fresh");
    assert_eq!(machine.phase, FetchPhase::Retry);

    let mut ok = response(200);
    ok.docker_content_digest = Some("sha256:def".to_string());
    match machine.on_response(&ok) {
        FetchStep::Done { digest } => assert_eq!(digest, "sha256:def"),
        _ => panic!("expected the digest"),
    }
}

#[test]
fn malformed_challenge_fails_fetch() {
    let img = image("registry.example.com/org/app:v1");
    let (_, _, machine) = request_of(start_fetch(&img, &RegistrySecret::NoAuth, false));
    let mut challenge = response(401);
    challenge.www_authenticate = Some("Bearer realm=\"r\"".to_string());
    match machine.on_response(&challenge) {
        FetchStep::Fail { error } => assert_eq!(error, FetchError::MalformedChallenge),
        _ => panic!("expected a failure"),
    }
}

#[test]
fn token_exchange_failure_statuses() {
    let img = image("registry.example.com/org/app:v1");
    let (_, _, machine) = request_of(start_fetch(&img, &RegistrySecret::NoAuth, false));
    let mut challenge = response(401);
    challenge.www_authenticate = Some("Bearer realm=\"r\",service=\"s\",scope=\"c\"".to_string());
    let (_, _, machine) = request_of(machine.on_response(&challenge));

    // Non-success status from the token endpoint.
    match machine.on_response(&response(403)) {
        FetchStep::Fail { error } => assert_eq!(error, FetchError::TokenExchangeFailed(403)),
        _ => panic!("expected a failure"),
    }
}

#[test]
fn token_exchange_bad_body_fails() {
    let img = image("registry.example.com/org/app:v1");
    let (_, _, machine) = request_of(start_fetch(&img, &RegistrySecret::NoAuth, false));
    let mut challenge = response(401);
    challenge.www_authenticate = Some("Bearer realm=\"r\",service=\"s\",scope=\"c\"".to_string());
    let (_, _, machine) = request_of(machine.on_response(&challenge));

    let mut token_ok = response(200);
    token_ok.body = "{\"access_token\":\"nope\"}".to_string();
    match machine.on_response(&token_ok) {
        FetchStep::Fail { error } => assert_eq!(error, FetchError::MalformedTokenResponse),
        _ => panic!("expected a failure"),
    }
}

#[test]
fn not_found_without_signature_never_falls_back() {
    let img = image("artifactory.example.com/myrepo/myimage:tag1");
    // Even with the feature flag enabled.
    let (_, _, machine) = request_of(start_fetch(&img, &RegistrySecret::NoAuth, true));
    match machine.on_response(&response(404)) {
        FetchStep::Fail { error } => assert_eq!(error, FetchError::RegistryError(404)),
        _ => panic!("expected a failure"),
    }
}

#[test]
fn not_found_with_signature_but_flag_off_never_falls_back() {
    let img = image("artifactory.example.com/myrepo/myimage:tag1");
    let (_, _, machine) = request_of(start_fetch(&img, &RegistrySecret::NoAuth, false));
    let mut resp = response(404);
    resp.header_names = vec!["x-jfrog-version".to_string()];
    match machine.on_response(&resp) {
        FetchStep::Fail { error } => assert_eq!(error, FetchError::RegistryError(404)),
        _ => panic!("expected a failure"),
    }
}

#[test]
fn not_found_with_signature_and_flag_falls_back() {
    let img = image("artifactory.example.com/myrepo/myimage:tag1");
    let secret = RegistrySecret::Opaque {
        username: None,
        token: SecretString::new("orig".to_string()),
    };
    let (_, _, machine) = request_of(start_fetch(&img, &secret, true));
    let mut resp = response(404);
    resp.header_names = vec!["x-jfrog-version".to_string()];
    let (url, auth, machine) = request_of(machine.on_response(&resp));
    assert_eq!(
        url,
        "https://artifactory.example.com/artifactory/api/docker/myrepo/v2/myrepo/myimage/manifests/tag1"
    );
    // The fallback request keeps the original credential.
    assert_eq!(auth, "Bearer orig");
    assert_eq!(machine.phase, FetchPhase::Fallback);

    let mut ok = response(200);
    ok.docker_content_digest = Some("sha256:fff".to_string());
    match machine.on_response(&ok) {
        FetchStep::Done { digest } => assert_eq!(digest, "sha256:fff"),
        _ => panic!("expected the digest"),
    }
}

#[test]
fn fallback_non_success_is_fatal() {
    let img = image("artifactory.example.com/myrepo/myimage:tag1");
    let (_, _, machine) = request_of(start_fetch(&img, &RegistrySecret::NoAuth, true));
    let mut resp = response(404);
    resp.header_names = vec!["x-artifactory-id".to_string()];
    let (_, _, machine) = request_of(machine.on_response(&resp));
    match machine.on_response(&response(404)) {
        FetchStep::Fail { error } => assert_eq!(error, FetchError::RegistryError(404)),
        _ => panic!("expected a failure"),
    }
}

#[test]
fn token_url_joins_challenge_fields() {
    let c = AuthChallenge {
        realm: "r".to_string(),
        service: "s".to_string(),
        scope: "c".to_string(),
    };
    assert_eq!(token_request_url(&c), "r?service=s&scope=c");
}
