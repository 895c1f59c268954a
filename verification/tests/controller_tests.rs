use kube_autorollout::config::{
    Config, DockerAuth, DockerAuthEntry, DockerConfig, FeatureFlags, Registry, RegistrySecret,
    Tls, Webserver,
};
use kube_autorollout::controller::{
    ContainerStatusFacts, ControllerError, PodFacts, ResolveError, build_label_selector,
    autorollout_label, find_matching_image_pull_secret, get_associated_pod,
    get_container_image_reference, get_pod_container_image_references,
    get_registry_secret_from_config, misconfigured_image_pull_policy_containers,
    normalize_image_registry_name, resolve_credential, should_trigger_rollout,
};
use kube_autorollout::oci_registry::{FetchStep, ResponseFacts, start_fetch};
use kube_autorollout::rollout::{
    PodSpecFacts, WorkloadFacts, WorkloadKind, rollout_annotation_key, rollout_field_manager,
    rollout_patch_json,
};
use kube_autorollout::secret_string::SecretString;

fn status(name: &str, image: &str, image_id: &str) -> ContainerStatusFacts {
    ContainerStatusFacts {
        name: name.to_string(),
        image: image.to_string(),
        image_id: image_id.to_string(),
        image_pull_policy: Some("Always".to_string()),
    }
}

fn pod(name: &str, ts: i64, statuses: Vec<ContainerStatusFacts>) -> PodFacts {
    PodFacts {
        name: name.to_string(),
        creation_timestamp: Some(ts),
        container_statuses: statuses,
    }
}

fn pull_secret(hostname: &str) -> DockerConfig {
    DockerConfig {
        auths: vec![DockerAuthEntry {
            hostname: hostname.to_string(),
            auth: DockerAuth::new(
                "user".to_string(),
                SecretString::new("pw".to_string()),
                SecretString::new("YXV0aA==".to_string()),
                None,
            ),
        }],
    }
}

fn config_with(registries: Vec<Registry>) -> Config {
    let mut config = Config::new(
        String::new(),
        Webserver { port: 8080 },
        registries,
        Tls { ca_certificate_paths: Vec::new() },
        FeatureFlags { enable_jfrog_artifactory_fallback: false, enable_kubectl_annotation: false },
    );
    config.setup_glob_set().expect("patterns should compile");
    config
}

#[test]
fn pod_selection_prefers_latest_fully_started_pod() {
    // Three pods with T1 < T2 < T3; the T3 pod has a container with an
    // empty image-id, so the T2 pod must be selected.
    let pods = vec![
        pod("p1", 1, vec![status("c", "r/a:t", "r/a@sha256:1")]),
        pod("p2", 2, vec![status("c", "r/a:t", "r/a@sha256:2")]),
        pod(
            "p3",
            3,
            vec![
                status("c", "r/a:t", "r/a@sha256:3"),
                status("d", "r/b:t", ""),
            ],
        ),
    ];
    let i = get_associated_pod(&pods).expect("a pod should be selected");
    assert_eq!(pods[i].name, "p2");
}

#[test]
fn pod_selection_fails_when_no_pod_is_ready() {
    let pods = vec![pod("p1", 1, vec![status("c", "r/a:t", "")])];
    let err = get_associated_pod(&pods).unwrap_err();
    assert!(matches!(err, ControllerError::NoEligiblePod));

    let err = get_associated_pod(&Vec::new()).unwrap_err();
    assert!(matches!(err, ControllerError::NoEligiblePod));
}

#[test]
fn pod_without_timestamp_sorts_last() {
    let mut late = pod("p2", 5, vec![status("c", "r/a:t", "r/a@sha256:2")]);
    late.creation_timestamp = None;
    let pods = vec![pod("p1", 1, vec![status("c", "r/a:t", "r/a@sha256:1")]), late];
    let i = get_associated_pod(&pods).expect("a pod should be selected");
    assert_eq!(pods[i].name, "p1");
}

#[test]
fn container_reference_extraction() {
    let cs = status(
        "app",
        "registry.example.com/org/app:v1",
        "registry.example.com/org/app@sha256:abcdef",
    );
    let r = get_container_image_reference(&cs).expect("should extract");
    assert_eq!(r.container_name, "app");
    assert_eq!(r.image_reference.registry, "registry.example.com");
    assert_eq!(r.image_reference.repository, "org/app");
    assert_eq!(r.image_reference.tag, "v1");
    assert_eq!(r.digest, "sha256:abcdef");
}

#[test]
fn container_reference_rejects_malformed_image_id() {
    let cs = status("app", "registry.example.com/org/app:v1", "no-digest-here");
    let err = match get_container_image_reference(&cs) {
        Err(e) => e,
        Ok(_) => panic!("expected an error"),
    };
    match err {
        ControllerError::MalformedImageId(s) => assert_eq!(s, "no-digest-here"),
        _ => panic!("expected MalformedImageId"),
    }
}

#[test]
fn container_reference_propagates_parse_error() {
    let cs = status("app", "noslash:v1", "x@sha256:1");
    let err = match get_container_image_reference(&cs) {
        Err(e) => e,
        Ok(_) => panic!("expected an error"),
    };
    assert!(matches!(err, ControllerError::ImageParse(_)));
}

#[test]
fn pod_references_fail_on_first_bad_container() {
    let p = pod(
        "p",
        1,
        vec![
            status("good", "r/a:t", "r/a@sha256:1"),
            status("bad", "r/b:t", "nodigest"),
        ],
    );
    let err = match get_pod_container_image_references(&p) {
        Err(e) => e,
        Ok(_) => panic!("expected an error"),
    };
    assert!(matches!(err, ControllerError::MalformedImageId(_)));

    let p = pod("p", 1, vec![status("good", "r/a:t", "r/a@sha256:1")]);
    let refs = get_pod_container_image_references(&p).expect("should extract");
    assert_eq!(refs.len(), 1);
    assert_eq!(refs[0].digest, "sha256:1");
}

#[test]
fn normalization_strips_schemes_and_aliases_docker_hub() {
    assert_eq!(normalize_image_registry_name("https://reg.example.com"), "reg.example.com");
    assert_eq!(normalize_image_registry_name("http://reg.example.com"), "reg.example.com");
    assert_eq!(normalize_image_registry_name("reg.example.com"), "reg.example.com");
    assert_eq!(normalize_image_registry_name("docker.io"), "*.docker.io");
    assert_eq!(normalize_image_registry_name("https://docker.io"), "*.docker.io");
}

#[test]
fn pull_secret_matching_normalizes_both_sides() {
    let cs = status(
        "app",
        "registry-1.docker.io/library/nginx:latest",
        "x@sha256:1",
    );
    let reference = get_container_image_reference(&cs).unwrap();
    // The stored key is the bare Docker Hub alias; it matches the wire
    // hostname through the wildcard rewrite.
    let secrets = vec![pull_secret("https://docker.io")];
    let secret = find_matching_image_pull_secret(&secrets, &reference)
        .expect("pull secret should match");
    match secret {
        RegistrySecret::ImagePullSecret { mount_path, docker_config } => {
            assert_eq!(mount_path, "");
            assert_eq!(docker_config.auths[0].hostname, "https://docker.io");
        }
        _ => panic!("expected ImagePullSecret"),
    }
}

#[test]
fn pull_secret_matching_takes_first_matching_secret() {
    let cs = status("app", "test.example.com/org/app:v1", "x@sha256:1");
    let reference = get_container_image_reference(&cs).unwrap();
    let secrets = vec![
        pull_secret("other.host"),
        pull_secret("*.example.com"),
        pull_secret("test.example.com"),
    ];
    let secret = find_matching_image_pull_secret(&secrets, &reference).unwrap();
    match secret {
        RegistrySecret::ImagePullSecret { docker_config, .. } => {
            assert_eq!(docker_config.auths[0].hostname, "*.example.com");
        }
        _ => panic!("expected ImagePullSecret"),
    }
}

#[test]
fn pull_secret_matching_reports_invalid_pattern() {
    let cs = status("app", "test.example.com/org/app:v1", "x@sha256:1");
    let reference = get_container_image_reference(&cs).unwrap();
    let secrets = vec![pull_secret("[invalid")];
    let err = match find_matching_image_pull_secret(&secrets, &reference) {
        Err(e) => e,
        Ok(_) => panic!("expected an error"),
    };
    match err {
        ResolveError::InvalidHostnamePattern(p) => assert_eq!(p, "[invalid"),
        _ => panic!("expected InvalidHostnamePattern"),
    }
}

#[test]
fn pull_secret_matching_reports_no_match() {
    let cs = status("app", "test.example.com/org/app:v1", "x@sha256:1");
    let reference = get_container_image_reference(&cs).unwrap();
    let secrets = vec![pull_secret("other.host")];
    let err = match find_matching_image_pull_secret(&secrets, &reference) {
        Err(e) => e,
        Ok(_) => panic!("expected an error"),
    };
    assert!(matches!(err, ResolveError::NoMatchingCredential));
}

#[test]
fn config_resolution_uses_unnormalized_hostname() {
    let cs = status("app", "test.example.com/org/app:v1", "x@sha256:1");
    let reference = get_container_image_reference(&cs).unwrap();
    let config = config_with(vec![Registry {
        hostname_pattern: "*.example.com".to_string(),
        secret: RegistrySecret::Opaque {
            username: None,
            token: SecretString::new("cfg".to_string()),
        },
    }]);
    let secret = get_registry_secret_from_config(&config, &reference).unwrap();
    match secret {
        RegistrySecret::Opaque { token, .. } => assert_eq!(token.expose_secret(), "cfg"),
        _ => panic!("expected Opaque"),
    }
}

#[test]
fn credential_precedence_pull_secret_over_config() {
    let cs = status("app", "test.example.com/org/app:v1", "x@sha256:1");
    let reference = get_container_image_reference(&cs).unwrap();
    let config = config_with(vec![Registry {
        hostname_pattern: "*.example.com".to_string(),
        secret: RegistrySecret::Opaque {
            username: None,
            token: SecretString::new("cfg".to_string()),
        },
    }]);

    // A matching pull secret wins over the static configuration.
    let secrets = vec![pull_secret("*.example.com")];
    let secret = resolve_credential(&secrets, &config, &reference).unwrap();
    assert!(matches!(secret, RegistrySecret::ImagePullSecret { .. }));

    // Without a matching pull secret the configuration answers.
    let secret = resolve_credential(&Vec::new(), &config, &reference).unwrap();
    assert!(matches!(secret, RegistrySecret::Opaque { .. }));

    // Neither matching: no credential.
    let other = config_with(vec![Registry {
        hostname_pattern: "exact.only".to_string(),
        secret: RegistrySecret::NoAuth,
    }]);
    let err = match resolve_credential(&Vec::new(), &other, &reference) {
        Err(e) => e,
        Ok(_) => panic!("expected an error"),
    };
    assert!(matches!(err, ResolveError::NoMatchingCredential));
}

#[test]
fn label_selector_joins_pairs() {
    let pairs = vec![
        ("app".to_string(), "web".to_string()),
        ("tier".to_string(), "front".to_string()),
    ];
    assert_eq!(build_label_selector(&pairs), "app=web,tier=front");
    assert_eq!(build_label_selector(&Vec::new()), "");
    assert_eq!(autorollout_label(), "kube-autorollout/enabled=true");
}

#[test]
fn misconfigured_pull_policies_are_listed() {
    let mut ok = status("good", "r/a:t", "r/a@sha256:1");
    ok.image_pull_policy = Some("Always".to_string());
    let mut bad = status("bad", "r/b:t", "r/b@sha256:2");
    bad.image_pull_policy = Some("IfNotPresent".to_string());
    let mut missing = status("missing", "r/c:t", "r/c@sha256:3");
    missing.image_pull_policy = None;
    let p = pod("p", 1, vec![ok, bad, missing]);
    let names = misconfigured_image_pull_policy_containers(&p);
    assert_eq!(names, vec!["bad".to_string(), "missing".to_string()]);
}

#[test]
fn workload_eligibility_and_pull_secret_names() {
    let w = WorkloadFacts {
        name: "web".to_string(),
        selector: vec![("app".to_string(), "web".to_string())],
        desired_replicas: 3,
        actual_replicas: 3,
        pod_spec: Some(PodSpecFacts {
            image_pull_secret_names: vec!["regcred".to_string()],
        }),
    };
    assert!(w.eligible());
    assert_eq!(w.image_pull_secrets(), vec!["regcred".to_string()]);

    let scaled_down = WorkloadFacts {
        name: "idle".to_string(),
        selector: Vec::new(),
        desired_replicas: 0,
        actual_replicas: 0,
        pod_spec: None,
    };
    assert!(!scaled_down.eligible());
    assert!(scaled_down.image_pull_secrets().is_empty());
}

#[test]
fn rollout_patch_and_annotation_keys() {
    assert_eq!(rollout_annotation_key(false), "kube-autorollout/restartedAt");
    assert_eq!(rollout_annotation_key(true), "kubectl.kubernetes.io/restartedAt");
    assert_eq!(rollout_field_manager(), "kube-autorollout");
    assert_eq!(
        rollout_patch_json("kube-autorollout/restartedAt", "2024-01-01T00:00:00+00:00"),
        "{\"spec\":{\"template\":{\"metadata\":{\"annotations\":{\"kube-autorollout/restartedAt\":\"2024-01-01T00:00:00+00:00\"}}}}}"
    );
    assert_eq!(WorkloadKind::Deployment.kind_name(), "Deployment");
    assert_eq!(WorkloadKind::StatefulSet.kind_name(), "StatefulSet");
    assert_eq!(WorkloadKind::DaemonSet.kind_name(), "DaemonSet");
}

/// Drives one workload's containers against a registry that answers every
/// manifest request with `registry_digest`, and counts the patches the
/// decisions call for.
fn run_cycle(live_digest: &str, registry_digest: &str) -> usize {
    let workload = WorkloadFacts {
        name: "web".to_string(),
        selector: vec![("app".to_string(), "web".to_string())],
        desired_replicas: 3,
        actual_replicas: 3,
        pod_spec: Some(PodSpecFacts { image_pull_secret_names: Vec::new() }),
    };
    if !workload.eligible() {
        return 0;
    }
    let pods = vec![pod(
        "web-1",
        10,
        vec![status(
            "app",
            "registry.example.com/org/app:v1",
            &format!("registry.example.com/org/app@{}", live_digest),
        )],
    )];
    let selected = get_associated_pod(&pods).expect("a pod should be selected");
    let refs = get_pod_container_image_references(&pods[selected]).expect("should extract");

    let config = config_with(vec![Registry {
        hostname_pattern: "*.example.com".to_string(),
        secret: RegistrySecret::NoAuth,
    }]);

    let mut patches = 0;
    for reference in &refs {
        let secret = resolve_credential(&Vec::new(), &config, reference).expect("credential");
        let mut step = start_fetch(&reference.image_reference, &secret, false);
        let recent = loop {
            match step {
                FetchStep::Request { state, .. } => {
                    // The fake registry answers 200 with the digest header.
                    let resp = ResponseFacts {
                        status: 200,
                        docker_content_digest: Some(registry_digest.to_string()),
                        www_authenticate: None,
                        header_names: Vec::new(),
                        body: String::new(),
                    };
                    step = state.on_response(&resp);
                }
                FetchStep::Done { digest } => break digest,
                FetchStep::Fail { error } => panic!("fetch failed: {:?}", error),
            }
        };
        if should_trigger_rollout(&reference.digest, &recent) {
            patches += 1;
        }
    }
    patches
}

#[test]
fn end_to_end_patches_only_on_digest_change() {
    // The registry now reports a new digest: exactly one patch.
    assert_eq!(run_cycle("sha256:old", "sha256:new"), 1);
    // The registry reports the live digest: no patch.
    assert_eq!(run_cycle("sha256:old", "sha256:old"), 0);
}
