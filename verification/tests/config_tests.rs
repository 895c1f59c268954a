use kube_autorollout::config::{
    Config, ConfigError, DockerAuth, DockerAuthEntry, DockerConfig, FeatureFlags, Registry,
    RegistrySecret, Tls, Webserver, default_cron_schedule,
};
use kube_autorollout::expand::{ExpandError, expand_placeholders, placeholder_names};
use kube_autorollout::secret_string::SecretString;

fn opaque(username: Option<&str>, token: &str) -> RegistrySecret {
    RegistrySecret::Opaque {
        username: username.map(|u| u.to_string()),
        token: SecretString::new(token.to_string()),
    }
}

fn config_with(registries: Vec<Registry>) -> Config {
    Config::new(
        String::new(),
        Webserver { port: 8080 },
        registries,
        Tls { ca_certificate_paths: Vec::new() },
        FeatureFlags { enable_jfrog_artifactory_fallback: false, enable_kubectl_annotation: false },
    )
}

#[test]
fn test_validate_invalid_pattern() {
    let config = config_with(vec![Registry {
        hostname_pattern: "[invalid".to_string(), // invalid glob pattern
        secret: opaque(None, "token"),
    }]);
    let result = config.validate();
    assert!(
        result.is_err(),
        "Expected validate to fail on invalid glob pattern"
    );
}

#[test]
fn test_setup_glob_set_and_find_registry() {
    let mut config = config_with(vec![
        Registry {
            hostname_pattern: "*.example.com".to_string(),
            secret: opaque(Some("user1"), "token1"),
        },
        Registry {
            hostname_pattern: "registry.*.com".to_string(),
            secret: opaque(Some("user2"), "token2"),
        },
        Registry {
            hostname_pattern: "registry-exact.com".to_string(),
            secret: opaque(Some("user3"), "token3"),
        },
    ]);

    config
        .setup_glob_set()
        .expect("setup_glob_set should succeed");

    // Matches first registry
    let reg = config.find_registry_for_hostname("test.example.com");
    assert!(reg.is_some());
    match &config.registries[0].secret {
        RegistrySecret::Opaque { username, token } => {
            assert_eq!(username.as_deref(), Some("user1"));
            assert_eq!(token.expose_secret(), "token1");
        }
        _ => panic!("Expected Opaque secret"),
    }

    // Matches second registry
    let reg = config.find_registry_for_hostname("registry.foo.com");
    assert!(reg.is_some());
    match &config.registries[1].secret {
        RegistrySecret::Opaque { username, token } => {
            assert_eq!(username.as_deref(), Some("user2"));
            assert_eq!(token.expose_secret(), "token2");
        }
        _ => panic!("Expected Opaque secret"),
    }

    // Matches third registry
    let reg = config.find_registry_for_hostname("registry-exact.com");
    assert!(reg.is_some());
    match &config.registries[2].secret {
        RegistrySecret::Opaque { username, token } => {
            assert_eq!(username.as_deref(), Some("user3"));
            assert_eq!(token.expose_secret(), "token3");
        }
        _ => panic!("Expected Opaque secret"),
    }

    // No match
    let reg = config.find_registry_for_hostname("nomatch.com");
    assert!(reg.is_none());
}

#[test]
fn find_registry_returns_first_match_in_declaration_order() {
    let mut config = config_with(vec![
        Registry {
            hostname_pattern: "*.example.com".to_string(),
            secret: opaque(Some("user1"), "token1"),
        },
        Registry {
            hostname_pattern: "registry.*.com".to_string(),
            secret: opaque(Some("user2"), "token2"),
        },
    ]);
    config.setup_glob_set().expect("setup_glob_set should succeed");

    // Matches both patterns; the first declared entry wins.
    let reg = config
        .find_registry_for_hostname("registry.example.com")
        .expect("should match");
    match &reg.secret {
        RegistrySecret::Opaque { username, .. } => {
            assert_eq!(username.as_deref(), Some("user1"));
        }
        _ => panic!("Expected Opaque secret"),
    }
}

#[test]
fn setup_glob_set_rejects_invalid_pattern() {
    let mut config = config_with(vec![Registry {
        hostname_pattern: "[invalid".to_string(),
        secret: opaque(None, "token"),
    }]);
    let err = config.setup_glob_set().unwrap_err();
    match err {
        ConfigError::InvalidHostnamePattern(p) => assert_eq!(p, "[invalid"),
    }
}

#[test]
fn test_expand_env_vars_no_vars() {
    let input = "No variables here";
    let expanded =
        expand_placeholders(input, &Vec::new()).expect("Expansion should succeed");
    assert_eq!(expanded, input);
}

#[test]
fn test_expand_env_vars_success() {
    let vars = vec![("TEST_VAR".to_string(), "value123".to_string())];
    let input = "This is a test: ${TEST_VAR}";
    let expanded = expand_placeholders(input, &vars).expect("Expansion should succeed");
    assert_eq!(expanded, "This is a test: value123");
}

#[test]
fn test_expand_env_vars_multiple_vars() {
    let vars = vec![
        ("VAR1".to_string(), "foo".to_string()),
        ("VAR2".to_string(), "bar".to_string()),
    ];
    let input = "${VAR1} and ${VAR2}";
    let expanded = expand_placeholders(input, &vars).expect("Expansion should succeed");
    assert_eq!(expanded, "foo and bar");
}

#[test]
fn expand_fails_on_missing_variable() {
    let input = "This will fail: ${MISSING_VAR}";
    let err = expand_placeholders(input, &Vec::new()).unwrap_err();
    match err {
        ExpandError::MissingVariable(name) => assert_eq!(name, "MISSING_VAR"),
    }
}

#[test]
fn expand_leaves_unclosed_placeholder_alone() {
    let input = "half ${OPEN and ${X}";
    let vars = vec![("X".to_string(), "y".to_string())];
    // The first `${` never closes before the closing brace of `${X}`,
    // so the name looked up is `OPEN and ${X`.
    let err = expand_placeholders(input, &vars).unwrap_err();
    match err {
        ExpandError::MissingVariable(name) => assert_eq!(name, "OPEN and ${X"),
    }
}

#[test]
fn placeholder_names_lists_in_order() {
    let names = placeholder_names("${A} middle ${B} end ${A}");
    assert_eq!(names, vec!["A".to_string(), "B".to_string(), "A".to_string()]);
    let none = placeholder_names("nothing here");
    assert!(none.is_empty());
}

#[test]
fn default_cron_schedule_value() {
    assert_eq!(default_cron_schedule(), "*/45 * * * * *");
}

#[test]
fn mount_paths_and_install_docker_config() {
    let mut config = config_with(vec![
        Registry {
            hostname_pattern: "*.example.com".to_string(),
            secret: opaque(Some("user"), "token"),
        },
        Registry {
            hostname_pattern: "*.private.example.com".to_string(),
            secret: RegistrySecret::ImagePullSecret {
                mount_path: "/var/run/secret".to_string(),
                docker_config: DockerConfig { auths: Vec::new() },
            },
        },
    ]);
    let paths = config.image_pull_secret_mount_paths();
    assert_eq!(paths.len(), 1);
    assert_eq!(paths[0].0, 1);
    assert_eq!(paths[0].1, "/var/run/secret");

    let parsed = DockerConfig {
        auths: vec![DockerAuthEntry {
            hostname: "your.private.registry.example.com".to_string(),
            auth: DockerAuth::new(
                "janedoe".to_string(),
                SecretString::new("xxxxxxxxxxx".to_string()),
                SecretString::new("c3R...zE2".to_string()),
                Some("jdoe@example.com".to_string()),
            ),
        }],
    };
    config.install_docker_config(1, parsed);
    match &config.registries[1].secret {
        RegistrySecret::ImagePullSecret { mount_path, docker_config } => {
            assert_eq!(mount_path, "/var/run/secret");
            assert_eq!(docker_config.auths.len(), 1);
            assert_eq!(docker_config.auths[0].hostname, "your.private.registry.example.com");
            assert_eq!(docker_config.auths[0].auth.username, "janedoe");
            assert_eq!(docker_config.auths[0].auth.password.expose_secret(), "xxxxxxxxxxx");
            assert_eq!(docker_config.auths[0].auth.auth.expose_secret(), "c3R...zE2");
        }
        _ => panic!("Expected ImagePullSecret"),
    }
}
