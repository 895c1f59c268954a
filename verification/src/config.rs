//! The controller's configuration: per-hostname registry credentials, the
//! webserver port, TLS trust additions and feature flags, together with
//! the compiled glob-matcher set that must stay index-aligned with the
//! registry list.

use vstd::prelude::*;
use vstd::string::StringExecFns;
use crate::glob::{glob_compile, glob_is_match, glob_match, glob_pattern_ok, matcher_pattern};
use crate::secret_string::SecretString;

verus! {

/// One entry of a docker config's `auths` map: a hostname pattern and the
/// credential stored under it. Entries keep the order in which the source
/// document listed them.
pub struct DockerAuthEntry {
    pub hostname: String,
    pub auth: DockerAuth,
}

/// The credential bundle stored under one hostname of a docker config.
pub struct DockerAuth {
    pub username: String,
    pub password: SecretString,
    pub auth: SecretString,
    pub email: Option<String>,
}

/// The parsed content of a `.dockerconfigjson` payload.
pub struct DockerConfig {
    pub auths: Vec<DockerAuthEntry>,
}

/// The model of a [`DockerAuth`].
pub struct DockerAuthView {
    pub username: Seq<char>,
    pub password: Seq<char>,
    pub auth: Seq<char>,
    pub email: Option<Seq<char>>,
}

/// The model of a [`DockerAuthEntry`].
pub struct DockerAuthEntryView {
    pub hostname: Seq<char>,
    pub auth: DockerAuthView,
}

/// The model of a [`DockerConfig`]: the entries in document order.
pub struct DockerConfigView {
    pub auths: Seq<DockerAuthEntryView>,
}

impl View for DockerAuth {
    type V = DockerAuthView;

    open spec fn view(&self) -> DockerAuthView {
        DockerAuthView {
            username: self.username@,
            password: self.password@,
            auth: self.auth@,
            email: match self.email {
                Some(e) => Some(e@),
                None => None,
            },
        }
    }
}

impl View for DockerAuthEntry {
    type V = DockerAuthEntryView;

    open spec fn view(&self) -> DockerAuthEntryView {
        DockerAuthEntryView { hostname: self.hostname@, auth: self.auth@ }
    }
}

impl View for DockerConfig {
    type V = DockerConfigView;

    open spec fn view(&self) -> DockerConfigView {
        DockerConfigView { auths: self.auths@.map_values(|e: DockerAuthEntry| e@) }
    }
}

impl DockerAuth {
    /// Assembles a credential bundle; `auth` is the pre-encoded Basic-auth
    /// value.
    pub fn new(username: String, password: SecretString, auth: SecretString, email: Option<
        String,
    >) -> (r: Self)
        ensures
            r@.username == username@,
            r@.password == password@,
            r@.auth == auth@,
            r@.email == (match email {
                Some(e) => Some::<Seq<char>>(e@),
                None => None::<Seq<char>>,
            }),
    {
        DockerAuth { username, password, auth, email }
    }
}

impl Clone for DockerAuth {
    fn clone(&self) -> (r: Self)
        ensures
            r@ == self@,
    {
        DockerAuth {
            username: self.username.clone(),
            password: self.password.clone(),
            auth: self.auth.clone(),
            email: match &self.email {
                Some(e) => Some(e.clone()),
                None => None,
            },
        }
    }
}

impl Clone for DockerAuthEntry {
    fn clone(&self) -> (r: Self)
        ensures
            r@ == self@,
    {
        DockerAuthEntry { hostname: self.hostname.clone(), auth: self.auth.clone() }
    }
}

impl Clone for DockerConfig {
    fn clone(&self) -> (r: Self)
        ensures
            r@ == self@,
    {
        let mut auths: Vec<DockerAuthEntry> = Vec::new();
        let mut i: usize = 0;
        while i < self.auths.len()
            invariant
                0 <= i <= self.auths.len(),
                auths@.len() == i as int,
                forall|j: int| 0 <= j < i ==> auths@[j]@ == self.auths@[j]@,
            decreases self.auths.len() - i,
        {
            auths.push(self.auths[i].clone());
            i = i + 1;
        }
        let r = DockerConfig { auths };
        proof {
            assert(r@.auths =~= self@.auths);
        }
        r
    }
}

/// The credential attached to a configured registry entry, or resolved for
/// a container.
pub enum RegistrySecret {
    NoAuth,
    ImagePullSecret { mount_path: String, docker_config: DockerConfig },
    Opaque { username: Option<String>, token: SecretString },
}

/// The model of a [`RegistrySecret`].
pub enum RegistrySecretView {
    NoAuth,
    ImagePullSecret { mount_path: Seq<char>, docker_config: DockerConfigView },
    Opaque { username: Option<Seq<char>>, token: Seq<char> },
}

impl View for RegistrySecret {
    type V = RegistrySecretView;

    open spec fn view(&self) -> RegistrySecretView {
        match self {
            RegistrySecret::NoAuth => RegistrySecretView::NoAuth,
            RegistrySecret::ImagePullSecret { mount_path, docker_config } => {
                RegistrySecretView::ImagePullSecret {
                    mount_path: mount_path@,
                    docker_config: docker_config@,
                }
            },
            RegistrySecret::Opaque { username, token } => {
                RegistrySecretView::Opaque {
                    username: match username {
                        Some(u) => Some(u@),
                        None => None,
                    },
                    token: token@,
                }
            },
        }
    }
}

impl Clone for RegistrySecret {
    fn clone(&self) -> (r: Self)
        ensures
            r@ == self@,
    {
        match self {
            RegistrySecret::NoAuth => RegistrySecret::NoAuth,
            RegistrySecret::ImagePullSecret { mount_path, docker_config } => {
                RegistrySecret::ImagePullSecret {
                    mount_path: mount_path.clone(),
                    docker_config: docker_config.clone(),
                }
            },
            RegistrySecret::Opaque { username, token } => {
                RegistrySecret::Opaque {
                    username: match username {
                        Some(u) => Some(u.clone()),
                        None => None,
                    },
                    token: token.clone(),
                }
            },
        }
    }
}

/// One configured registry: a hostname glob pattern and the credential to
/// use for hostnames it matches.
pub struct Registry {
    pub hostname_pattern: String,
    pub secret: RegistrySecret,
}

/// The model of a [`Registry`].
pub struct RegistryView {
    pub hostname_pattern: Seq<char>,
    pub secret: RegistrySecretView,
}

impl View for Registry {
    type V = RegistryView;

    open spec fn view(&self) -> RegistryView {
        RegistryView { hostname_pattern: self.hostname_pattern@, secret: self.secret@ }
    }
}

impl Clone for Registry {
    fn clone(&self) -> (r: Self)
        ensures
            r@ == self@,
    {
        Registry { hostname_pattern: self.hostname_pattern.clone(), secret: self.secret.clone() }
    }
}

/// The webserver settings.
#[derive(Clone, Copy, PartialEq, Eq, Structural)]
pub struct Webserver {
    pub port: u16,
}

/// Extra CA certificates to add to the registry HTTP client's trust store.
pub struct Tls {
    pub ca_certificate_paths: Vec<String>,
}

/// Optional behaviours, all off by default.
#[derive(Clone, Copy, PartialEq, Eq, Structural)]
pub struct FeatureFlags {
    pub enable_jfrog_artifactory_fallback: bool,
    pub enable_kubectl_annotation: bool,
}

impl Default for FeatureFlags {
    fn default() -> (r: Self)
        ensures
            !r.enable_jfrog_artifactory_fallback,
            !r.enable_kubectl_annotation,
    {
        FeatureFlags { enable_jfrog_artifactory_fallback: false, enable_kubectl_annotation: false }
    }
}

/// Why a configuration was rejected.
#[derive(Debug)]
pub enum ConfigError {
    InvalidHostnamePattern(String),
}

/// The model of a [`ConfigError`].
pub enum ConfigErrorView {
    InvalidHostnamePattern(Seq<char>),
}

impl View for ConfigError {
    type V = ConfigErrorView;

    open spec fn view(&self) -> ConfigErrorView {
        match self {
            ConfigError::InvalidHostnamePattern(p) => ConfigErrorView::InvalidHostnamePattern(p@),
        }
    }
}

/// The positions and mount paths of the pull-secret-backed entries of
/// `regs`, from position `i` on, in order.
pub open spec fn spec_ips_paths(regs: Seq<Registry>, i: int) -> Seq<(int, Seq<char>)>
    decreases regs.len() - i,
{
    if i < 0 || i >= regs.len() {
        Seq::empty()
    } else {
        let rest = spec_ips_paths(regs, i + 1);
        match regs[i].secret {
            RegistrySecret::ImagePullSecret { mount_path, .. } => seq![(i, mount_path@)] + rest,
            _ => rest,
        }
    }
}

/// The cron schedule used when the configuration names none.
pub fn default_cron_schedule() -> (r: String)
    ensures
        r@ == "*/45 * * * * *"@,
{
    String::from_str("*/45 * * * * *")
}

/// The application configuration. `matchers` is the compiled glob-matcher
/// set; it must stay index-aligned with `registries`, which
/// [`Config::glob_set_ok`] states and every hostname lookup requires, so
/// it is only ever rebuilt through [`Config::setup_glob_set`].
pub struct Config {
    pub cron_schedule: String,
    pub webserver: Webserver,
    pub registries: Vec<Registry>,
    pub tls: Tls,
    pub feature_flags: FeatureFlags,
    pub matchers: Vec<globset::GlobSet>,
}

impl Config {
    /// The invariant of the compiled matcher set: one matcher per
    /// configured registry, in the same order, each compiled from that
    /// registry's hostname pattern.
    pub open spec fn glob_set_ok(&self) -> bool {
        &&& self.matchers@.len() == self.registries@.len()
        &&& forall|i: int|
            0 <= i < self.registries@.len() ==> matcher_pattern(#[trigger] self.matchers@[i])
                == self.registries@[i].hostname_pattern@
    }

    /// Assembles a configuration with an empty matcher set; call
    /// [`Config::setup_glob_set`] before hostname lookups.
    pub fn new(
        cron_schedule: String,
        webserver: Webserver,
        registries: Vec<Registry>,
        tls: Tls,
        feature_flags: FeatureFlags,
    ) -> (r: Config)
        ensures
            r.cron_schedule == cron_schedule,
            r.webserver == webserver,
            r.registries == registries,
            r.tls == tls,
            r.feature_flags == feature_flags,
            registries@.len() == 0 ==> r.glob_set_ok(),
    {
        Config {
            cron_schedule,
            webserver,
            registries,
            tls,
            feature_flags,
            matchers: Vec::new(),
        }
    }

    /// Checks that every configured hostname pattern is a glob that
    /// parses and compiles.
    pub fn validate(&self) -> (r: Result<(), ConfigError>)
        ensures
            r is Ok <==> (forall|i: int|
                0 <= i < self.registries@.len() ==> glob_pattern_ok(
                    #[trigger] self.registries@[i].hostname_pattern@,
                )),
            r matches Err(e) ==> exists|i: int|
                0 <= i < self.registries@.len() && !glob_pattern_ok(
                    #[trigger] self.registries@[i].hostname_pattern@,
                ) && e@ == ConfigErrorView::InvalidHostnamePattern(
                    self.registries@[i].hostname_pattern@,
                ),
    {
        let n = self.registries.len();
        let mut i: usize = 0;
        while i < n
            invariant
                0 <= i <= n,
                n == self.registries@.len(),
                forall|j: int|
                    0 <= j < i ==> glob_pattern_ok(#[trigger] self.registries@[j].hostname_pattern@),
            decreases n - i,
        {
            if glob_compile(self.registries[i].hostname_pattern.as_str()).is_none() {
                return Err(ConfigError::InvalidHostnamePattern(
                    self.registries[i].hostname_pattern.clone(),
                ));
            }
            i = i + 1;
        }
        Ok(())
    }

    /// Rebuilds the compiled matcher set from the registry list, keeping
    /// the two index-aligned. On an invalid pattern the configuration is
    /// left unchanged.
    pub fn setup_glob_set(&mut self) -> (r: Result<(), ConfigError>)
        ensures
            final(self).cron_schedule == old(self).cron_schedule,
            final(self).webserver == old(self).webserver,
            final(self).registries == old(self).registries,
            final(self).tls == old(self).tls,
            final(self).feature_flags == old(self).feature_flags,
            r is Ok <==> (forall|i: int|
                0 <= i < old(self).registries@.len() ==> glob_pattern_ok(
                    #[trigger] old(self).registries@[i].hostname_pattern@,
                )),
            r is Ok ==> final(self).glob_set_ok(),
            r matches Err(e) ==> *final(self) == *old(self) && exists|i: int|
                0 <= i < old(self).registries@.len() && !glob_pattern_ok(
                    #[trigger] old(self).registries@[i].hostname_pattern@,
                ) && e@ == ConfigErrorView::InvalidHostnamePattern(
                    old(self).registries@[i].hostname_pattern@,
                ),
    {
        let n = self.registries.len();
        let mut ms: Vec<globset::GlobSet> = Vec::new();
        let mut i: usize = 0;
        while i < n
            invariant
                0 <= i <= n,
                n == self.registries@.len(),
                ms@.len() == i as int,
                forall|j: int|
                    0 <= j < i ==> matcher_pattern(#[trigger] ms@[j])
                        == self.registries@[j].hostname_pattern@,
                forall|j: int|
                    0 <= j < i ==> glob_pattern_ok(#[trigger] self.registries@[j].hostname_pattern@),
            decreases n - i,
        {
            match glob_compile(self.registries[i].hostname_pattern.as_str()) {
                Some(m) => {
                    ms.push(m);
                },
                None => {
                    return Err(ConfigError::InvalidHostnamePattern(
                        self.registries[i].hostname_pattern.clone(),
                    ));
                },
            }
            i = i + 1;
        }
        self.matchers = ms;
        Ok(())
    }

    /// Lists the positions and mount paths of the pull-secret-backed
    /// registry entries, in declaration order, so a caller can read each
    /// mounted `.dockerconfigjson` and install its parsed content.
    pub fn image_pull_secret_mount_paths(&self) -> (r: Vec<(usize, String)>)
        ensures
            r@.map_values(|p: (usize, String)| (p.0 as int, p.1@)) == spec_ips_paths(
                self.registries@,
                0,
            ),
    {
        let n = self.registries.len();
        let mut out: Vec<(usize, String)> = Vec::new();
        let mut i: usize = 0;
        while i < n
            invariant
                0 <= i <= n,
                n == self.registries@.len(),
                spec_ips_paths(self.registries@, 0) == out@.map_values(
                    |p: (usize, String)| (p.0 as int, p.1@),
                ) + spec_ips_paths(self.registries@, i as int),
            decreases n - i,
        {
            let ghost before = out@;
            match &self.registries[i].secret {
                RegistrySecret::ImagePullSecret { mount_path, .. } => {
                    out.push((i, mount_path.clone()));
                    proof {
                        assert(out@.map_values(|p: (usize, String)| (p.0 as int, p.1@))
                            =~= before.map_values(|p: (usize, String)| (p.0 as int, p.1@))
                            + seq![(i as int, mount_path@)]);
                        assert(before.map_values(|p: (usize, String)| (p.0 as int, p.1@))
                            + spec_ips_paths(self.registries@, i as int) =~= out@.map_values(
                            |p: (usize, String)| (p.0 as int, p.1@),
                        ) + spec_ips_paths(self.registries@, i + 1));
                    }
                },
                _ => {},
            }
            i = i + 1;
        }
        proof {
            assert(out@.map_values(|p: (usize, String)| (p.0 as int, p.1@)) + spec_ips_paths(
                self.registries@,
                n as int,
            ) =~= out@.map_values(|p: (usize, String)| (p.0 as int, p.1@)));
        }
        out
    }

    /// Replaces the parsed docker config stored under the pull-secret
    /// entry at `index`, leaving everything else (the mount path, every
    /// other entry, and the matcher set) unchanged.
    pub fn install_docker_config(&mut self, index: usize, docker_config: DockerConfig)
        requires
            index < old(self).registries@.len(),
            old(self).registries@[index as int].secret matches RegistrySecret::ImagePullSecret {
                ..
            },
        ensures
            final(self).cron_schedule == old(self).cron_schedule,
            final(self).webserver == old(self).webserver,
            final(self).tls == old(self).tls,
            final(self).feature_flags == old(self).feature_flags,
            final(self).matchers == old(self).matchers,
            final(self).registries@.len() == old(self).registries@.len(),
            forall|j: int|
                0 <= j < old(self).registries@.len() && j != index ==> final(self).registries@[j]
                    == old(self).registries@[j],
            final(self).registries@[index as int].hostname_pattern@ == old(
                self,
            ).registries@[index as int].hostname_pattern@,
            (old(self).registries@[index as int].secret@ matches RegistrySecretView::ImagePullSecret {
                mount_path,
                ..
            } && final(self).registries@[index as int].secret@
                == (RegistrySecretView::ImagePullSecret {
                mount_path,
                docker_config: docker_config@,
            })),
            old(self).glob_set_ok() ==> final(self).glob_set_ok(),
    {
        let mount_path = match &self.registries[index].secret {
            RegistrySecret::ImagePullSecret { mount_path, .. } => mount_path.clone(),
            _ => String::new(),
        };
        let pattern = self.registries[index].hostname_pattern.clone();
        self.registries[index] = Registry {
            hostname_pattern: pattern,
            secret: RegistrySecret::ImagePullSecret { mount_path, docker_config },
        };
    }

    /// Finds the first configured registry, in declaration order, whose
    /// hostname pattern matches `hostname`.
    pub fn find_registry_for_hostname<'a>(&'a self, hostname: &str) -> (r: Option<&'a Registry>)
        requires
            self.glob_set_ok(),
        ensures
            match r {
                Some(reg) => exists|i: int|
                    0 <= i < self.registries@.len() && glob_match(
                        #[trigger] self.registries@[i].hostname_pattern@,
                        hostname@,
                    ) && *reg == self.registries@[i] && (forall|j: int|
                        0 <= j < i ==> !glob_match(
                            #[trigger] self.registries@[j].hostname_pattern@,
                            hostname@,
                        )),
                None => forall|i: int|
                    0 <= i < self.registries@.len() ==> !glob_match(
                        #[trigger] self.registries@[i].hostname_pattern@,
                        hostname@,
                    ),
            },
    {
        let n = self.registries.len();
        let mut i: usize = 0;
        while i < n
            invariant
                0 <= i <= n,
                self.glob_set_ok(),
                n == self.registries@.len(),
                forall|j: int|
                    0 <= j < i ==> !glob_match(
                        #[trigger] self.registries@[j].hostname_pattern@,
                        hostname@,
                    ),
            decreases n - i,
        {
            if glob_is_match(&self.matchers[i], hostname) {
                return Some(&self.registries[i]);
            }
            i = i + 1;
        }
        None
    }
}

} // verus!
