//! The reconciliation engine's decisions: selecting a representative
//! running pod, extracting live container image references, resolving the
//! credential for each container's registry, and deciding whether a
//! workload needs a rollout.

use vstd::prelude::*;
use vstd::string::StrSliceExecFns;
use vstd::string::StringExecFns;
use crate::config::{Config, DockerConfig, DockerConfigView, RegistrySecret, RegistrySecretView};
use crate::glob::{glob_compile, glob_is_match, glob_match, glob_pattern_ok};
use crate::image_reference::{ImageReference, ParseError, spec_parse};
use crate::state::ContainerImageReference;
use crate::text::{
    find_first, lemma_find_first_props, seq_contains_char, str_eq, str_find_first,
};

verus! {

/// What the reconciliation reads from one live container status.
pub struct ContainerStatusFacts {
    pub name: String,
    pub image: String,
    pub image_id: String,
    pub image_pull_policy: Option<String>,
}

/// What the reconciliation reads from one listed pod: its name, its
/// cluster-assigned creation timestamp (when set), and its container
/// statuses.
pub struct PodFacts {
    pub name: String,
    pub creation_timestamp: Option<i64>,
    pub container_statuses: Vec<ContainerStatusFacts>,
}

/// Why a reconciliation step failed for a pod or container.
#[derive(Debug)]
pub enum ControllerError {
    /// No listed pod had every container fully started.
    NoEligiblePod,
    /// A container's image-id carries no digest separator.
    MalformedImageId(String),
    /// A container's image string did not parse.
    ImageParse(ParseError),
}

/// The model of a [`ControllerError`].
pub enum ControllerErrorView {
    NoEligiblePod,
    MalformedImageId(Seq<char>),
    ImageParse(crate::image_reference::ParseErrorView),
}

impl View for ControllerError {
    type V = ControllerErrorView;

    open spec fn view(&self) -> ControllerErrorView {
        match self {
            ControllerError::NoEligiblePod => ControllerErrorView::NoEligiblePod,
            ControllerError::MalformedImageId(s) => ControllerErrorView::MalformedImageId(s@),
            ControllerError::ImageParse(e) => ControllerErrorView::ImageParse(e@),
        }
    }
}

/// The label that selects the workloads this controller watches.
pub fn autorollout_label() -> (r: &'static str)
    ensures
        r@ == "kube-autorollout/enabled=true"@,
{
    "kube-autorollout/enabled=true"
}

/// Order on optional creation timestamps: an absent timestamp sorts
/// before every present one.
pub open spec fn ts_le(a: Option<i64>, b: Option<i64>) -> bool {
    match a {
        None => true,
        Some(x) => match b {
            Some(y) => x <= y,
            None => false,
        },
    }
}

fn ts_gt(a: &Option<i64>, b: &Option<i64>) -> (r: bool)
    ensures
        r == !ts_le(*a, *b),
{
    match a {
        None => false,
        Some(x) => match b {
            Some(y) => *x > *y,
            None => true,
        },
    }
}

/// A pod is eligible for digest comparison when every container status
/// reports a non-empty image-id, that is, every container has started.
pub open spec fn pod_eligible(p: PodFacts) -> bool {
    forall|i: int|
        0 <= i < p.container_statuses@.len() ==> (#[trigger] p.container_statuses@[i]).image_id@.len()
            > 0
}

fn pod_is_eligible(p: &PodFacts) -> (r: bool)
    ensures
        r == pod_eligible(*p),
{
    let n = p.container_statuses.len();
    let mut i: usize = 0;
    while i < n
        invariant
            0 <= i <= n,
            n == p.container_statuses@.len(),
            forall|j: int|
                0 <= j < i ==> (#[trigger] p.container_statuses@[j]).image_id@.len() > 0,
        decreases n - i,
    {
        if p.container_statuses[i].image_id.as_str().is_empty() {
            return false;
        }
        i = i + 1;
    }
    true
}

/// Selects the representative pod: among the pods whose containers have
/// all started, the one with the most recent creation timestamp (ties
/// broken arbitrarily). Returns its index.
pub fn get_associated_pod(pods: &Vec<PodFacts>) -> (r: Result<usize, ControllerError>)
    ensures
        match r {
            Ok(i) => 0 <= i < pods@.len() && pod_eligible(pods@[i as int]) && (forall|j: int|
                0 <= j < pods@.len() && pod_eligible(#[trigger] pods@[j]) ==> ts_le(
                    pods@[j].creation_timestamp,
                    pods@[i as int].creation_timestamp,
                )),
            Err(e) => e@ == ControllerErrorView::NoEligiblePod && (forall|j: int|
                0 <= j < pods@.len() ==> !pod_eligible(#[trigger] pods@[j])),
        },
{
    let n = pods.len();
    let mut best: Option<usize> = None;
    let mut i: usize = 0;
    while i < n
        invariant
            0 <= i <= n,
            n == pods@.len(),
            match best {
                None => forall|j: int| 0 <= j < i ==> !pod_eligible(#[trigger] pods@[j]),
                Some(b) => 0 <= b < i && pod_eligible(pods@[b as int]) && (forall|j: int|
                    0 <= j < i && pod_eligible(#[trigger] pods@[j]) ==> ts_le(
                        pods@[j].creation_timestamp,
                        pods@[b as int].creation_timestamp,
                    )),
            },
        decreases n - i,
    {
        if pod_is_eligible(&pods[i]) {
            match best {
                None => {
                    best = Some(i);
                },
                Some(b) => {
                    if ts_gt(&pods[i].creation_timestamp, &pods[b].creation_timestamp) {
                        best = Some(i);
                    }
                },
            }
        }
        i = i + 1;
    }
    match best {
        Some(b) => Ok(b),
        None => Err(ControllerError::NoEligiblePod),
    }
}

/// The digest part of a runtime image-id: everything after the first `@`.
pub open spec fn spec_digest_of_image_id(s: Seq<char>) -> Seq<char> {
    let a = find_first(s, '@');
    if 0 <= a < s.len() {
        s.subrange(a + 1, s.len() as int)
    } else {
        s
    }
}

/// Whether one container status yields a usable image reference: its
/// image string parses and its image-id carries a digest separator.
pub open spec fn container_status_parses(cs: ContainerStatusFacts) -> bool {
    spec_parse(cs.image@) is Ok && seq_contains_char(cs.image_id@, '@')
}

/// The error a failing container status yields: the parse error of its
/// image string, or the malformed image-id.
pub open spec fn spec_container_status_error(cs: ContainerStatusFacts) -> ControllerErrorView {
    match spec_parse(cs.image@) {
        Err(pe) => ControllerErrorView::ImageParse(pe),
        Ok(_) => ControllerErrorView::MalformedImageId(cs.image_id@),
    }
}

/// Extracts the parsed image reference and live digest from one
/// container status.
pub fn get_container_image_reference(container_status: &ContainerStatusFacts) -> (r: Result<
    ContainerImageReference,
    ControllerError,
>)
    ensures
        match r {
            Ok(cir) => container_status_parses(*container_status) && cir.container_name@
                == container_status.name@ && (spec_parse(container_status.image@) matches Ok(v)
                && cir.image_reference@ == v) && cir.digest@ == spec_digest_of_image_id(
                container_status.image_id@,
            ),
            Err(e) => !container_status_parses(*container_status) && e@
                == spec_container_status_error(*container_status),
        },
{
    let image_reference = match ImageReference::parse(container_status.image.as_str()) {
        Ok(ir) => ir,
        Err(pe) => {
            return Err(ControllerError::ImageParse(pe));
        },
    };
    let image_id = container_status.image_id.as_str();
    let n = image_id.unicode_len();
    match str_find_first(image_id, '@') {
        Some(a) => {
            proof {
                lemma_find_first_props(image_id@, '@');
            }
            let digest = image_id.substring_char(a + 1, n).to_owned();
            Ok(
                ContainerImageReference {
                    container_name: container_status.name.clone(),
                    image_reference,
                    digest,
                },
            )
        },
        None => {
            proof {
                lemma_find_first_props(image_id@, '@');
            }
            Err(ControllerError::MalformedImageId(container_status.image_id.clone()))
        },
    }
}

/// Extracts a [`ContainerImageReference`] for every container status of
/// the pod; the first failing container fails the pod.
pub fn get_pod_container_image_references(pod: &PodFacts) -> (r: Result<
    Vec<ContainerImageReference>,
    ControllerError,
>)
    ensures
        match r {
            Ok(refs) => refs@.len() == pod.container_statuses@.len() && (forall|k: int|
                0 <= k < refs@.len() ==> container_status_parses(
                    #[trigger] pod.container_statuses@[k],
                ) && refs@[k].container_name@ == pod.container_statuses@[k].name@
                    && (spec_parse(pod.container_statuses@[k].image@) matches Ok(v)
                    && refs@[k].image_reference@ == v) && refs@[k].digest@
                    == spec_digest_of_image_id(pod.container_statuses@[k].image_id@)),
            Err(e) => exists|k: int|
                0 <= k < pod.container_statuses@.len() && !container_status_parses(
                    #[trigger] pod.container_statuses@[k],
                ) && e@ == spec_container_status_error(pod.container_statuses@[k]) && (forall|
                    j: int,
                |
                    0 <= j < k ==> container_status_parses(#[trigger] pod.container_statuses@[j])),
        },
{
    let n = pod.container_statuses.len();
    let mut refs: Vec<ContainerImageReference> = Vec::new();
    let mut i: usize = 0;
    while i < n
        invariant
            0 <= i <= n,
            n == pod.container_statuses@.len(),
            refs@.len() == i as int,
            forall|k: int|
                0 <= k < i ==> container_status_parses(#[trigger] pod.container_statuses@[k])
                    && refs@[k].container_name@ == pod.container_statuses@[k].name@ && (spec_parse(
                    pod.container_statuses@[k].image@,
                ) matches Ok(v) && refs@[k].image_reference@ == v) && refs@[k].digest@
                    == spec_digest_of_image_id(pod.container_statuses@[k].image_id@),
        decreases n - i,
    {
        match get_container_image_reference(&pod.container_statuses[i]) {
            Ok(cir) => {
                refs.push(cir);
            },
            Err(e) => {
                return Err(e);
            },
        }
        i = i + 1;
    }
    Ok(refs)
}

/// The names of the containers whose image pull policy is not `Always`,
/// in pod order; such containers never see a new digest without a
/// restart, so the controller warns about them.
pub open spec fn spec_misconfigured_from(s: Seq<ContainerStatusFacts>, i: int) -> Seq<Seq<char>>
    decreases s.len() - i,
{
    if i < 0 || i >= s.len() {
        Seq::empty()
    } else {
        let rest = spec_misconfigured_from(s, i + 1);
        if s[i].image_pull_policy matches Some(p) && p@ == "Always"@ {
            rest
        } else {
            seq![s[i].name@] + rest
        }
    }
}

/// Lists the containers of the pod whose image pull policy is missing or
/// not `Always`.
pub fn misconfigured_image_pull_policy_containers(pod: &PodFacts) -> (r: Vec<String>)
    ensures
        r@.map_values(|x: String| x@) == spec_misconfigured_from(pod.container_statuses@, 0),
{
    let n = pod.container_statuses.len();
    let mut out: Vec<String> = Vec::new();
    let mut i: usize = 0;
    while i < n
        invariant
            0 <= i <= n,
            n == pod.container_statuses@.len(),
            spec_misconfigured_from(pod.container_statuses@, 0) == out@.map_values(|x: String| x@)
                + spec_misconfigured_from(pod.container_statuses@, i as int),
        decreases n - i,
    {
        let cs = &pod.container_statuses[i];
        let keep = match &cs.image_pull_policy {
            Some(p) => !str_eq(p.as_str(), "Always"),
            None => true,
        };
        let ghost before = out@;
        if keep {
            out.push(cs.name.clone());
        }
        proof {
            let s = pod.container_statuses@;
            if keep {
                assert(out@.map_values(|x: String| x@) =~= before.map_values(|x: String| x@)
                    + seq![s[i as int].name@]);
                assert(before.map_values(|x: String| x@) + spec_misconfigured_from(s, i as int)
                    =~= out@.map_values(|x: String| x@) + spec_misconfigured_from(s, i + 1));
            }
        }
        i = i + 1;
    }
    proof {
        assert(out@.map_values(|x: String| x@) + spec_misconfigured_from(
            pod.container_statuses@,
            n as int,
        ) =~= out@.map_values(|x: String| x@));
    }
    out
}

/// The label selector string for a workload's selector pairs:
/// `key=value` terms joined with commas, in the given order.
pub open spec fn spec_join_selector_from(pairs: Seq<(Seq<char>, Seq<char>)>, i: int) -> Seq<char>
    decreases pairs.len() - i,
{
    if i < 0 || i >= pairs.len() {
        Seq::empty()
    } else if i == pairs.len() - 1 {
        pairs[i].0 + "="@ + pairs[i].1
    } else {
        pairs[i].0 + "="@ + pairs[i].1 + ","@ + spec_join_selector_from(pairs, i + 1)
    }
}

/// The pairs as character sequences.
pub open spec fn selector_view(pairs: Seq<(String, String)>) -> Seq<(Seq<char>, Seq<char>)> {
    pairs.map_values(|p: (String, String)| (p.0@, p.1@))
}

fn build_label_selector_from(pairs: &Vec<(String, String)>, i: usize) -> (r: String)
    requires
        i <= pairs@.len(),
    ensures
        r@ == spec_join_selector_from(selector_view(pairs@), i as int),
    decreases pairs@.len() - i,
{
    if i >= pairs.len() {
        String::new()
    } else if i == pairs.len() - 1 {
        String::from_str(pairs[i].0.as_str()).concat("=").concat(pairs[i].1.as_str())
    } else {
        let rest = build_label_selector_from(pairs, i + 1);
        String::from_str(pairs[i].0.as_str()).concat("=").concat(pairs[i].1.as_str()).concat(
            ",",
        ).concat(rest.as_str())
    }
}

/// Builds the pod list selector string `k1=v1,k2=v2,...` from a
/// workload's selector pairs.
pub fn build_label_selector(pairs: &Vec<(String, String)>) -> (r: String)
    ensures
        r@ == spec_join_selector_from(selector_view(pairs@), 0),
{
    build_label_selector_from(pairs, 0)
}

/// `s` with every leading occurrence of `p` removed.
pub open spec fn spec_strip_repeated(s: Seq<char>, p: Seq<char>) -> Seq<char>
    decreases s.len(),
{
    if p.len() > 0 && s.len() >= p.len() && s.subrange(0, p.len() as int) == p {
        spec_strip_repeated(s.subrange(p.len() as int, s.len() as int), p)
    } else {
        s
    }
}

/// A registry hostname normalized for pull-secret matching: scheme
/// prefixes are stripped, and the bare Docker Hub alias becomes the
/// wildcard form that also covers its wire hostname.
pub open spec fn spec_normalize_registry(s: Seq<char>) -> Seq<char> {
    let t = spec_strip_repeated(spec_strip_repeated(s, "https://"@), "http://"@);
    if t == "docker.io"@ {
        "*.docker.io"@
    } else {
        t
    }
}

fn has_prefix_at(s: &str, idx: usize, p: &str) -> (r: bool)
    requires
        idx <= s@.len(),
    ensures
        r == (idx + p@.len() <= s@.len() && s@.subrange(idx as int, idx + p@.len()) == p@),
{
    let n = s.unicode_len();
    let pl = p.unicode_len();
    if pl > n - idx {
        return false;
    }
    let mut k: usize = 0;
    while k < pl
        invariant
            0 <= k <= pl,
            idx + pl <= n,
            n == s@.len(),
            pl == p@.len(),
            forall|j: int| 0 <= j < k ==> s@[idx + j] == p@[j],
        decreases pl - k,
    {
        if s.get_char(idx + k) != p.get_char(k) {
            proof {
                if s@.subrange(idx as int, idx + pl) == p@ {
                    assert(s@.subrange(idx as int, idx + pl)[k as int] == p@[k as int]);
                }
            }
            return false;
        }
        k = k + 1;
    }
    proof {
        assert(s@.subrange(idx as int, idx + pl) =~= p@);
    }
    true
}

fn strip_repeated_from(s: &str, from: usize, p: &str) -> (r: usize)
    requires
        from <= s@.len(),
        p@.len() > 0,
    ensures
        from <= r <= s@.len(),
        spec_strip_repeated(s@.subrange(from as int, s@.len() as int), p@) == s@.subrange(
            r as int,
            s@.len() as int,
        ),
{
    let n = s.unicode_len();
    let pl = p.unicode_len();
    let mut idx: usize = from;
    let mut go = has_prefix_at(s, idx, p);
    while go
        invariant
            from <= idx <= n,
            n == s@.len(),
            pl == p@.len(),
            p@.len() > 0,
            go == (idx + pl <= n && s@.subrange(idx as int, idx + pl as int) == p@),
            spec_strip_repeated(s@.subrange(from as int, n as int), p@) == spec_strip_repeated(
                s@.subrange(idx as int, n as int),
                p@,
            ),
        decreases n - idx,
    {
        proof {
            let cur = s@.subrange(idx as int, n as int);
            assert(cur.subrange(0, pl as int) =~= s@.subrange(idx as int, idx + pl as int));
            assert(cur.subrange(pl as int, cur.len() as int) =~= s@.subrange(
                (idx + pl) as int,
                n as int,
            ));
        }
        idx = idx + pl;
        go = has_prefix_at(s, idx, p);
    }
    proof {
        let cur = s@.subrange(idx as int, n as int);
        if cur.len() >= pl && cur.subrange(0, pl as int) == p@ {
            assert(s@.subrange(idx as int, idx + pl as int) =~= cur.subrange(0, pl as int));
        }
    }
    idx
}

/// Normalizes a registry hostname for pull-secret matching: strips
/// `https://` then `http://` prefixes, and rewrites the bare `docker.io`
/// alias to `*.docker.io`.
pub fn normalize_image_registry_name(registry_name: &str) -> (r: String)
    ensures
        r@ == spec_normalize_registry(registry_name@),
{
    let n = registry_name.unicode_len();
    proof {
        reveal_strlit("https://");
        reveal_strlit("http://");
        assert(registry_name@.subrange(0, n as int) =~= registry_name@);
    }
    let i1 = strip_repeated_from(registry_name, 0, "https://");
    let i2 = strip_repeated_from(registry_name, i1, "http://");
    let t = registry_name.substring_char(i2, n);
    if str_eq(t, "docker.io") {
        String::from_str("*.docker.io")
    } else {
        t.to_owned()
    }
}

/// Why credential resolution failed.
#[derive(Debug)]
pub enum ResolveError {
    /// A stored hostname pattern was not a well-formed glob.
    InvalidHostnamePattern(String),
    /// Neither the attached pull secrets nor the static configuration
    /// matched the registry.
    NoMatchingCredential,
}

/// The model of a [`ResolveError`].
pub enum ResolveErrorView {
    InvalidHostnamePattern(Seq<char>),
    NoMatchingCredential,
}

impl View for ResolveError {
    type V = ResolveErrorView;

    open spec fn view(&self) -> ResolveErrorView {
        match self {
            ResolveError::InvalidHostnamePattern(p) => ResolveErrorView::InvalidHostnamePattern(
                p@,
            ),
            ResolveError::NoMatchingCredential => ResolveErrorView::NoMatchingCredential,
        }
    }
}

/// The outcome of scanning one pull secret's auth entries, in stored
/// order, against a normalized hostname.
pub enum SecretScan {
    /// The first entry whose normalized pattern is not a well-formed
    /// glob, before any entry matched.
    Invalid(Seq<char>),
    /// Some entry matched.
    Found,
    /// Every entry compiled and none matched.
    NotFound,
}

/// The outcome of scanning a list of pull secrets in attachment order:
/// the index of the first secret with a matching entry, the first
/// invalid pattern encountered, or no match at all.
pub enum SecretsScan {
    Invalid(Seq<char>),
    Found(int),
    NotFound,
}

/// Scans one secret's auth entries in order; an invalid pattern stops
/// the scan, a match wins.
pub open spec fn secret_scan(
    auths: Seq<crate::config::DockerAuthEntryView>,
    host: Seq<char>,
) -> SecretScan
    decreases auths.len(),
{
    if auths.len() == 0 {
        SecretScan::NotFound
    } else {
        let pat = spec_normalize_registry(auths[0].hostname);
        if !glob_pattern_ok(pat) {
            SecretScan::Invalid(pat)
        } else if glob_match(pat, host) {
            SecretScan::Found
        } else {
            secret_scan(auths.drop_first(), host)
        }
    }
}

/// Scans the attached secrets in order, each by [`secret_scan`].
pub open spec fn secrets_scan(secrets: Seq<DockerConfigView>, host: Seq<char>) -> SecretsScan
    decreases secrets.len(),
{
    if secrets.len() == 0 {
        SecretsScan::NotFound
    } else {
        match secret_scan(secrets[0].auths, host) {
            SecretScan::Invalid(p) => SecretsScan::Invalid(p),
            SecretScan::Found => SecretsScan::Found(0),
            SecretScan::NotFound => match secrets_scan(secrets.drop_first(), host) {
                SecretsScan::Found(i) => SecretsScan::Found(i + 1),
                SecretsScan::Invalid(p) => SecretsScan::Invalid(p),
                SecretsScan::NotFound => SecretsScan::NotFound,
            },
        }
    }
}

proof fn lemma_secret_scan_skip(
    auths: Seq<crate::config::DockerAuthEntryView>,
    host: Seq<char>,
    k: int,
)
    requires
        0 <= k <= auths.len(),
        forall|j: int|
            0 <= j < k ==> glob_pattern_ok(spec_normalize_registry(
                (#[trigger] auths[j]).hostname,
            )) && !glob_match(spec_normalize_registry(auths[j].hostname), host),
    ensures
        secret_scan(auths, host) == secret_scan(auths.subrange(k, auths.len() as int), host),
    decreases k,
{
    if k == 0 {
        assert(auths.subrange(0, auths.len() as int) =~= auths);
    } else {
        let t = auths.drop_first();
        lemma_secret_scan_skip(t, host, k - 1);
        assert(t.subrange(k - 1, t.len() as int) =~= auths.subrange(k, auths.len() as int));
    }
}

proof fn lemma_secrets_scan_skip(secrets: Seq<DockerConfigView>, host: Seq<char>, i: int)
    requires
        0 <= i <= secrets.len(),
        forall|j: int|
            0 <= j < i ==> secret_scan((#[trigger] secrets[j]).auths, host)
                == SecretScan::NotFound,
    ensures
        secrets_scan(secrets, host) == (match secrets_scan(
            secrets.subrange(i, secrets.len() as int),
            host,
        ) {
            SecretsScan::Found(x) => SecretsScan::Found(i + x),
            SecretsScan::Invalid(p) => SecretsScan::Invalid(p),
            SecretsScan::NotFound => SecretsScan::NotFound,
        }),
    decreases i,
{
    if i == 0 {
        assert(secrets.subrange(0, secrets.len() as int) =~= secrets);
    } else {
        let t = secrets.drop_first();
        lemma_secrets_scan_skip(t, host, i - 1);
        assert(t.subrange(i - 1, t.len() as int) =~= secrets.subrange(i, secrets.len() as int));
    }
}

/// Resolves a credential from the workload's attached pull secrets: the
/// entries of each secret are tried in stored order, each normalized and
/// glob-matched against the normalized registry hostname; the first
/// matching secret wins, an invalid stored pattern fails the search.
pub fn find_matching_image_pull_secret(
    image_pull_secrets: &Vec<DockerConfig>,
    container_image_reference: &ContainerImageReference,
) -> (r: Result<RegistrySecret, ResolveError>)
    ensures
        ({
            let sv = image_pull_secrets@.map_values(|c: DockerConfig| c@);
            let host = spec_normalize_registry(
                container_image_reference.image_reference.registry@,
            );
            match secrets_scan(sv, host) {
                SecretsScan::Found(i) => r matches Ok(s) && s@
                    == (RegistrySecretView::ImagePullSecret {
                    mount_path: Seq::empty(),
                    docker_config: sv[i],
                }),
                SecretsScan::Invalid(p) => r matches Err(e) && e@
                    == ResolveErrorView::InvalidHostnamePattern(p),
                SecretsScan::NotFound => r matches Err(e) && e@
                    == ResolveErrorView::NoMatchingCredential,
            }
        }),
{
    let ghost sv = image_pull_secrets@.map_values(|c: DockerConfig| c@);
    let ghost host = spec_normalize_registry(container_image_reference.image_reference.registry@);
    let host_norm = normalize_image_registry_name(
        container_image_reference.image_reference.registry.as_str(),
    );
    let ns = image_pull_secrets.len();
    let mut i: usize = 0;
    while i < ns
        invariant
            0 <= i <= ns,
            ns == image_pull_secrets@.len(),
            sv == image_pull_secrets@.map_values(|c: DockerConfig| c@),
            host == spec_normalize_registry(container_image_reference.image_reference.registry@),
            host_norm@ == host,
            forall|j: int|
                0 <= j < i ==> secret_scan((#[trigger] sv[j]).auths, host)
                    == SecretScan::NotFound,
        decreases ns - i,
    {
        let dc = &image_pull_secrets[i];
        let na = dc.auths.len();
        let mut k: usize = 0;
        while k < na
            invariant
                0 <= k <= na,
                0 <= i < ns,
                ns == image_pull_secrets@.len(),
                na == dc.auths@.len(),
                dc == &image_pull_secrets@[i as int],
                sv == image_pull_secrets@.map_values(|c: DockerConfig| c@),
                host == spec_normalize_registry(
                    container_image_reference.image_reference.registry@,
                ),
                host_norm@ == host,
                sv[i as int].auths == dc@.auths,
                forall|j: int|
                    0 <= j < i ==> secret_scan((#[trigger] sv[j]).auths, host)
                        == SecretScan::NotFound,
                forall|j: int|
                    0 <= j < k ==> glob_pattern_ok(spec_normalize_registry(
                        (#[trigger] sv[i as int].auths[j]).hostname,
                    )) && !glob_match(
                        spec_normalize_registry(sv[i as int].auths[j].hostname),
                        host,
                    ),
            decreases na - k,
        {
            let pat = normalize_image_registry_name(dc.auths[k].hostname.as_str());
            proof {
                assert(sv[i as int].auths[k as int] == dc.auths@[k as int]@);
                assert(pat@ == spec_normalize_registry(sv[i as int].auths[k as int].hostname));
            }
            match glob_compile(pat.as_str()) {
                None => {
                    proof {
                        lemma_secret_scan_skip(sv[i as int].auths, host, k as int);
                        lemma_secrets_scan_skip(sv, host, i as int);
                        assert(sv.subrange(i as int, sv.len() as int)[0] == sv[i as int]);
                        assert(sv.subrange(i as int, sv.len() as int).drop_first()
                            =~= sv.subrange(i + 1, sv.len() as int));
                        assert(sv[i as int].auths.subrange(k as int, sv[i as int].auths.len() as int)[0]
                            == sv[i as int].auths[k as int]);
                    }
                    return Err(ResolveError::InvalidHostnamePattern(pat));
                },
                Some(m) => {
                    if glob_is_match(&m, host_norm.as_str()) {
                        proof {
                            lemma_secret_scan_skip(sv[i as int].auths, host, k as int);
                            lemma_secrets_scan_skip(sv, host, i as int);
                            assert(sv.subrange(i as int, sv.len() as int)[0] == sv[i as int]);
                            assert(sv[i as int].auths.subrange(
                                k as int,
                                sv[i as int].auths.len() as int,
                            )[0] == sv[i as int].auths[k as int]);
                        }
                        return Ok(
                            RegistrySecret::ImagePullSecret {
                                mount_path: String::new(),
                                docker_config: dc.clone(),
                            },
                        );
                    }
                },
            }
            k = k + 1;
        }
        proof {
            lemma_secret_scan_skip(sv[i as int].auths, host, na as int);
            assert(sv[i as int].auths.subrange(na as int, sv[i as int].auths.len() as int).len()
                == 0);
        }
        i = i + 1;
    }
    proof {
        lemma_secrets_scan_skip(sv, host, ns as int);
        assert(sv.subrange(ns as int, sv.len() as int).len() == 0);
    }
    Err(ResolveError::NoMatchingCredential)
}

/// Resolves a credential from the static configuration: the first
/// configured registry whose pattern matches the (unnormalized) registry
/// hostname.
pub fn get_registry_secret_from_config(config: &Config, reference: &ContainerImageReference) -> (r:
    Result<RegistrySecret, ResolveError>)
    requires
        config.glob_set_ok(),
    ensures
        match r {
            Ok(s) => exists|i: int|
                0 <= i < config.registries@.len() && glob_match(
                    #[trigger] config.registries@[i].hostname_pattern@,
                    reference.image_reference.registry@,
                ) && s@ == config.registries@[i].secret@ && (forall|j: int|
                    0 <= j < i ==> !glob_match(
                        #[trigger] config.registries@[j].hostname_pattern@,
                        reference.image_reference.registry@,
                    )),
            Err(e) => e@ == ResolveErrorView::NoMatchingCredential && (forall|i: int|
                0 <= i < config.registries@.len() ==> !glob_match(
                    #[trigger] config.registries@[i].hostname_pattern@,
                    reference.image_reference.registry@,
                )),
        },
{
    match config.find_registry_for_hostname(reference.image_reference.registry.as_str()) {
        Some(reg) => Ok(reg.secret.clone()),
        None => Err(ResolveError::NoMatchingCredential),
    }
}

/// Resolves the credential for a container in strict precedence order:
/// workload pull secrets first; on any pull-secret failure, the static
/// configuration; otherwise no matching credential.
pub fn resolve_credential(
    image_pull_secrets: &Vec<DockerConfig>,
    config: &Config,
    reference: &ContainerImageReference,
) -> (r: Result<RegistrySecret, ResolveError>)
    requires
        config.glob_set_ok(),
    ensures
        ({
            let sv = image_pull_secrets@.map_values(|c: DockerConfig| c@);
            let host = spec_normalize_registry(reference.image_reference.registry@);
            secrets_scan(sv, host) matches SecretsScan::Found(i) ==> (r matches Ok(s) && s@
                == (RegistrySecretView::ImagePullSecret {
                mount_path: Seq::empty(),
                docker_config: sv[i],
            }))
        }),
        ({
            let sv = image_pull_secrets@.map_values(|c: DockerConfig| c@);
            let host = spec_normalize_registry(reference.image_reference.registry@);
            !(secrets_scan(sv, host) is Found) ==> (match r {
                Ok(s) => exists|i: int|
                    0 <= i < config.registries@.len() && glob_match(
                        #[trigger] config.registries@[i].hostname_pattern@,
                        reference.image_reference.registry@,
                    ) && s@ == config.registries@[i].secret@ && (forall|j: int|
                        0 <= j < i ==> !glob_match(
                            #[trigger] config.registries@[j].hostname_pattern@,
                            reference.image_reference.registry@,
                        )),
                Err(e) => e@ == ResolveErrorView::NoMatchingCredential && (forall|i: int|
                    0 <= i < config.registries@.len() ==> !glob_match(
                        #[trigger] config.registries@[i].hostname_pattern@,
                        reference.image_reference.registry@,
                    )),
            })
        }),
{
    match find_matching_image_pull_secret(image_pull_secrets, reference) {
        Ok(s) => Ok(s),
        Err(_) => get_registry_secret_from_config(config, reference),
    }
}

/// Whether a workload must be restarted: the registry's current digest
/// differs from the live one.
pub fn should_trigger_rollout(live_digest: &str, recent_digest: &str) -> (r: bool)
    ensures
        r == (live_digest@ != recent_digest@),
{
    !str_eq(live_digest, recent_digest)
}

} // verus!
