//! The kind-polymorphic side of reconciliation: the three workload kinds,
//! the plain facts read from a listed workload, and the rollout patch
//! document that triggers a rolling restart.

use vstd::prelude::*;
use vstd::string::StringExecFns;
use crate::text::seq_contains_char;

verus! {

/// The workload kinds the controller reconciles.
#[derive(Debug, Clone, Copy, PartialEq, Eq, Structural)]
pub enum WorkloadKind {
    Deployment,
    StatefulSet,
    DaemonSet,
}

impl WorkloadKind {
    /// The kind's name as the cluster API spells it.
    pub fn kind_name(&self) -> (r: &'static str)
        ensures
            *self == WorkloadKind::Deployment ==> r@ == "Deployment"@,
            *self == WorkloadKind::StatefulSet ==> r@ == "StatefulSet"@,
            *self == WorkloadKind::DaemonSet ==> r@ == "DaemonSet"@,
    {
        match self {
            WorkloadKind::Deployment => "Deployment",
            WorkloadKind::StatefulSet => "StatefulSet",
            WorkloadKind::DaemonSet => "DaemonSet",
        }
    }
}

/// What the reconciliation reads from a workload's pod template spec.
pub struct PodSpecFacts {
    pub image_pull_secret_names: Vec<String>,
}

/// The plain facts of one listed workload: its name, its pod label
/// selector, the desired and actual replica counts of its kind, and its
/// pod template spec when present.
pub struct WorkloadFacts {
    pub name: String,
    pub selector: Vec<(String, String)>,
    pub desired_replicas: i32,
    pub actual_replicas: i32,
    pub pod_spec: Option<PodSpecFacts>,
}

impl WorkloadFacts {
    /// Whether the workload has anything running to compare against:
    /// both replica counts are positive.
    pub fn eligible(&self) -> (r: bool)
        ensures
            r == (self.desired_replicas > 0 && self.actual_replicas > 0),
    {
        self.desired_replicas > 0 && self.actual_replicas > 0
    }

    /// The pull-secret names attached to the pod template, in attachment
    /// order; empty when the workload has no pod spec.
    pub fn image_pull_secrets(&self) -> (r: Vec<String>)
        ensures
            r@.map_values(|s: String| s@) == (match self.pod_spec {
                Some(ps) => ps.image_pull_secret_names@.map_values(|s: String| s@),
                None => Seq::<Seq<char>>::empty(),
            }),
    {
        match &self.pod_spec {
            Some(ps) => {
                let n = ps.image_pull_secret_names.len();
                let mut out: Vec<String> = Vec::new();
                let mut i: usize = 0;
                while i < n
                    invariant
                        0 <= i <= n,
                        n == ps.image_pull_secret_names@.len(),
                        out@.len() == i as int,
                        forall|j: int|
                            0 <= j < i ==> out@[j]@ == ps.image_pull_secret_names@[j]@,
                    decreases n - i,
                {
                    out.push(ps.image_pull_secret_names[i].clone());
                    i = i + 1;
                }
                proof {
                    assert(out@.map_values(|s: String| s@)
                        =~= ps.image_pull_secret_names@.map_values(|s: String| s@));
                }
                out
            },
            None => Vec::new(),
        }
    }
}

/// The annotation key patched onto the pod template: the controller's
/// own key, or the conventional `kubectl` key when the compatibility
/// flag is set.
pub fn rollout_annotation_key(enable_kubectl_annotation: bool) -> (r: &'static str)
    ensures
        enable_kubectl_annotation ==> r@ == "kubectl.kubernetes.io/restartedAt"@,
        !enable_kubectl_annotation ==> r@ == "kube-autorollout/restartedAt"@,
{
    if enable_kubectl_annotation {
        "kubectl.kubernetes.io/restartedAt"
    } else {
        "kube-autorollout/restartedAt"
    }
}

/// The fixed field-manager identity used for the server-side apply.
pub fn rollout_field_manager() -> (r: &'static str)
    ensures
        r@ == "kube-autorollout"@,
{
    "kube-autorollout"
}

/// The merge-patch document that stamps `timestamp` under
/// `annotation_key` on the workload's pod template.
pub open spec fn spec_rollout_patch(annotation_key: Seq<char>, timestamp: Seq<char>) -> Seq<char> {
    "{\"spec\":{\"template\":{\"metadata\":{\"annotations\":{\""@ + annotation_key + "\":\""@
        + timestamp + "\"}}}}}"@
}

/// Builds the rollout patch document. Key and timestamp must not need
/// JSON escaping.
pub fn rollout_patch_json(annotation_key: &str, timestamp: &str) -> (r: String)
    requires
        !seq_contains_char(annotation_key@, '"'),
        !seq_contains_char(annotation_key@, '\\'),
        !seq_contains_char(timestamp@, '"'),
        !seq_contains_char(timestamp@, '\\'),
    ensures
        r@ == spec_rollout_patch(annotation_key@, timestamp@),
{
    String::from_str("{\"spec\":{\"template\":{\"metadata\":{\"annotations\":{\"").concat(
        annotation_key,
    ).concat("\":\"").concat(timestamp).concat("\"}}}}}")
}

} // verus!
