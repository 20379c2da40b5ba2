//! The topology tree that an aggregation returns, and the provider's
//! requests and answers as far as the aggregation reads them.

use vstd::prelude::*;
use crate::sorting::Ranked;
use crate::text::{
    lemma_text_le_total, lemma_text_le_transitive, opt_string_le, opt_text, opt_text_le, texts,
};

verus! {

/// A resource group as the provider describes it.
#[derive(Debug, Clone, PartialEq)]
pub struct Cluster {
    pub active_services_count: Option<i64>,
    pub cluster_arn: Option<String>,
    pub cluster_name: Option<String>,
    pub pending_tasks_count: Option<i64>,
    pub running_tasks_count: Option<i64>,
}

/// A service as the provider describes it.
#[derive(Debug, Clone, PartialEq)]
pub struct Service {
    /// The group that the service belongs to.
    pub cluster_arn: Option<String>,
    /// When the service was created: a Unix timestamp in seconds, held as
    /// the bit pattern of the 64-bit floating-point number the provider sent.
    pub created_at: Option<u64>,
    pub created_by: Option<String>,
    pub desired_count: Option<i64>,
    pub health_check_grace_period_seconds: Option<i64>,
    pub pending_count: Option<i64>,
    pub running_count: Option<i64>,
    pub service_arn: Option<String>,
    pub service_name: Option<String>,
    pub task_definition: Option<String>,
}

/// The provider's list of group identifiers.
#[derive(Debug, Clone, PartialEq)]
pub struct ListClustersResponse {
    pub cluster_arns: Option<Vec<String>>,
    pub next_token: Option<String>,
}

/// The request for the attributes of a batch of groups.
#[derive(Debug, Clone, PartialEq)]
pub struct DescribeClustersRequest {
    pub clusters: Option<Vec<String>>,
}

/// The provider's description of a batch of groups.
#[derive(Debug, Clone, PartialEq)]
pub struct DescribeClustersResponse {
    pub clusters: Option<Vec<Cluster>>,
}

/// The request for the service identifiers of one group.
#[derive(Debug, Clone, PartialEq)]
pub struct ListServicesRequest {
    pub cluster: Option<String>,
}

/// The provider's list of the service identifiers of one group.
#[derive(Debug, Clone, PartialEq)]
pub struct ListServicesResponse {
    pub service_arns: Option<Vec<String>>,
}

/// The request for the description of the services of one group.
#[derive(Debug, Clone, PartialEq)]
pub struct DescribeServicesRequest {
    pub cluster: Option<String>,
    pub services: Vec<String>,
}

/// The provider's description of the services of one group.
#[derive(Debug, Clone, PartialEq)]
pub struct DescribeServicesResponse {
    pub services: Option<Vec<Service>>,
}

/// The request for the task references of one service.
#[derive(Debug, Clone, PartialEq)]
pub struct ListTasksRequest {
    pub cluster: Option<String>,
    pub service_name: Option<String>,
}

/// The provider's list of the task references of one service.
#[derive(Debug, Clone, PartialEq)]
pub struct ListTasksResponse {
    pub task_arns: Option<Vec<String>>,
}

/// A service in the topology tree, with its task references.
#[derive(Debug, Clone, PartialEq)]
pub struct ServiceResponse {
    /// When the service was created: a Unix timestamp in seconds, held as
    /// the bit pattern of a 64-bit floating-point number.
    pub created_at: Option<u64>,
    /// The principal that created the service.
    pub created_by: Option<String>,
    /// The number of instantiations of the task definition to keep running.
    pub desired_count: Option<i64>,
    /// The seconds for which unhealthy checks are ignored after a task has started.
    pub health_check_grace_period_seconds: Option<i64>,
    pub pending_count: Option<i64>,
    /// The number of tasks in the running state.
    pub running_count: Option<i64>,
    /// The identifier of the service.
    pub service_arn: Option<String>,
    /// The name of the service.
    pub service_name: Option<String>,
    pub task_definition: Option<String>,
    pub tasks: Vec<String>,
}

/// A resource group in the topology tree, with its services.
#[derive(Debug, Clone, PartialEq)]
pub struct ClusterResponse {
    pub active_services_count: Option<i64>,
    pub cluster_arn: Option<String>,
    pub cluster_name: Option<String>,
    pub pending_tasks_count: Option<i64>,
    pub running_tasks_count: Option<i64>,
    pub services: Vec<ServiceResponse>,
}

/// The topology tree.
#[derive(Debug, Clone, PartialEq)]
pub struct ResponseWrapper {
    pub clusters: Vec<ClusterResponse>,
}

/// What a `ServiceResponse` says.
pub struct ServiceModel {
    pub created_at: Option<u64>,
    pub created_by: Option<Seq<char>>,
    pub desired_count: Option<i64>,
    pub health_check_grace_period_seconds: Option<i64>,
    pub pending_count: Option<i64>,
    pub running_count: Option<i64>,
    pub service_arn: Option<Seq<char>>,
    pub service_name: Option<Seq<char>>,
    pub task_definition: Option<Seq<char>>,
    pub tasks: Seq<Seq<char>>,
}

/// What a `ClusterResponse` says.
pub struct ClusterModel {
    pub active_services_count: Option<i64>,
    pub cluster_arn: Option<Seq<char>>,
    pub cluster_name: Option<Seq<char>>,
    pub pending_tasks_count: Option<i64>,
    pub running_tasks_count: Option<i64>,
    pub services: Seq<ServiceModel>,
}

impl View for ServiceResponse {
    type V = ServiceModel;

    open spec fn view(&self) -> ServiceModel {
        ServiceModel {
            created_at: self.created_at,
            created_by: opt_text(self.created_by),
            desired_count: self.desired_count,
            health_check_grace_period_seconds: self.health_check_grace_period_seconds,
            pending_count: self.pending_count,
            running_count: self.running_count,
            service_arn: opt_text(self.service_arn),
            service_name: opt_text(self.service_name),
            task_definition: opt_text(self.task_definition),
            tasks: texts(self.tasks@),
        }
    }
}

/// What a list of `ServiceResponse`s says.
pub open spec fn service_models(list: Seq<ServiceResponse>) -> Seq<ServiceModel> {
    list.map_values(|s: ServiceResponse| s@)
}

impl View for ClusterResponse {
    type V = ClusterModel;

    open spec fn view(&self) -> ClusterModel {
        ClusterModel {
            active_services_count: self.active_services_count,
            cluster_arn: opt_text(self.cluster_arn),
            cluster_name: opt_text(self.cluster_name),
            pending_tasks_count: self.pending_tasks_count,
            running_tasks_count: self.running_tasks_count,
            services: service_models(self.services@),
        }
    }
}

/// What a list of `ClusterResponse`s says.
pub open spec fn cluster_models(list: Seq<ClusterResponse>) -> Seq<ClusterModel> {
    list.map_values(|c: ClusterResponse| c@)
}

impl View for ResponseWrapper {
    type V = Seq<ClusterModel>;

    open spec fn view(&self) -> Seq<ClusterModel> {
        cluster_models(self.clusters@)
    }
}

/// The order of services in a group: by name, a service without name first.
pub open spec fn service_order() -> spec_fn(ServiceModel, ServiceModel) -> bool {
    |a: ServiceModel, b: ServiceModel| opt_text_le(a.service_name, b.service_name)
}

/// The order of groups in the tree: by name, a group without name first.
pub open spec fn cluster_order() -> spec_fn(ClusterModel, ClusterModel) -> bool {
    |a: ClusterModel, b: ClusterModel| opt_text_le(a.cluster_name, b.cluster_name)
}

/// The order on optional texts relates every two of them, and is transitive.
pub proof fn lemma_opt_text_le_order()
    ensures
        forall|a: Option<Seq<char>>, b: Option<Seq<char>>| #[trigger]
            opt_text_le(a, b) || opt_text_le(b, a),
        forall|a: Option<Seq<char>>, b: Option<Seq<char>>, c: Option<Seq<char>>|
            #[trigger] opt_text_le(a, b) && #[trigger] opt_text_le(b, c) ==> opt_text_le(a, c),
{
    assert forall|a: Option<Seq<char>>, b: Option<Seq<char>>| #[trigger]
        opt_text_le(a, b) || opt_text_le(b, a) by {
        if a.is_some() && b.is_some() {
            lemma_text_le_total(a.unwrap(), b.unwrap());
        }
    }
    assert forall|a: Option<Seq<char>>, b: Option<Seq<char>>, c: Option<Seq<char>>|
        #[trigger] opt_text_le(a, b) && #[trigger] opt_text_le(b, c) implies opt_text_le(a, c) by {
        if a.is_some() && b.is_some() && c.is_some() {
            lemma_text_le_transitive(a.unwrap(), b.unwrap(), c.unwrap());
        }
    }
}

impl Ranked for ServiceResponse {
    open spec fn rank_le(&self, other: &Self) -> bool {
        opt_text_le(opt_text(self.service_name), opt_text(other.service_name))
    }

    fn le(&self, other: &Self) -> (b: bool) {
        opt_string_le(&self.service_name, &other.service_name)
    }

    proof fn lemma_rank_order() {
        lemma_opt_text_le_order();
    }
}

impl Ranked for ClusterResponse {
    open spec fn rank_le(&self, other: &Self) -> bool {
        opt_text_le(opt_text(self.cluster_name), opt_text(other.cluster_name))
    }

    fn le(&self, other: &Self) -> (b: bool) {
        opt_string_le(&self.cluster_name, &other.cluster_name)
    }

    proof fn lemma_rank_order() {
        lemma_opt_text_le_order();
    }
}

} // verus!
