//! The aggregation of the topology tree: what each stage asks of the
//! provider, what it keeps of the answers, and how the tree is put together.
//!
//! The calls themselves are made elsewhere. A stage hands out the requests
//! to send, and takes the outcomes, each with the key it belongs to. An
//! outcome that failed costs the tree the branch it would have filled, and
//! nothing more.

use vstd::prelude::*;
use crate::error::{ErrorKind, ServiceError};
use crate::outside::keep_oks;
use crate::seqs::{filter_map, lemma_filter_map_push, oks};
use crate::sorting::{lemma_stable_sorted_map, rank_order, sort_by_rank, stable_sorted};
use crate::text::{contains, contains_text, copy_text, copy_texts, opt_text, texts};
use crate::text_map::{assoc_from, assoc_get, keyed, TextMap};
use self::dto::{
    cluster_models, cluster_order, service_models, service_order, Cluster, ClusterModel,
    ClusterResponse, DescribeClustersRequest, DescribeClustersResponse, DescribeServicesRequest,
    DescribeServicesResponse, ListClustersResponse, ListServicesRequest, ListServicesResponse,
    ListTasksRequest,
    ListTasksResponse, ResponseWrapper, Service, ServiceModel, ServiceResponse,
};

pub mod dto;

verus! {

/// The outcome of one call of a stage: the answer with the key it belongs
/// to, or the failure of the call.
pub type Outcome<V> = Result<(String, V), ServiceError>;

/// The lists of groups that came back from the accounts that were asked,
/// in order. An account whose call failed adds nothing.
pub fn _iterate_clients(outcomes: Vec<Result<ListClustersResponse, ServiceError>>) -> (result: Result<
    Vec<ListClustersResponse>,
    ServiceError,
>)
    ensures
        result matches Ok(kept) && kept@ == oks(outcomes@),
{
    Ok(keep_oks(outcomes))
}

/// The request for the attributes of all groups at once.
pub fn describe_clusters(clusters: &Option<Vec<String>>) -> (request: DescribeClustersRequest)
    ensures
        match *clusters {
            Some(list) => request.clusters.is_some() && request.clusters.unwrap()@ == list@,
            None => request.clusters.is_none(),
        },
{
    match clusters {
        Some(list) => DescribeClustersRequest { clusters: Some(copy_texts(list)) },
        None => DescribeClustersRequest { clusters: None },
    }
}

/// The request for the service identifiers of the group `cluster`.
pub open spec fn list_services_request(cluster: String) -> ListServicesRequest {
    ListServicesRequest { cluster: Some(cluster) }
}

/// The requests for the service identifiers of each group, in the order of
/// the groups. Without a list of groups the aggregation cannot go on.
pub fn get_services_requests(clusters: &Option<Vec<String>>) -> (result: Result<
    Vec<ListServicesRequest>,
    ServiceError,
>)
    ensures
        match *clusters {
            Some(list) => {
                &&& result.is_ok()
                &&& result.unwrap()@ == list@.map_values(|c: String| list_services_request(c))
            },
            None => {
                &&& result.is_err()
                &&& result.unwrap_err().kind == ErrorKind::AggregationFatal
                &&& result.unwrap_err().message@ == "Failed to take ownership of clusters"@
            },
        },
{
    match clusters {
        None => Err(
            ServiceError::of(ErrorKind::AggregationFatal, "Failed to take ownership of clusters"),
        ),
        Some(list) => {
            let mut requests: Vec<ListServicesRequest> = Vec::new();
            let mut i: usize = 0;
            while i < list.len()
                invariant
                    i <= list.len(),
                    requests@.len() == i,
                    forall|j: int| 0 <= j < i ==> requests@[j] == list_services_request(list@[j]),
                decreases list.len() - i,
            {
                requests.push(ListServicesRequest { cluster: Some(list[i].clone()) });
                i = i + 1;
            }
            assert(requests@ =~= list@.map_values(|c: String| list_services_request(c)));
            Ok(requests)
        },
    }
}

/// The service identifiers of each group whose list came back. A group
/// whose call failed has no entry.
pub fn get_services(outcomes: Vec<Outcome<ListServicesResponse>>) -> (listed: TextMap<
    ListServicesResponse,
>)
    ensures
        listed@ == assoc_from(keyed(oks(outcomes@))),
{
    TextMap::from_pairs(keep_oks(outcomes))
}

/// The request for the description of the services of one group, if the
/// group has any.
pub open spec fn describe_services_request(entry: (Seq<char>, ListServicesResponse)) -> Option<
    (Seq<char>, Seq<String>)
> {
    match entry.1.service_arns {
        Some(arns) => if arns@.len() > 0 {
            Some((entry.0, arns@))
        } else {
            None
        },
        None => None,
    }
}

/// The group and the services that a request names.
pub open spec fn described_by(request: DescribeServicesRequest) -> (Seq<char>, Seq<String>) {
    (opt_text(request.cluster).unwrap(), request.services@)
}

/// The requests for the description of services: one for each group that
/// has a service, in the order of the groups, naming all its services.
pub fn describe_services_requests(services: &TextMap<ListServicesResponse>) -> (requests: Vec<
    DescribeServicesRequest,
>)
    ensures
        forall|k: int| 0 <= k < requests@.len() ==> (#[trigger] requests@[k]).cluster.is_some(),
        requests@.map_values(|r: DescribeServicesRequest| described_by(r)) == filter_map(
            services@,
            |e: (Seq<char>, ListServicesResponse)| describe_services_request(e),
        ),
{
    let ghost f = |e: (Seq<char>, ListServicesResponse)| describe_services_request(e);
    let ghost g = |r: DescribeServicesRequest| described_by(r);
    let mut requests: Vec<DescribeServicesRequest> = Vec::new();
    let n = services.len();
    let mut i: usize = 0;
    assert(services@.subrange(0, 0) =~= Seq::empty());
    assert(requests@.map_values(g) =~= Seq::empty());
    while i < n
        invariant
            i <= n,
            n == services@.len(),
            f == |e: (Seq<char>, ListServicesResponse)| describe_services_request(e),
            g == |r: DescribeServicesRequest| described_by(r),
            forall|k: int| 0 <= k < requests@.len() ==> (#[trigger] requests@[k]).cluster.is_some(),
            requests@.map_values(g) == filter_map(services@.subrange(0, i as int), f),
        decreases n - i,
    {
        let listed = services.value(i);
        proof {
            assert(services@.subrange(0, i + 1) =~= services@.subrange(0, i as int).push(
                services@[i as int],
            ));
            lemma_filter_map_push(services@.subrange(0, i as int), services@[i as int], f);
        }
        match &listed.service_arns {
            Some(arns) => {
                if arns.len() > 0 {
                    let ghost before = requests@;
                    let request = DescribeServicesRequest {
                        cluster: Some(services.key(i).clone()),
                        services: copy_texts(arns),
                    };
                    requests.push(request);
                    assert(requests@.map_values(g) =~= before.map_values(g).push(
                        (services@[i as int].0, arns@),
                    ));
                }
            },
            None => {},
        }
        i = i + 1;
    }
    assert(services@.subrange(0, n as int) =~= services@);
    requests
}

/// The group and its services, where the description holds a list of them.
pub open spec fn described_entry(pair: (String, DescribeServicesResponse)) -> Option<
    (String, Vec<Service>)
> {
    match pair.1.services {
        Some(list) => Some((pair.0, list)),
        None => None,
    }
}

/// The described services of each group whose description came back with
/// a list of services. A group whose call failed has no entry.
pub fn describe_services(outcomes: Vec<Outcome<DescribeServicesResponse>>) -> (described: TextMap<
    Vec<Service>,
>)
    ensures
        described@ == assoc_from(
            keyed(
                filter_map(
                    oks(outcomes@),
                    |p: (String, DescribeServicesResponse)| described_entry(p),
                ),
            ),
        ),
{
    let ghost f = |p: (String, DescribeServicesResponse)| described_entry(p);
    let answered = keep_oks(outcomes);
    let ghost all = answered@;
    let mut kept: Vec<(String, Vec<Service>)> = Vec::new();
    assert(all.subrange(0, 0) =~= Seq::empty());
    for pair in it: answered.into_iter()
        invariant
            it.seq() == all,
            f == |p: (String, DescribeServicesResponse)| described_entry(p),
            kept@ == filter_map(all.subrange(0, it.index() as int), f),
    {
        let ghost i = it.index() as int;
        proof {
            assert(all.subrange(0, i + 1) =~= all.subrange(0, i).push(pair));
            lemma_filter_map_push(all.subrange(0, i), pair, f);
        }
        match pair.1.services {
            Some(list) => {
                kept.push((pair.0, list));
            },
            None => {},
        }
    }
    assert(all.subrange(0, all.len() as int) =~= all);
    TextMap::from_pairs(kept)
}

/// The request for the task references of `service`, with the identifier
/// of the service as its key. There is none for a service that lacks its
/// identifier or that of its group.
pub open spec fn list_tasks_request(service: Service) -> Option<(String, ListTasksRequest)> {
    match (service.service_arn, service.cluster_arn) {
        (Some(arn), Some(cluster)) => Some(
            (arn, ListTasksRequest { cluster: Some(cluster), service_name: service.service_name }),
        ),
        _ => None,
    }
}

/// The requests for the task references of the services of one group.
pub open spec fn list_tasks_requests_of(services: Seq<Service>) -> Seq<(String, ListTasksRequest)> {
    filter_map(services, |s: Service| list_tasks_request(s))
}

/// The requests for the task references of the services of all groups,
/// group after group.
pub open spec fn list_tasks_requests(groups: Seq<(Seq<char>, Vec<Service>)>) -> Seq<
    (String, ListTasksRequest),
>
    decreases groups.len(),
{
    if groups.len() == 0 {
        Seq::empty()
    } else {
        list_tasks_requests(groups.drop_last()) + list_tasks_requests_of(groups.last().1@)
    }
}

/// The requests for task references: one for each described service, group
/// after group and in the order of the services, each with the identifier
/// of its service as the key.
pub fn get_tasks_requests(services: &TextMap<Vec<Service>>) -> (requests: Vec<
    (String, ListTasksRequest),
>)
    ensures
        requests@ == list_tasks_requests(services@),
{
    let ghost f = |s: Service| list_tasks_request(s);
    let mut requests: Vec<(String, ListTasksRequest)> = Vec::new();
    let n = services.len();
    let mut i: usize = 0;
    assert(services@.subrange(0, 0) =~= Seq::empty());
    while i < n
        invariant
            i <= n,
            n == services@.len(),
            f == |s: Service| list_tasks_request(s),
            requests@ == list_tasks_requests(services@.subrange(0, i as int)),
        decreases n - i,
    {
        let group = services.value(i);
        let ghost done = requests@;
        let mut k: usize = 0;
        assert(group@.subrange(0, 0) =~= Seq::empty());
        while k < group.len()
            invariant
                k <= group.len(),
                f == |s: Service| list_tasks_request(s),
                requests@ == done + filter_map(group@.subrange(0, k as int), f),
            decreases group.len() - k,
        {
            let service = &group[k];
            proof {
                assert(group@.subrange(0, k + 1) =~= group@.subrange(0, k as int).push(
                    group@[k as int],
                ));
                lemma_filter_map_push(group@.subrange(0, k as int), group@[k as int], f);
            }
            match &service.service_arn {
                Some(arn) => match &service.cluster_arn {
                    Some(cluster) => {
                        requests.push(
                            (
                                arn.clone(),
                                ListTasksRequest {
                                    cluster: Some(cluster.clone()),
                                    service_name: copy_text(&service.service_name),
                                },
                            ),
                        );
                    },
                    None => {},
                },
                None => {},
            }
            k = k + 1;
        }
        proof {
            assert(group@.subrange(0, group@.len() as int) =~= group@);
            assert(services@.subrange(0, i + 1).drop_last() =~= services@.subrange(0, i as int));
            assert(services@.subrange(0, i + 1).last() == services@[i as int]);
        }
        i = i + 1;
    }
    assert(services@.subrange(0, n as int) =~= services@);
    requests
}

/// The task references of each service whose list came back. A service
/// whose call failed has no entry.
pub fn get_tasks(outcomes: Vec<Outcome<ListTasksResponse>>) -> (listed: TextMap<ListTasksResponse>)
    ensures
        listed@ == assoc_from(keyed(oks(outcomes@))),
{
    TextMap::from_pairs(keep_oks(outcomes))
}

/// The text that marks a group as one to leave out of the tree.
pub const EXCLUSION_PATTERN: &'static str = "default";

/// The group is left out of the tree: its identifier or its name holds the
/// exclusion pattern.
pub open spec fn excluded(arn: Seq<char>, name: Option<Seq<char>>) -> bool {
    ||| contains_text(arn, EXCLUSION_PATTERN@)
    ||| name matches Some(n) && contains_text(n, EXCLUSION_PATTERN@)
}

/// Whether the group is left out of the tree.
pub fn is_excluded(arn: &String, name: &Option<String>) -> (out: bool)
    ensures
        out == excluded(arn@, opt_text(*name)),
{
    if contains(arn.as_str(), EXCLUSION_PATTERN) {
        return true;
    }
    match name {
        Some(n) => contains(n.as_str(), EXCLUSION_PATTERN),
        None => false,
    }
}

/// A described group with its identifier, where it has one.
pub open spec fn cluster_pair(cluster: Cluster) -> Option<(String, Cluster)> {
    match cluster.cluster_arn {
        Some(arn) => Some((arn, cluster)),
        None => None,
    }
}

/// The described groups by identifier, in the provider's order. A group
/// without identifier is left out; of two with one identifier the later
/// description stands, in the place of the earlier.
pub open spec fn cluster_map_of(clusters: Seq<Cluster>) -> Seq<(Seq<char>, Cluster)> {
    assoc_from(keyed(filter_map(clusters, |c: Cluster| cluster_pair(c))))
}

/// A copy of a described group.
fn copy_cluster(cluster: &Cluster) -> (out: Cluster)
    ensures
        out == *cluster,
{
    Cluster {
        active_services_count: cluster.active_services_count,
        cluster_arn: copy_text(&cluster.cluster_arn),
        cluster_name: copy_text(&cluster.cluster_name),
        pending_tasks_count: cluster.pending_tasks_count,
        running_tasks_count: cluster.running_tasks_count,
    }
}

/// The described groups by identifier. Without a list of groups in the
/// description the aggregation cannot go on.
pub fn build_cluster_map(clusters_described: &DescribeClustersResponse) -> (result: Result<
    TextMap<Cluster>,
    ServiceError,
>)
    ensures
        match clusters_described.clusters {
            Some(list) => result.is_ok() && result.unwrap()@ == cluster_map_of(list@),
            None => {
                &&& result.is_err()
                &&& result.unwrap_err().kind == ErrorKind::AggregationFatal
                &&& result.unwrap_err().message@ == "Failed to read clusters"@
            },
        },
{
    match &clusters_described.clusters {
        None => Err(ServiceError::of(ErrorKind::AggregationFatal, "Failed to read clusters")),
        Some(list) => {
            let ghost f = |c: Cluster| cluster_pair(c);
            let mut pairs: Vec<(String, Cluster)> = Vec::new();
            let mut i: usize = 0;
            assert(list@.subrange(0, 0) =~= Seq::empty());
            while i < list.len()
                invariant
                    i <= list.len(),
                    f == |c: Cluster| cluster_pair(c),
                    pairs@ == filter_map(list@.subrange(0, i as int), f),
                decreases list.len() - i,
            {
                let cluster = &list[i];
                proof {
                    assert(list@.subrange(0, i + 1) =~= list@.subrange(0, i as int).push(
                        list@[i as int],
                    ));
                    lemma_filter_map_push(list@.subrange(0, i as int), list@[i as int], f);
                }
                match &cluster.cluster_arn {
                    Some(arn) => {
                        pairs.push((arn.clone(), copy_cluster(cluster)));
                    },
                    None => {},
                }
                i = i + 1;
            }
            assert(list@.subrange(0, list@.len() as int) =~= list@);
            Ok(TextMap::from_pairs(pairs))
        },
    }
}

/// What the tree says of `service`, given its task references.
pub open spec fn service_model(service: Service, tasks: Seq<Seq<char>>) -> ServiceModel {
    ServiceModel {
        created_at: service.created_at,
        created_by: opt_text(service.created_by),
        desired_count: service.desired_count,
        health_check_grace_period_seconds: service.health_check_grace_period_seconds,
        pending_count: service.pending_count,
        running_count: service.running_count,
        service_arn: opt_text(service.service_arn),
        service_name: opt_text(service.service_name),
        task_definition: opt_text(service.task_definition),
        tasks,
    }
}

/// The task references listed for the service with the identifier `arn`,
/// in the provider's order, where a list of them came back.
pub open spec fn tasks_of(tasks: Seq<(Seq<char>, ListTasksResponse)>, arn: Seq<char>) -> Option<
    Seq<Seq<char>>,
> {
    match assoc_get(tasks, arn) {
        Some(listed) => match listed.task_arns {
            Some(list) => Some(texts(list@)),
            None => None,
        },
        None => None,
    }
}

/// What the tree says of `service`. The tree has nothing of a service
/// without identifier, or whose task references did not come back.
pub open spec fn service_entry(tasks: Seq<(Seq<char>, ListTasksResponse)>, service: Service) -> Option<
    ServiceModel,
> {
    match service.service_arn {
        Some(arn) => match tasks_of(tasks, arn@) {
            Some(list) => Some(service_model(service, list)),
            None => None,
        },
        None => None,
    }
}

/// The services of one group as they stand in the tree: sorted by name,
/// each with its task references.
pub open spec fn services_of(
    services: Seq<Service>,
    tasks: Seq<(Seq<char>, ListTasksResponse)>,
) -> Seq<ServiceModel> {
    stable_sorted(filter_map(services, |s: Service| service_entry(tasks, s)), service_order())
}

/// The services of the group `cluster_id` as they stand in the tree: sorted
/// by name, each with its task references in the provider's order. A
/// service whose task references are missing is left out. A group whose
/// services were not described has no branch in the tree.
pub fn iterate_services_described(
    services_described: &TextMap<Vec<Service>>,
    tasks: &TextMap<ListTasksResponse>,
    cluster_id: &String,
) -> (result: Result<Vec<ServiceResponse>, ServiceError>)
    ensures
        match assoc_get(services_described@, cluster_id@) {
            Some(list) => {
                &&& result.is_ok()
                &&& service_models(result.unwrap()@) == services_of(list@, tasks@)
            },
            None => {
                &&& result.is_err()
                &&& result.unwrap_err().kind == ErrorKind::AggregationPartial
                &&& result.unwrap_err().message@ == "Failed to receive cluster "@ + cluster_id@
            },
        },
{
    match services_described.get(cluster_id) {
        None => {
            let message = "Failed to receive cluster ".to_owned().concat(cluster_id.as_str());
            Err(ServiceError::new(ErrorKind::AggregationPartial, message))
        },
        Some(list) => {
            let ghost f = |s: Service| service_entry(tasks@, s);
            let mut found: Vec<ServiceResponse> = Vec::new();
            let mut i: usize = 0;
            assert(list@.subrange(0, 0) =~= Seq::empty());
            assert(service_models(found@) =~= Seq::empty());
            while i < list.len()
                invariant
                    i <= list.len(),
                    f == |s: Service| service_entry(tasks@, s),
                    service_models(found@) == filter_map(list@.subrange(0, i as int), f),
                decreases list.len() - i,
            {
                let service = &list[i];
                proof {
                    assert(list@.subrange(0, i + 1) =~= list@.subrange(0, i as int).push(
                        list@[i as int],
                    ));
                    lemma_filter_map_push(list@.subrange(0, i as int), list@[i as int], f);
                }
                match &service.service_arn {
                    Some(arn) => match tasks.get(arn) {
                        Some(listed) => match &listed.task_arns {
                            Some(task_arns) => {
                                let ghost before = found@;
                                let entry = ServiceResponse {
                                    created_at: service.created_at,
                                    created_by: copy_text(&service.created_by),
                                    desired_count: service.desired_count,
                                    health_check_grace_period_seconds:
                                        service.health_check_grace_period_seconds,
                                    pending_count: service.pending_count,
                                    running_count: service.running_count,
                                    service_arn: copy_text(&service.service_arn),
                                    service_name: copy_text(&service.service_name),
                                    task_definition: copy_text(&service.task_definition),
                                    tasks: copy_texts(task_arns),
                                };
                                assert(entry@ == service_model(*service, texts(task_arns@)));
                                found.push(entry);
                                assert(service_models(found@) =~= service_models(before).push(
                                    entry@,
                                ));
                            },
                            None => {},
                        },
                        None => {},
                    },
                    None => {},
                }
                i = i + 1;
            }
            assert(list@.subrange(0, list@.len() as int) =~= list@);
            let ghost unsorted = found@;
            let sorted = sort_by_rank(found);
            proof {
                lemma_stable_sorted_map(
                    unsorted,
                    rank_order::<ServiceResponse>(),
                    |s: ServiceResponse| s@,
                    service_order(),
                );
            }
            Ok(sorted)
        },
    }
}

/// What the tree says of the group `cluster`, given its services.
pub open spec fn cluster_model(cluster: Cluster, services: Seq<ServiceModel>) -> ClusterModel {
    ClusterModel {
        active_services_count: cluster.active_services_count,
        cluster_arn: opt_text(cluster.cluster_arn),
        cluster_name: opt_text(cluster.cluster_name),
        pending_tasks_count: cluster.pending_tasks_count,
        running_tasks_count: cluster.running_tasks_count,
        services,
    }
}

/// What the tree says of one described group. The tree has nothing of a
/// group that is excluded, or whose services were not described.
pub open spec fn cluster_entry(
    services_described: Seq<(Seq<char>, Vec<Service>)>,
    tasks: Seq<(Seq<char>, ListTasksResponse)>,
    entry: (Seq<char>, Cluster),
) -> Option<ClusterModel> {
    if excluded(entry.0, opt_text(entry.1.cluster_name)) {
        None
    } else {
        match assoc_get(services_described, entry.0) {
            Some(list) => Some(cluster_model(entry.1, services_of(list@, tasks))),
            None => None,
        }
    }
}

/// The branches of the tree before they are sorted: one for each described
/// group that is not excluded and whose services were described.
pub open spec fn branches_of(
    cluster_map: Seq<(Seq<char>, Cluster)>,
    services_described: Seq<(Seq<char>, Vec<Service>)>,
    tasks: Seq<(Seq<char>, ListTasksResponse)>,
) -> Seq<ClusterModel> {
    filter_map(
        cluster_map,
        |e: (Seq<char>, Cluster)| cluster_entry(services_described, tasks, e),
    )
}

/// The topology tree: the groups sorted by name, each with its services
/// sorted by name, each of those with its task references in the
/// provider's order.
pub open spec fn tree_of(
    cluster_map: Seq<(Seq<char>, Cluster)>,
    services_described: Seq<(Seq<char>, Vec<Service>)>,
    tasks: Seq<(Seq<char>, ListTasksResponse)>,
) -> Seq<ClusterModel> {
    stable_sorted(branches_of(cluster_map, services_described, tasks), cluster_order())
}

/// Puts the topology tree together from the description of the groups, the
/// described services of each group and the task references of each
/// service. Without a list of groups in the description there is no tree.
pub fn map_to_response(
    clusters_described: &DescribeClustersResponse,
    services_described: &TextMap<Vec<Service>>,
    tasks: &TextMap<ListTasksResponse>,
) -> (result: Result<ResponseWrapper, ServiceError>)
    ensures
        match clusters_described.clusters {
            Some(list) => {
                &&& result.is_ok()
                &&& result.unwrap()@ == tree_of(
                    cluster_map_of(list@),
                    services_described@,
                    tasks@,
                )
            },
            None => {
                &&& result.is_err()
                &&& result.unwrap_err().kind == ErrorKind::AggregationFatal
                &&& result.unwrap_err().message@ == "Failed to read clusters"@
            },
        },
{
    let cluster_map = match build_cluster_map(clusters_described) {
        Ok(map) => map,
        Err(e) => {
            return Err(e);
        },
    };
    let ghost f = |e: (Seq<char>, Cluster)| cluster_entry(services_described@, tasks@, e);
    let mut clusters: Vec<ClusterResponse> = Vec::new();
    let n = cluster_map.len();
    let mut i: usize = 0;
    assert(cluster_map@.subrange(0, 0) =~= Seq::empty());
    assert(cluster_models(clusters@) =~= Seq::empty());
    while i < n
        invariant
            i <= n,
            n == cluster_map@.len(),
            f == |e: (Seq<char>, Cluster)| cluster_entry(services_described@, tasks@, e),
            cluster_models(clusters@) == filter_map(cluster_map@.subrange(0, i as int), f),
        decreases n - i,
    {
        let cluster_id = cluster_map.key(i);
        let cluster = cluster_map.value(i);
        proof {
            assert(cluster_map@.subrange(0, i + 1) =~= cluster_map@.subrange(0, i as int).push(
                cluster_map@[i as int],
            ));
            lemma_filter_map_push(cluster_map@.subrange(0, i as int), cluster_map@[i as int], f);
        }
        if !is_excluded(cluster_id, &cluster.cluster_name) {
            match iterate_services_described(services_described, tasks, cluster_id) {
                Ok(services) => {
                    let ghost before = clusters@;
                    let branch = ClusterResponse {
                        active_services_count: cluster.active_services_count,
                        cluster_arn: copy_text(&cluster.cluster_arn),
                        cluster_name: copy_text(&cluster.cluster_name),
                        pending_tasks_count: cluster.pending_tasks_count,
                        running_tasks_count: cluster.running_tasks_count,
                        services,
                    };
                    clusters.push(branch);
                    assert(cluster_models(clusters@) =~= cluster_models(before).push(branch@));
                },
                Err(_) => {},
            }
        }
        i = i + 1;
    }
    assert(cluster_map@.subrange(0, n as int) =~= cluster_map@);
    let ghost unsorted = clusters@;
    let sorted = sort_by_rank(clusters);
    proof {
        lemma_stable_sorted_map(
            unsorted,
            rank_order::<ClusterResponse>(),
            |c: ClusterResponse| c@,
            cluster_order(),
        );
    }
    Ok(ResponseWrapper { clusters: sorted })
}

/// The failure that aborts an aggregation when a foundational stage
/// fails: the list of groups, or the description of the groups.
pub fn fatal_failure(cause: &ServiceError) -> (failure: ServiceError)
    ensures
        failure.kind == ErrorKind::AggregationFatal,
        failure.message@ == cause.message@,
{
    ServiceError { kind: ErrorKind::AggregationFatal, message: cause.message.clone() }
}

/// The identifiers of the groups that the first stage listed. Its failure
/// aborts the aggregation.
pub fn get_clusters(outcome: Result<ListClustersResponse, ServiceError>) -> (result: Result<
    Option<Vec<String>>,
    ServiceError,
>)
    ensures
        match outcome {
            Ok(listed) => result == Ok::<Option<Vec<String>>, ServiceError>(listed.cluster_arns),
            Err(cause) => result matches Err(e) && e.kind == ErrorKind::AggregationFatal
                && e.message@ == cause.message@,
        },
{
    match outcome {
        Ok(listed) => Ok(listed.cluster_arns),
        Err(cause) => Err(fatal_failure(&cause)),
    }
}

/// What the second stage hands to the third: the description of the
/// groups and the service identifiers of each group. The failure of
/// either aborts the aggregation; where both failed, that of the
/// description is reported.
pub fn query_ecs(
    clusters_described: Result<DescribeClustersResponse, ServiceError>,
    services: Result<TextMap<ListServicesResponse>, ServiceError>,
) -> (result: Result<(DescribeClustersResponse, TextMap<ListServicesResponse>), ServiceError>)
    ensures
        match (clusters_described, services) {
            (Ok(described), Ok(listed)) => result == Ok::<
                (DescribeClustersResponse, TextMap<ListServicesResponse>),
                ServiceError,
            >((described, listed)),
            (Err(cause), _) => result matches Err(e) && e.kind == ErrorKind::AggregationFatal
                && e.message@ == cause.message@,
            (Ok(_), Err(cause)) => result matches Err(e) && e.kind == ErrorKind::AggregationFatal
                && e.message@ == cause.message@,
        },
{
    match clusters_described {
        Ok(described) => match services {
            Ok(listed) => Ok((described, listed)),
            Err(cause) => Err(fatal_failure(&cause)),
        },
        Err(cause) => Err(fatal_failure(&cause)),
    }
}

/// The described services of each group, as `describe_services` keeps them.
pub open spec fn described_services(outcomes: Seq<Outcome<DescribeServicesResponse>>) -> Seq<
    (Seq<char>, Vec<Service>),
> {
    assoc_from(
        keyed(filter_map(oks(outcomes), |p: (String, DescribeServicesResponse)| described_entry(p))),
    )
}

/// The services described for the group `key`: those of the last call for
/// that group that came back with a list of services.
pub open spec fn described_for(outcomes: Seq<Outcome<DescribeServicesResponse>>, key: Seq<char>) -> Option<
    Vec<Service>,
>
    decreases outcomes.len(),
{
    if outcomes.len() == 0 {
        None
    } else {
        match outcomes.last() {
            Ok(pair) => if pair.0@ == key && pair.1.services.is_some() {
                pair.1.services
            } else {
                described_for(outcomes.drop_last(), key)
            },
            Err(_) => described_for(outcomes.drop_last(), key),
        }
    }
}

/// What `describe_services` keeps for a group is what the last successful
/// call for that group described.
pub proof fn lemma_described_services(outcomes: Seq<Outcome<DescribeServicesResponse>>, key: Seq<char>)
    ensures
        assoc_get(described_services(outcomes), key) == described_for(outcomes, key),
        crate::text_map::distinct_keys(described_services(outcomes)),
    decreases outcomes.len(),
{
    let f = |p: (String, DescribeServicesResponse)| described_entry(p);
    let g = |r: Outcome<DescribeServicesResponse>| crate::seqs::ok_of(r);
    crate::text_map::lemma_assoc_from_distinct(keyed(filter_map(oks(outcomes), f)));
    if outcomes.len() == 0 {
    } else {
        let rest = outcomes.drop_last();
        lemma_described_services(rest, key);
        assert(outcomes =~= rest.push(outcomes.last()));
        lemma_filter_map_push(rest, outcomes.last(), g);
        match outcomes.last() {
            Ok(pair) => {
                assert(oks(outcomes) == oks(rest).push(pair));
                lemma_filter_map_push(oks(rest), pair, f);
                match pair.1.services {
                    Some(list) => {
                        let kept = filter_map(oks(rest), f);
                        assert(filter_map(oks(outcomes), f) == kept.push((pair.0, list)));
                        assert(keyed(kept.push((pair.0, list))) =~= keyed(kept).push(
                            (pair.0@, list),
                        ));
                        assert(keyed(kept).push((pair.0@, list)).drop_last() =~= keyed(kept));
                        crate::text_map::lemma_assoc_put(
                            described_services(rest),
                            pair.0@,
                            list,
                        );
                    },
                    None => {},
                }
            },
            Err(_) => {
                assert(oks(outcomes) == oks(rest));
            },
        }
    }
}

/// The failure of the call for one group changes nothing of what is
/// described for any other group.
pub proof fn lemma_described_for_isolated(
    outcomes: Seq<Outcome<DescribeServicesResponse>>,
    k: int,
    failure: ServiceError,
    key: Seq<char>,
)
    requires
        0 <= k < outcomes.len(),
        outcomes[k] matches Ok(pair) ==> pair.0@ != key,
    ensures
        described_for(outcomes.update(k, Err(failure)), key) == described_for(outcomes, key),
    decreases outcomes.len(),
{
    let changed = outcomes.update(k, Err(failure));
    if k == outcomes.len() - 1 {
        assert(changed.drop_last() =~= outcomes.drop_last());
    } else {
        lemma_described_for_isolated(outcomes.drop_last(), k, failure, key);
        assert(changed.drop_last() =~= outcomes.drop_last().update(k, Err(failure)));
        assert(changed.last() == outcomes.last());
    }
}

/// Partial failure stays where it is: when the description of the services
/// of one group fails, the branch of every other group is what it would
/// have been had the call succeeded.
pub proof fn lemma_failure_is_isolated(
    outcomes: Seq<Outcome<DescribeServicesResponse>>,
    k: int,
    failure: ServiceError,
    tasks: Seq<(Seq<char>, ListTasksResponse)>,
    entry: (Seq<char>, Cluster),
)
    requires
        0 <= k < outcomes.len(),
        outcomes[k] matches Ok(pair) ==> pair.0@ != entry.0,
    ensures
        cluster_entry(described_services(outcomes.update(k, Err(failure))), tasks, entry)
            == cluster_entry(described_services(outcomes), tasks, entry),
{
    lemma_described_services(outcomes, entry.0);
    lemma_described_services(outcomes.update(k, Err(failure)), entry.0);
    lemma_described_for_isolated(outcomes, k, failure, entry.0);
}

/// When the description of the services of one group fails, every other
/// group that would have had a branch in the tree still has it, and the
/// branch is the same.
pub proof fn lemma_other_groups_still_appear(
    cluster_map: Seq<(Seq<char>, Cluster)>,
    outcomes: Seq<Outcome<DescribeServicesResponse>>,
    k: int,
    failure: ServiceError,
    tasks: Seq<(Seq<char>, ListTasksResponse)>,
    j: int,
)
    requires
        0 <= k < outcomes.len(),
        0 <= j < cluster_map.len(),
        outcomes[k] matches Ok(pair) ==> pair.0@ != cluster_map[j].0,
        cluster_entry(described_services(outcomes), tasks, cluster_map[j]).is_some(),
    ensures
        tree_of(
            cluster_map,
            described_services(outcomes.update(k, Err(failure))),
            tasks,
        ).contains(cluster_entry(described_services(outcomes), tasks, cluster_map[j]).unwrap()),
{
    lemma_failure_is_isolated(outcomes, k, failure, tasks, cluster_map[j]);
    lemma_resolved_groups_are_present(
        cluster_map,
        described_services(outcomes.update(k, Err(failure))),
        tasks,
        j,
    );
}

/// A group whose identifier or name holds the exclusion pattern is not in
/// the tree, whatever else is.
pub proof fn lemma_excluded_groups_are_absent(
    cluster_map: Seq<(Seq<char>, Cluster)>,
    services_described: Seq<(Seq<char>, Vec<Service>)>,
    tasks: Seq<(Seq<char>, ListTasksResponse)>,
    i: int,
)
    requires
        0 <= i < tree_of(cluster_map, services_described, tasks).len(),
    ensures
        ({
            let group = tree_of(cluster_map, services_described, tasks)[i];
            &&& group.cluster_name matches Some(name) ==> !contains_text(name, EXCLUSION_PATTERN@)
            &&& exists|j: int|
                0 <= j < cluster_map.len() && !excluded(
                    cluster_map[j].0,
                    opt_text(cluster_map[j].1.cluster_name),
                ) && cluster_entry(services_described, tasks, cluster_map[j]) == Some(group)
        }),
{
    let f = |e: (Seq<char>, Cluster)| cluster_entry(services_described, tasks, e);
    let branches = branches_of(cluster_map, services_described, tasks);
    let tree = tree_of(cluster_map, services_described, tasks);
    let group = tree[i];
    assert(tree.contains(group));
    crate::sorting::lemma_stable_sorted_contains(branches, cluster_order(), group);
    let k = choose|k: int| 0 <= k < branches.len() && branches[k] == group;
    crate::seqs::lemma_filter_map_members(cluster_map, f);
    let j = choose|j: int| 0 <= j < cluster_map.len() && f(cluster_map[j]) == Some(branches[k]);
    assert(cluster_entry(services_described, tasks, cluster_map[j]) == Some(group));
}

/// A described group that is not excluded and whose services were
/// described is in the tree.
pub proof fn lemma_resolved_groups_are_present(
    cluster_map: Seq<(Seq<char>, Cluster)>,
    services_described: Seq<(Seq<char>, Vec<Service>)>,
    tasks: Seq<(Seq<char>, ListTasksResponse)>,
    j: int,
)
    requires
        0 <= j < cluster_map.len(),
        cluster_entry(services_described, tasks, cluster_map[j]).is_some(),
    ensures
        tree_of(cluster_map, services_described, tasks).contains(
            cluster_entry(services_described, tasks, cluster_map[j]).unwrap(),
        ),
{
    let f = |e: (Seq<char>, Cluster)| cluster_entry(services_described, tasks, e);
    let branches = branches_of(cluster_map, services_described, tasks);
    crate::seqs::lemma_filter_map_keeps(cluster_map, f, j);
    crate::sorting::lemma_stable_sorted_contains(
        branches,
        cluster_order(),
        f(cluster_map[j]).unwrap(),
    );
}

/// No two groups of the tree have the same identifier.
pub proof fn lemma_groups_are_unique(
    clusters: Seq<Cluster>,
    services_described: Seq<(Seq<char>, Vec<Service>)>,
    tasks: Seq<(Seq<char>, ListTasksResponse)>,
)
    ensures
        ({
            let tree = tree_of(cluster_map_of(clusters), services_described, tasks);
            forall|i: int, j: int|
                0 <= i < j < tree.len() ==> tree[i].cluster_arn != tree[j].cluster_arn
        }),
{
    let pairs = keyed(filter_map(clusters, |c: Cluster| cluster_pair(c)));
    let cluster_map = cluster_map_of(clusters);
    let named = |e: (Seq<char>, Cluster)| opt_text(e.1.cluster_arn) == Some(e.0);
    let f = |e: (Seq<char>, Cluster)| cluster_entry(services_described, tasks, e);
    let key_a = |e: (Seq<char>, Cluster)| Some(e.0);
    let key_b = |g: ClusterModel| g.cluster_arn;
    crate::seqs::lemma_filter_map_members(clusters, |c: Cluster| cluster_pair(c));
    assert forall|i: int| 0 <= i < pairs.len() implies named(#[trigger] pairs[i]) by {
        let kept = filter_map(clusters, |c: Cluster| cluster_pair(c));
        let k = choose|k: int| 0 <= k < clusters.len() && cluster_pair(clusters[k]) == Some(kept[i]);
    }
    crate::text_map::lemma_assoc_from_holds(pairs, named);
    crate::text_map::lemma_assoc_from_distinct(pairs);
    assert(crate::seqs::distinct_by(cluster_map, key_a));
    assert forall|i: int|
        0 <= i < cluster_map.len() && f(cluster_map[i]).is_some() implies key_b(
        f(cluster_map[i]).unwrap(),
    ) == key_a(#[trigger] cluster_map[i]) by {
        assert(named(cluster_map[i]));
    }
    crate::seqs::lemma_filter_map_distinct(cluster_map, f, key_a, key_b);
    crate::sorting::lemma_stable_sorted_distinct(
        branches_of(cluster_map, services_described, tasks),
        cluster_order(),
        key_b,
    );
}

/// The tree is in order: its groups by name, and the services of each
/// group by name.
pub proof fn lemma_tree_is_sorted(
    cluster_map: Seq<(Seq<char>, Cluster)>,
    services_described: Seq<(Seq<char>, Vec<Service>)>,
    tasks: Seq<(Seq<char>, ListTasksResponse)>,
)
    ensures
        ({
            let tree = tree_of(cluster_map, services_described, tasks);
            &&& forall|a: int, b: int|
                0 <= a < b < tree.len() ==> crate::text::opt_text_le(
                    tree[a].cluster_name,
                    tree[b].cluster_name,
                )
            &&& forall|i: int, a: int, b: int|
                0 <= i < tree.len() && 0 <= a < b < tree[i].services.len()
                    ==> crate::text::opt_text_le(
                    tree[i].services[a].service_name,
                    tree[i].services[b].service_name,
                )
        }),
{
    let tree = tree_of(cluster_map, services_described, tasks);
    let branches = branches_of(cluster_map, services_described, tasks);
    self::dto::lemma_opt_text_le_order();
    assert(crate::sorting::is_total_preorder(cluster_order()));
    assert(crate::sorting::is_total_preorder(service_order()));
    crate::sorting::lemma_stable_sorted_is_sorted(branches, cluster_order());
    assert forall|a: int, b: int| 0 <= a < b < tree.len() implies crate::text::opt_text_le(
        tree[a].cluster_name,
        tree[b].cluster_name,
    ) by {
        assert(cluster_order()(tree[a], tree[b]));
    }
    assert forall|i: int, a: int, b: int|
        0 <= i < tree.len() && 0 <= a < b < tree[i].services.len()
            implies crate::text::opt_text_le(
        tree[i].services[a].service_name,
        tree[i].services[b].service_name,
    ) by {
        lemma_excluded_groups_are_absent(cluster_map, services_described, tasks, i);
        let j = choose|j: int|
            0 <= j < cluster_map.len() && cluster_entry(
                services_described,
                tasks,
                cluster_map[j],
            ) == Some(tree[i]);
        let list = assoc_get(services_described, cluster_map[j].0).unwrap();
        let unsorted = filter_map(list@, |s: Service| service_entry(tasks, s));
        crate::sorting::lemma_stable_sorted_is_sorted(unsorted, service_order());
        assert(tree[i].services == services_of(list@, tasks));
        assert(service_order()(tree[i].services[a], tree[i].services[b]));
    }
}

/// The same upstream answers give the same tree: two trees that
/// `map_to_response` may return for one description of the groups, one map
/// of described services and one map of task references say the same.
pub proof fn lemma_tree_is_determined(
    clusters: Seq<Cluster>,
    services_described: Seq<(Seq<char>, Vec<Service>)>,
    tasks: Seq<(Seq<char>, ListTasksResponse)>,
    first: ResponseWrapper,
    second: ResponseWrapper,
)
    requires
        first@ == tree_of(cluster_map_of(clusters), services_described, tasks),
        second@ == tree_of(cluster_map_of(clusters), services_described, tasks),
    ensures
        first@ == second@,
        first@.len() == second@.len(),
        forall|i: int| 0 <= i < first@.len() ==> first@[i] == second@[i],
{
}

} // verus!
