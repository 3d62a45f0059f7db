use kube_resources::kubernetes::{
    collect_info, collect_target, get_cluster_node_info, get_containers_resources_req,
    get_node_info, get_node_utilization, get_pod_utilization, get_pods_resources_req, summarize,
    what_to_fetch, CollectError, ContainerRequests, DiscoveryError, FetchError, NodeAllocatable,
    PodData, Reads, ResouceRequests, ResourceType, TargetData, UsageSample,
};
use kube_resources::tally::{sum_tallies, Tally};

const MI: u64 = 1_048_576;
const GI: u64 = 1_073_741_824;

fn text(s: &str) -> Option<String> {
    Some(String::from(s))
}

fn container(cpu: &str, memory: &str, storage: &str) -> ContainerRequests {
    ContainerRequests { cpu: text(cpu), memory: text(memory), ephemeral_storage: text(storage) }
}

fn cpu_only(cpu: &str) -> ContainerRequests {
    ContainerRequests { cpu: text(cpu), memory: None, ephemeral_storage: None }
}

fn pod(phase: &str, containers: Vec<ContainerRequests>, init: Vec<ContainerRequests>) -> PodData {
    PodData { phase: text(phase), containers, init_containers: init }
}

fn node(cpu: &str, memory: &str, storage: &str, pods: &str) -> NodeAllocatable {
    NodeAllocatable {
        cpu: text(cpu),
        memory: text(memory),
        ephemeral_storage: text(storage),
        pods: text(pods),
    }
}

fn sample(cpu: &str, memory: &str) -> UsageSample {
    UsageSample { cpu: String::from(cpu), memory: String::from(memory) }
}

fn target(
    name: &str,
    pods: Result<Vec<PodData>, FetchError>,
    allocatable: Result<NodeAllocatable, FetchError>,
) -> TargetData {
    TargetData {
        name: String::from(name),
        pods,
        allocatable,
        node_usage: Err(FetchError),
        pod_usage: Err(FetchError),
    }
}

fn numbers(r: &ResouceRequests) -> (u32, u32, u32, u64, u64, u64, u64, u64, usize, usize) {
    (
        r.cpu_requests,
        r.cpu_total,
        r.cpu_usage,
        r.mem_requests,
        r.mem_total,
        r.mem_usage,
        r.storage_requests,
        r.storage_total,
        r.pods,
        r.pods_total,
    )
}

#[test]
fn tallies_add_up_in_every_dimension() {
    let a = Tally { cpu: 1, mem: 2, storage: 3, pods: 4 };
    let b = Tally { cpu: 10, mem: 20, storage: 30, pods: 40 };
    assert_eq!(a.checked_add(&b), Some(Tally { cpu: 11, mem: 22, storage: 33, pods: 44 }));
    assert_eq!(Tally::zero(), Tally { cpu: 0, mem: 0, storage: 0, pods: 0 });
    assert_eq!(a.peak(&b), b);
    let c = Tally { cpu: 5, mem: 1, storage: 50, pods: 0 };
    assert_eq!(b.peak(&c), Tally { cpu: 10, mem: 20, storage: 50, pods: 40 });
}

#[test]
fn tallies_do_not_wrap() {
    let one = Tally { cpu: 1, mem: 1, storage: 1, pods: 1 };
    assert_eq!(Tally { cpu: u32::MAX, mem: 0, storage: 0, pods: 0 }.checked_add(&one), None);
    assert_eq!(Tally { cpu: 0, mem: u64::MAX, storage: 0, pods: 0 }.checked_add(&one), None);
    assert_eq!(Tally { cpu: 0, mem: 0, storage: u64::MAX, pods: 0 }.checked_add(&one), None);
    assert_eq!(Tally { cpu: 0, mem: 0, storage: 0, pods: usize::MAX }.checked_add(&one), None);
    let most = Tally { cpu: u32::MAX - 1, mem: u64::MAX - 1, storage: u64::MAX - 1, pods: 7 };
    assert_eq!(
        most.checked_add(&one),
        Some(Tally { cpu: u32::MAX, mem: u64::MAX, storage: u64::MAX, pods: 8 })
    );
}

#[test]
fn a_sum_fails_where_a_part_failed_or_it_does_not_fit() {
    let a = Tally { cpu: 1, mem: 2, storage: 3, pods: 4 };
    assert_eq!(sum_tallies(&vec![]), Some(Tally::zero()));
    assert_eq!(
        sum_tallies(&vec![Some(a), Some(a), Some(a)]),
        Some(Tally { cpu: 3, mem: 6, storage: 9, pods: 12 })
    );
    assert_eq!(sum_tallies(&vec![Some(a), None, Some(a)]), None);
    let big = Tally { cpu: u32::MAX, mem: 0, storage: 0, pods: 0 };
    assert_eq!(sum_tallies(&vec![Some(big), Some(a)]), None);
    assert_eq!(sum_tallies(&vec![Some(a), Some(big), None]), None);
}

#[test]
fn containers_add_up() {
    let cs = vec![
        container("100m", "128Mi", "1Gi"),
        container("1", "1Gi", "500M"),
        ContainerRequests { cpu: None, memory: text("1Ki"), ephemeral_storage: None },
        ContainerRequests { cpu: None, memory: None, ephemeral_storage: None },
    ];
    assert_eq!(
        get_containers_resources_req(&cs),
        Some(Tally { cpu: 1100, mem: 128 * MI + GI + 1024, storage: GI + 500_000_000, pods: 0 })
    );
    assert_eq!(get_containers_resources_req(&vec![]), Some(Tally::zero()));
}

#[test]
fn containers_with_an_invalid_quantity_fail() {
    assert_eq!(get_containers_resources_req(&vec![cpu_only("100m"), cpu_only("lots")]), None);
    assert_eq!(
        get_containers_resources_req(&vec![container("100m", "1Qi", "1Gi")]),
        None
    );
    assert_eq!(
        get_containers_resources_req(&vec![container("100m", "1Gi", "")]),
        None
    );
    assert_eq!(
        get_containers_resources_req(&vec![cpu_only("4294967295m"), cpu_only("1m")]),
        None
    );
}

#[test]
fn init_containers_count_by_their_peak_not_their_sum() {
    let pods = Ok(vec![pod("Running", vec![cpu_only("100m")], vec![cpu_only("500m")])]);
    assert_eq!(get_pods_resources_req(&pods), (500, 0, 0, 1));
    let pods = Ok(vec![pod("Running", vec![cpu_only("500m")], vec![cpu_only("100m")])]);
    assert_eq!(get_pods_resources_req(&pods), (500, 0, 0, 1));
}

#[test]
fn the_peak_is_taken_in_each_dimension_by_itself() {
    let pods = Ok(vec![pod(
        "Running",
        vec![container("100m", "2Gi", "10Mi"), container("200m", "1Gi", "10Mi")],
        vec![container("1", "1Gi", "5Mi"), container("250m", "1Gi", "20Mi")],
    )]);
    assert_eq!(get_pods_resources_req(&pods), (1250, 3 * GI, 25 * MI, 1));
}

#[test]
fn pods_add_up() {
    let pods = Ok(vec![
        pod("Running", vec![container("100m", "1Gi", "1Mi")], vec![]),
        pod("Pending", vec![container("200m", "1Gi", "2Mi")], vec![cpu_only("1")]),
        PodData { phase: None, containers: vec![cpu_only("50m")], init_containers: vec![] },
        pod("Unknown", vec![], vec![]),
    ]);
    assert_eq!(get_pods_resources_req(&pods), (1150, 2 * GI, 3 * MI, 4));
    assert_eq!(get_pods_resources_req(&Ok(vec![])), (0, 0, 0, 0));
}

#[test]
fn terminal_pods_hold_nothing_and_are_not_counted() {
    let pods = Ok(vec![
        pod("Running", vec![container("100m", "1Gi", "1Mi")], vec![]),
        pod("Succeeded", vec![container("4", "8Gi", "1Gi")], vec![cpu_only("8")]),
        pod("Failed", vec![container("4", "8Gi", "1Gi")], vec![]),
        pod("Completed", vec![container("4", "8Gi", "1Gi")], vec![]),
    ]);
    assert_eq!(get_pods_resources_req(&pods), (100, GI, MI, 1));
    let pods = Ok(vec![pod("Succeeded", vec![cpu_only("100m")], vec![])]);
    assert_eq!(get_pods_resources_req(&pods), (0, 0, 0, 0));
    // The phase is compared exactly.
    let pods = Ok(vec![pod("succeeded", vec![cpu_only("100m")], vec![])]);
    assert_eq!(get_pods_resources_req(&pods), (100, 0, 0, 1));
}

#[test]
fn terminal_pods_are_not_even_parsed() {
    let pods = Ok(vec![
        pod("Failed", vec![cpu_only("garbage")], vec![]),
        pod("Running", vec![cpu_only("100m")], vec![]),
    ]);
    assert_eq!(get_pods_resources_req(&pods), (100, 0, 0, 1));
}

#[test]
fn a_target_whose_pods_cannot_be_accounted_degrades_to_zero() {
    assert_eq!(get_pods_resources_req(&Err(FetchError)), (0, 0, 0, 0));
    let pods = Ok(vec![
        pod("Running", vec![cpu_only("100m")], vec![]),
        pod("Running", vec![cpu_only("garbage")], vec![]),
    ]);
    assert_eq!(get_pods_resources_req(&pods), (0, 0, 0, 0));
    let pods = Ok(vec![pod("Running", vec![cpu_only("100m")], vec![cpu_only("-1")])]);
    assert_eq!(get_pods_resources_req(&pods), (0, 0, 0, 0));
    let pods = Ok(vec![
        pod("Running", vec![cpu_only("4294967295m")], vec![]),
        pod("Running", vec![cpu_only("1m")], vec![]),
    ]);
    assert_eq!(get_pods_resources_req(&pods), (0, 0, 0, 0));
}

#[test]
fn node_capacity_is_read_from_what_it_allocates() {
    assert_eq!(
        get_node_info(&Ok(node("3920m", "15Gi", "100Gi", "110"))),
        (3920, 15 * GI, 100 * GI, 110)
    );
    assert_eq!(
        get_node_info(&Ok(node("4", "16384Ki", "1000", "+5"))),
        (4000, 16_777_216, 1000, 5)
    );
    let bare = NodeAllocatable { cpu: None, memory: None, ephemeral_storage: None, pods: None };
    assert_eq!(get_node_info(&Ok(bare)), (0, 0, 0, 0));
    let partly =
        NodeAllocatable { cpu: text("2"), memory: None, ephemeral_storage: None, pods: None };
    assert_eq!(get_node_info(&Ok(partly)), (2000, 0, 0, 0));
}

#[test]
fn node_capacity_degrades_to_zero() {
    assert_eq!(get_node_info(&Err(FetchError)), (0, 0, 0, 0));
    assert_eq!(get_node_info(&Ok(node("4", "16Gi", "100Gi", "many"))), (0, 0, 0, 0));
    assert_eq!(get_node_info(&Ok(node("4", "16Gi", "100Gi", "1.5"))), (0, 0, 0, 0));
    assert_eq!(get_node_info(&Ok(node("x", "16Gi", "100Gi", "110"))), (0, 0, 0, 0));
    assert_eq!(get_node_info(&Ok(node("4", "16Gx", "100Gi", "110"))), (0, 0, 0, 0));
    assert_eq!(get_node_info(&Ok(node("4", "16Gi", "", "110"))), (0, 0, 0, 0));
}

#[test]
fn cluster_capacity_is_the_sum_over_its_nodes() {
    let nodes = Ok(vec![
        Ok(node("4", "16Gi", "100Gi", "110")),
        Err(FetchError),
        Ok(node("2", "8Gi", "50Gi", "110")),
        Ok(node("bad", "8Gi", "50Gi", "110")),
    ]);
    assert_eq!(get_cluster_node_info(&nodes), (6000, 24 * GI, 150 * GI, 220));
    assert_eq!(get_cluster_node_info(&Ok(vec![])), (0, 0, 0, 0));
    assert_eq!(get_cluster_node_info(&Err(FetchError)), (0, 0, 0, 0));
    let nodes = Ok(vec![
        Ok(node("4294967", "1Gi", "1Gi", "1")),
        Ok(node("1", "1Gi", "1Gi", "1")),
    ]);
    assert_eq!(get_cluster_node_info(&nodes), (0, 0, 0, 0));
}

#[test]
fn node_usage_is_read_from_its_sample() {
    assert_eq!(get_node_utilization(&Ok(sample("250m", "2Gi"))), (250, 2 * GI));
    assert_eq!(get_node_utilization(&Ok(sample("1", "1048576Ki"))), (1000, GI));
    assert_eq!(get_node_utilization(&Err(FetchError)), (0, 0));
    assert_eq!(get_node_utilization(&Ok(sample("250m", "lots"))), (0, 0));
    assert_eq!(get_node_utilization(&Ok(sample("", "2Gi"))), (0, 0));
}

#[test]
fn namespace_usage_is_the_sum_over_every_container() {
    let pods = Ok(vec![
        Ok(vec![sample("100m", "1Gi"), sample("50m", "512Mi")]),
        Ok(vec![]),
        Ok(vec![sample("1", "1Mi")]),
    ]);
    assert_eq!(get_pod_utilization(&pods), (1150, GI + 513 * MI));
    assert_eq!(get_pod_utilization(&Ok(vec![])), (0, 0));
}

#[test]
fn namespace_usage_degrades_to_zero_on_one_failure() {
    assert_eq!(get_pod_utilization(&Err(FetchError)), (0, 0));
    let pods = Ok(vec![Ok(vec![sample("100m", "1Gi")]), Err(FetchError)]);
    assert_eq!(get_pod_utilization(&pods), (0, 0));
    let pods = Ok(vec![Err(FetchError), Ok(vec![sample("100m", "1Gi")])]);
    assert_eq!(get_pod_utilization(&pods), (0, 0));
    let pods = Ok(vec![Ok(vec![sample("100m", "1Gi"), sample("100m", "bad")])]);
    assert_eq!(get_pod_utilization(&pods), (0, 0));
}

#[test]
fn a_node_row_draws_on_the_nodes_own_capacity() {
    let mut t = target(
        "node-a",
        Ok(vec![pod("Running", vec![container("500m", "1Gi", "1Mi")], vec![])]),
        Ok(node("4", "16Gi", "100Gi", "110")),
    );
    t.node_usage = Ok(sample("300m", "2Gi"));
    t.pod_usage = Ok(vec![Ok(vec![sample("9", "9Gi")])]);
    let cluster = Tally { cpu: 77, mem: 77, storage: 77, pods: 77 };
    let row = collect_target(ResourceType::Node, true, &t, &cluster);
    assert_eq!(row.name, "node-a");
    assert_eq!(numbers(&row), (500, 4000, 300, GI, 16 * GI, 2 * GI, MI, 100 * GI, 1, 110));
    let row = collect_target(ResourceType::Node, false, &t, &cluster);
    assert_eq!(numbers(&row), (500, 4000, 0, GI, 16 * GI, 0, MI, 100 * GI, 1, 110));
}

#[test]
fn a_namespace_row_draws_on_the_capacity_of_the_cluster() {
    let mut t = target(
        "default",
        Ok(vec![pod("Running", vec![container("500m", "1Gi", "1Mi")], vec![])]),
        Ok(node("4", "16Gi", "100Gi", "110")),
    );
    t.node_usage = Ok(sample("300m", "2Gi"));
    t.pod_usage = Ok(vec![Ok(vec![sample("100m", "1Gi")]), Ok(vec![sample("50m", "1Gi")])]);
    let cluster = Tally { cpu: 8000, mem: 32 * GI, storage: 200 * GI, pods: 220 };
    let row = collect_target(ResourceType::Namespace, true, &t, &cluster);
    assert_eq!(row.name, "default");
    assert_eq!(numbers(&row), (500, 8000, 150, GI, 32 * GI, 2 * GI, MI, 200 * GI, 1, 220));
    let row = collect_target(ResourceType::Namespace, false, &t, &cluster);
    assert_eq!(numbers(&row), (500, 8000, 0, GI, 32 * GI, 0, MI, 200 * GI, 1, 220));
}

#[test]
fn the_summary_row_sums_the_rows() {
    let rows = vec![
        ResouceRequests::new(String::from("a"), 100, 1000, 10, 1, 10, 2, 3, 30, 1, 10),
        ResouceRequests::new(String::from("b"), 200, 2000, 20, 4, 40, 5, 6, 60, 2, 20),
        ResouceRequests::new(String::from("c"), 300, 3000, 30, 7, 70, 8, 9, 90, 3, 30),
    ];
    let cluster = Tally { cpu: 9, mem: 9, storage: 9, pods: 9 };
    let s = summarize(ResourceType::Node, &rows, &cluster).unwrap();
    assert_eq!(s.name, "*");
    assert_eq!(numbers(&s), (600, 6000, 60, 12, 120, 15, 18, 180, 6, 60));
    let s = summarize(ResourceType::Namespace, &rows, &cluster).unwrap();
    assert_eq!(s.name, "*");
    assert_eq!(numbers(&s), (600, 9, 60, 12, 9, 15, 18, 9, 6, 9));
    let s = summarize(ResourceType::Node, &vec![], &cluster).unwrap();
    assert_eq!(numbers(&s), (0, 0, 0, 0, 0, 0, 0, 0, 0, 0));
}

#[test]
fn the_summary_row_does_not_wrap() {
    let cluster = Tally::zero();
    let big = |name: &str| {
        ResouceRequests::new(String::from(name), u32::MAX, 0, 0, 0, 0, 0, 0, 0, 0, 0)
    };
    assert!(summarize(ResourceType::Node, &vec![big("a"), big("b")], &cluster).is_none());
    let rows = vec![
        ResouceRequests::new(String::from("a"), 0, 0, 0, 0, u64::MAX, 0, 0, 0, 0, 0),
        ResouceRequests::new(String::from("b"), 0, 0, 0, 0, 1, 0, 0, 0, 0, 0),
    ];
    assert!(summarize(ResourceType::Node, &rows, &cluster).is_none());
    // Namespaces show the capacity of the cluster, which is not summed.
    assert!(summarize(ResourceType::Namespace, &rows, &cluster).is_some());
    let rows = vec![
        ResouceRequests::new(String::from("a"), 0, 0, u32::MAX, 0, 0, 0, 0, 0, 0, 0),
        ResouceRequests::new(String::from("b"), 0, 0, 1, 0, 0, 0, 0, 0, 0, 0),
    ];
    assert!(summarize(ResourceType::Namespace, &rows, &cluster).is_none());
}

#[test]
fn a_report_on_nodes_has_a_row_for_each_and_a_summary() {
    let mut a = target(
        "node-a",
        Ok(vec![
            pod("Running", vec![container("500m", "1Gi", "1Mi")], vec![]),
            pod("Succeeded", vec![container("500m", "1Gi", "1Mi")], vec![]),
        ]),
        Ok(node("4", "16Gi", "100Gi", "110")),
    );
    a.node_usage = Ok(sample("300m", "2Gi"));
    let mut b = target(
        "node-b",
        Ok(vec![
            pod("Running", vec![container("1", "2Gi", "2Mi")], vec![cpu_only("2")]),
            pod("Running", vec![container("250m", "1Gi", "1Mi")], vec![]),
        ]),
        Ok(node("8", "32Gi", "200Gi", "110")),
    );
    b.node_usage = Ok(sample("1", "4Gi"));
    let targets = Ok(vec![a, b]);
    let mut rrs = Vec::new();
    let r = collect_info(&mut rrs, ResourceType::Node, true, &targets, &Err(FetchError));
    assert_eq!(r, Ok(()));
    assert_eq!(rrs.len(), 3);
    assert_eq!(rrs[0].name, "node-a");
    assert_eq!(numbers(&rrs[0]), (500, 4000, 300, GI, 16 * GI, 2 * GI, MI, 100 * GI, 1, 110));
    assert_eq!(rrs[1].name, "node-b");
    assert_eq!(
        numbers(&rrs[1]),
        (2250, 8000, 1000, 3 * GI, 32 * GI, 4 * GI, 3 * MI, 200 * GI, 2, 110)
    );
    assert_eq!(rrs[2].name, "*");
    assert_eq!(
        numbers(&rrs[2]),
        (2750, 12000, 1300, 4 * GI, 48 * GI, 6 * GI, 4 * MI, 300 * GI, 3, 220)
    );
}

#[test]
fn a_report_without_utilization_shows_no_usage() {
    let mut a = target("node-a", Ok(vec![]), Ok(node("4", "16Gi", "100Gi", "110")));
    a.node_usage = Ok(sample("300m", "2Gi"));
    let mut rrs = Vec::new();
    let r = collect_info(&mut rrs, ResourceType::Node, false, &Ok(vec![a]), &Ok(vec![]));
    assert_eq!(r, Ok(()));
    assert_eq!(numbers(&rrs[0]), (0, 4000, 0, 0, 16 * GI, 0, 0, 100 * GI, 0, 110));
    assert_eq!(numbers(&rrs[1]), (0, 4000, 0, 0, 16 * GI, 0, 0, 100 * GI, 0, 110));
}

#[test]
fn namespaces_are_all_held_against_the_whole_cluster() {
    let mut a = target(
        "default",
        Ok(vec![pod("Running", vec![container("500m", "1Gi", "1Mi")], vec![])]),
        Err(FetchError),
    );
    a.pod_usage = Ok(vec![Ok(vec![sample("100m", "1Gi")])]);
    let mut b = target(
        "kube-system",
        Ok(vec![
            pod("Running", vec![container("1", "2Gi", "2Mi")], vec![]),
            pod("Running", vec![container("1", "2Gi", "2Mi")], vec![]),
        ]),
        Err(FetchError),
    );
    b.pod_usage = Ok(vec![Ok(vec![sample("200m", "1Gi")]), Ok(vec![sample("300m", "1Gi")])]);
    let cluster =
        Ok(vec![Ok(node("4", "16Gi", "100Gi", "110")), Ok(node("8", "32Gi", "200Gi", "110"))]);
    let mut rrs = Vec::new();
    let r = collect_info(&mut rrs, ResourceType::Namespace, true, &Ok(vec![a, b]), &cluster);
    assert_eq!(r, Ok(()));
    assert_eq!(rrs.len(), 3);
    assert_eq!(rrs[0].name, "default");
    assert_eq!(numbers(&rrs[0]), (500, 12000, 100, GI, 48 * GI, GI, MI, 300 * GI, 1, 220));
    assert_eq!(rrs[1].name, "kube-system");
    assert_eq!(
        numbers(&rrs[1]),
        (2000, 12000, 500, 4 * GI, 48 * GI, 2 * GI, 4 * MI, 300 * GI, 2, 220)
    );
    assert_eq!(rrs[2].name, "*");
    assert_eq!(
        numbers(&rrs[2]),
        (2500, 12000, 600, 5 * GI, 48 * GI, 3 * GI, 5 * MI, 300 * GI, 3, 220)
    );
    for row in &rrs {
        assert_eq!(
            (row.cpu_total, row.mem_total, row.storage_total, row.pods_total),
            (rrs[0].cpu_total, rrs[0].mem_total, rrs[0].storage_total, rrs[0].pods_total)
        );
    }
    assert_ne!(rrs[0].cpu_requests, rrs[1].cpu_requests);
}

#[test]
fn a_report_on_no_namespaces_still_shows_the_cluster() {
    let cluster = Ok(vec![Ok(node("4", "16Gi", "100Gi", "110"))]);
    let mut rrs = Vec::new();
    let r = collect_info(&mut rrs, ResourceType::Namespace, false, &Ok(vec![]), &cluster);
    assert_eq!(r, Ok(()));
    assert_eq!(rrs.len(), 1);
    assert_eq!(rrs[0].name, "*");
    assert_eq!(numbers(&rrs[0]), (0, 4000, 0, 0, 16 * GI, 0, 0, 100 * GI, 0, 110));
}

#[test]
fn a_failed_capacity_lookup_touches_one_row_only() {
    let pods = || Ok(vec![pod("Running", vec![container("500m", "1Gi", "1Mi")], vec![])]);
    let healthy = Ok(vec![
        target("node-a", pods(), Ok(node("4", "16Gi", "100Gi", "110"))),
        target("node-b", pods(), Ok(node("8", "32Gi", "200Gi", "110"))),
        target("node-c", pods(), Ok(node("2", "8Gi", "50Gi", "30"))),
    ]);
    let broken = Ok(vec![
        target("node-a", pods(), Ok(node("4", "16Gi", "100Gi", "110"))),
        target("node-b", pods(), Err(FetchError)),
        target("node-c", pods(), Ok(node("2", "8Gi", "50Gi", "30"))),
    ]);
    let mut before = Vec::new();
    let mut after = Vec::new();
    assert!(collect_info(&mut before, ResourceType::Node, false, &healthy, &Ok(vec![])).is_ok());
    assert!(collect_info(&mut after, ResourceType::Node, false, &broken, &Ok(vec![])).is_ok());
    assert_eq!(after.len(), 4);
    assert_eq!(after[1].name, "node-b");
    assert_eq!(after[1].cpu_total, 0);
    assert_eq!(numbers(&after[1]), (500, 0, 0, GI, 0, 0, MI, 0, 1, 0));
    assert_eq!(numbers(&after[0]), numbers(&before[0]));
    assert_eq!(numbers(&after[2]), numbers(&before[2]));
    assert_eq!(numbers(&after[0]), (500, 4000, 0, GI, 16 * GI, 0, MI, 100 * GI, 1, 110));
    assert_eq!(numbers(&after[2]), (500, 2000, 0, GI, 8 * GI, 0, MI, 50 * GI, 1, 30));
    assert_eq!(numbers(&after[3]), (1500, 6000, 0, 3 * GI, 24 * GI, 0, 3 * MI, 150 * GI, 3, 140));
}

#[test]
fn a_failed_pod_listing_touches_one_row_only() {
    let targets = Ok(vec![
        target("node-a", Err(FetchError), Ok(node("4", "16Gi", "100Gi", "110"))),
        target(
            "node-b",
            Ok(vec![pod("Running", vec![container("500m", "1Gi", "1Mi")], vec![])]),
            Ok(node("8", "32Gi", "200Gi", "110")),
        ),
    ]);
    let mut rrs = Vec::new();
    assert!(collect_info(&mut rrs, ResourceType::Node, false, &targets, &Ok(vec![])).is_ok());
    assert_eq!(numbers(&rrs[0]), (0, 4000, 0, 0, 16 * GI, 0, 0, 100 * GI, 0, 110));
    assert_eq!(numbers(&rrs[1]), (500, 8000, 0, GI, 32 * GI, 0, MI, 200 * GI, 1, 110));
    assert_eq!(numbers(&rrs[2]), (500, 12000, 0, GI, 48 * GI, 0, MI, 300 * GI, 1, 220));
}

#[test]
fn a_failed_discovery_gives_no_report() {
    let mut rrs = Vec::new();
    let r = collect_info(&mut rrs, ResourceType::Node, true, &Err(DiscoveryError), &Ok(vec![]));
    assert_eq!(r, Err(CollectError::Discovery));
    assert!(rrs.is_empty());
    let r =
        collect_info(&mut rrs, ResourceType::Namespace, false, &Err(DiscoveryError), &Ok(vec![]));
    assert_eq!(r, Err(CollectError::Discovery));
    assert!(rrs.is_empty());
}

#[test]
fn a_summary_that_does_not_fit_gives_no_report() {
    let pods = || Ok(vec![pod("Running", vec![cpu_only("4294967")], vec![])]);
    let targets = Ok(vec![
        target("node-a", pods(), Ok(node("4", "16Gi", "100Gi", "110"))),
        target("node-b", pods(), Ok(node("4", "16Gi", "100Gi", "110"))),
    ]);
    let mut rrs = vec![ResouceRequests::new(String::from("kept"), 1, 2, 3, 4, 5, 6, 7, 8, 9, 10)];
    let r = collect_info(&mut rrs, ResourceType::Node, false, &targets, &Ok(vec![]));
    assert_eq!(r, Err(CollectError::Overflow));
    assert_eq!(rrs.len(), 1);
    assert_eq!(rrs[0].name, "kept");
}

#[test]
fn a_report_is_appended_to_the_rows_that_are_there() {
    let mut rrs = vec![ResouceRequests::new(String::from("kept"), 1, 2, 3, 4, 5, 6, 7, 8, 9, 10)];
    let targets = Ok(vec![target("node-a", Ok(vec![]), Ok(node("4", "16Gi", "100Gi", "110")))]);
    assert!(collect_info(&mut rrs, ResourceType::Node, false, &targets, &Ok(vec![])).is_ok());
    assert_eq!(rrs.len(), 3);
    assert_eq!(rrs[0].name, "kept");
    assert_eq!(numbers(&rrs[0]), (1, 2, 3, 4, 5, 6, 7, 8, 9, 10));
    assert_eq!(rrs[1].name, "node-a");
    assert_eq!(rrs[2].name, "*");
}

#[test]
fn oversubscription_is_reported_as_it_is() {
    let pods = Ok(vec![
        pod("Running", vec![cpu_only("3")], vec![]),
        pod("Running", vec![cpu_only("3")], vec![]),
    ]);
    let targets = Ok(vec![target("node-a", pods, Ok(node("4", "16Gi", "100Gi", "1")))]);
    let mut rrs = Vec::new();
    assert!(collect_info(&mut rrs, ResourceType::Node, false, &targets, &Ok(vec![])).is_ok());
    assert_eq!(rrs[0].pods, 2);
    assert_eq!(rrs[0].pods_total, 1);
    assert_eq!(rrs[0].cpu_requests, 6000);
    assert_eq!(rrs[0].cpu_total, 4000);
}

#[test]
fn a_report_reads_what_its_kind_needs() {
    assert_eq!(
        what_to_fetch(ResourceType::Node, false),
        Reads { allocatable: true, node_usage: false, pod_usage: false, cluster: false }
    );
    assert_eq!(
        what_to_fetch(ResourceType::Node, true),
        Reads { allocatable: true, node_usage: true, pod_usage: false, cluster: false }
    );
    assert_eq!(
        what_to_fetch(ResourceType::Namespace, false),
        Reads { allocatable: false, node_usage: false, pod_usage: false, cluster: true }
    );
    assert_eq!(
        what_to_fetch(ResourceType::Namespace, true),
        Reads { allocatable: false, node_usage: false, pod_usage: true, cluster: true }
    );
}

#[test]
fn what_a_report_does_not_read_does_not_change_it() {
    let full = || {
        let mut t = target(
            "node-a",
            Ok(vec![pod("Running", vec![container("500m", "1Gi", "1Mi")], vec![])]),
            Ok(node("4", "16Gi", "100Gi", "110")),
        );
        t.node_usage = Ok(sample("300m", "2Gi"));
        t.pod_usage = Ok(vec![Ok(vec![sample("9", "9Gi")])]);
        t
    };
    let mut bare = full();
    bare.pod_usage = Err(FetchError);
    let mut with_all = Vec::new();
    let mut with_less = Vec::new();
    let cluster = Ok(vec![Ok(node("64", "1Ti", "1Ti", "1000"))]);
    assert!(collect_info(&mut with_all, ResourceType::Node, true, &Ok(vec![full()]), &cluster)
        .is_ok());
    let none = Err(FetchError);
    assert!(collect_info(&mut with_less, ResourceType::Node, true, &Ok(vec![bare]), &none).is_ok());
    assert_eq!(numbers(&with_all[0]), numbers(&with_less[0]));
    assert_eq!(numbers(&with_all[1]), numbers(&with_less[1]));
    assert_eq!(numbers(&with_all[0]), (500, 4000, 300, GI, 16 * GI, 2 * GI, MI, 100 * GI, 1, 110));
}
