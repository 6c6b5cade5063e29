use dualstack_echo::scanner::{
    candidate_ports, find_available_port, is_available, probe_result, PortProbeResult, PortScan,
    ProbeOutcome, FIRST_PORT, LAST_PORT,
};

fn free(port: u16) -> ProbeOutcome {
    Some(PortProbeResult { port, available: true })
}

fn taken(port: u16) -> ProbeOutcome {
    Some(PortProbeResult { port, available: false })
}

/// Drives a scan the way a caller does: one outcome for each probe it waits
/// for, and none once the scan has settled.
fn drive(start: u16, end: u16, outcomes: &[ProbeOutcome]) -> (Option<u16>, usize) {
    let mut scan = PortScan::begin(start, end);
    let mut inspected = 0;
    while scan.awaited().is_some() && inspected < outcomes.len() {
        scan = scan.inspect(outcomes[inspected]);
        inspected += 1;
    }
    (scan.selected(), inspected)
}

#[test]
fn scan_range_is_fixed() {
    assert_eq!(FIRST_PORT, 6881);
    assert_eq!(LAST_PORT, 6900);
    assert_eq!(candidate_ports(FIRST_PORT, LAST_PORT).len(), 20);
}

#[test]
fn candidates_ascend_over_the_inclusive_range() {
    assert_eq!(candidate_ports(6881, 6884), vec![6881, 6882, 6883, 6884]);
    assert_eq!(candidate_ports(5, 5), vec![5]);
}

#[test]
fn candidates_reach_the_highest_port() {
    assert_eq!(candidate_ports(65533, 65535), vec![65533, 65534, 65535]);
    assert_eq!(candidate_ports(65535, 65535), vec![65535]);
}

#[test]
fn candidates_keep_port_zero() {
    assert_eq!(candidate_ports(0, 2), vec![0, 1, 2]);
    assert_eq!(candidate_ports(0, 0), vec![0]);
}

#[test]
fn candidates_of_an_empty_range_are_none() {
    assert_eq!(candidate_ports(7, 3), Vec::<u16>::new());
    assert_eq!(candidate_ports(65535, 0), Vec::<u16>::new());
}

#[test]
fn whole_port_space_has_every_port_once() {
    let ports = candidate_ports(0, 65535);
    assert_eq!(ports.len(), 65536);
    assert_eq!(ports[0], 0);
    assert_eq!(ports[40000], 40000);
    assert_eq!(ports[65535], 65535);
}

#[test]
fn available_needs_both_families() {
    assert!(is_available(true, true));
    assert!(!is_available(true, false));
    assert!(!is_available(false, true));
    assert!(!is_available(false, false));
}

#[test]
fn probe_result_pairs_port_with_availability() {
    assert_eq!(probe_result(6881, true, true), PortProbeResult { port: 6881, available: true });
    assert_eq!(probe_result(6882, true, false), PortProbeResult { port: 6882, available: false });
    assert_eq!(probe_result(6883, false, true), PortProbeResult { port: 6883, available: false });
    assert_eq!(probe_result(0, false, false), PortProbeResult { port: 0, available: false });
}

#[test]
fn all_free_selects_start() {
    let outcomes: Vec<ProbeOutcome> = candidate_ports(6881, 6900).into_iter().map(free).collect();
    assert_eq!(find_available_port(6881, 6900, &outcomes), Some(6881));
    assert_eq!(drive(6881, 6900, &outcomes), (Some(6881), 1));
    assert_eq!(find_available_port(9, 9, &[free(9)]), Some(9));
}

#[test]
fn lowest_free_port_wins() {
    let outcomes =
        vec![taken(6881), taken(6882), taken(6883), free(6884), taken(6885), free(6886)];
    assert_eq!(find_available_port(6881, 6886, &outcomes), Some(6884));
    assert_eq!(drive(6881, 6886, &outcomes), (Some(6884), 4));
}

#[test]
fn lowest_free_port_wins_for_every_split() {
    let start = 100u16;
    let end = 131u16;
    for k in start..=end {
        let outcomes: Vec<ProbeOutcome> = candidate_ports(start, end)
            .into_iter()
            .map(|port| if port < k { taken(port) } else { free(port) })
            .collect();
        assert_eq!(find_available_port(start, end, &outcomes), Some(k));
        assert_eq!(drive(start, end, &outcomes).0, Some(k));
    }
}

#[test]
fn ports_above_the_winner_do_not_matter() {
    let low = vec![taken(50), free(51), free(52), free(53)];
    let high = vec![taken(50), free(51), None, taken(53)];
    assert_eq!(find_available_port(50, 53, &low), Some(51));
    assert_eq!(find_available_port(50, 53, &high), Some(51));
}

#[test]
fn aborted_probe_counts_as_not_available() {
    let outcomes = vec![None, None, free(6883)];
    assert_eq!(find_available_port(6881, 6883, &outcomes), Some(6883));
    assert_eq!(find_available_port(6881, 6883, &[None, None, None]), None);
}

#[test]
fn all_taken_selects_none() {
    let outcomes: Vec<ProbeOutcome> = candidate_ports(6881, 6900).into_iter().map(taken).collect();
    assert_eq!(find_available_port(6881, 6900, &outcomes), None);
    assert_eq!(drive(6881, 6900, &outcomes), (None, 20));
}

#[test]
fn empty_range_selects_none_without_a_probe() {
    assert_eq!(PortScan::begin(7, 3), PortScan::Exhausted);
    assert_eq!(PortScan::begin(7, 3).awaited(), None);
    assert_eq!(PortScan::begin(7, 3).selected(), None);
    assert_eq!(find_available_port(7, 3, &[]), None);
    assert_eq!(find_available_port(7, 3, &[free(7), free(3)]), None);
    assert_eq!(drive(7, 3, &[free(7)]), (None, 0));
}

#[test]
fn scan_waits_for_candidates_in_ascending_order() {
    let mut scan = PortScan::begin(10, 13);
    let mut awaited = Vec::new();
    while let Some(port) = scan.awaited() {
        awaited.push(port);
        scan = scan.inspect(taken(port));
    }
    assert_eq!(awaited, vec![10, 11, 12, 13]);
    assert_eq!(scan, PortScan::Exhausted);
}

#[test]
fn scan_steps_are_exact() {
    let scan = PortScan::begin(10, 11);
    assert_eq!(scan, PortScan::Awaiting { port: 10, last: 11 });
    let scan = scan.inspect(None);
    assert_eq!(scan, PortScan::Awaiting { port: 11, last: 11 });
    assert_eq!(scan.inspect(taken(11)), PortScan::Exhausted);
    assert_eq!(scan.inspect(None), PortScan::Exhausted);
    assert_eq!(scan.inspect(free(11)), PortScan::Selected(11));
}

#[test]
fn scan_at_the_highest_port_does_not_wrap() {
    let scan = PortScan::begin(65535, 65535);
    assert_eq!(scan.awaited(), Some(65535));
    assert_eq!(scan.inspect(taken(65535)), PortScan::Exhausted);
    assert_eq!(scan.inspect(free(65535)), PortScan::Selected(65535));
}

#[test]
fn scan_selects_only_once() {
    let scan = PortScan::begin(20, 29).inspect(free(20));
    assert_eq!(scan, PortScan::Selected(20));
    assert_eq!(scan.inspect(free(21)), PortScan::Selected(20));
    assert_eq!(scan.inspect(taken(21)), PortScan::Selected(20));
    assert_eq!(scan.inspect(None), PortScan::Selected(20));
    assert_eq!(PortScan::Exhausted.inspect(free(21)), PortScan::Exhausted);
    assert_eq!(PortScan::Exhausted.awaited(), None);
}

#[test]
fn selected_port_is_the_one_the_probe_reports() {
    assert_eq!(PortScan::begin(30, 39).inspect(free(30)).selected(), Some(30));
    assert_eq!(find_available_port(30, 39, &[taken(30), free(31)]), Some(31));
}

#[test]
fn outcomes_past_the_range_are_not_inspected() {
    assert_eq!(find_available_port(40, 41, &[taken(40), taken(41), free(42)]), None);
    assert_eq!(drive(40, 41, &[taken(40), taken(41), free(42)]), (None, 2));
}

#[test]
fn candidates_without_an_outcome_are_not_available() {
    assert_eq!(find_available_port(40, 49, &[taken(40), taken(41)]), None);
    assert_eq!(find_available_port(40, 49, &[]), None);
}

#[test]
fn port_zero_is_a_candidate_like_any_other() {
    assert_eq!(PortScan::begin(0, 3).awaited(), Some(0));
    assert_eq!(find_available_port(0, 3, &[free(0), free(1)]), Some(0));
    assert_eq!(find_available_port(0, 3, &[taken(0), free(1)]), Some(1));
}
