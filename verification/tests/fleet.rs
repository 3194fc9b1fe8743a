use stratum_counter::fleet::aggregate;
use stratum_counter::fleet::ContainerPoll;
use stratum_counter::fleet::Diagnostic;
use stratum_counter::fleet::RecordFilter;
use stratum_counter::state::ConnectionState;

fn reachable(id: &str, name: Option<&str>, text: &str) -> ContainerPoll {
    ContainerPoll {
        id: id.to_string(),
        name: name.map(|n| n.to_string()),
        fetch: Ok(vec![text.as_bytes().to_vec()]),
    }
}

fn failed(id: &str, detail: &str) -> ContainerPoll {
    ContainerPoll {
        id: id.to_string(),
        name: None,
        fetch: Err(detail.to_string()),
    }
}

#[test]
fn partial_failure_is_isolated() {
    // Three containers, the second unreachable: the report holds exactly
    // the first and third, in that order, and the total is their sum.
    let polls = vec![
        reachable(
            "c1",
            Some("web"),
            " 0: 0100007F:0050 00000000:0000 01\n 1: 0100007F:01BB 00000000:0000 01\n",
        ),
        failed("c2", "exec failed"),
        reachable("c3", None, " 0: 0100007F:0D05 00000000:0000 0A\n"),
    ];
    let out = aggregate(polls, None);
    let ids: Vec<&str> = out
        .report
        .containers
        .iter()
        .map(|c| c.container_id.as_str())
        .collect();
    assert_eq!(ids, vec!["c1", "c3"]);
    assert_eq!(out.report.containers[0].connections.len(), 2);
    assert_eq!(out.report.containers[1].connections.len(), 1);
    assert_eq!(out.report.total_connection_count, 3);
    assert_eq!(
        out.diagnostics,
        vec![Diagnostic::FetchFailed {
            container_id: "c2".to_string(),
            detail: "exec failed".to_string(),
        }]
    );
}

#[test]
fn filter_keeps_established_on_port() {
    // States {ESTABLISHED, LISTEN, ESTABLISHED} on local ports {80, 80, 443}:
    // the ESTABLISHED-on-80 filter keeps exactly one record.
    let text = " 0: 0100007F:0050 0200007F:C000 01\n 1: 0100007F:0050 00000000:0000 0A\n 2: 0100007F:01BB 0300007F:C001 01\n";
    let polls = vec![reachable("c1", Some("web"), text)];
    let filter = RecordFilter {
        state: Some(ConnectionState::Established),
        local_port: Some(80),
    };
    let out = aggregate(polls, Some(filter));
    assert_eq!(out.report.total_connection_count, 1);
    assert_eq!(out.report.containers.len(), 1);
    let kept = &out.report.containers[0].connections;
    assert_eq!(kept.len(), 1);
    assert_eq!(kept[0].local.port, 80);
    assert_eq!(kept[0].state, 1);
    assert_eq!(kept[0].remote.port, 0xC000);
}

#[test]
fn report_order_follows_fleet_listing() {
    let line = " 0: 0100007F:0050 00000000:0000 01\n";
    let polls = vec![
        reachable("zeta", None, line),
        reachable("alpha", None, line),
        reachable("midd", None, line),
    ];
    let out = aggregate(polls, None);
    let ids: Vec<&str> = out
        .report
        .containers
        .iter()
        .map(|c| c.container_id.as_str())
        .collect();
    assert_eq!(ids, vec!["zeta", "alpha", "midd"]);
}

#[test]
fn container_without_matches_is_excluded() {
    let polls = vec![
        reachable("only-listen", None, " 0: 0100007F:0050 00000000:0000 0A\n"),
        reachable("established", None, " 0: 0100007F:0050 00000000:0000 01\n"),
    ];
    let filter = RecordFilter {
        state: Some(ConnectionState::Established),
        local_port: None,
    };
    let out = aggregate(polls, Some(filter));
    assert_eq!(out.report.containers.len(), 1);
    assert_eq!(out.report.containers[0].container_id, "established");
    assert_eq!(out.report.total_connection_count, 1);
}

#[test]
fn empty_dump_is_excluded() {
    let polls = vec![
        reachable("empty", None, ""),
        reachable("busy", None, " 0: 0100007F:0050 00000000:0000 01\n"),
    ];
    let out = aggregate(polls, None);
    assert_eq!(out.report.containers.len(), 1);
    assert_eq!(out.report.containers[0].container_id, "busy");
}

#[test]
fn name_defaults_to_id() {
    let line = " 0: 0100007F:0050 00000000:0000 01\n";
    let polls = vec![
        reachable("c1", Some("web"), line),
        reachable("c2", None, line),
    ];
    let out = aggregate(polls, None);
    assert_eq!(out.report.containers[0].container_name, "web");
    assert_eq!(out.report.containers[1].container_name, "c2");
}

#[test]
fn malformed_lines_surface_as_diagnostics() {
    let text = " 0: 0100007F:0050 00000000:0000 01\n garbage\n";
    let polls = vec![reachable("c1", None, text)];
    let out = aggregate(polls, None);
    assert_eq!(out.report.total_connection_count, 1);
    assert_eq!(out.diagnostics.len(), 1);
    match &out.diagnostics[0] {
        Diagnostic::LineError { container_id, .. } => assert_eq!(container_id, "c1"),
        other => panic!("expected a line error, got {:?}", other),
    }
}
