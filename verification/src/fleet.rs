//! Aggregating per-container collections into one fleet-wide report.

use vstd::prelude::*;

use crate::collector::collect_container_output;
use crate::collector::spec_collect_errors;
use crate::collector::spec_collect_records;
use crate::parser::ParseError;
use crate::record::TcpConnection;
use crate::record::TcpConnectionModel;
use crate::state::classify;
use crate::state::spec_classify;
use crate::state::ConnectionState;

verus! {

/// One container's attempted poll, as plain values: its identifier, its
/// optional human-readable name, and either the raw chunks of its table
/// dump or the message of the failure that left it unreachable.
pub struct ContainerPoll {
    pub id: String,
    pub name: Option<String>,
    pub fetch: Result<Vec<Vec<u8>>, String>,
}

/// The mathematical value of a [`ContainerPoll`].
pub struct ContainerPollModel {
    pub id: Seq<char>,
    pub name: Option<Seq<char>>,
    pub fetch: Result<Seq<Seq<u8>>, Seq<char>>,
}

impl View for ContainerPoll {
    type V = ContainerPollModel;

    open spec fn view(&self) -> ContainerPollModel {
        ContainerPollModel {
            id: self.id@,
            name: match self.name {
                Some(n) => Some(n@),
                None => None,
            },
            fetch: match self.fetch {
                Ok(chunks) => Ok(chunks.deep_view()),
                Err(e) => Err(e@),
            },
        }
    }
}

impl DeepView for ContainerPoll {
    type V = ContainerPollModel;

    open spec fn deep_view(&self) -> ContainerPollModel {
        self.view()
    }
}

/// An optional restriction on records: keep only those whose classified
/// state, and whose local port, match the given ones.
#[derive(Debug, Clone, Copy, PartialEq, Eq)]
pub struct RecordFilter {
    pub state: Option<ConnectionState>,
    pub local_port: Option<u16>,
}

/// Whether a record passes the filter.
pub open spec fn spec_filter_matches(f: RecordFilter, c: TcpConnectionModel) -> bool {
    (match f.state {
        Some(s) => spec_classify(c.state) == s,
        None => true,
    }) && (match f.local_port {
        Some(p) => c.local.port == p,
        None => true,
    })
}

/// Whether a record passes an optional filter; no filter keeps everything.
pub open spec fn spec_passes(f: Option<RecordFilter>, c: TcpConnectionModel) -> bool {
    match f {
        Some(flt) => spec_filter_matches(flt, c),
        None => true,
    }
}

impl RecordFilter {
    /// Whether `c` passes this filter.
    pub fn matches(&self, c: &TcpConnection) -> (r: bool)
        ensures
            r == spec_filter_matches(*self, c@),
    {
        let state_ok = match self.state {
            Some(s) => classify(c.state) == s,
            None => true,
        };
        let port_ok = match self.local_port {
            Some(p) => c.local.port == p,
            None => true,
        };
        state_ok && port_ok
    }
}

/// The records of `rs` that pass the filter, in order.
pub open spec fn spec_filter_records(
    rs: Seq<TcpConnectionModel>,
    f: Option<RecordFilter>,
) -> Seq<TcpConnectionModel>
    decreases rs.len(),
{
    if rs.len() == 0 {
        Seq::empty()
    } else {
        spec_filter_records(rs.drop_last(), f) + (if spec_passes(f, rs.last()) {
            seq![rs.last()]
        } else {
            Seq::empty()
        })
    }
}

/// Keeps the records that pass the filter, in order.
pub fn filter_records(records: Vec<TcpConnection>, f: &Option<RecordFilter>) -> (r: Vec<
    TcpConnection,
>)
    ensures
        r.deep_view() == spec_filter_records(records.deep_view(), *f),
{
    let ghost rdv = records.deep_view();
    let mut kept: Vec<TcpConnection> = Vec::new();
    let mut i: usize = 0;
    proof {
        assert(rdv.take(0) =~= Seq::<TcpConnectionModel>::empty());
        assert(kept.deep_view() =~= Seq::<TcpConnectionModel>::empty());
    }
    while i < records.len()
        invariant
            i <= records@.len(),
            rdv == records.deep_view(),
            kept.deep_view() == spec_filter_records(rdv.take(i as int), *f),
        decreases records@.len() - i,
    {
        proof {
            assert(rdv.take(i as int + 1).drop_last() =~= rdv.take(i as int));
            assert(rdv.take(i as int + 1).last() == records@[i as int]@);
        }
        let keep = match f {
            Some(flt) => flt.matches(&records[i]),
            None => true,
        };
        if keep {
            let ghost old_dv = kept.deep_view();
            kept.push(records[i].clone());
            proof {
                assert(kept.deep_view() =~= old_dv.push(records@[i as int]@));
                assert(old_dv + seq![records@[i as int]@] =~= kept.deep_view());
            }
        } else {
            proof {
                assert(kept.deep_view() + Seq::<TcpConnectionModel>::empty() =~= kept.deep_view());
            }
        }
        i += 1;
    }
    proof {
        assert(rdv.take(records@.len() as int) =~= rdv);
    }
    kept
}

/// One successfully polled container's slice of the report: its identity
/// and its ordered connection records. Never mutated after construction.
#[derive(Debug, PartialEq, Eq)]
pub struct ContainerReport {
    pub container_id: String,
    pub container_name: String,
    pub connections: Vec<TcpConnection>,
}

/// The mathematical value of a [`ContainerReport`].
pub struct ContainerReportModel {
    pub container_id: Seq<char>,
    pub container_name: Seq<char>,
    pub connections: Seq<TcpConnectionModel>,
}

impl View for ContainerReport {
    type V = ContainerReportModel;

    open spec fn view(&self) -> ContainerReportModel {
        ContainerReportModel {
            container_id: self.container_id@,
            container_name: self.container_name@,
            connections: self.connections.deep_view(),
        }
    }
}

impl DeepView for ContainerReport {
    type V = ContainerReportModel;

    open spec fn deep_view(&self) -> ContainerReportModel {
        self.view()
    }
}

/// The fleet-wide report: the included containers in fleet-listing order,
/// and the total record count across them.
#[derive(Debug, PartialEq, Eq)]
pub struct FleetReport {
    pub containers: Vec<ContainerReport>,
    pub total_connection_count: u64,
}

/// The mathematical value of a [`FleetReport`].
pub struct FleetReportModel {
    pub containers: Seq<ContainerReportModel>,
    pub total_connection_count: u64,
}

impl View for FleetReport {
    type V = FleetReportModel;

    open spec fn view(&self) -> FleetReportModel {
        FleetReportModel {
            containers: self.containers.deep_view(),
            total_connection_count: self.total_connection_count,
        }
    }
}

/// A non-blocking warning surfaced while polling the fleet.
#[derive(Debug, PartialEq, Eq)]
pub enum Diagnostic {
    /// A container could not be reached or its dump could not be read; it
    /// was excluded from the report.
    FetchFailed { container_id: String, detail: String },
    /// One line of a reachable container's dump was malformed and dropped.
    LineError { container_id: String, error: ParseError },
}

/// The mathematical value of a [`Diagnostic`].
pub enum DiagnosticModel {
    FetchFailed { container_id: Seq<char>, detail: Seq<char> },
    LineError { container_id: Seq<char>, error: ParseError },
}

impl View for Diagnostic {
    type V = DiagnosticModel;

    open spec fn view(&self) -> DiagnosticModel {
        match self {
            Diagnostic::FetchFailed { container_id, detail } => DiagnosticModel::FetchFailed {
                container_id: container_id@,
                detail: detail@,
            },
            Diagnostic::LineError { container_id, error } => DiagnosticModel::LineError {
                container_id: container_id@,
                error: *error,
            },
        }
    }
}

impl DeepView for Diagnostic {
    type V = DiagnosticModel;

    open spec fn deep_view(&self) -> DiagnosticModel {
        self.view()
    }
}

/// The name a container reports under: its given name, or its identifier
/// when no human-readable name is available.
pub open spec fn spec_report_name(p: ContainerPollModel) -> Seq<char> {
    match p.name {
        Some(n) => n,
        None => p.id,
    }
}

/// The report one poll contributes, if any. A failed fetch contributes
/// nothing, and neither does a container with no record left after the
/// filter.
pub open spec fn spec_poll_report(p: ContainerPollModel, f: Option<RecordFilter>) -> Option<
    ContainerReportModel,
> {
    match p.fetch {
        Err(_) => None,
        Ok(chunks) => {
            let recs = spec_filter_records(spec_collect_records(chunks), f);
            if recs.len() == 0 {
                None
            } else {
                Some(
                    ContainerReportModel {
                        container_id: p.id,
                        container_name: spec_report_name(p),
                        connections: recs,
                    },
                )
            }
        },
    }
}

/// The included container reports of a fleet poll, in fleet-listing order.
pub open spec fn spec_fleet_containers(
    polls: Seq<ContainerPollModel>,
    f: Option<RecordFilter>,
) -> Seq<ContainerReportModel>
    decreases polls.len(),
{
    if polls.len() == 0 {
        Seq::empty()
    } else {
        spec_fleet_containers(polls.drop_last(), f) + (match spec_poll_report(polls.last(), f) {
            Some(r) => seq![r],
            None => Seq::empty(),
        })
    }
}

/// The sum of the record counts of a sequence of container reports.
pub open spec fn spec_total_connections(rs: Seq<ContainerReportModel>) -> nat
    decreases rs.len(),
{
    if rs.len() == 0 {
        0
    } else {
        spec_total_connections(rs.drop_last()) + rs.last().connections.len()
    }
}

/// The fleet total: the sum of the included record counts, saturated at
/// the counter's width.
pub open spec fn spec_fleet_total(polls: Seq<ContainerPollModel>, f: Option<RecordFilter>) -> u64 {
    let sum = spec_total_connections(spec_fleet_containers(polls, f));
    if sum <= u64::MAX {
        sum as u64
    } else {
        u64::MAX
    }
}

/// One line-error diagnostic per parse error, in order, all naming the
/// same container.
pub open spec fn spec_line_diagnostics(id: Seq<char>, errs: Seq<ParseError>) -> Seq<
    DiagnosticModel,
>
    decreases errs.len(),
{
    if errs.len() == 0 {
        Seq::empty()
    } else {
        spec_line_diagnostics(id, errs.drop_last())
            + seq![DiagnosticModel::LineError { container_id: id, error: errs.last() }]
    }
}

/// The diagnostics one poll contributes: one entry for a failed fetch, or
/// one entry per malformed line of a reachable container's dump.
pub open spec fn spec_poll_diagnostics(p: ContainerPollModel) -> Seq<DiagnosticModel> {
    match p.fetch {
        Err(e) => seq![DiagnosticModel::FetchFailed { container_id: p.id, detail: e }],
        Ok(chunks) => spec_line_diagnostics(p.id, spec_collect_errors(chunks)),
    }
}

/// The diagnostics of a fleet poll, in fleet-listing order.
pub open spec fn spec_fleet_diagnostics(polls: Seq<ContainerPollModel>) -> Seq<DiagnosticModel>
    decreases polls.len(),
{
    if polls.len() == 0 {
        Seq::empty()
    } else {
        spec_fleet_diagnostics(polls.drop_last()) + spec_poll_diagnostics(polls.last())
    }
}

/// The identifiers of a sequence of container reports, in order.
pub open spec fn spec_container_ids(rs: Seq<ContainerReportModel>) -> Seq<Seq<char>>
    decreases rs.len(),
{
    if rs.len() == 0 {
        Seq::empty()
    } else {
        spec_container_ids(rs.drop_last()) + seq![rs.last().container_id]
    }
}

/// The identifiers of the polls that contribute a report, in fleet-listing
/// order.
pub open spec fn spec_included_ids(polls: Seq<ContainerPollModel>, f: Option<RecordFilter>) -> Seq<
    Seq<char>,
>
    decreases polls.len(),
{
    if polls.len() == 0 {
        Seq::empty()
    } else {
        spec_included_ids(polls.drop_last(), f) + (if spec_poll_report(polls.last(), f) is Some {
            seq![polls.last().id]
        } else {
            Seq::empty()
        })
    }
}

/// Law: the report preserves fleet-listing order. The identifiers of the
/// report's containers are exactly the identifiers of the polls that
/// contribute a report, in the order the fleet listing gave them — however
/// the individual fetches were scheduled to produce the polls.
pub proof fn lemma_fleet_order(polls: Seq<ContainerPollModel>, f: Option<RecordFilter>)
    ensures
        spec_container_ids(spec_fleet_containers(polls, f)) == spec_included_ids(polls, f),
    decreases polls.len(),
{
    if polls.len() == 0 {
    } else {
        lemma_fleet_order(polls.drop_last(), f);
        let base = spec_fleet_containers(polls.drop_last(), f);
        match spec_poll_report(polls.last(), f) {
            Some(rep) => {
                let whole = base + seq![rep];
                assert(whole.drop_last() =~= base);
                assert(whole.last() == rep);
                assert(rep.container_id == polls.last().id);
                assert(spec_container_ids(whole) == spec_container_ids(base)
                    + seq![polls.last().id]);
            },
            None => {
                assert(base + Seq::<ContainerReportModel>::empty() =~= base);
                assert(spec_included_ids(polls.drop_last(), f) + Seq::<Seq<char>>::empty()
                    =~= spec_included_ids(polls.drop_last(), f));
            },
        }
    }
}

/// Law: fleet partial-failure isolation. A poll whose fetch failed
/// contributes nothing at all: the fleet report, its total, and its
/// container order are exactly those of the fleet listing without that
/// container, and in particular the other containers' reports are
/// untouched by the failure.
pub proof fn lemma_failure_isolation(
    polls: Seq<ContainerPollModel>,
    i: int,
    f: Option<RecordFilter>,
)
    requires
        0 <= i < polls.len(),
        polls[i].fetch is Err,
    ensures
        spec_fleet_containers(polls, f) == spec_fleet_containers(polls.remove(i), f),
        spec_fleet_total(polls, f) == spec_fleet_total(polls.remove(i), f),
    decreases polls.len(),
{
    if i == polls.len() - 1 {
        assert(polls.remove(i) =~= polls.drop_last());
        assert(spec_poll_report(polls.last(), f) is None);
        assert(spec_fleet_containers(polls.drop_last(), f) + Seq::<ContainerReportModel>::empty()
            =~= spec_fleet_containers(polls.drop_last(), f));
    } else {
        let shorter = polls.drop_last();
        assert(shorter[i] == polls[i]);
        lemma_failure_isolation(shorter, i, f);
        let q = polls.remove(i);
        assert(q.drop_last() =~= shorter.remove(i));
        assert(q.last() == polls.last());
        assert(q.len() == polls.len() - 1);
        assert(spec_fleet_containers(q, f) == spec_fleet_containers(q.drop_last(), f) + (match
            spec_poll_report(q.last(), f) {
            Some(r) => seq![r],
            None => Seq::<ContainerReportModel>::empty(),
        }));
    }
}

/// What one fleet pass yields: the report, and the non-blocking warnings
/// collected along the way for the surrounding process to log.
#[derive(Debug, PartialEq, Eq)]
pub struct FleetOutcome {
    pub report: FleetReport,
    pub diagnostics: Vec<Diagnostic>,
}

/// Aggregates one polling pass over the whole fleet.
///
/// Containers are taken in the given fleet-listing order, and the report
/// preserves that order. A failed fetch contributes one diagnostic and is
/// excluded from the report without aborting the pass; a reachable
/// container's dump is collected and filtered, and a container with no
/// record left after the filter is likewise excluded. The total is the sum
/// of the included record counts, saturated at the counter's width. The
/// pass itself never fails.
#[verifier::rlimit(60)]
pub fn aggregate(polls: Vec<ContainerPoll>, filter: Option<RecordFilter>) -> (r: FleetOutcome)
    ensures
        r.report@.containers == spec_fleet_containers(polls.deep_view(), filter),
        r.report@.total_connection_count == spec_fleet_total(polls.deep_view(), filter),
        r.diagnostics.deep_view() == spec_fleet_diagnostics(polls.deep_view()),
{
    let ghost pdv = polls.deep_view();
    let mut containers: Vec<ContainerReport> = Vec::new();
    let mut diagnostics: Vec<Diagnostic> = Vec::new();
    let mut total: u64 = 0;
    let mut i: usize = 0;
    proof {
        assert(pdv.take(0) =~= Seq::<ContainerPollModel>::empty());
        assert(containers.deep_view() =~= Seq::<ContainerReportModel>::empty());
        assert(diagnostics.deep_view() =~= Seq::<DiagnosticModel>::empty());
    }
    while i < polls.len()
        invariant
            i <= polls@.len(),
            pdv == polls.deep_view(),
            containers.deep_view() == spec_fleet_containers(pdv.take(i as int), filter),
            total == spec_fleet_total(pdv.take(i as int), filter),
            diagnostics.deep_view() == spec_fleet_diagnostics(pdv.take(i as int)),
        decreases polls@.len() - i,
    {
        let ghost p_model = polls@[i as int]@;
        let ghost old_cd = containers.deep_view();
        let ghost old_dd = diagnostics.deep_view();
        proof {
            assert(pdv.take(i as int + 1).drop_last() =~= pdv.take(i as int));
            assert(pdv.take(i as int + 1).last() == p_model);
        }
        let p = &polls[i];
        match &p.fetch {
            Err(e) => {
                diagnostics.push(
                    Diagnostic::FetchFailed { container_id: p.id.clone(), detail: e.clone() },
                );
                proof {
                    assert(p_model.fetch == Err::<Seq<Seq<u8>>, Seq<char>>(e@));
                    assert(diagnostics.deep_view() =~= old_dd.push(
                        DiagnosticModel::FetchFailed { container_id: p_model.id, detail: e@ },
                    ));
                    assert(old_dd + spec_poll_diagnostics(p_model) =~= diagnostics.deep_view());
                    assert(old_cd + Seq::<ContainerReportModel>::empty() =~= old_cd);
                    assert(spec_fleet_containers(pdv.take(i as int + 1), filter) == old_cd);
                }
            },
            Ok(chunks) => {
                proof {
                    assert(p_model.fetch == Ok::<Seq<Seq<u8>>, Seq<char>>(chunks.deep_view()));
                }
                let col = collect_container_output(chunks);
                let ghost errs = col.errors@;
                let mut k: usize = 0;
                proof {
                    assert(errs.take(0) =~= Seq::<ParseError>::empty());
                    assert(old_dd + spec_line_diagnostics(p_model.id, errs.take(0)) =~= old_dd);
                }
                while k < col.errors.len()
                    invariant
                        k <= errs.len(),
                        errs == col.errors@,
                        p == &polls[i as int],
                        p_model == polls@[i as int]@,
                        diagnostics.deep_view() == old_dd + spec_line_diagnostics(
                            p_model.id,
                            errs.take(k as int),
                        ),
                    decreases errs.len() - k,
                {
                    let ghost step_dd = diagnostics.deep_view();
                    let err = col.errors[k];
                    diagnostics.push(
                        Diagnostic::LineError { container_id: p.id.clone(), error: err },
                    );
                    proof {
                        assert(errs.take(k as int + 1).drop_last() =~= errs.take(k as int));
                        assert(errs.take(k as int + 1).last() == errs[k as int]);
                        assert(diagnostics.deep_view() =~= step_dd.push(
                            DiagnosticModel::LineError { container_id: p_model.id, error: errs[k as int] },
                        ));
                        assert(old_dd + (spec_line_diagnostics(p_model.id, errs.take(k as int))
                            + seq![DiagnosticModel::LineError { container_id: p_model.id, error: errs[k as int] }])
                            =~= diagnostics.deep_view());
                    }
                    k += 1;
                }
                proof {
                    assert(errs.take(errs.len() as int) =~= errs);
                    assert(spec_poll_diagnostics(p_model) == spec_line_diagnostics(
                        p_model.id,
                        spec_collect_errors(chunks.deep_view()),
                    ));
                    assert(diagnostics.deep_view() == old_dd + spec_poll_diagnostics(p_model));
                }
                let kept = filter_records(col.records, &filter);
                let ghost recs = spec_filter_records(
                    spec_collect_records(chunks.deep_view()),
                    filter,
                );
                if kept.len() > 0 {
                    let cname = match &p.name {
                        Some(n) => n.clone(),
                        None => p.id.clone(),
                    };
                    let count = kept.len();
                    let ghost rep = ContainerReportModel {
                        container_id: p_model.id,
                        container_name: spec_report_name(p_model),
                        connections: recs,
                    };
                    containers.push(
                        ContainerReport {
                            container_id: p.id.clone(),
                            container_name: cname,
                            connections: kept,
                        },
                    );
                    let add = count as u64;
                    total = if u64::MAX - total < add {
                        u64::MAX
                    } else {
                        total + add
                    };
                    proof {
                        assert(containers.deep_view() =~= old_cd.push(rep));
                        assert(spec_poll_report(p_model, filter) == Some(rep));
                        let new_seq = spec_fleet_containers(pdv.take(i as int + 1), filter);
                        assert(old_cd + seq![rep] =~= containers.deep_view());
                        assert(new_seq == containers.deep_view());
                        assert(new_seq.drop_last() =~= old_cd);
                        assert(new_seq.last() == rep);
                        assert(spec_total_connections(new_seq) == spec_total_connections(old_cd)
                            + recs.len());
                        assert(recs.len() == count);
                    }
                } else {
                    proof {
                        assert(recs.len() == 0);
                        assert(spec_poll_report(p_model, filter) is None);
                        assert(old_cd + Seq::<ContainerReportModel>::empty() =~= old_cd);
                        assert(spec_fleet_containers(pdv.take(i as int + 1), filter) == old_cd);
                    }
                }
            },
        }
        i += 1;
    }
    proof {
        assert(pdv.take(polls@.len() as int) =~= pdv);
    }
    FleetOutcome {
        report: FleetReport { containers, total_connection_count: total },
        diagnostics,
    }
}

} // verus!
