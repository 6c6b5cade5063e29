//! The port scanner: the lowest port of a range that is free on both IP
//! families.
//!
//! The caller starts one probe for every candidate port before it looks at
//! any result, in ascending order of port. A probe tries to bind the port on
//! the unspecified address of each family and reports where it succeeded.
//! The caller then waits for the probes in the order in which it started them
//! and hands each outcome to a [`PortScan`], which settles on the first port
//! found available. Which probe finished first plays no part: the selection
//! is a function of the outcomes by position alone.

use vstd::prelude::*;

verus! {

/// The first port of the range the host scans.
pub const FIRST_PORT: u16 = 6881;

/// The last port of the range the host scans.
pub const LAST_PORT: u16 = 6900;

/// What the probe of one port found.
#[derive(Clone, Copy, Debug, PartialEq, Eq, Structural)]
pub struct PortProbeResult {
    pub port: u16,
    /// Whether the port could be bound on IPv4 and on IPv6.
    pub available: bool,
}

/// The outcome of waiting for one probe: its result, or `None` where the
/// probe did not run to its end.
pub type ProbeOutcome = Option<PortProbeResult>;

/// A port is available if it could be bound on both families, and only then.
pub fn is_available(v4_bound: bool, v6_bound: bool) -> (available: bool)
    ensures
        available <==> v4_bound && v6_bound,
{
    v4_bound && v6_bound
}

/// The result of probing `port`, from the outcomes of its two binds.
pub fn probe_result(port: u16, v4_bound: bool, v6_bound: bool) -> (result: PortProbeResult)
    ensures
        result.port == port,
        result.available <==> v4_bound && v6_bound,
{
    PortProbeResult { port, available: is_available(v4_bound, v6_bound) }
}

/// The number of ports in `start..=end`; none if `start` is above `end`.
pub open spec fn candidate_count(start: u16, end: u16) -> nat {
    if start <= end {
        (end - start + 1) as nat
    } else {
        0
    }
}

/// The ports to probe, in the order in which their probes are started and
/// inspected: `start..=end`, ascending. No port is left out, port 0 neither.
pub open spec fn candidates(start: u16, end: u16) -> Seq<u16> {
    Seq::new(candidate_count(start, end), |i: int| (start + i) as u16)
}

/// Lists the ports to probe, in the order in which to start the probes.
pub fn candidate_ports(start: u16, end: u16) -> (ports: Vec<u16>)
    ensures
        ports@ == candidates(start, end),
{
    let mut ports: Vec<u16> = Vec::new();
    if start <= end {
        let mut port: u16 = start;
        while port < end
            invariant
                start <= port <= end,
                ports@ == candidates(start, port).drop_last(),
            decreases end - port,
        {
            ports.push(port);
            port = port + 1;
        }
        ports.push(port);
    }
    ports
}

/// Whether an outcome shows its port available. A probe that did not run to
/// its end shows nothing.
pub open spec fn is_free(outcome: ProbeOutcome) -> bool {
    outcome matches Some(result) && result.available
}

/// The port of the first outcome, in order, that shows its port available.
pub open spec fn first_available(outcomes: Seq<ProbeOutcome>) -> Option<u16>
    decreases outcomes.len(),
{
    if outcomes.len() == 0 {
        None
    } else if is_free(outcomes.first()) {
        Some(outcomes.first().unwrap().port)
    } else {
        first_available(outcomes.skip(1))
    }
}

/// The progress of one scan.
#[derive(Clone, Copy, Debug, PartialEq, Eq, Structural)]
pub enum PortScan {
    /// The probes of `port..=last` have not been inspected yet; that of
    /// `port` comes next.
    Awaiting { port: u16, last: u16 },
    /// The scan has settled on this port.
    Selected(u16),
    /// Every probe was inspected and none showed its port available.
    Exhausted,
}

impl PortScan {
    /// The scan of `start..=end` before any probe is inspected.
    pub open spec fn spec_begin(start: u16, end: u16) -> PortScan {
        if start <= end {
            PortScan::Awaiting { port: start, last: end }
        } else {
            PortScan::Exhausted
        }
    }

    /// The port whose probe the scan waits for, if it waits for any.
    pub open spec fn spec_awaited(&self) -> Option<u16> {
        match *self {
            PortScan::Awaiting { port, last } => Some(port),
            _ => None,
        }
    }

    /// The port the scan has settled on, if it has.
    pub open spec fn spec_selected(&self) -> Option<u16> {
        match *self {
            PortScan::Selected(port) => Some(port),
            _ => None,
        }
    }

    /// The scan after it has inspected the outcome of the awaited probe.
    pub open spec fn spec_inspect(self, outcome: ProbeOutcome) -> PortScan {
        match self {
            PortScan::Awaiting { port, last } => {
                if is_free(outcome) {
                    PortScan::Selected(outcome.unwrap().port)
                } else if port < last {
                    PortScan::Awaiting { port: (port + 1) as u16, last }
                } else {
                    PortScan::Exhausted
                }
            },
            PortScan::Selected(port) => PortScan::Selected(port),
            PortScan::Exhausted => PortScan::Exhausted,
        }
    }

    /// The scan after it has inspected `outcomes`, one after the other.
    pub open spec fn run(self, outcomes: Seq<ProbeOutcome>) -> PortScan
        decreases outcomes.len(),
    {
        if outcomes.len() == 0 {
            self
        } else {
            self.spec_inspect(outcomes.first()).run(outcomes.skip(1))
        }
    }

    /// Begins the scan of `start..=end`. An empty range is exhausted from the
    /// start, with no probe to wait for.
    pub fn begin(start: u16, end: u16) -> (scan: PortScan)
        ensures
            scan == PortScan::spec_begin(start, end),
    {
        if start <= end {
            PortScan::Awaiting { port: start, last: end }
        } else {
            PortScan::Exhausted
        }
    }

    /// The port whose probe must be waited for next; `None` once the scan
    /// has settled or is exhausted.
    #[verifier::when_used_as_spec(spec_awaited)]
    pub fn awaited(&self) -> (port: Option<u16>)
        ensures
            port == self.spec_awaited(),
    {
        match *self {
            PortScan::Awaiting { port, last: _ } => Some(port),
            _ => None,
        }
    }

    /// The port the scan has settled on; `None` while it waits for a probe
    /// and when it is exhausted.
    #[verifier::when_used_as_spec(spec_selected)]
    pub fn selected(&self) -> (port: Option<u16>)
        ensures
            port == self.spec_selected(),
    {
        match *self {
            PortScan::Selected(port) => Some(port),
            _ => None,
        }
    }

    /// Inspects the outcome of the awaited probe.
    ///
    /// An outcome that shows its port available settles the scan on that
    /// port. Any other moves the scan on to the next candidate, or exhausts
    /// it after the last. A scan that no longer waits for a probe stays as
    /// it is.
    #[verifier::when_used_as_spec(spec_inspect)]
    pub fn inspect(self, outcome: ProbeOutcome) -> (next: PortScan)
        ensures
            next == self.spec_inspect(outcome),
    {
        match self {
            PortScan::Awaiting { port, last } => {
                match outcome {
                    Some(result) => {
                        if result.available {
                            return PortScan::Selected(result.port);
                        }
                    },
                    None => {},
                }
                if port < last {
                    PortScan::Awaiting { port: port + 1, last }
                } else {
                    PortScan::Exhausted
                }
            },
            PortScan::Selected(port) => PortScan::Selected(port),
            PortScan::Exhausted => PortScan::Exhausted,
        }
    }
}

/// The outcomes that a scan of `start..=end` looks at: one for each
/// candidate, as far as there are outcomes.
pub open spec fn inspected(start: u16, end: u16, outcomes: Seq<ProbeOutcome>) -> Seq<
    ProbeOutcome,
> {
    if outcomes.len() <= candidate_count(start, end) {
        outcomes
    } else {
        outcomes.take(candidate_count(start, end) as int)
    }
}

/// The port that the scan of `start..=end` selects when the probes of its
/// candidates end, in order, with `outcomes`.
pub open spec fn scan_result(start: u16, end: u16, outcomes: Seq<ProbeOutcome>) -> Option<u16> {
    first_available(inspected(start, end, outcomes))
}

/// Scans `start..=end` over the outcomes of its probes, given in the order of
/// the candidates, and returns the port selected.
///
/// The result is the port of the first outcome that shows its port
/// available, among those of the candidates; `None` if there is no such
/// outcome. A candidate without an outcome counts as not available.
pub fn find_available_port(start: u16, end: u16, outcomes: &[ProbeOutcome]) -> (port: Option<u16>)
    ensures
        port == scan_result(start, end, outcomes@),
        port == PortScan::spec_begin(start, end).run(outcomes@).spec_selected(),
{
    let mut scan = PortScan::begin(start, end);
    let mut at: usize = 0;
    assert(outcomes@.skip(0) == outcomes@);
    while at < outcomes.len() && scan.awaited().is_some()
        invariant
            at <= outcomes.len(),
            scan.run(outcomes@.skip(at as int)) == PortScan::spec_begin(start, end).run(outcomes@),
        decreases outcomes.len() - at,
    {
        proof {
            assert(outcomes@.skip(at as int).skip(1) == outcomes@.skip(at + 1));
        }
        scan = scan.inspect(outcomes[at]);
        at = at + 1;
    }
    proof {
        if scan.spec_awaited() is None {
            lemma_settled_scan_stays(scan, outcomes@.skip(at as int));
        }
        lemma_scan_selects_first_available(start, end, outcomes@);
    }
    scan.selected()
}

/// A scan selects at most once: once it has settled on a port, or is
/// exhausted, no further outcome changes it.
pub proof fn lemma_settled_scan_stays(scan: PortScan, outcomes: Seq<ProbeOutcome>)
    requires
        scan.spec_awaited() is None,
    ensures
        scan.run(outcomes) == scan,
    decreases outcomes.len(),
{
    if outcomes.len() > 0 {
        lemma_settled_scan_stays(scan, outcomes.skip(1));
    }
}

/// The scan of `start..=end` after it has inspected `outcomes`, in closed
/// form: settled on the port selected, if there is one; else waiting for the
/// candidate that follows those inspected, or exhausted after the last.
pub open spec fn scan_after(start: u16, end: u16, outcomes: Seq<ProbeOutcome>) -> PortScan {
    match scan_result(start, end, outcomes) {
        Some(port) => PortScan::Selected(port),
        None => if outcomes.len() < candidate_count(start, end) {
            PortScan::Awaiting { port: candidates(start, end)[outcomes.len() as int], last: end }
        } else {
            PortScan::Exhausted
        },
    }
}

proof fn lemma_run_from(port: u16, last: u16, outcomes: Seq<ProbeOutcome>)
    requires
        port <= last,
    ensures
        (PortScan::Awaiting { port, last }).run(outcomes) == scan_after(port, last, outcomes),
    decreases outcomes.len(),
{
    let scan = PortScan::Awaiting { port, last };
    let seen = inspected(port, last, outcomes);
    if outcomes.len() == 0 {
        assert(candidates(port, last)[0] == port);
    } else {
        let rest = outcomes.skip(1);
        assert(seen.first() == outcomes.first());
        assert(scan.run(outcomes) == scan.spec_inspect(outcomes.first()).run(rest));
        if is_free(outcomes.first()) {
            lemma_settled_scan_stays(scan.spec_inspect(outcomes.first()), rest);
        } else if port < last {
            let next = (port + 1) as u16;
            lemma_run_from(next, last, rest);
            assert(seen.skip(1) == inspected(next, last, rest));
            assert(first_available(seen) == first_available(seen.skip(1)));
            if outcomes.len() < candidate_count(port, last) {
                assert(candidates(next, last)[rest.len() as int] == candidates(port, last)[outcomes.len() as int]);
            }
        } else {
            lemma_settled_scan_stays(PortScan::Exhausted, rest);
            assert(seen.skip(1).len() == 0);
            assert(first_available(seen) == first_available(seen.skip(1)));
        }
    }
}

/// Inspecting the outcomes one by one, in the order of the candidates, leads
/// to the state that [`scan_after`] describes. So the scan selects the port
/// of the first outcome that shows its port available, among those of the
/// candidates, and until then waits for the candidates in ascending order.
pub proof fn lemma_scan_selects_first_available(
    start: u16,
    end: u16,
    outcomes: Seq<ProbeOutcome>,
)
    ensures
        PortScan::spec_begin(start, end).run(outcomes) == scan_after(start, end, outcomes),
        PortScan::spec_begin(start, end).run(outcomes).spec_selected() == scan_result(
            start,
            end,
            outcomes,
        ),
{
    if start <= end {
        lemma_run_from(start, end, outcomes);
    } else {
        lemma_settled_scan_stays(PortScan::Exhausted, outcomes);
        assert(inspected(start, end, outcomes).len() == 0);
    }
}

/// The first outcome that shows its port available decides: where the
/// outcome at `at` does and none before it does, its port is selected.
pub proof fn lemma_first_free_wins(outcomes: Seq<ProbeOutcome>, at: int)
    requires
        0 <= at < outcomes.len(),
        is_free(outcomes[at]),
        forall|i: int| 0 <= i < at ==> !is_free(#[trigger] outcomes[i]),
    ensures
        first_available(outcomes) == Some(outcomes[at].unwrap().port),
    decreases outcomes.len(),
{
    if at > 0 {
        let rest = outcomes.skip(1);
        assert(!is_free(outcomes[0]));
        assert forall|i: int| 0 <= i < at - 1 implies !is_free(#[trigger] rest[i]) by {
            assert(rest[i] == outcomes[i + 1]);
        }
        lemma_first_free_wins(rest, at - 1);
    }
}

/// A port that is selected was found available, and no outcome before its
/// own showed a port available. Returns the position of that outcome.
pub proof fn lemma_selected_is_first_free(outcomes: Seq<ProbeOutcome>) -> (at: int)
    requires
        first_available(outcomes) is Some,
    ensures
        0 <= at < outcomes.len(),
        is_free(outcomes[at]),
        first_available(outcomes) == Some(outcomes[at].unwrap().port),
        forall|i: int| 0 <= i < at ==> !is_free(#[trigger] outcomes[i]),
    decreases outcomes.len(),
{
    if is_free(outcomes.first()) {
        0
    } else {
        let rest = outcomes.skip(1);
        let found = lemma_selected_is_first_free(rest);
        assert forall|i: int| 0 <= i < found + 1 implies !is_free(#[trigger] outcomes[i]) by {
            if i > 0 {
                assert(outcomes[i] == rest[i - 1]);
            }
        }
        found + 1
    }
}

/// No port is selected exactly if no outcome shows its port available.
pub proof fn lemma_none_selected_iff_none_free(outcomes: Seq<ProbeOutcome>)
    ensures
        first_available(outcomes) is None <==> forall|i: int|
            0 <= i < outcomes.len() ==> !is_free(#[trigger] outcomes[i]),
{
    if first_available(outcomes) is Some {
        let at = lemma_selected_is_first_free(outcomes);
    } else if exists|i: int| 0 <= i < outcomes.len() && is_free(#[trigger] outcomes[i]) {
        let some = choose|i: int| 0 <= i < outcomes.len() && is_free(#[trigger] outcomes[i]);
        lemma_some_free_selects(outcomes, some);
    }
}

proof fn lemma_some_free_selects(outcomes: Seq<ProbeOutcome>, at: int)
    requires
        0 <= at < outcomes.len(),
        is_free(outcomes[at]),
    ensures
        first_available(outcomes) is Some,
    decreases outcomes.len(),
{
    if !is_free(outcomes.first()) {
        assert(outcomes.skip(1)[at - 1] == outcomes[at]);
        lemma_some_free_selects(outcomes.skip(1), at - 1);
    }
}

/// Whether `outcomes` can be those of the probes of the first candidates of
/// `start..=end`, in order: there are no more outcomes than candidates, and a
/// probe that ran to its end reports on the port it was started for.
pub open spec fn probes_of_range(start: u16, end: u16, outcomes: Seq<ProbeOutcome>) -> bool {
    &&& outcomes.len() <= candidate_count(start, end)
    &&& forall|i: int|
        0 <= i < outcomes.len() ==> ((#[trigger] outcomes[i]) matches Some(result)
            ==> result.port == candidates(start, end)[i])
}

/// Where every port probed is found available, the scan selects the first
/// port of the range.
pub proof fn lemma_all_free_selects_start(start: u16, end: u16, outcomes: Seq<ProbeOutcome>)
    requires
        probes_of_range(start, end, outcomes),
        outcomes.len() > 0,
        forall|i: int| 0 <= i < outcomes.len() ==> is_free(#[trigger] outcomes[i]),
    ensures
        scan_result(start, end, outcomes) == Some(start),
{
    lemma_lowest_free_port_wins(start, end, start, outcomes);
}

/// The lowest port found available wins: where the probes of all ports of
/// the range below `port` found them taken, or did not run to their end, and
/// the probe of `port` found it available, the scan selects `port`,
/// whatever became of the probes of the ports above it. The outcomes enter by
/// their position alone, so the order in which the probes finished changes
/// nothing.
pub proof fn lemma_lowest_free_port_wins(
    start: u16,
    end: u16,
    port: u16,
    outcomes: Seq<ProbeOutcome>,
)
    requires
        probes_of_range(start, end, outcomes),
        start <= port,
        port - start < outcomes.len(),
        is_free(outcomes[port - start]),
        forall|below: int| start <= below < port ==> !is_free(#[trigger] outcomes[below - start]),
    ensures
        scan_result(start, end, outcomes) == Some(port),
        PortScan::spec_begin(start, end).run(outcomes) == PortScan::Selected(port),
{
    assert forall|i: int| 0 <= i < port - start implies !is_free(#[trigger] outcomes[i]) by {
        assert(outcomes[i] == outcomes[(start + i) - start]);
    }
    lemma_first_free_wins(outcomes, port - start);
    lemma_scan_selects_first_available(start, end, outcomes);
}

/// Where every port probed is found taken, the scan selects none.
pub proof fn lemma_all_taken_selects_none(start: u16, end: u16, outcomes: Seq<ProbeOutcome>)
    requires
        forall|i: int| 0 <= i < outcomes.len() ==> !is_free(#[trigger] outcomes[i]),
    ensures
        scan_result(start, end, outcomes) is None,
        PortScan::spec_begin(start, end).run(outcomes).spec_selected() is None,
{
    lemma_none_selected_iff_none_free(inspected(start, end, outcomes));
    lemma_scan_selects_first_available(start, end, outcomes);
}

/// A range whose start lies above its end has no candidate: no probe is
/// started for it, the scan is exhausted before it inspects anything, and no
/// port is selected whatever outcomes are offered.
pub proof fn lemma_empty_range_selects_none(start: u16, end: u16, outcomes: Seq<ProbeOutcome>)
    requires
        start > end,
    ensures
        candidates(start, end) == Seq::<u16>::empty(),
        PortScan::spec_begin(start, end) == PortScan::Exhausted,
        PortScan::spec_begin(start, end).spec_awaited() is None,
        scan_result(start, end, outcomes) is None,
{
    assert(inspected(start, end, outcomes).len() == 0);
}

} // verus!
