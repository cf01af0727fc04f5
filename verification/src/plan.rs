//! The compiled plan and the execution engine: every record read from the
//! source is routed to exactly one of the final, trace and error streams,
//! and the per-step statistics are kept while it is.

use vstd::prelude::*;
use crate::op::{Operator, OperatorFactory, Verdict};
use crate::registry::{BuildError, OperatorRegistry};
use crate::sample::{JsonKind, Sample};
use crate::spec::{OperatorNode, PipelineSpec, SinkSpec};
use crate::text::{has_suffix, str_ends_with, str_eq};

verus! {

/// A point in time of the monotonic clock.
#[verifier::external_type_specification]
#[verifier::external_body]
pub struct ExInstant(std::time::Instant);

/// `std::time::Instant::now`.
#[verifier::external_body]
fn clock_start() -> std::time::Instant {
    std::time::Instant::now()
}

/// `std::time::Instant::elapsed`, in whole nanoseconds.
#[verifier::external_body]
fn elapsed_nanos(start: &std::time::Instant) -> u64 {
    start.elapsed().as_nanos() as u64
}

/// Why the reader could not produce the record at a source position.
pub struct ReadError {
    pub message: String,
}

/// Why a pipeline could not be compiled.
pub enum PlanError {
    /// The operator of step `step` could not be built.
    Build { step: usize, error: BuildError },
    /// The source names no location to read.
    NoSource,
    /// Neither the sink's kind nor the extension of its location tells the
    /// format to write.
    AmbiguousSink,
}

/// One of the output streams of a run.
#[derive(Clone, Copy, PartialEq, Eq, Structural, Debug)]
pub enum Sink {
    /// The survivors.
    Final,
    /// The records that step `.0` dropped or failed on.
    Trace(usize),
    /// The source positions that could not be read.
    Error,
}

/// Where the record of one source position goes. `first` tells that the
/// stream has received nothing before, so that its writer is yet to be made.
pub enum Delivery {
    /// Every operator kept the record: `sample` is what the last one returned.
    Final { sample: Sample, first: bool },
    /// Step `step` dropped the record or failed on it: `sample` is the record
    /// as it entered that step.
    Trace { step: usize, sample: Sample, first: bool },
    /// Step `step` dropped the record or failed on it, and tracing is off.
    Discard { step: usize },
    /// The reader failed at this position: `sample` holds the reason under `error`.
    Error { sample: Sample, first: bool },
}

/// The counters of one pipeline step.
pub struct StepStatistics {
    pub step_name: String,
    pub step_index: usize,
    pub processing_time_ms: u64,
    pub documents_removed: usize,
    pub documents_remaining_before: usize,
    pub total_documents: usize,
}

/// The counters of a run.
pub struct ProcessingStatistics {
    pub num_documents: usize,
    pub step_statistics: Vec<StepStatistics>,
    pub read_time_ms: u64,
    pub write_time_ms: u64,
}

/// The operators of a pipeline in order, each under its step name, with the
/// pipeline they were built from.
pub struct Plan<O: Operator> {
    operators: Vec<(String, O)>,
    spec: PipelineSpec,
}

/// The counters of a run in progress, and the streams it has demanded.
pub struct Run {
    before: Vec<usize>,
    removed: Vec<usize>,
    nanos: Vec<u64>,
    survivors: usize,
    errors: usize,
    total_input: usize,
    demanded: Vec<Sink>,
}

/// The record `a`, entering the pipeline, is kept by each of the first `n`
/// operators in turn and leaves the `n`-th as `b`.
pub open spec fn flows<O: Operator>(ops: Seq<(String, O)>, n: int, a: Sample, b: Sample) -> bool
    decreases n,
{
    if n <= 0 {
        a == b
    } else {
        exists|m: Sample| flows(ops, n - 1, a, m) && #[trigger] ops[n - 1].1.admits(m, Verdict::Kept(b))
    }
}

/// The record `a` is kept by every operator before `step`, enters `step` as
/// `snapshot`, and `step` drops it or fails on it.
pub open spec fn stops_at<O: Operator>(ops: Seq<(String, O)>, step: int, a: Sample, snapshot: Sample) -> bool {
    &&& 0 <= step < ops.len()
    &&& flows(ops, step, a, snapshot)
    &&& (ops[step].1.admits(snapshot, Verdict::Dropped) || ops[step].1.admits(snapshot, Verdict::Failed))
}

/// The record `a` is kept by every operator before `step`, and `step` drops
/// it or fails on it.
pub open spec fn stops_somehow<O: Operator>(ops: Seq<(String, O)>, step: int, a: Sample) -> bool {
    exists|snapshot: Sample| stops_at(ops, step, a, snapshot)
}

/// Whether the sink tells its format, by its kind or by the extension of its
/// location.
pub open spec fn sink_format_known(sink: SinkSpec) -> bool {
    ||| sink.kind@ == "parquet"@
    ||| sink.kind@ == "jsonl"@
    ||| has_suffix(sink.uri@, ".parquet"@)
    ||| has_suffix(sink.uri@, ".jsonl"@)
    ||| has_suffix(sink.uri@, ".json"@)
}

/// The first `n` nodes were built by the registry into the first `n` of `ops`.
pub open spec fn built_from<F: OperatorFactory>(
    registry: OperatorRegistry<F>,
    nodes: Seq<OperatorNode>,
    ops: Seq<(String, F::Output)>,
    n: int,
) -> bool {
    &&& n <= ops.len()
    &&& n <= nodes.len()
    &&& forall|j: int|
        0 <= j < n ==> (#[trigger] ops[j]).0@ == nodes[j].name@ && registry.builds(
            nodes[j].name@,
            nodes[j].config,
            Ok(ops[j].1),
        )
}

/// The stream that a delivery goes to, if it goes to one.
pub open spec fn sink_of(d: Delivery) -> Option<Sink> {
    match d {
        Delivery::Final { .. } => Some(Sink::Final),
        Delivery::Trace { step, .. } => Some(Sink::Trace(step)),
        Delivery::Discard { .. } => None,
        Delivery::Error { .. } => Some(Sink::Error),
    }
}

/// Whether a delivery opens its stream.
pub open spec fn opens(d: Delivery) -> bool {
    match d {
        Delivery::Final { first, .. } => first,
        Delivery::Trace { first, .. } => first,
        Delivery::Discard { .. } => false,
        Delivery::Error { first, .. } => first,
    }
}

/// The sum of the first `n` counters.
pub open spec fn sum_upto(counts: Seq<usize>, n: int) -> int
    decreases n,
{
    if n <= 0 {
        0
    } else {
        sum_upto(counts, n - 1) + counts[n - 1]
    }
}

/// The number of deliveries to the final stream.
pub open spec fn finals_in(deliveries: Seq<Delivery>) -> int
    decreases deliveries.len(),
{
    if deliveries.len() == 0 {
        0
    } else {
        finals_in(deliveries.drop_last()) + if deliveries.last() is Final {
            1int
        } else {
            0int
        }
    }
}

/// The number of deliveries to the error stream.
pub open spec fn errors_in(deliveries: Seq<Delivery>) -> int
    decreases deliveries.len(),
{
    if deliveries.len() == 0 {
        0
    } else {
        errors_in(deliveries.drop_last()) + if deliveries.last() is Error {
            1int
        } else {
            0int
        }
    }
}

/// The number of records that step `step` dropped or failed on.
pub open spec fn stops_in(deliveries: Seq<Delivery>, step: int) -> int
    decreases deliveries.len(),
{
    if deliveries.len() == 0 {
        0
    } else {
        stops_in(deliveries.drop_last(), step) + if stopped_by(deliveries.last(), step) {
            1int
        } else {
            0int
        }
    }
}

/// The streams that the deliveries open, in order.
pub open spec fn opened_in(deliveries: Seq<Delivery>) -> Seq<Sink>
    decreases deliveries.len(),
{
    if deliveries.len() == 0 {
        Seq::empty()
    } else if opens(deliveries.last()) {
        opened_in(deliveries.drop_last()).push(sink_of(deliveries.last())->Some_0)
    } else {
        opened_in(deliveries.drop_last())
    }
}

/// The source positions whose delivery goes to `sink`.
pub open spec fn positions_of(deliveries: Seq<Delivery>, sink: Sink) -> Set<int> {
    Set::new(|p: int| 0 <= p < deliveries.len() && sink_of(deliveries[p]) == Some(sink))
}

/// The source positions whose delivery goes to any trace stream.
pub open spec fn trace_positions(deliveries: Seq<Delivery>) -> Set<int> {
    Set::new(|p: int| 0 <= p < deliveries.len() && deliveries[p] is Trace)
}

/// `n` counters at zero.
fn zeros(n: usize) -> (r: Vec<usize>)
    ensures
        r@.len() == n,
        forall|i: int| 0 <= i < n ==> r@[i] == 0,
{
    let mut out: Vec<usize> = Vec::new();
    while out.len() < n
        invariant
            out@.len() <= n,
            forall|i: int| 0 <= i < out@.len() ==> out@[i] == 0,
        decreases n - out@.len(),
    {
        out.push(0);
    }
    out
}

/// `n` clocks at zero.
fn zero_clocks(n: usize) -> (r: Vec<u64>)
    ensures
        r@.len() == n,
        forall|i: int| 0 <= i < n ==> r@[i] == 0,
{
    let mut out: Vec<u64> = Vec::new();
    while out.len() < n
        invariant
            out@.len() <= n,
            forall|i: int| 0 <= i < out@.len() ==> out@[i] == 0,
        decreases n - out@.len(),
    {
        out.push(0);
    }
    out
}

impl Run {
    /// Per step, the records that reached it.
    pub closed spec fn before(&self) -> Seq<usize> {
        self.before@
    }

    /// Per step, the records that it dropped or failed on.
    pub closed spec fn removed(&self) -> Seq<usize> {
        self.removed@
    }

    /// Per step, the time spent in its operator, in nanoseconds.
    pub closed spec fn nanos(&self) -> Seq<u64> {
        self.nanos@
    }

    /// The records that every operator kept.
    pub closed spec fn survivors(&self) -> int {
        self.survivors as int
    }

    /// The source positions that the reader failed on.
    pub closed spec fn errors(&self) -> int {
        self.errors as int
    }

    /// The source positions seen.
    pub closed spec fn total_input(&self) -> int {
        self.total_input as int
    }

    /// The streams that have received a record, in the order of their first.
    pub closed spec fn demanded(&self) -> Seq<Sink> {
        self.demanded@
    }

    /// Whether `sink` has received a record.
    pub open spec fn has_output(&self, sink: Sink, trace: bool) -> bool {
        match sink {
            Sink::Final => self.survivors() > 0,
            Sink::Error => self.errors() > 0,
            Sink::Trace(i) => trace && i < self.removed().len() && self.removed()[i as int] > 0,
        }
    }

    /// The counters fit a pipeline of `steps` steps: each step is reached by
    /// what the step before it kept, and the demanded streams are those that
    /// have received a record.
    pub open spec fn wf(&self, steps: int, trace: bool) -> bool {
        &&& self.before().len() == steps
        &&& self.removed().len() == steps
        &&& self.nanos().len() == steps
        &&& 0 <= self.survivors() <= self.total_input()
        &&& 0 <= self.errors() <= self.total_input()
        &&& self.total_input() <= usize::MAX
        &&& steps == 0 ==> self.survivors() + self.errors() == self.total_input()
        &&& steps > 0 ==> self.before()[0] + self.errors() == self.total_input()
        &&& steps > 0 ==> self.survivors() + self.removed()[steps - 1] == self.before()[steps - 1]
        &&& forall|i: int|
            0 <= i < steps - 1 ==> self.before()[i + 1] + #[trigger] self.removed()[i]
                == self.before()[i]
        &&& forall|i: int| 0 <= i < steps ==> #[trigger] self.before()[i] <= self.total_input()
        &&& self.demanded().no_duplicates()
        &&& forall|s: Sink| #[trigger] self.demanded().contains(s) <==> self.has_output(s, trace)
    }

    /// What the delivery `d` of one more source position does to the counters.
    pub open spec fn tallied(&self, before: Run, d: Delivery) -> bool {
        &&& self.total_input() == before.total_input() + 1
        &&& self.before().len() == before.before().len()
        &&& self.removed().len() == before.removed().len()
        &&& self.survivors() == before.survivors() + (if d is Final {
            1int
        } else {
            0int
        })
        &&& self.errors() == before.errors() + (if d is Error {
            1int
        } else {
            0int
        })
        &&& forall|j: int|
            0 <= j < self.before().len() ==> #[trigger] self.before()[j] == before.before()[j] + (
            if reaches(d, j, self.before().len() as int) {
                1int
            } else {
                0int
            })
        &&& forall|j: int|
            0 <= j < self.removed().len() ==> #[trigger] self.removed()[j] == before.removed()[j]
                + (if stopped_by(d, j) {
                1int
            } else {
                0int
            })
        &&& self.demanded() == (if opens(d) {
            before.demanded().push(sink_of(d)->Some_0)
        } else {
            before.demanded()
        })
        &&& self.nanos().len() == before.nanos().len()
        &&& forall|j: int|
            0 <= j < self.nanos().len() ==> #[trigger] self.nanos()[j] >= before.nanos()[j] && (!reaches(
                d,
                j,
                self.before().len() as int,
            ) ==> self.nanos()[j] == before.nanos()[j])
    }

    pub fn total_documents(&self) -> (r: usize)
        ensures
            r == self.total_input(),
    {
        self.total_input
    }

    pub fn survivor_count(&self) -> (r: usize)
        ensures
            r == self.survivors(),
    {
        self.survivors
    }

    pub fn error_count(&self) -> (r: usize)
        ensures
            r == self.errors(),
    {
        self.errors
    }

    /// The streams to close, the one demanded last first.
    pub fn close_order(&self) -> (r: Vec<Sink>)
        ensures
            r@ == self.demanded().reverse(),
    {
        let mut out: Vec<Sink> = Vec::new();
        let mut i: usize = self.demanded.len();
        while i > 0
            invariant
                i <= self.demanded@.len(),
                out@.len() == self.demanded@.len() - i,
                forall|k: int|
                    0 <= k < out@.len() ==> out@[k] == self.demanded@[self.demanded@.len() - 1 - k],
            decreases i,
        {
            i -= 1;
            out.push(self.demanded[i]);
        }
        assert(out@ =~= self.demanded@.reverse());
        out
    }
}

/// Whether the record of delivery `d` reached step `j` of `steps`.
pub open spec fn reaches(d: Delivery, j: int, steps: int) -> bool {
    match d {
        Delivery::Final { .. } => 0 <= j < steps,
        Delivery::Trace { step, .. } => 0 <= j <= step,
        Delivery::Discard { step } => 0 <= j <= step,
        Delivery::Error { .. } => false,
    }
}

/// Whether step `j` dropped or failed on the record of delivery `d`.
pub open spec fn stopped_by(d: Delivery, j: int) -> bool {
    match d {
        Delivery::Trace { step, .. } => j == step,
        Delivery::Discard { step } => j == step,
        _ => false,
    }
}

impl<O: Operator> Plan<O> {
    /// The operators in order, each under its step name.
    pub closed spec fn ops(&self) -> Seq<(String, O)> {
        self.operators@
    }

    /// The pipeline that the plan was built from.
    pub closed spec fn spec(&self) -> PipelineSpec {
        self.spec
    }

    /// Whether dropped records are kept in trace streams.
    pub open spec fn traces(&self) -> bool {
        self.spec().sink.enable_trace
    }

    /// A run's counters fit this plan.
    pub open spec fn fits(&self, run: Run) -> bool {
        run.wf(self.ops().len() as int, self.traces())
    }

    /// Where the plan sends the record of one source position.
    pub open spec fn delivers(&self, event: Result<Sample, ReadError>, d: Delivery) -> bool {
        match event {
            Err(e) => d matches Delivery::Error { sample, .. } && sample.is_object() && sample@
                == Map::<Seq<char>, JsonKind>::empty().insert("error"@, JsonKind::Text(e.message@)),
            Ok(s) => match d {
                Delivery::Final { sample, .. } => flows(self.ops(), self.ops().len() as int, s, sample),
                Delivery::Trace { step, sample, .. } => self.traces() && stops_at(
                    self.ops(),
                    step as int,
                    s,
                    sample,
                ),
                Delivery::Discard { step } => !self.traces() && stops_somehow(self.ops(), step as int, s),
                Delivery::Error { .. } => false,
            },
        }
    }

    /// A plan of the given operators.
    pub fn from_operators(operators: Vec<(String, O)>, spec: PipelineSpec) -> (r: Self)
        ensures
            r.ops() == operators@,
            r.spec() == spec,
    {
        Plan { operators, spec }
    }

    /// Builds each node's operator from the registry, in order of the
    /// pipeline. An empty pipeline is the identity.
    pub fn compile<F: OperatorFactory<Output = O>>(spec: PipelineSpec, registry: &OperatorRegistry<F>) -> (r:
        Result<Self, PlanError>)
        ensures
            match r {
                Ok(plan) => {
                    &&& plan.spec() == spec
                    &&& plan.ops().len() == spec.pipeline@.len()
                    &&& built_from(*registry, spec.pipeline@, plan.ops(), spec.pipeline@.len() as int)
                    &&& spec.source.uris@.len() > 0
                    &&& sink_format_known(spec.sink)
                },
                Err(PlanError::Build { step, error }) => {
                    &&& step < spec.pipeline@.len()
                    &&& exists|ops: Seq<(String, O)>| built_from(*registry, spec.pipeline@, ops, step as int)
                    &&& registry.builds(
                        spec.pipeline@[step as int].name@,
                        spec.pipeline@[step as int].config,
                        Err(error),
                    )
                },
                Err(PlanError::NoSource) => {
                    &&& exists|ops: Seq<(String, O)>|
                        built_from(*registry, spec.pipeline@, ops, spec.pipeline@.len() as int)
                    &&& spec.source.uris@.len() == 0
                },
                Err(PlanError::AmbiguousSink) => {
                    &&& exists|ops: Seq<(String, O)>|
                        built_from(*registry, spec.pipeline@, ops, spec.pipeline@.len() as int)
                    &&& spec.source.uris@.len() > 0
                    &&& !sink_format_known(spec.sink)
                },
            },
    {
        let mut operators: Vec<(String, O)> = Vec::new();
        let mut i: usize = 0;
        while i < spec.pipeline.len()
            invariant
                i <= spec.pipeline@.len(),
                operators@.len() == i,
                built_from(*registry, spec.pipeline@, operators@, i as int),
            decreases spec.pipeline@.len() - i,
        {
            let node = &spec.pipeline[i];
            match registry.build(node.name.as_str(), &node.config) {
                Ok(op) => {
                    operators.push((node.name.clone(), op));
                },
                Err(error) => {
                    return Err(PlanError::Build { step: i, error });
                },
            }
            i += 1;
        }
        if spec.source.uris.len() == 0 {
            return Err(PlanError::NoSource);
        }
        let known = str_eq(spec.sink.kind.as_str(), "parquet") || str_eq(spec.sink.kind.as_str(), "jsonl")
            || str_ends_with(spec.sink.uri.as_str(), ".parquet") || str_ends_with(
            spec.sink.uri.as_str(),
            ".jsonl",
        ) || str_ends_with(spec.sink.uri.as_str(), ".json");
        if !known {
            return Err(PlanError::AmbiguousSink);
        }
        Ok(Plan { operators, spec })
    }

    /// The number of steps.
    pub fn step_count(&self) -> (r: usize)
        ensures
            r == self.ops().len(),
    {
        self.operators.len()
    }

    /// The name of step `i`.
    pub fn step_name(&self, i: usize) -> (r: &str)
        requires
            i < self.ops().len(),
        ensures
            r@ == self.ops()[i as int].0@,
    {
        self.operators[i].0.as_str()
    }

    /// The pipeline that the plan was built from.
    pub fn pipeline_spec(&self) -> (r: &PipelineSpec)
        ensures
            *r == self.spec(),
    {
        &self.spec
    }

    /// The counters of a run that has seen nothing.
    pub fn begin(&self) -> (r: Run)
        ensures
            self.fits(r),
            r.total_input() == 0,
            r.survivors() == 0,
            r.errors() == 0,
            r.demanded().len() == 0,
            forall|i: int| 0 <= i < self.ops().len() ==> r.before()[i] == 0 && r.removed()[i] == 0,
    {
        let n = self.operators.len();
        Run {
            before: zeros(n),
            removed: zeros(n),
            nanos: zero_clocks(n),
            survivors: 0,
            errors: 0,
            total_input: 0,
            demanded: Vec::new(),
        }
    }

    /// Routes the record of one source position. A reader error goes to the
    /// error stream. A record walks the operators in order: the first that
    /// does not keep it sends it, as it entered that step, to the step's
    /// trace stream; a record that every operator kept goes to the final
    /// stream.
    pub fn step(&self, run: &mut Run, event: Result<Sample, ReadError>) -> (d: Delivery)
        requires
            self.fits(*old(run)),
            old(run).total_input() < usize::MAX,
        ensures
            self.fits(*final(run)),
            self.delivers(event, d),
            final(run).tallied(*old(run), d),
            sink_of(d) matches Some(s) ==> opens(d) == !old(run).has_output(s, self.traces()),
    {
        let ghost start = *run;
        let trace = self.spec.sink.enable_trace;
        let n = self.operators.len();
        match event {
            Err(e) => {
                let mut sample = Sample::new();
                sample.set_str("error", e.message.as_str());
                let first = run.errors == 0;
                run.errors = run.errors + 1;
                run.total_input = run.total_input + 1;
                if first {
                    run.demanded.push(Sink::Error);
                }
                let d = Delivery::Error { sample, first };
                proof {
                    lemma_demand_kept(start, *run, d, n as int, trace);
                }
                d
            },
            Ok(sample) => {
                let mut cur = sample;
                let mut i: usize = 0;
                while i < n
                    invariant
                        n == self.operators@.len(),
                        trace == self.spec.sink.enable_trace,
                        start == *old(run),
                        event == Ok::<Sample, ReadError>(sample),
                        i <= n,
                        self.fits(start),
                        start.total_input() < usize::MAX,
                        flows(self.operators@, i as int, sample, cur),
                        run.before@.len() == n,
                        run.removed@ == start.removed@,
                        run.nanos@.len() == n,
                        forall|j: int| 0 <= j < i ==> run.nanos@[j] >= start.nanos@[j],
                        forall|j: int| i <= j < n ==> run.nanos@[j] == start.nanos@[j],
                        run.survivors == start.survivors,
                        run.errors == start.errors,
                        run.total_input == start.total_input,
                        run.demanded@ == start.demanded@,
                        forall|j: int| 0 <= j < i ==> run.before@[j] == start.before@[j] + 1,
                        forall|j: int| i <= j < n ==> run.before@[j] == start.before@[j],
                    decreases n - i,
                {
                    let reached = run.before[i];
                    assert(start.before()[i as int] <= start.total_input());
                    run.before.set(i, reached + 1);
                    let snapshot = if trace {
                        Some(cur.clone())
                    } else {
                        None
                    };
                    let ghost entering = cur;
                    let started = clock_start();
                    let result = self.operators[i].1.process(cur);
                    let spent = elapsed_nanos(&started);
                    let clock = run.nanos[i];
                    run.nanos.set(i, clock.saturating_add(spent));
                    match result {
                        Ok(Some(next)) => {
                            proof {
                                lemma_flows_extend(self.operators@, i as int, sample, entering, next);
                            }
                            cur = next;
                        },
                        _ => {
                            let first = run.removed[i] == 0;
                            let dropped = run.removed[i];
                            run.removed.set(i, dropped + 1);
                            run.total_input = run.total_input + 1;
                            assert(stops_at(self.operators@, i as int, sample, entering));
                            let d = match snapshot {
                                Some(s) => {
                                    if first {
                                        run.demanded.push(Sink::Trace(i));
                                    }
                                    Delivery::Trace { step: i, sample: s, first }
                                },
                                None => Delivery::Discard { step: i },
                            };
                            proof {
                                lemma_demand_kept(start, *run, d, n as int, trace);
                                assert(stops_at(self.ops(), i as int, sample, entering));
                                assert(stops_somehow(self.ops(), i as int, sample));
                            }
                            return d;
                        },
                    }
                    i += 1;
                }
                let first = run.survivors == 0;
                run.survivors = run.survivors + 1;
                run.total_input = run.total_input + 1;
                if first {
                    run.demanded.push(Sink::Final);
                }
                let d = Delivery::Final { sample: cur, first };
                proof {
                    lemma_demand_kept(start, *run, d, n as int, trace);
                }
                d
            },
        }
    }

    /// Routes the records of a batch of source positions, in order.
    pub fn run_batch(&self, run: &mut Run, events: Vec<Result<Sample, ReadError>>) -> (out: Vec<Delivery>)
        requires
            self.fits(*old(run)),
            old(run).total_input() + events@.len() <= usize::MAX,
        ensures
            self.fits(*final(run)),
            final(run).total_input() == old(run).total_input() + events@.len(),
            out@.len() == events@.len(),
            forall|p: int| 0 <= p < events@.len() ==> self.delivers(events@[p], #[trigger] out@[p]),
            final(run).survivors() == old(run).survivors() + finals_in(out@),
            final(run).errors() == old(run).errors() + errors_in(out@),
            forall|j: int|
                0 <= j < self.ops().len() ==> #[trigger] final(run).removed()[j] == old(run).removed()[j]
                    + stops_in(out@, j),
            final(run).demanded() == old(run).demanded() + opened_in(out@),
    {
        let ghost all = events@;
        let mut rest = events;
        let mut stack: Vec<Result<Sample, ReadError>> = Vec::new();
        while rest.len() > 0
            invariant
                rest@.len() + stack@.len() == all.len(),
                forall|k: int| 0 <= k < rest@.len() ==> rest@[k] == all[k],
                forall|k: int| 0 <= k < stack@.len() ==> stack@[k] == all[all.len() - 1 - k],
            decreases rest@.len(),
        {
            let e = rest.pop().unwrap();
            stack.push(e);
        }
        let mut out: Vec<Delivery> = Vec::new();
        proof {
            assert(old(run).demanded() + opened_in(out@) =~= old(run).demanded());
        }
        while stack.len() > 0
            invariant
                self.fits(*run),
                run.total_input() == old(run).total_input() + out@.len(),
                out@.len() + stack@.len() == all.len(),
                old(run).total_input() + all.len() <= usize::MAX,
                forall|k: int| 0 <= k < stack@.len() ==> stack@[k] == all[all.len() - 1 - k],
                forall|p: int| 0 <= p < out@.len() ==> self.delivers(all[p], #[trigger] out@[p]),
                run.survivors() == old(run).survivors() + finals_in(out@),
                run.errors() == old(run).errors() + errors_in(out@),
                forall|j: int|
                    0 <= j < self.ops().len() ==> #[trigger] run.removed()[j] == old(run).removed()[j]
                        + stops_in(out@, j),
                run.demanded() == old(run).demanded() + opened_in(out@),
            decreases stack@.len(),
        {
            let e = stack.pop().unwrap();
            let ghost sofar = out@;
            let ghost earlier = *run;
            let d = self.step(run, e);
            out.push(d);
            proof {
                assert(out@.drop_last() =~= sofar);
                assert(out@.last() == d);
                assert((old(run).demanded() + opened_in(sofar)).push(sink_of(d)->Some_0) =~= old(
                    run,
                ).demanded() + opened_in(sofar).push(sink_of(d)->Some_0));
                assert forall|j: int| 0 <= j < self.ops().len() implies #[trigger] run.removed()[j] == old(
                    run,
                ).removed()[j] + stops_in(out@, j) by {
                    assert(earlier.removed()[j] == old(run).removed()[j] + stops_in(sofar, j));
                }
            }
        }
        out
    }

    /// The statistics of a run, with the time spent writing.
    pub fn finish(&self, run: &Run, write_time_ms: u64) -> (r: ProcessingStatistics)
        requires
            self.fits(*run),
        ensures
            r.num_documents == run.survivors(),
            r.read_time_ms == 0,
            r.write_time_ms == write_time_ms,
            r.step_statistics@.len() == self.ops().len(),
            forall|i: int|
                0 <= i < self.ops().len() ==> {
                    let s = #[trigger] r.step_statistics@[i];
                    &&& s.step_name@ == self.ops()[i].0@
                    &&& s.step_index == i
                    &&& s.processing_time_ms == run.nanos()[i] / 1_000_000
                    &&& s.documents_removed == run.removed()[i]
                    &&& s.documents_remaining_before == run.before()[i]
                    &&& s.total_documents == run.total_input()
                },
    {
        let mut steps: Vec<StepStatistics> = Vec::new();
        let mut i: usize = 0;
        while i < self.operators.len()
            invariant
                self.fits(*run),
                i <= self.operators@.len(),
                steps@.len() == i,
                forall|k: int|
                    0 <= k < i ==> {
                        let s = #[trigger] steps@[k];
                        &&& s.step_name@ == self.operators@[k].0@
                        &&& s.step_index == k
                        &&& s.processing_time_ms == run.nanos@[k] / 1_000_000
                        &&& s.documents_removed == run.removed@[k]
                        &&& s.documents_remaining_before == run.before@[k]
                        &&& s.total_documents == run.total_input
                    },
            decreases self.operators@.len() - i,
        {
            steps.push(
                StepStatistics {
                    step_name: self.operators[i].0.clone(),
                    step_index: i,
                    processing_time_ms: run.nanos[i] / 1_000_000,
                    documents_removed: run.removed[i],
                    documents_remaining_before: run.before[i],
                    total_documents: run.total_input,
                },
            );
            i += 1;
        }
        ProcessingStatistics {
            num_documents: run.survivors,
            step_statistics: steps,
            read_time_ms: 0,
            write_time_ms,
        }
    }
}

/// A record that has passed `n` operators and is kept by the next has passed
/// `n + 1`.
proof fn lemma_flows_extend<O: Operator>(ops: Seq<(String, O)>, n: int, a: Sample, m: Sample, b: Sample)
    requires
        0 <= n < ops.len(),
        flows(ops, n, a, m),
        ops[n].1.admits(m, Verdict::Kept(b)),
    ensures
        flows(ops, n + 1, a, b),
{
    assert(flows(ops, n + 1 - 1, a, m) && ops[n + 1 - 1].1.admits(m, Verdict::Kept(b)));
}

/// After one more delivery the demanded streams are again those that have
/// received a record, each once.
proof fn lemma_demand_kept(before: Run, after: Run, d: Delivery, steps: int, trace: bool)
    requires
        before.wf(steps, trace),
        after.tallied(before, d),
        d matches Delivery::Trace { step, .. } ==> trace && step < steps,
        d matches Delivery::Discard { step } ==> !trace && step < steps,
        sink_of(d) matches Some(s) ==> opens(d) == !before.has_output(s, trace),
        after.total_input() <= usize::MAX,
    ensures
        after.wf(steps, trace),
{
    assert forall|s: Sink| #[trigger] after.demanded().contains(s) <==> after.has_output(s, trace) by {
        if opens(d) {
            let new = sink_of(d)->Some_0;
            assert(after.demanded() == before.demanded().push(new));
            if s == new {
                assert(after.demanded()[before.demanded().len() as int] == s);
            } else {
                if before.demanded().contains(s) {
                    let k = choose|k: int| 0 <= k < before.demanded().len() && before.demanded()[k] == s;
                    assert(after.demanded()[k] == s);
                }
            }
        }
    }
    assert(after.demanded().no_duplicates()) by {
        if opens(d) {
            let new = sink_of(d)->Some_0;
            assert(!before.demanded().contains(new));
            assert forall|a: int, b: int|
                0 <= a < after.demanded().len() && 0 <= b < after.demanded().len() && a
                    != b implies after.demanded()[a] != after.demanded()[b] by {
                if a < before.demanded().len() {
                    assert(before.demanded().contains(before.demanded()[a]));
                }
                if b < before.demanded().len() {
                    assert(before.demanded().contains(before.demanded()[b]));
                }
            }
        }
    }
}

/// Every source position is counted once: as a survivor, as a reader error,
/// or as removed by exactly one step.
pub proof fn lemma_counts_partition(run: Run, steps: int, trace: bool)
    requires
        run.wf(steps, trace),
    ensures
        run.total_input() == run.survivors() + run.errors() + sum_upto(run.removed(), steps),
{
    if steps > 0 {
        lemma_chain(run, steps, trace, steps - 1);
    }
}

proof fn lemma_chain(run: Run, steps: int, trace: bool, k: int)
    requires
        run.wf(steps, trace),
        0 <= k < steps,
    ensures
        run.before()[0] == sum_upto(run.removed(), k) + run.before()[k],
    decreases k,
{
    if k > 0 {
        lemma_chain(run, steps, trace, k - 1);
        assert(run.before()[k] + run.removed()[k - 1] == run.before()[k - 1]);
    }
}

/// With tracing on, the final, trace and error streams part the source
/// positions: each position is in one of them, and in no two.
pub proof fn lemma_streams_partition(deliveries: Seq<Delivery>)
    requires
        forall|p: int| 0 <= p < deliveries.len() ==> !(#[trigger] deliveries[p] is Discard),
    ensures
        positions_of(deliveries, Sink::Final).union(trace_positions(deliveries)).union(
            positions_of(deliveries, Sink::Error),
        ) == Set::new(|p: int| 0 <= p < deliveries.len()),
        positions_of(deliveries, Sink::Final).disjoint(trace_positions(deliveries)),
        positions_of(deliveries, Sink::Final).disjoint(positions_of(deliveries, Sink::Error)),
        trace_positions(deliveries).disjoint(positions_of(deliveries, Sink::Error)),
        forall|i: usize, j: usize|
            #![trigger positions_of(deliveries, Sink::Trace(i)), positions_of(deliveries, Sink::Trace(j))]
            i != j ==> positions_of(deliveries, Sink::Trace(i)).disjoint(
                positions_of(deliveries, Sink::Trace(j)),
            ),
{
    assert(positions_of(deliveries, Sink::Final).union(trace_positions(deliveries)).union(
        positions_of(deliveries, Sink::Error),
    ) =~= Set::new(|p: int| 0 <= p < deliveries.len()));
}

/// A column that an annotator sets is carried to the end: where the
/// operator at `annotator` gives every record it keeps the column, and the
/// operators after it keep the column, every record that has passed `n`
/// operators, `n` beyond the annotator, has the column.
pub proof fn lemma_column_carried<O: Operator>(
    ops: Seq<(String, O)>,
    annotator: int,
    n: int,
    column: Seq<char>,
    a: Sample,
    out: Sample,
)
    requires
        0 <= annotator < n <= ops.len(),
        forall|m: Sample, b: Sample| #[trigger]
            ops[annotator].1.admits(m, Verdict::Kept(b)) ==> b@.contains_key(column),
        forall|k: int, m: Sample, b: Sample|
            annotator < k < n && m@.contains_key(column) && #[trigger] ops[k].1.admits(m, Verdict::Kept(b))
                ==> b@.contains_key(column),
        flows(ops, n, a, out),
    ensures
        out@.contains_key(column),
    decreases n,
{
    let m = choose|m: Sample| flows(ops, n - 1, a, m) && #[trigger] ops[n - 1].1.admits(m, Verdict::Kept(out));
    if n - 1 > annotator {
        lemma_column_carried(ops, annotator, n - 1, column, a, m);
    }
}

/// A column that no operator before the annotator sets is absent from what
/// they pass on: where the source record lacks the column and the operators
/// before `upto` do not add it, the record that enters step `step`, up to
/// `upto`, lacks it. So it is absent from the trace of every step up to the
/// annotator's own.
pub proof fn lemma_column_absent_before<O: Operator>(
    ops: Seq<(String, O)>,
    upto: int,
    step: int,
    column: Seq<char>,
    a: Sample,
    snapshot: Sample,
)
    requires
        0 <= step <= upto <= ops.len(),
        !a@.contains_key(column),
        forall|k: int, m: Sample, b: Sample|
            0 <= k < upto && !m@.contains_key(column) && #[trigger] ops[k].1.admits(m, Verdict::Kept(b))
                ==> !b@.contains_key(column),
        flows(ops, step, a, snapshot),
    ensures
        !snapshot@.contains_key(column),
    decreases step,
{
    if step > 0 {
        let m = choose|m: Sample|
            flows(ops, step - 1, a, m) && #[trigger] ops[step - 1].1.admits(m, Verdict::Kept(snapshot));
        lemma_column_absent_before(ops, upto, step - 1, column, a, m);
    }
}

/// A step that has removed nothing has no trace stream.
pub proof fn lemma_idle_step_has_no_trace(run: Run, steps: int, trace: bool, step: usize)
    requires
        run.wf(steps, trace),
        step < steps ==> run.removed()[step as int] == 0,
    ensures
        !run.demanded().contains(Sink::Trace(step)),
{
}

} // verus!
