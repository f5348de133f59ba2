//! The batch orchestrator: turning a list of raw package tokens and the
//! per-item results reported by the external installer into registry
//! updates and one aggregate report.
//!
//! The external tool itself runs outside the library.  Here the batch is
//! a pure function of its inputs: each token is parsed; a token that
//! fails to parse becomes a failure outcome of its own; each parsed
//! token is paired, in input order, with the event the installer
//! reported for it; successes are upserted into the registry one by one;
//! failures never touch it.  The report counts both and lists the
//! failures in input order.

use vstd::prelude::*;
use vstd::string::*;

use crate::errors::PackageError;
use crate::numbers::{spec_decimal, usize_to_string};
use crate::parse::{opt_view, parse_package_spec, spec_parse, PackageSpec};
use crate::registry::{Package, PackageRegistry};
use crate::text::strs_view;

verus! {

/// The abstract, per-item result of one installation attempt.
pub enum OutcomeModel {
    /// The item was installed under this name with this version.
    Success { name: Seq<char>, version: Seq<char> },
    /// The item failed, with a diagnostic.
    Failure { name: Seq<char>, reason: Seq<char> },
}

/// The per-item result of one installation attempt.
#[derive(Debug, Clone, PartialEq)]
pub enum InstallationOutcome {
    /// The item was installed under this name with this version.
    Success { name: String, version: String },
    /// The item failed, with a diagnostic.
    Failure { name: String, reason: String },
}

impl InstallationOutcome {
    /// The abstract content of the outcome.
    pub open spec fn model(self) -> OutcomeModel {
        match self {
            InstallationOutcome::Success { name, version } => OutcomeModel::Success {
                name: name@,
                version: version@,
            },
            InstallationOutcome::Failure { name, reason } => OutcomeModel::Failure {
                name: name@,
                reason: reason@,
            },
        }
    }
}

/// The abstract contents of a sequence of outcomes.
pub open spec fn models_of(s: Seq<InstallationOutcome>) -> Seq<OutcomeModel> {
    s.map_values(|o: InstallationOutcome| o.model())
}

/// What the external installer reported for one dispatched item.
#[derive(Debug, Clone, PartialEq)]
pub enum InstallEvent {
    /// The install command exited successfully.  For an item without a
    /// pinned version, `queried_version` carries the result of the
    /// follow-up version query, or `None` when that query itself failed.
    Success { queried_version: Option<String> },
    /// The install command failed, with its captured diagnostic text.
    Failure { message: String },
}

/// The aggregate result of one batch.
#[derive(Debug, Clone, PartialEq)]
pub struct BatchReport {
    /// How many items were installed.
    pub succeeded: usize,
    /// How many items failed.
    pub failed: usize,
    /// The failed items with their reasons, in input order.
    pub failures: Vec<(String, String)>,
}

/// The views of a sequence of string pairs.
pub open spec fn pairs_view(s: Seq<(String, String)>) -> Seq<(Seq<char>, Seq<char>)> {
    s.map_values(|p: (String, String)| (p.0@, p.1@))
}

/// The registry contents after applying a sequence of outcomes:
/// each success upserts its entry, failures change nothing.
pub open spec fn apply_outcomes(
    m: Map<Seq<char>, Seq<char>>,
    os: Seq<OutcomeModel>,
) -> Map<Seq<char>, Seq<char>>
    decreases os.len(),
{
    if os.len() == 0 {
        m
    } else {
        let prev = apply_outcomes(m, os.drop_last());
        match os.last() {
            OutcomeModel::Success { name, version } => prev.insert(name, version),
            OutcomeModel::Failure { .. } => prev,
        }
    }
}

/// How many outcomes are successes.
pub open spec fn count_successes(os: Seq<OutcomeModel>) -> nat
    decreases os.len(),
{
    if os.len() == 0 {
        0
    } else {
        count_successes(os.drop_last()) + if os.last() is Success {
            1nat
        } else {
            0nat
        }
    }
}

/// How many outcomes are failures.
pub open spec fn count_failures(os: Seq<OutcomeModel>) -> nat
    decreases os.len(),
{
    if os.len() == 0 {
        0
    } else {
        count_failures(os.drop_last()) + if os.last() is Failure {
            1nat
        } else {
            0nat
        }
    }
}

/// The (name, reason) pairs of the failed outcomes, in order.
pub open spec fn failures_of(os: Seq<OutcomeModel>) -> Seq<(Seq<char>, Seq<char>)>
    decreases os.len(),
{
    if os.len() == 0 {
        Seq::empty()
    } else {
        let front = failures_of(os.drop_last());
        match os.last() {
            OutcomeModel::Failure { name, reason } => front.push((name, reason)),
            OutcomeModel::Success { .. } => front,
        }
    }
}

/// Every outcome is either a success or a failure, so the two counts
/// add up to the whole batch.
pub proof fn lemma_counts_partition(os: Seq<OutcomeModel>)
    ensures
        count_successes(os) + count_failures(os) == os.len(),
        failures_of(os).len() == count_failures(os),
    decreases os.len(),
{
    if os.len() > 0 {
        lemma_counts_partition(os.drop_last());
    }
}

/// Merges one outcome per item into the registry and builds the report:
/// the registry afterwards holds exactly the result of upserting every
/// success in order, and the report carries the two counts and the
/// failures in order.
pub fn merge_outcomes(outcomes: &Vec<InstallationOutcome>, registry: &mut PackageRegistry) -> (report:
    BatchReport)
    requires
        old(registry).wf(),
    ensures
        final(registry).wf(),
        final(registry)@ == apply_outcomes(old(registry)@, models_of(outcomes@)),
        report.succeeded == count_successes(models_of(outcomes@)),
        report.failed == count_failures(models_of(outcomes@)),
        pairs_view(report.failures@) == failures_of(models_of(outcomes@)),
{
    let ghost m0 = registry@;
    let ghost all = models_of(outcomes@);
    let n = outcomes.len();
    let mut succeeded: usize = 0;
    let mut failed: usize = 0;
    let mut failures: Vec<(String, String)> = Vec::new();
    let mut i: usize = 0;
    while i < n
        invariant
            registry.wf(),
            old(registry)@ == m0,
            all == models_of(outcomes@),
            n == outcomes@.len(),
            0 <= i <= n,
            registry@ == apply_outcomes(m0, all.take(i as int)),
            succeeded == count_successes(all.take(i as int)),
            failed == count_failures(all.take(i as int)),
            pairs_view(failures@) == failures_of(all.take(i as int)),
        decreases n - i,
    {
        proof {
            lemma_counts_partition(all.take(i as int));
            assert(all.take(i + 1).drop_last() =~= all.take(i as int));
            assert(all.take(i + 1).last() == all[i as int]);
            assert(all[i as int] == outcomes@[i as int].model());
        }
        match &outcomes[i] {
            InstallationOutcome::Success { name, version } => {
                registry.add_package(Package::new(name.clone(), version.clone()));
                succeeded = succeeded + 1;
            },
            InstallationOutcome::Failure { name, reason } => {
                failures.push((name.clone(), reason.clone()));
                failed = failed + 1;
                proof {
                    assert(pairs_view(failures@) =~= failures_of(all.take(i + 1)));
                }
            },
        }
        i = i + 1;
    }
    proof {
        assert(all.take(n as int) =~= all);
    }
    BatchReport { succeeded, failed, failures }
}

/// The parsed items of a batch that can be dispatched, in input order.
pub open spec fn spec_plan(raws: Seq<Seq<char>>) -> Seq<(Seq<char>, Option<Seq<char>>)>
    decreases raws.len(),
{
    if raws.len() == 0 {
        Seq::empty()
    } else {
        let front = spec_plan(raws.drop_last());
        match spec_parse(raws.last()) {
            Ok(p) => front.push(p),
            Err(_) => front,
        }
    }
}

/// The contents of a sequence of parsed specifications.
pub open spec fn specs_view(s: Seq<PackageSpec>) -> Seq<(Seq<char>, Option<Seq<char>>)> {
    s.map_values(|p: PackageSpec| p.model())
}

/// Parses every token of a batch and returns the dispatchable items in
/// input order; tokens that fail to parse are left out.
pub fn plan_batch(specs: &Vec<String>) -> (jobs: Vec<PackageSpec>)
    ensures
        specs_view(jobs@) == spec_plan(strs_view(specs@)),
{
    let ghost raws = strs_view(specs@);
    let n = specs.len();
    let mut jobs: Vec<PackageSpec> = Vec::new();
    let mut i: usize = 0;
    while i < n
        invariant
            n == specs@.len(),
            raws == strs_view(specs@),
            0 <= i <= n,
            specs_view(jobs@) == spec_plan(raws.take(i as int)),
        decreases n - i,
    {
        proof {
            assert(raws.take(i + 1).drop_last() =~= raws.take(i as int));
            assert(raws.take(i + 1).last() == specs@[i as int]@);
        }
        match parse_package_spec(specs[i].as_str()) {
            Ok((name, version)) => {
                jobs.push(PackageSpec { name, version });
                proof {
                    assert(specs_view(jobs@) =~= spec_plan(raws.take(i + 1)));
                }
            },
            Err(_) => {},
        }
        i = i + 1;
    }
    proof {
        assert(raws.take(n as int) =~= raws);
    }
    jobs
}

/// How many tokens of the batch parse, and so are dispatched.
pub open spec fn dispatch_count(raws: Seq<Seq<char>>) -> nat
    decreases raws.len(),
{
    if raws.len() == 0 {
        0
    } else {
        dispatch_count(raws.drop_last()) + if spec_parse(raws.last()) is Ok {
            1nat
        } else {
            0nat
        }
    }
}

/// The plan holds exactly one item per token that parses, so its
/// length is the number of dispatched items.
pub proof fn lemma_plan_len(raws: Seq<Seq<char>>)
    ensures
        spec_plan(raws).len() == dispatch_count(raws),
    decreases raws.len(),
{
    if raws.len() > 0 {
        lemma_plan_len(raws.drop_last());
    }
}

proof fn lemma_dispatch_count_take_bound(raws: Seq<Seq<char>>, i: int)
    requires
        0 <= i <= raws.len(),
    ensures
        dispatch_count(raws.take(i)) <= dispatch_count(raws),
    decreases raws.len() - i,
{
    if i == raws.len() {
        assert(raws.take(i) =~= raws);
    } else {
        assert(raws.take(i + 1).drop_last() =~= raws.take(i));
        lemma_dispatch_count_take_bound(raws, i + 1);
    }
}

/// The version recorded for a successful install: the pinned version
/// when the token carried one, else the queried one, else "unknown".
pub open spec fn resolved_version(
    pinned: Option<Seq<char>>,
    queried: Option<Seq<char>>,
) -> Seq<char> {
    match pinned {
        Some(v) => v,
        None => match queried {
            Some(q) => q,
            None => "unknown"@,
        },
    }
}

/// Picks the version to record for a successful install.
pub fn resolve_success_version(pinned: &Option<String>, queried: &Option<String>) -> (r: String)
    ensures
        r@ == resolved_version(opt_view(*pinned), opt_view(*queried)),
{
    match pinned {
        Some(v) => v.clone(),
        None => match queried {
            Some(q) => q.clone(),
            None => String::from_str("unknown"),
        },
    }
}

/// The outcome of one dispatched item, given its parsed form and the
/// event the installer reported.
pub open spec fn outcome_model_for(
    name: Seq<char>,
    version: Option<Seq<char>>,
    ev: InstallEvent,
) -> OutcomeModel {
    match ev {
        InstallEvent::Success { queried_version } => OutcomeModel::Success {
            name,
            version: resolved_version(version, opt_view(queried_version)),
        },
        InstallEvent::Failure { message } => OutcomeModel::Failure { name, reason: message@ },
    }
}

/// Builds the outcome of one dispatched item from the installer's event.
pub fn outcome_for(job: PackageSpec, event: &InstallEvent) -> (r: InstallationOutcome)
    ensures
        r.model() == outcome_model_for(job.name@, opt_view(job.version), *event),
{
    match event {
        InstallEvent::Success { queried_version } => {
            let version = resolve_success_version(&job.version, queried_version);
            InstallationOutcome::Success { name: job.name, version }
        },
        InstallEvent::Failure { message } => InstallationOutcome::Failure {
            name: job.name,
            reason: message.clone(),
        },
    }
}

/// The outcome of every item of a batch, in input order: a token that
/// fails to parse becomes a failure outcome carrying the raw token and
/// the parse diagnostic; each token that parses takes the next event.
pub open spec fn batch_outcomes(raws: Seq<Seq<char>>, evs: Seq<InstallEvent>) -> Seq<OutcomeModel>
    decreases raws.len(),
{
    if raws.len() == 0 {
        Seq::empty()
    } else {
        let front = batch_outcomes(raws.drop_last(), evs);
        match spec_parse(raws.last()) {
            Ok(p) => front.push(
                outcome_model_for(p.0, p.1, evs[dispatch_count(raws.drop_last()) as int]),
            ),
            Err(m) => front.push(OutcomeModel::Failure { name: raws.last(), reason: m }),
        }
    }
}

/// Runs one whole batch: parses the tokens, pairs each dispatched item
/// with the event the installer reported for it (in input order),
/// merges the outcomes into the registry and returns the report.
pub fn run_batch(
    specs: &Vec<String>,
    events: &Vec<InstallEvent>,
    registry: &mut PackageRegistry,
) -> (report: BatchReport)
    requires
        old(registry).wf(),
        events@.len() == dispatch_count(strs_view(specs@)),
    ensures
        final(registry).wf(),
        final(registry)@ == apply_outcomes(
            old(registry)@,
            batch_outcomes(strs_view(specs@), events@),
        ),
        report.succeeded == count_successes(batch_outcomes(strs_view(specs@), events@)),
        report.failed == count_failures(batch_outcomes(strs_view(specs@), events@)),
        pairs_view(report.failures@) == failures_of(batch_outcomes(strs_view(specs@), events@)),
{
    let ghost raws = strs_view(specs@);
    let n = specs.len();
    let ne = events.len();
    let mut outcomes: Vec<InstallationOutcome> = Vec::new();
    let mut j: usize = 0;
    let mut i: usize = 0;
    while i < n
        invariant
            n == specs@.len(),
            raws == strs_view(specs@),
            ne == events@.len(),
            events@.len() == dispatch_count(raws),
            0 <= i <= n,
            j == dispatch_count(raws.take(i as int)),
            j <= events@.len(),
            models_of(outcomes@) == batch_outcomes(raws.take(i as int), events@),
        decreases n - i,
    {
        proof {
            assert(raws.take(i + 1).drop_last() =~= raws.take(i as int));
            assert(raws.take(i + 1).last() == specs@[i as int]@);
            lemma_dispatch_count_take_bound(raws, i + 1);
        }
        match parse_package_spec(specs[i].as_str()) {
            Ok((name, version)) => {
                proof {
                    assert(spec_parse(raws.take(i + 1).last()) is Ok);
                    assert(dispatch_count(raws.take(i + 1)) == j + 1);
                    assert(j < events@.len());
                }
                let outcome = outcome_for(PackageSpec { name, version }, &events[j]);
                outcomes.push(outcome);
                j = j + 1;
                proof {
                    assert(models_of(outcomes@) =~= batch_outcomes(raws.take(i + 1), events@));
                }
            },
            Err(e) => {
                let reason = match e {
                    PackageError::InvalidPackageSpec(m) => m,
                    _ => unreached(),
                };
                outcomes.push(
                    InstallationOutcome::Failure { name: specs[i].clone(), reason },
                );
                proof {
                    assert(models_of(outcomes@) =~= batch_outcomes(raws.take(i + 1), events@));
                }
            },
        }
        i = i + 1;
    }
    proof {
        assert(raws.take(n as int) =~= raws);
    }
    merge_outcomes(&outcomes, registry)
}

/// The summary message of a batch in which `n` items failed.
pub open spec fn spec_failed_message(n: nat) -> Seq<char> {
    spec_decimal(n) + " packages failed to install"@
}

/// The overall result of a batch: an error exactly when something
/// failed, carrying the count of failures.
pub fn batch_status(report: &BatchReport) -> (r: Result<(), PackageError>)
    ensures
        match r {
            Ok(_) => report.failed == 0,
            Err(e) => report.failed > 0 && match e {
                PackageError::InstallationFailed(m) => m@ == spec_failed_message(
                    report.failed as nat,
                ),
                _ => false,
            },
        },
{
    if report.failed > 0 {
        let mut m = usize_to_string(report.failed);
        m.append(" packages failed to install");
        Err(PackageError::InstallationFailed(m))
    } else {
        Ok(())
    }
}

/// The name an outcome speaks of, successful or not.
pub open spec fn outcome_name(o: OutcomeModel) -> Seq<char> {
    match o {
        OutcomeModel::Success { name, .. } => name,
        OutcomeModel::Failure { name, .. } => name,
    }
}

/// Whether some outcome of the batch is a success for the name `k`.
pub open spec fn has_success_for(os: Seq<OutcomeModel>, k: Seq<char>) -> bool {
    exists|i: int| 0 <= i < os.len() && os[i] is Success && outcome_name(os[i]) == k
}

/// An empty batch is a no-op: it yields no outcomes, leaves the
/// registry contents exactly as they were, and reports nothing.
pub proof fn lemma_empty_batch(m: Map<Seq<char>, Seq<char>>, evs: Seq<InstallEvent>)
    ensures
        batch_outcomes(Seq::empty(), evs) == Seq::<OutcomeModel>::empty(),
        apply_outcomes(m, batch_outcomes(Seq::empty(), evs)) == m,
        count_successes(batch_outcomes(Seq::empty(), evs)) == 0,
        count_failures(batch_outcomes(Seq::empty(), evs)) == 0,
        failures_of(batch_outcomes(Seq::empty(), evs)) == Seq::<(Seq<char>, Seq<char>)>::empty(),
{
}

/// After a batch the registry holds exactly its previous entries plus
/// an entry for each name some success installed; no entry is removed.
pub proof fn lemma_registry_growth(m: Map<Seq<char>, Seq<char>>, os: Seq<OutcomeModel>)
    ensures
        forall|k: Seq<char>|
            #[trigger] apply_outcomes(m, os).contains_key(k) <==> m.contains_key(k)
                || has_success_for(os, k),
    decreases os.len(),
{
    if os.len() == 0 {
        assert forall|k: Seq<char>| !has_success_for(os, k) by {}
    } else {
        let front = os.drop_last();
        lemma_registry_growth(m, front);
        assert forall|k: Seq<char>|
            #[trigger] apply_outcomes(m, os).contains_key(k) <==> m.contains_key(k)
                || has_success_for(os, k) by {
            assert(apply_outcomes(m, front).contains_key(k) <==> m.contains_key(k)
                || has_success_for(front, k));
            if has_success_for(front, k) {
                let i = choose|i: int|
                    0 <= i < front.len() && front[i] is Success && outcome_name(front[i]) == k;
                assert(os[i] is Success && outcome_name(os[i]) == k);
            }
            if has_success_for(os, k) {
                let i = choose|i: int|
                    0 <= i < os.len() && os[i] is Success && outcome_name(os[i]) == k;
                if i < os.len() - 1 {
                    assert(front[i] is Success && outcome_name(front[i]) == k);
                }
            }
            match os.last() {
                OutcomeModel::Success { name, version } => {
                    if name == k {
                        assert(os[os.len() - 1] is Success && outcome_name(os[os.len() - 1]) == k);
                        assert(has_success_for(os, k));
                    }
                },
                OutcomeModel::Failure { .. } => {},
            }
        }
    }
}

/// The version the batch leaves for name `k`: that of the last success
/// for `k`, if there is one.
pub open spec fn lookup_success(os: Seq<OutcomeModel>, k: Seq<char>) -> Option<Seq<char>>
    decreases os.len(),
{
    if os.len() == 0 {
        None
    } else {
        match os.last() {
            OutcomeModel::Success { name, version } => if name == k {
                Some(version)
            } else {
                lookup_success(os.drop_last(), k)
            },
            OutcomeModel::Failure { .. } => lookup_success(os.drop_last(), k),
        }
    }
}

/// What one batch leaves at each key: the version of the last success
/// for that name, else exactly what the registry held before.
pub proof fn lemma_apply_outcomes_characterized(
    m: Map<Seq<char>, Seq<char>>,
    os: Seq<OutcomeModel>,
)
    ensures
        forall|k: Seq<char>|
            #![trigger lookup_success(os, k)]
            match lookup_success(os, k) {
                Some(v) => apply_outcomes(m, os).contains_key(k) && apply_outcomes(m, os)[k] == v,
                None => (apply_outcomes(m, os).contains_key(k) <==> m.contains_key(k)) && (
                m.contains_key(k) ==> apply_outcomes(m, os)[k] == m[k]),
            },
    decreases os.len(),
{
    if os.len() > 0 {
        lemma_apply_outcomes_characterized(m, os.drop_last());
        assert forall|k: Seq<char>|
            #![trigger lookup_success(os, k)]
            match lookup_success(os, k) {
                Some(v) => apply_outcomes(m, os).contains_key(k) && apply_outcomes(m, os)[k] == v,
                None => (apply_outcomes(m, os).contains_key(k) <==> m.contains_key(k)) && (
                m.contains_key(k) ==> apply_outcomes(m, os)[k] == m[k]),
            } by {
            assert(match lookup_success(os.drop_last(), k) {
                Some(v) => apply_outcomes(m, os.drop_last()).contains_key(k) && apply_outcomes(
                    m,
                    os.drop_last(),
                )[k] == v,
                None => (apply_outcomes(m, os.drop_last()).contains_key(k) <==> m.contains_key(k))
                    && (m.contains_key(k) ==> apply_outcomes(m, os.drop_last())[k] == m[k]),
            });
        }
    }
}

/// No two successes of the batch share a name.
pub open spec fn distinct_success_names(os: Seq<OutcomeModel>) -> bool {
    forall|i: int, j: int|
        0 <= i < j < os.len() && os[i] is Success && os[j] is Success ==> outcome_name(os[i])
            != outcome_name(os[j])
}

proof fn lemma_lookup_success_by_membership(os: Seq<OutcomeModel>, k: Seq<char>)
    requires
        distinct_success_names(os),
    ensures
        forall|v: Seq<char>|
            lookup_success(os, k) == Some(v) <==> os.contains(
                OutcomeModel::Success { name: k, version: v },
            ),
    decreases os.len(),
{
    if os.len() == 0 {
        assert forall|v: Seq<char>| !os.contains(OutcomeModel::Success { name: k, version: v }) by {}
    } else {
        let front = os.drop_last();
        assert(distinct_success_names(front)) by {
            assert(forall|i: int| 0 <= i < front.len() ==> front[i] == os[i]);
        }
        lemma_lookup_success_by_membership(front, k);
        assert forall|v: Seq<char>|
            lookup_success(os, k) == Some(v) <==> os.contains(
                OutcomeModel::Success { name: k, version: v },
            ) by {
            let o = OutcomeModel::Success { name: k, version: v };
            if lookup_success(os, k) == Some(v) {
                match os.last() {
                    OutcomeModel::Success { name, version } => {
                        if name == k {
                            assert(os[os.len() - 1] == o);
                        } else {
                            assert(lookup_success(front, k) == Some(v));
                            assert(front.contains(o));
                            let i = choose|i: int| 0 <= i < front.len() && front[i] == o;
                            assert(os[i] == o);
                        }
                    },
                    OutcomeModel::Failure { .. } => {
                        assert(lookup_success(front, k) == Some(v));
                        assert(front.contains(o));
                        let i = choose|i: int| 0 <= i < front.len() && front[i] == o;
                        assert(os[i] == o);
                    },
                }
            }
            if os.contains(o) {
                let i = choose|i: int| 0 <= i < os.len() && os[i] == o;
                match os.last() {
                    OutcomeModel::Success { name, version } => {
                        if name == k {
                            if i < os.len() - 1 {
                                assert(os[i] is Success && os[os.len() - 1] is Success);
                                assert(outcome_name(os[i]) == outcome_name(os[os.len() - 1]));
                                assert(false);
                            }
                            assert(version == v);
                        } else {
                            assert(i < os.len() - 1);
                            assert(front[i] == o);
                            assert(front.contains(o));
                            assert(lookup_success(front, k) == Some(v));
                        }
                    },
                    OutcomeModel::Failure { .. } => {
                        assert(i < os.len() - 1);
                        assert(front[i] == o);
                        assert(front.contains(o));
                        assert(lookup_success(front, k) == Some(v));
                    },
                }
            }
        }
    }
}

/// Outcomes may be merged in any completion order: two batches made of
/// the same outcomes, in whatever order each arrived, leave the
/// registry with the same contents, as long as no two successes share
/// a name.
pub proof fn lemma_merge_order_independent(
    m: Map<Seq<char>, Seq<char>>,
    os1: Seq<OutcomeModel>,
    os2: Seq<OutcomeModel>,
)
    requires
        os1.to_multiset() == os2.to_multiset(),
        distinct_success_names(os1),
        distinct_success_names(os2),
    ensures
        apply_outcomes(m, os1) == apply_outcomes(m, os2),
{
    broadcast use vstd::seq_lib::group_to_multiset_ensures;

    assert forall|k: Seq<char>| #[trigger] lookup_success(os1, k) == lookup_success(os2, k) by {
        lemma_lookup_success_by_membership(os1, k);
        lemma_lookup_success_by_membership(os2, k);
        match lookup_success(os1, k) {
            Some(v) => {
                let o = OutcomeModel::Success { name: k, version: v };
                assert(os1.contains(o));
                assert(os1.to_multiset().count(o) > 0);
                assert(os2.contains(o));
            },
            None => {
                match lookup_success(os2, k) {
                    Some(v) => {
                        let o = OutcomeModel::Success { name: k, version: v };
                        assert(os2.contains(o));
                        assert(os2.to_multiset().count(o) > 0);
                        assert(os1.contains(o));
                        assert(lookup_success(os1, k) == Some(v));
                        assert(false);
                    },
                    None => {},
                }
            },
        }
    }
    lemma_apply_outcomes_characterized(m, os1);
    lemma_apply_outcomes_characterized(m, os2);
    assert forall|k: Seq<char>|
        apply_outcomes(m, os1).contains_key(k) <==> apply_outcomes(m, os2).contains_key(k) by {
        assert(lookup_success(os1, k) == lookup_success(os2, k));
    }
    assert forall|k: Seq<char>|
        apply_outcomes(m, os1).contains_key(k) implies apply_outcomes(m, os1)[k] == apply_outcomes(
        m,
        os2,
    )[k] by {
        assert(lookup_success(os1, k) == lookup_success(os2, k));
    }
    assert(apply_outcomes(m, os1) =~= apply_outcomes(m, os2));
}

/// The summary line of a batch report.
pub open spec fn spec_summary(succeeded: nat, failed: nat) -> Seq<char> {
    "Installation summary: "@ + spec_decimal(succeeded) + " succeeded, "@ + spec_decimal(failed)
        + " failed"@
}

/// Renders the one-line summary of a batch report.
pub fn render_summary(report: &BatchReport) -> (r: String)
    ensures
        r@ == spec_summary(report.succeeded as nat, report.failed as nat),
{
    let mut s = String::from_str("Installation summary: ");
    s.append(usize_to_string(report.succeeded).as_str());
    s.append(" succeeded, ");
    s.append(usize_to_string(report.failed).as_str());
    s.append(" failed");
    s
}

} // verus!
