//! What a pass asks of the runtime: the exchanges of one attempt, and the
//! exchanges of a whole pass, told from the adapter's history.

use vstd::prelude::*;
use crate::art_runtime::procedure::{request_of, state_after, Answer, Request};
use crate::art_runtime::{
    bump, count_eligible, disposition, dot_to_slash, empty_report, spec_binary_name, tally, Asked,
    Disposition, Lookup, MethodKey, ResolveReport, StepEnd, StepOutcome, HEARTBEAT_EVERY,
};

verus! {

/// The answer of an exchange, as the procedure of an attempt reads it.
pub open spec fn answer_of<C, L>(e: Asked<C, L>) -> Answer {
    match e {
        Asked::FindClass { found, .. } => if found is Some {
            Answer::Yes
        } else {
            Answer::Failed
        },
        Asked::LoadClass { got, .. } | Asked::ClassForName { got, .. } => match got {
            Lookup::Found(_) => Answer::Yes,
            Lookup::Absent => Answer::No,
            Lookup::Failed => Answer::Failed,
        },
        Asked::InstanceMethod { has, .. } | Asked::StaticMethod { has, .. } => if has {
            Answer::Yes
        } else {
            Answer::Failed
        },
        Asked::ClearException { cleared } => if cleared {
            Answer::Yes
        } else {
            Answer::Failed
        },
        Asked::AppLoader { .. } | Asked::SystemLoader { .. } | Asked::Heartbeat { .. } => Answer::No,
    }
}

/// The answers of the exchanges, in order.
pub open spec fn answers_of<C, L>(h: Seq<Asked<C, L>>) -> Seq<Answer> {
    h.map_values(|e: Asked<C, L>| answer_of(e))
}

/// The class that an exchange found, if it found one.
pub open spec fn class_of<C, L>(e: Asked<C, L>) -> Option<C> {
    match e {
        Asked::FindClass { found, .. } => found,
        Asked::LoadClass { got: Lookup::Found(c), .. } => Some(c),
        Asked::ClassForName { got: Lookup::Found(c), .. } => Some(c),
        _ => None,
    }
}

/// The class that the exchanges found: that of the last exchange that found
/// one.
pub open spec fn found_class<C, L>(h: Seq<Asked<C, L>>) -> Option<C>
    decreases h.len(),
{
    if h.len() == 0 {
        None
    } else {
        match class_of(h.last()) {
            Some(c) => Some(c),
            None => found_class(h.drop_last()),
        }
    }
}

/// Whether an exchange is a clearing that failed.
pub open spec fn is_failed_clear<C, L>(e: Asked<C, L>) -> bool {
    e == (Asked::<C, L>::ClearException { cleared: false })
}

/// Whether no clearing failed before the last exchange: nothing was asked
/// after a clearing that failed.
pub open spec fn stops_at_failed_clear<C, L>(h: Seq<Asked<C, L>>) -> bool {
    forall|n: int| 0 <= n < h.len() - 1 ==> !is_failed_clear(#[trigger] h[n])
}

/// Whether the last exchange is a clearing that failed.
pub open spec fn ends_in_failed_clear<C, L>(h: Seq<Asked<C, L>>) -> bool {
    h.len() > 0 && is_failed_clear(h.last())
}

/// The method that an attempt is made on, and the loaders at hand.
pub struct Target<L> {
    pub loaders: Seq<L>,
    /// The internal, slash-separated name of the class.
    pub internal: Seq<char>,
    /// The binary name of the class.
    pub binary: Seq<char>,
    pub method: Seq<char>,
    pub signature: Seq<char>,
}

/// The target of an attempt on a method of the class with this binary name.
pub open spec fn attempt_target<L>(
    loaders: Seq<L>,
    binary: Seq<char>,
    method: Seq<char>,
    signature: Seq<char>,
) -> Target<L> {
    Target { loaders, internal: dot_to_slash(binary), binary, method, signature }
}

/// Whether the exchange is what `request` asks for: the lookups name the
/// class and the method of the target, the loaders are those at hand, and a
/// method is looked up on the class that was found.
pub open spec fn carries_out<C, L>(e: Asked<C, L>, request: Request, t: Target<L>, class: Option<C>) -> bool {
    match request {
        Request::FindClass => e matches Asked::FindClass { name, .. } && name == t.internal,
        Request::LoadClass(k) => e matches Asked::LoadClass { loader, name, .. } && k
            < t.loaders.len() && loader == t.loaders[k as int] && name == t.binary,
        Request::ClassForName(k) => e matches Asked::ClassForName { loader, name, .. } && k
            < t.loaders.len() && loader == t.loaders[k as int] && name == t.binary,
        Request::InstanceMethod => e matches Asked::InstanceMethod { class: c, name, signature, .. }
            && class == Some(c) && name == t.method && signature == t.signature,
        Request::StaticMethod => e matches Asked::StaticMethod { class: c, name, signature, .. }
            && class == Some(c) && name == t.method && signature == t.signature,
        Request::ClearException => e is ClearException,
        Request::Finish(_) => false,
    }
}

/// Whether exchange number `n` is what the procedure asks for after the
/// exchanges before it.
pub open spec fn follows_procedure<C, L>(h: Seq<Asked<C, L>>, n: int, t: Target<L>) -> bool {
    carries_out(
        h[n],
        request_of(state_after(answers_of(h).take(n), t.loaders.len() as int).phase),
        t,
        found_class(h.take(n)),
    )
}

/// Whether the exchanges are those of one attempt on the target that ended
/// with this outcome: they are a whole run of the procedure, each is what
/// the procedure asks for at its place, and the outcome is the end of the
/// run.
#[verifier::opaque]
pub open spec fn is_attempt<C, L>(h: Seq<Asked<C, L>>, t: Target<L>, o: StepOutcome) -> bool {
    &&& crate::art_runtime::attempt_yields(answers_of(h), t.loaders.len() as int, o)
    &&& forall|n: int| 0 <= n < h.len() ==> #[trigger] follows_procedure(h, n, t)
    &&& stops_at_failed_clear(h)
    &&& ends_in_failed_clear(h) <==> o.end == StepEnd::Fatal || o.end == StepEnd::ResolvedThenFatal
}

/// The exchanges by which a loader is fetched: the request, and the
/// clearing that follows where it brought none.
pub open spec fn fetch<C, L>(app: bool, got: Option<L>, cleared: bool) -> Seq<Asked<C, L>> {
    let ask = if app {
        Asked::<C, L>::AppLoader { brought: got }
    } else {
        Asked::<C, L>::SystemLoader { brought: got }
    };
    if got is Some {
        seq![ask]
    } else {
        seq![ask, Asked::<C, L>::ClearException { cleared }]
    }
}

/// The loaders that a fetch brought.
pub open spec fn fetched<L>(got: Option<L>) -> Seq<L> {
    match got {
        Some(l) => seq![l],
        None => Seq::empty(),
    }
}

/// What a pass asked of the runtime, as far as it came.
pub struct PassTrace<C, L> {
    /// What the request for the application loader brought.
    pub app: Option<L>,
    /// Whether the clearing after that request succeeded, where there was
    /// one.
    pub app_cleared: bool,
    /// What the request for the system loader brought.
    pub system: Option<L>,
    /// Whether the clearing after that request succeeded, where there was
    /// one.
    pub system_cleared: bool,
    /// The exchanges made for each method that was dealt with, in order.
    pub steps: Seq<Seq<Asked<C, L>>>,
    /// The outcome of the attempt on each method that was attempted.
    pub outcomes: Seq<StepOutcome>,
}

impl<C, L> PassTrace<C, L> {
    /// Whether both loaders were fetched without a clearing that failed.
    pub open spec fn has_loaders(self) -> bool {
        (self.app is Some || self.app_cleared) && (self.system is Some || self.system_cleared)
    }

    /// The loaders at hand: the application loader before the system loader.
    pub open spec fn loaders(self) -> Seq<L> {
        fetched(self.app) + fetched(self.system)
    }

    /// The exchanges by which the loaders were fetched. The system loader
    /// is not asked for after a clearing that failed.
    pub open spec fn prelude(self) -> Seq<Asked<C, L>> {
        fetch(true, self.app, self.app_cleared) + if self.app is Some || self.app_cleared {
            fetch(false, self.system, self.system_cleared)
        } else {
            Seq::empty()
        }
    }

    /// All exchanges of the pass, in order.
    pub open spec fn exchanges(self) -> Seq<Asked<C, L>> {
        self.prelude() + self.steps.flatten()
    }
}

/// The method that an attempt on method `i` is made on.
pub open spec fn target_of<L>(ms: Seq<MethodKey>, i: int, loaders: Seq<L>) -> Target<L> {
    let binary = match spec_binary_name(ms[i].class_name) {
        Some(b) => b,
        None => Seq::empty(),
    };
    Target {
        loaders,
        internal: dot_to_slash(binary),
        binary,
        method: ms[i].method_name,
        signature: ms[i].signature,
    }
}

/// The heartbeat that comes with method `i`: one where the method carries
/// code and is the thousandth, two thousandth, … with code.
pub open spec fn beat<C, L>(ms: Seq<MethodKey>, i: int) -> Seq<Asked<C, L>> {
    if ms[i].has_code && count_eligible(ms, i + 1) % (HEARTBEAT_EVERY as nat) == 0 {
        seq![
            Asked::<C, L>::Heartbeat {
                processed: count_eligible(ms, i + 1) as usize,
                total: count_eligible(ms, ms.len() as int) as usize,
            },
        ]
    } else {
        Seq::empty()
    }
}

/// Whether the exchanges are those made for method `i`: its heartbeat if
/// one is due, then, if the method is attempted, one attempt on it that
/// ended with outcome `o`, and nothing else.
#[verifier::opaque]
pub open spec fn is_step<C, L>(
    step: Seq<Asked<C, L>>,
    ms: Seq<MethodKey>,
    i: int,
    loaders: Seq<L>,
    o: StepOutcome,
) -> bool {
    if disposition(ms, i) == Disposition::Attempted {
        exists|h: Seq<Asked<C, L>>|
            step == beat::<C, L>(ms, i) + h && #[trigger] is_attempt(h, target_of(ms, i, loaders), o)
    } else {
        step == beat::<C, L>(ms, i)
    }
}

/// The report after the first `upto` methods have been dealt with, given
/// the outcomes of the attempts.
pub open spec fn report_after(ms: Seq<MethodKey>, outcomes: Seq<StepOutcome>, upto: int) -> ResolveReport
    decreases upto,
{
    if upto <= 0 {
        empty_report()
    } else {
        let r = report_after(ms, outcomes, upto - 1);
        match disposition(ms, upto - 1) {
            Disposition::Untranslatable => ResolveReport {
                class_not_found_overall: bump(r.class_not_found_overall, true),
                ..r
            },
            Disposition::SkippedSystem => ResolveReport {
                skipped_system: bump(r.skipped_system, true),
                ..r
            },
            Disposition::Attempted => tally(r, outcomes[upto - 1]),
            _ => r,
        }
    }
}

/// Whether `t` tells what a pass over `ms` asked of the runtime, and `r` is
/// the report of that pass.
///
/// * If no method carries code, nothing is asked.
/// * Otherwise the loaders are fetched. If a clearing fails there, the pass
///   is aborted with an empty report.
/// * Otherwise the methods are dealt with in order, each by its step. Only
///   the last step may hold an attempt that ended fatally; after it no
///   method is dealt with. The report is that of the steps made.
#[verifier::opaque]
pub open spec fn is_pass<C, L>(t: PassTrace<C, L>, ms: Seq<MethodKey>, r: ResolveReport) -> bool {
    &&& t.steps.len() == t.outcomes.len()
    &&& t.has_loaders() ==> {
        &&& t.steps.len() <= ms.len()
        &&& forall|i: int|
            0 <= i < t.steps.len() ==> #[trigger] is_step(t.steps[i], ms, i, t.loaders(), t.outcomes[i])
        &&& r == report_after(ms, t.outcomes, t.steps.len() as int)
        &&& !r.aborted ==> t.steps.len() == ms.len()
    }
    &&& !t.has_loaders() ==> t.steps.len() == 0 && r == (ResolveReport {
        aborted: true,
        ..empty_report()
    })
    &&& stops_at_failed_clear(t.exchanges())
    &&& r.aborted <==> ends_in_failed_clear(t.exchanges())
}

/// The trace with one more step.
pub open spec fn with_step<C, L>(t: PassTrace<C, L>, step: Seq<Asked<C, L>>, o: StepOutcome) -> PassTrace<
    C,
    L,
> {
    PassTrace { steps: t.steps.push(step), outcomes: t.outcomes.push(o), ..t }
}

/// The report once method `i` has been dealt with, its attempt, if one was
/// made, having ended with `o`.
pub open spec fn report_with(ms: Seq<MethodKey>, i: int, r: ResolveReport, o: StepOutcome) -> ResolveReport {
    match disposition(ms, i) {
        Disposition::Untranslatable => ResolveReport {
            class_not_found_overall: bump(r.class_not_found_overall, true),
            ..r
        },
        Disposition::SkippedSystem => ResolveReport {
            skipped_system: bump(r.skipped_system, true),
            ..r
        },
        Disposition::Attempted => tally(r, o),
        _ => r,
    }
}

/// Whether `t` tells what a pass has asked of the runtime when the first
/// `upto` methods have been dealt with and nothing has failed for good:
/// the loaders are at hand, each method has had its step, the report is
/// that of the steps, and no clearing has failed.
#[verifier::opaque]
pub open spec fn is_pass_so_far<C, L>(
    t: PassTrace<C, L>,
    ms: Seq<MethodKey>,
    upto: int,
    r: ResolveReport,
) -> bool {
    &&& t.has_loaders()
    &&& t.steps.len() == upto
    &&& t.outcomes.len() == upto
    &&& upto <= ms.len()
    &&& forall|i: int| 0 <= i < upto ==> #[trigger] is_step(t.steps[i], ms, i, t.loaders(), t.outcomes[i])
    &&& r == report_after(ms, t.outcomes, upto)
    &&& !r.aborted
    &&& forall|k: int| 0 <= k < t.exchanges().len() ==> !is_failed_clear(#[trigger] t.exchanges()[k])
}

/// Once the loaders are at hand, the pass has begun.
pub proof fn lemma_pass_begins<C, L>(t: PassTrace<C, L>, ms: Seq<MethodKey>)
    requires
        t.has_loaders(),
        t.steps.len() == 0,
        t.outcomes.len() == 0,
    ensures
        is_pass_so_far(t, ms, 0, empty_report()),
        t.exchanges() == t.prelude(),
{
    reveal(is_pass_so_far);
    assert(t.steps.flatten() =~= Seq::<Asked<C, L>>::empty());
    assert(t.exchanges() =~= t.prelude());
}

/// A pass whose loaders could not be had is aborted with an empty report.
pub proof fn lemma_pass_without_loaders<C, L>(t: PassTrace<C, L>, ms: Seq<MethodKey>)
    requires
        !t.has_loaders(),
        t.steps.len() == 0,
        t.outcomes.len() == 0,
        t.system is None,
        !t.system_cleared,
    ensures
        is_pass(t, ms, (ResolveReport { aborted: true, ..empty_report() })),
        t.exchanges() == t.prelude(),
{
    reveal(is_pass);
    assert(t.steps.flatten() =~= Seq::<Asked<C, L>>::empty());
    assert(t.exchanges() =~= t.prelude());
}

/// The step of a method that is not attempted is its heartbeat.
pub proof fn lemma_step_without_attempt<C, L>(ms: Seq<MethodKey>, i: int, loaders: Seq<L>, o: StepOutcome)
    requires
        disposition(ms, i) != Disposition::Attempted,
    ensures
        is_step(beat::<C, L>(ms, i), ms, i, loaders, o),
{
    reveal(is_step);
}

/// The step of a method that is attempted is its heartbeat and the attempt.
pub proof fn lemma_step_with_attempt<C, L>(
    ms: Seq<MethodKey>,
    i: int,
    loaders: Seq<L>,
    h: Seq<Asked<C, L>>,
    o: StepOutcome,
)
    requires
        disposition(ms, i) == Disposition::Attempted,
        is_attempt(h, target_of(ms, i, loaders), o),
    ensures
        is_step(beat::<C, L>(ms, i) + h, ms, i, loaders, o),
{
    reveal(is_step);
}

/// One more step carries the pass on, or ends it where the step's attempt
/// ended as fatal.
pub proof fn lemma_pass_goes_on<C, L>(
    t: PassTrace<C, L>,
    ms: Seq<MethodKey>,
    i: int,
    r: ResolveReport,
    step: Seq<Asked<C, L>>,
    o: StepOutcome,
)
    requires
        is_pass_so_far(t, ms, i, r),
        0 <= i < ms.len(),
        is_step(step, ms, i, t.loaders(), o),
    ensures
        with_step(t, step, o).exchanges() == t.exchanges() + step,
        !report_with(ms, i, r, o).aborted ==> is_pass_so_far(
            with_step(t, step, o),
            ms,
            i + 1,
            report_with(ms, i, r, o),
        ),
        report_with(ms, i, r, o).aborted ==> is_pass(
            with_step(t, step, o),
            ms,
            report_with(ms, i, r, o),
        ),
{
    reveal(is_pass_so_far);
    let t2 = with_step(t, step, o);
    let r2 = report_with(ms, i, r, o);
    lemma_flatten_push(t.steps, step);
    assert(t2.exchanges() =~= t.exchanges() + step);
    lemma_report_after_prefix(ms, t.outcomes, t2.outcomes, i);
    assert(r2 == report_after(ms, t2.outcomes, i + 1));
    assert forall|j: int| 0 <= j < i + 1 implies #[trigger] is_step(
        t2.steps[j],
        ms,
        j,
        t2.loaders(),
        t2.outcomes[j],
    ) by {
        if j < i {
            assert(is_step(t.steps[j], ms, j, t.loaders(), t.outcomes[j]));
        }
    }
    // what the step holds of clearings that failed
    reveal(is_step);
    let b = beat::<C, L>(ms, i);
    assert forall|k: int| 0 <= k < b.len() implies !is_failed_clear(#[trigger] b[k]) by {}
    let fatal = disposition(ms, i) == Disposition::Attempted && (o.end == StepEnd::Fatal || o.end
        == StepEnd::ResolvedThenFatal);
    assert(r2.aborted == fatal);
    if disposition(ms, i) == Disposition::Attempted {
        let h = choose|h: Seq<Asked<C, L>>|
            step == b + h && #[trigger] is_attempt(h, target_of(ms, i, t.loaders()), o);
        reveal(is_attempt);
        assert(h.len() > 0) by {
            if h.len() == 0 {
                assert(answers_of(h).len() == 0);
            }
        }
        assert forall|k: int| 0 <= k < step.len() - 1 implies !is_failed_clear(#[trigger] step[k]) by {
            if k >= b.len() {
                assert(step[k] == h[k - b.len()]);
            } else {
                assert(step[k] == b[k]);
            }
        }
        assert(step.last() == h.last());
    } else {
        assert(step == b);
    }
    let x = t.exchanges();
    let x2 = t2.exchanges();
    assert forall|k: int| 0 <= k < x2.len() && (k < x2.len() - 1 || !fatal) implies !is_failed_clear(
        #[trigger] x2[k],
    ) by {
        if k < x.len() {
            assert(x2[k] == x[k]);
        } else {
            assert(x2[k] == step[k - x.len()]);
        }
    }
    if fatal {
        assert(x2.last() == step.last());
        reveal(is_pass);
    }
}

/// A pass that has dealt with every method is a whole pass.
pub proof fn lemma_pass_ends<C, L>(t: PassTrace<C, L>, ms: Seq<MethodKey>, r: ResolveReport)
    requires
        is_pass_so_far(t, ms, ms.len() as int, r),
    ensures
        is_pass(t, ms, r),
{
    reveal(is_pass);
    reveal(is_pass_so_far);
}

/// The report after some methods depends on the outcomes of these methods
/// alone.
pub proof fn lemma_report_after_prefix(
    ms: Seq<MethodKey>,
    a: Seq<StepOutcome>,
    b: Seq<StepOutcome>,
    upto: int,
)
    requires
        upto <= a.len(),
        upto <= b.len(),
        forall|j: int| 0 <= j < upto ==> a[j] == b[j],
    ensures
        report_after(ms, a, upto) == report_after(ms, b, upto),
    decreases upto,
{
    if upto > 0 {
        lemma_report_after_prefix(ms, a, b, upto - 1);
    }
}

/// The exchanges of some steps and one more are those of the steps, then
/// those of the one more.
pub proof fn lemma_flatten_push<A>(steps: Seq<Seq<A>>, step: Seq<A>)
    ensures
        steps.push(step).flatten() == steps.flatten() + step,
{
    let one = seq![step];
    assert(steps.push(step) =~= steps + one);
    vstd::seq_lib::lemma_flatten_concat(steps, one);
    one.lemma_flatten_one_element();
}

/// Whether the history grew from `before` to `after` without a clearing
/// that failed, but for the last exchange.
pub open spec fn nothing_after_failed_clear<C, L>(before: Seq<Asked<C, L>>, after: Seq<Asked<C, L>>) -> bool {
    forall|k: int| before.len() <= k < after.len() - 1 ==> !is_failed_clear(#[trigger] after[k])
}

/// Whether the history grew from `before` to `after` and its last exchange
/// is a clearing that failed.
pub open spec fn grew_to_failed_clear<C, L>(before: Seq<Asked<C, L>>, after: Seq<Asked<C, L>>) -> bool {
    before.len() < after.len() && is_failed_clear(after.last())
}

/// A pass is aborted exactly on a clearing that failed, and asks nothing
/// after it.
pub proof fn lemma_pass_stops_at_failed_clear<C, L>(
    t: PassTrace<C, L>,
    ms: Seq<MethodKey>,
    r: ResolveReport,
    before: Seq<Asked<C, L>>,
    after: Seq<Asked<C, L>>,
)
    requires
        is_pass(t, ms, r),
        after == before + t.exchanges(),
    ensures
        nothing_after_failed_clear(before, after),
        r.aborted <==> grew_to_failed_clear(before, after),
{
    reveal(is_pass);
    let x = t.exchanges();
    assert forall|k: int| before.len() <= k < after.len() - 1 implies !is_failed_clear(
        #[trigger] after[k],
    ) by {
        assert(after[k] == x[k - before.len()]);
    }
    if x.len() > 0 {
        assert(after.last() == x.last());
    }
}

/// A pass in which no clearing fails is not aborted: the loaders are
/// fetched and every method is dealt with.
pub proof fn lemma_pass_runs_to_its_end<C, L>(t: PassTrace<C, L>, ms: Seq<MethodKey>, r: ResolveReport)
    requires
        is_pass(t, ms, r),
        forall|k: int| 0 <= k < t.exchanges().len() ==> !is_failed_clear(#[trigger] t.exchanges()[k]),
    ensures
        !r.aborted,
        t.has_loaders(),
        t.steps.len() == ms.len(),
        r == report_after(ms, t.outcomes, ms.len() as int),
{
    reveal(is_pass);
    if !t.has_loaders() {
        let p = t.prelude();
        assert(t.steps.flatten() =~= Seq::<Asked<C, L>>::empty());
        assert(t.exchanges() =~= p);
        assert(is_failed_clear(p.last()));
    }
}

/// Nothing is looked up for a method that is not attempted: its step is
/// its heartbeat, if one is due, and nothing else.
pub proof fn lemma_no_lookup_without_attempt<C, L>(
    step: Seq<Asked<C, L>>,
    ms: Seq<MethodKey>,
    i: int,
    loaders: Seq<L>,
    o: StepOutcome,
)
    requires
        is_step(step, ms, i, loaders, o),
        disposition(ms, i) != Disposition::Attempted,
    ensures
        forall|k: int| 0 <= k < step.len() ==> (#[trigger] step[k]) is Heartbeat,
{
    reveal(is_step);
}

/// For every method that a pass attempted, the class was looked up by its
/// internal, slash-separated name.
pub proof fn lemma_attempted_method_is_looked_up<C, L>(
    t: PassTrace<C, L>,
    ms: Seq<MethodKey>,
    r: ResolveReport,
    i: int,
)
    requires
        is_pass(t, ms, r),
        t.has_loaders(),
        0 <= i < t.steps.len(),
        disposition(ms, i) == Disposition::Attempted,
    ensures
        exists|k: int|
            0 <= k < t.steps[i].len() && (#[trigger] t.steps[i][k] matches Asked::FindClass {
                name,
                ..
            } && name == target_of(ms, i, t.loaders()).internal),
{
    reveal(is_pass);
    reveal(is_step);
    assert(is_step(t.steps[i], ms, i, t.loaders(), t.outcomes[i]));
    let tg = target_of(ms, i, t.loaders());
    let b = beat::<C, L>(ms, i);
    let h = choose|h: Seq<Asked<C, L>>|
        t.steps[i] == b + h && #[trigger] is_attempt(h, tg, t.outcomes[i]);
    lemma_attempt_begins_with_native_lookup(h, tg, t.outcomes[i]);
    assert(t.steps[i][b.len() as int] == h[0]);
}

/// An attempt begins with the native lookup of the class by its internal
/// name.
pub proof fn lemma_attempt_begins_with_native_lookup<C, L>(
    h: Seq<Asked<C, L>>,
    t: Target<L>,
    o: StepOutcome,
)
    requires
        is_attempt(h, t, o),
    ensures
        h.len() > 0,
        h[0] matches Asked::FindClass { name, .. } && name == t.internal,
{
    reveal(is_attempt);
    if h.len() == 0 {
        assert(answers_of(h).len() == 0);
    }
    assert(follows_procedure(h, 0, t));
    assert(answers_of(h).take(0) =~= Seq::<Answer>::empty());
}

} // verus!
