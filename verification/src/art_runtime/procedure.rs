//! The procedure of an attempt on one method, as a machine: it is told what
//! the runtime answered and tells what to ask next.
//!
//! The class is looked for by native lookup, then through each loader with
//! `loadClass`, then through each loader by name. On the class the method
//! is looked up as an instance method and then as a static one. After every
//! call that failed the pending exception is cleared; an exception that
//! cannot be cleared ends the attempt as fatal.

use vstd::prelude::*;
use crate::art_runtime::StepEnd;

verus! {

/// Where an attempt stands: what has been asked and not yet answered.
#[derive(Clone, Copy, Debug, PartialEq, Eq, Structural)]
pub enum Phase {
    /// The native lookup of the class.
    Native,
    /// The clearing after the native lookup failed.
    NativeFailed,
    /// The loading of the class through the loader with this number.
    Loading(usize),
    /// The clearing after that loading failed.
    LoadingFailed(usize),
    /// The lookup of the class by name through the loader with this
    /// number.
    Naming(usize),
    /// The clearing after that lookup failed.
    NamingFailed(usize),
    /// The lookup of the instance method.
    Instance,
    /// The clearing after the instance lookup failed.
    InstanceFailed,
    /// The lookup of the static method.
    Static,
    /// The clearing after the static lookup succeeded.
    StaticFound,
    /// The clearing after the static lookup failed.
    StaticFailed,
    /// The attempt is over.
    Done(StepEnd),
}

/// What is asked of the runtime.
#[derive(Clone, Copy, Debug, PartialEq, Eq, Structural)]
pub enum Request {
    /// Look the class up by its internal name.
    FindClass,
    /// Ask the loader with this number to load the class.
    LoadClass(usize),
    /// Ask for the class by name through the loader with this number.
    ClassForName(usize),
    /// Look the method up as an instance method of the class.
    InstanceMethod,
    /// Look the method up as a static method of the class.
    StaticMethod,
    /// Clear the pending exception.
    ClearException,
    /// Nothing more: the attempt has ended.
    Finish(StepEnd),
}

/// What the runtime answered.
#[derive(Clone, Copy, Debug, PartialEq, Eq, Structural)]
pub enum Answer {
    /// The class or the method was found; the exception was cleared.
    Yes,
    /// The call returned without a class and without failing.
    No,
    /// The call failed; the exception could not be cleared.
    Failed,
}

/// The state of an attempt.
#[derive(Clone, Copy, Debug, PartialEq, Eq, Structural)]
pub struct AttemptState {
    pub phase: Phase,
    /// The native lookup missed and its exception was cleared.
    pub native_miss: bool,
}

/// What is asked in a phase.
pub open spec fn request_of(phase: Phase) -> Request {
    match phase {
        Phase::Native => Request::FindClass,
        Phase::Loading(k) => Request::LoadClass(k),
        Phase::Naming(k) => Request::ClassForName(k),
        Phase::Instance => Request::InstanceMethod,
        Phase::Static => Request::StaticMethod,
        Phase::NativeFailed
        | Phase::LoadingFailed(_)
        | Phase::NamingFailed(_)
        | Phase::InstanceFailed
        | Phase::StaticFound
        | Phase::StaticFailed => Request::ClearException,
        Phase::Done(end) => Request::Finish(end),
    }
}

/// The phase in which loader number `k` is asked to load the class; past
/// the last loader, the phase in which the first is asked for it by name.
pub open spec fn loading_from(k: int, loaders: int) -> Phase {
    if 0 <= k < loaders {
        Phase::Loading(k as usize)
    } else {
        naming_from(0, loaders)
    }
}

/// The phase in which loader number `k` is asked for the class by name;
/// past the last loader, the end of the attempt without a class.
pub open spec fn naming_from(k: int, loaders: int) -> Phase {
    if 0 <= k < loaders {
        Phase::Naming(k as usize)
    } else {
        Phase::Done(StepEnd::ClassNotFound)
    }
}

/// The phase that follows `phase` on the given answer, with `loaders`
/// loaders to go through.
pub open spec fn next_phase(phase: Phase, answer: Answer, loaders: int) -> Phase {
    let yes = answer == Answer::Yes;
    match phase {
        Phase::Native => if yes {
            Phase::Instance
        } else {
            Phase::NativeFailed
        },
        Phase::NativeFailed => if yes {
            loading_from(0, loaders)
        } else {
            Phase::Done(StepEnd::Fatal)
        },
        Phase::Loading(k) => match answer {
            Answer::Yes => Phase::Instance,
            Answer::No => loading_from(k + 1, loaders),
            Answer::Failed => Phase::LoadingFailed(k),
        },
        Phase::LoadingFailed(k) => if yes {
            loading_from(k + 1, loaders)
        } else {
            Phase::Done(StepEnd::Fatal)
        },
        Phase::Naming(k) => match answer {
            Answer::Yes => Phase::Instance,
            Answer::No => naming_from(k + 1, loaders),
            Answer::Failed => Phase::NamingFailed(k),
        },
        Phase::NamingFailed(k) => if yes {
            naming_from(k + 1, loaders)
        } else {
            Phase::Done(StepEnd::Fatal)
        },
        Phase::Instance => if yes {
            Phase::Done(StepEnd::Resolved)
        } else {
            Phase::InstanceFailed
        },
        Phase::InstanceFailed => if yes {
            Phase::Static
        } else {
            Phase::Done(StepEnd::Fatal)
        },
        Phase::Static => if yes {
            Phase::StaticFound
        } else {
            Phase::StaticFailed
        },
        Phase::StaticFound => if yes {
            Phase::Done(StepEnd::Resolved)
        } else {
            Phase::Done(StepEnd::ResolvedThenFatal)
        },
        Phase::StaticFailed => if yes {
            Phase::Done(StepEnd::MethodNotFound)
        } else {
            Phase::Done(StepEnd::Fatal)
        },
        Phase::Done(end) => Phase::Done(end),
    }
}

/// The state that follows `s` on the given answer. The native miss is
/// counted once its exception has been cleared.
pub open spec fn spec_step(s: AttemptState, answer: Answer, loaders: int) -> AttemptState {
    AttemptState {
        phase: next_phase(s.phase, answer, loaders),
        native_miss: s.native_miss || (s.phase == Phase::NativeFailed && answer == Answer::Yes),
    }
}

/// The state in which an attempt starts: the native lookup is asked for.
pub open spec fn start_state() -> AttemptState {
    AttemptState { phase: Phase::Native, native_miss: false }
}

/// The state of an attempt once the runtime has given these answers, in
/// order.
pub open spec fn state_after(answers: Seq<Answer>, loaders: int) -> AttemptState
    decreases answers.len(),
{
    if answers.len() == 0 {
        start_state()
    } else {
        spec_step(state_after(answers.drop_last(), loaders), answers.last(), loaders)
    }
}

/// Whether the answers are those of one whole attempt: the attempt is over
/// after the last of them and not before.
pub open spec fn is_whole_run(answers: Seq<Answer>, loaders: int) -> bool {
    &&& state_after(answers, loaders).phase is Done
    &&& forall|n: int|
        0 <= n < answers.len() ==> !((#[trigger] state_after(answers.take(n), loaders)).phase is Done)
}

/// Whether a state can come up in an attempt with `loaders` loaders: a
/// loader that is asked exists, and the loaders are asked, and the class is
/// given up, only after the native lookup has missed.
pub open spec fn state_fits(s: AttemptState, loaders: int) -> bool {
    match s.phase {
        Phase::Loading(k) | Phase::LoadingFailed(k) | Phase::Naming(k) | Phase::NamingFailed(k) => k
            < loaders && s.native_miss,
        Phase::Done(StepEnd::ClassNotFound) => s.native_miss,
        _ => true,
    }
}

/// Whether the class has been found when the phase is reached.
pub open spec fn has_class(phase: Phase) -> bool {
    match phase {
        Phase::Instance
        | Phase::InstanceFailed
        | Phase::Static
        | Phase::StaticFound
        | Phase::StaticFailed => true,
        _ => false,
    }
}

/// How many requests an attempt can still make, at most, from a phase.
pub open spec fn steps_left(phase: Phase, loaders: int) -> int {
    match phase {
        Phase::Native => 4 * loaders + 8,
        Phase::NativeFailed => 4 * loaders + 7,
        Phase::Loading(k) => 4 * loaders - 2 * k + 6,
        Phase::LoadingFailed(k) => 4 * loaders - 2 * k + 5,
        Phase::Naming(k) => 2 * loaders - 2 * k + 6,
        Phase::NamingFailed(k) => 2 * loaders - 2 * k + 5,
        Phase::Instance => 4,
        Phase::InstanceFailed => 3,
        Phase::Static => 2,
        Phase::StaticFound => 1,
        Phase::StaticFailed => 1,
        Phase::Done(_) => 0,
    }
}

impl AttemptState {
    /// The state in which an attempt starts.
    pub fn start() -> (s: AttemptState)
        ensures
            s == start_state(),
    {
        AttemptState { phase: Phase::Native, native_miss: false }
    }

    /// What is asked of the runtime in this state.
    pub fn request(&self) -> (r: Request)
        ensures
            r == request_of(self.phase),
    {
        match self.phase {
            Phase::Native => Request::FindClass,
            Phase::Loading(k) => Request::LoadClass(k),
            Phase::Naming(k) => Request::ClassForName(k),
            Phase::Instance => Request::InstanceMethod,
            Phase::Static => Request::StaticMethod,
            Phase::NativeFailed => Request::ClearException,
            Phase::LoadingFailed(_) => Request::ClearException,
            Phase::NamingFailed(_) => Request::ClearException,
            Phase::InstanceFailed => Request::ClearException,
            Phase::StaticFound => Request::ClearException,
            Phase::StaticFailed => Request::ClearException,
            Phase::Done(end) => Request::Finish(end),
        }
    }

    /// The state that follows on the given answer, with `loaders` loaders
    /// to go through.
    pub fn step(self, answer: Answer, loaders: usize) -> (r: AttemptState)
        ensures
            r == spec_step(self, answer, loaders as int),
    {
        let yes = answer == Answer::Yes;
        let fatal = Phase::Done(StepEnd::Fatal);
        let phase = match self.phase {
            Phase::Native => if yes {
                Phase::Instance
            } else {
                Phase::NativeFailed
            },
            Phase::NativeFailed => if yes {
                loading_phase(None, loaders)
            } else {
                fatal
            },
            Phase::Loading(k) => match answer {
                Answer::Yes => Phase::Instance,
                Answer::No => loading_phase(Some(k), loaders),
                Answer::Failed => Phase::LoadingFailed(k),
            },
            Phase::LoadingFailed(k) => if yes {
                loading_phase(Some(k), loaders)
            } else {
                fatal
            },
            Phase::Naming(k) => match answer {
                Answer::Yes => Phase::Instance,
                Answer::No => naming_phase(Some(k), loaders),
                Answer::Failed => Phase::NamingFailed(k),
            },
            Phase::NamingFailed(k) => if yes {
                naming_phase(Some(k), loaders)
            } else {
                fatal
            },
            Phase::Instance => if yes {
                Phase::Done(StepEnd::Resolved)
            } else {
                Phase::InstanceFailed
            },
            Phase::InstanceFailed => if yes {
                Phase::Static
            } else {
                fatal
            },
            Phase::Static => if yes {
                Phase::StaticFound
            } else {
                Phase::StaticFailed
            },
            Phase::StaticFound => if yes {
                Phase::Done(StepEnd::Resolved)
            } else {
                Phase::Done(StepEnd::ResolvedThenFatal)
            },
            Phase::StaticFailed => if yes {
                Phase::Done(StepEnd::MethodNotFound)
            } else {
                fatal
            },
            Phase::Done(end) => Phase::Done(end),
        };
        let cleared_native_miss = match self.phase {
            Phase::NativeFailed => yes,
            _ => false,
        };
        AttemptState { phase, native_miss: self.native_miss || cleared_native_miss }
    }
}

/// The number after `last`, or zero where there is none before.
pub open spec fn following(last: Option<usize>) -> int {
    match last {
        Some(k) => k + 1,
        None => 0,
    }
}

/// The phase in which the loader after `last` is asked to load the class.
fn loading_phase(last: Option<usize>, loaders: usize) -> (p: Phase)
    ensures
        p == loading_from(following(last), loaders as int),
{
    match last {
        Some(k) => if k < loaders && k + 1 < loaders {
            Phase::Loading(k + 1)
        } else {
            naming_phase(None, loaders)
        },
        None => if 0 < loaders {
            Phase::Loading(0)
        } else {
            naming_phase(None, loaders)
        },
    }
}

/// The phase in which the loader after `last` is asked for the class by
/// name.
fn naming_phase(last: Option<usize>, loaders: usize) -> (p: Phase)
    ensures
        p == naming_from(following(last), loaders as int),
{
    match last {
        Some(k) => if k < loaders && k + 1 < loaders {
            Phase::Naming(k + 1)
        } else {
            Phase::Done(StepEnd::ClassNotFound)
        },
        None => if 0 < loaders {
            Phase::Naming(0)
        } else {
            Phase::Done(StepEnd::ClassNotFound)
        },
    }
}

/// A state that can come up is followed by one that can: no loader is asked
/// that does not exist, the class is known when a method is looked up, and
/// the class is given up only after the native lookup has missed.
pub proof fn lemma_step_fits(s: AttemptState, answer: Answer, loaders: int)
    requires
        state_fits(s, loaders),
        0 <= loaders <= usize::MAX,
    ensures
        state_fits(spec_step(s, answer, loaders), loaders),
        has_class(spec_step(s, answer, loaders).phase) ==> has_class(s.phase) || (answer
            == Answer::Yes && (s.phase == Phase::Native || s.phase is Loading || s.phase is Naming)),
{
}

/// Every attempt ends: each answer brings the end nearer.
pub proof fn lemma_attempt_ends(s: AttemptState, answer: Answer, loaders: int)
    requires
        state_fits(s, loaders),
        0 <= loaders <= usize::MAX,
        !(s.phase is Done),
    ensures
        0 <= steps_left(spec_step(s, answer, loaders).phase, loaders) < steps_left(
            s.phase,
            loaders,
        ),
{
}

/// Every call that fails is followed by the clearing of the exception.
pub proof fn lemma_failure_is_cleared(s: AttemptState, loaders: int)
    requires
        request_of(s.phase) != Request::ClearException,
        !(s.phase is Done),
    ensures
        request_of(spec_step(s, Answer::Failed, loaders).phase) == Request::ClearException,
{
}

/// An exception that cannot be cleared ends the attempt as fatal.
pub proof fn lemma_uncleared_is_fatal(s: AttemptState, answer: Answer, loaders: int)
    requires
        request_of(s.phase) == Request::ClearException,
        answer != Answer::Yes,
    ensures
        spec_step(s, answer, loaders).phase == Phase::Done(StepEnd::Fatal) || spec_step(
            s,
            answer,
            loaders,
        ).phase == Phase::Done(StepEnd::ResolvedThenFatal),
{
}

/// An attempt ends as fatal exactly on a clearing that failed.
pub proof fn lemma_uncleared_is_fatal_or_not(s: AttemptState, answer: Answer, loaders: int)
    requires
        !(s.phase is Done),
    ensures
        spec_step(s, answer, loaders).phase == Phase::Done(StepEnd::Fatal) || spec_step(
            s,
            answer,
            loaders,
        ).phase == Phase::Done(StepEnd::ResolvedThenFatal) <==> request_of(s.phase)
            == Request::ClearException && answer != Answer::Yes,
{
}

/// Whether the phase is the asking of loader number `k` to load the class,
/// or the clearing after it.
pub open spec fn is_loading(phase: Phase, k: int) -> bool {
    phase == Phase::Loading(k as usize) || phase == Phase::LoadingFailed(k as usize)
}

/// Whether the phase is the asking of loader number `k` for the class by
/// name, or the clearing after it.
pub open spec fn is_naming(phase: Phase, k: int) -> bool {
    phase == Phase::Naming(k as usize) || phase == Phase::NamingFailed(k as usize)
}

/// The strategies come in order: the first loader is asked to load the
/// class after the native lookup has missed, every other after the loader
/// before it; the first loader is asked by name after the last has been
/// asked to load, every other after the loader before it.
pub proof fn lemma_strategies_in_order(s: AttemptState, answer: Answer, loaders: int)
    requires
        state_fits(s, loaders),
        0 <= loaders <= usize::MAX,
    ensures
        spec_step(s, answer, loaders).phase matches Phase::Loading(k) ==> if k == 0 {
            s.phase == Phase::NativeFailed
        } else {
            is_loading(s.phase, k - 1)
        },
        spec_step(s, answer, loaders).phase matches Phase::Naming(k) ==> if k == 0 {
            is_loading(s.phase, loaders - 1)
        } else {
            is_naming(s.phase, k - 1)
        },
{
}

} // verus!
