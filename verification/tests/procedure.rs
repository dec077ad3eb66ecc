use dex_unpacker::art_runtime::procedure::{Answer, AttemptState, Phase, Request};
use dex_unpacker::art_runtime::StepEnd;

/// Runs the procedure on a script of answers and returns what was asked and
/// how the attempt ended.
fn run(loaders: usize, answers: &[Answer]) -> (Vec<Request>, StepEnd, bool) {
    let mut state = AttemptState::start();
    let mut asked = Vec::new();
    let mut answers = answers.iter();
    loop {
        match state.request() {
            Request::Finish(end) => {
                assert!(answers.next().is_none(), "answers left over");
                return (asked, end, state.native_miss);
            }
            request => {
                asked.push(request);
                state = state.step(*answers.next().expect("script too short"), loaders);
            }
        }
    }
}

use Answer::{Failed, No, Yes};
use Request::{
    ClassForName, ClearException, FindClass, InstanceMethod, LoadClass, StaticMethod,
};

#[test]
fn an_attempt_starts_with_the_native_lookup() {
    let start = AttemptState::start();
    assert_eq!(start, AttemptState { phase: Phase::Native, native_miss: false });
    assert_eq!(start.request(), FindClass);
}

#[test]
fn a_class_found_at_once_leads_to_the_method() {
    assert_eq!(run(2, &[Yes, Yes]), (vec![FindClass, InstanceMethod], StepEnd::Resolved, false));
    assert_eq!(
        run(2, &[Yes, Failed, Yes, Yes, Yes]),
        (
            vec![FindClass, InstanceMethod, ClearException, StaticMethod, ClearException],
            StepEnd::Resolved,
            false
        )
    );
    assert_eq!(
        run(0, &[Yes, Failed, Yes, Failed, Yes]),
        (
            vec![FindClass, InstanceMethod, ClearException, StaticMethod, ClearException],
            StepEnd::MethodNotFound,
            false
        )
    );
}

#[test]
fn the_loaders_are_asked_after_a_native_miss() {
    assert_eq!(
        run(2, &[Failed, Yes, No, Yes, Yes]),
        (
            vec![FindClass, ClearException, LoadClass(0), LoadClass(1), InstanceMethod],
            StepEnd::Resolved,
            true
        )
    );
    assert_eq!(
        run(2, &[Failed, Yes, Failed, Yes, No, No, Failed, Yes]),
        (
            vec![
                FindClass,
                ClearException,
                LoadClass(0),
                ClearException,
                LoadClass(1),
                ClassForName(0),
                ClassForName(1),
                ClearException
            ],
            StepEnd::ClassNotFound,
            true
        )
    );
    assert_eq!(
        run(1, &[Failed, Yes, No, Yes, Yes]),
        (
            vec![FindClass, ClearException, LoadClass(0), ClassForName(0), InstanceMethod],
            StepEnd::Resolved,
            true
        )
    );
    assert_eq!(run(0, &[Failed, Yes]), (vec![FindClass, ClearException], StepEnd::ClassNotFound, true));
}

#[test]
fn an_absent_class_counts_as_a_native_miss_too() {
    // the native lookup has no way to return without a class and without failing
    assert_eq!(run(0, &[No, Yes]), (vec![FindClass, ClearException], StepEnd::ClassNotFound, true));
}

#[test]
fn an_exception_that_stays_is_fatal_wherever_it_stays() {
    assert_eq!(run(2, &[Failed, Failed]), (vec![FindClass, ClearException], StepEnd::Fatal, false));
    assert_eq!(
        run(2, &[Failed, Yes, Failed, Failed]),
        (vec![FindClass, ClearException, LoadClass(0), ClearException], StepEnd::Fatal, true)
    );
    assert_eq!(
        run(1, &[Failed, Yes, No, Failed, No]),
        (
            vec![FindClass, ClearException, LoadClass(0), ClassForName(0), ClearException],
            StepEnd::Fatal,
            true
        )
    );
    assert_eq!(
        run(1, &[Yes, Failed, Failed]),
        (vec![FindClass, InstanceMethod, ClearException], StepEnd::Fatal, false)
    );
    assert_eq!(
        run(1, &[Yes, Failed, Yes, Yes, Failed]),
        (
            vec![FindClass, InstanceMethod, ClearException, StaticMethod, ClearException],
            StepEnd::ResolvedThenFatal,
            false
        )
    );
    assert_eq!(
        run(1, &[Yes, Failed, Yes, Failed, Failed]),
        (
            vec![FindClass, InstanceMethod, ClearException, StaticMethod, ClearException],
            StepEnd::Fatal,
            false
        )
    );
}

#[test]
fn an_attempt_that_is_over_stays_over() {
    let done = AttemptState { phase: Phase::Done(StepEnd::Resolved), native_miss: true };
    assert_eq!(done.step(Failed, 3), done);
    assert_eq!(done.request(), Request::Finish(StepEnd::Resolved));
}

#[test]
fn a_loader_that_does_not_exist_is_not_asked() {
    let odd = AttemptState { phase: Phase::Loading(7), native_miss: true };
    assert_eq!(odd.step(No, 2).phase, Phase::Naming(0));
    assert_eq!(odd.step(No, 0).phase, Phase::Done(StepEnd::ClassNotFound));
    let last = AttemptState { phase: Phase::Naming(usize::MAX), native_miss: true };
    assert_eq!(last.step(No, usize::MAX).phase, Phase::Done(StepEnd::ClassNotFound));
    assert_eq!(last.step(Failed, usize::MAX).phase, Phase::NamingFailed(usize::MAX));
}
