//! Forces the managed runtime to resolve every parsed method that carries
//! code, so that lazily materialised method bodies are realised in memory.
//!
//! The runtime is reached through [`ManagedVm`], a narrow adapter. Nothing is
//! assumed of what the runtime answers: the resolver's contract holds for
//! every adapter. What is asked of the runtime for one method, and in which
//! order, is laid down in [`procedure`]; which methods are attempted at all
//! is [`disposition`]. Every adapter keeps a history of what was asked of
//! it, and the contracts of the resolver tell, in [`trace`], which exchanges
//! a pass adds to it.

use vstd::prelude::*;
use vstd::string::*;
use crate::dex_parser::ParsedMethod;
use crate::art_runtime::procedure::{
    has_class, is_whole_run, lemma_attempt_ends, lemma_step_fits, lemma_uncleared_is_fatal_or_not,
    state_after, state_fits, steps_left, Answer, AttemptState, Phase, Request,
};
use crate::art_runtime::trace::{
    answer_of, answers_of, attempt_target, beat, ends_in_failed_clear, fetch, follows_procedure,
    found_class, is_attempt, is_failed_clear, is_pass, is_pass_so_far, is_step, lemma_pass_begins,
    grew_to_failed_clear, lemma_pass_ends, lemma_pass_goes_on, lemma_pass_stops_at_failed_clear,
    lemma_pass_without_loaders, lemma_step_with_attempt, nothing_after_failed_clear,
    lemma_step_without_attempt, report_with, stops_at_failed_clear, target_of, with_step, PassTrace,
};
use crate::text::{chars_of, has_prefix, push_char, push_replaced, replace_char};

pub mod jni_vm;
pub mod procedure;
pub mod trace;

pub use crate::art_runtime::jni_vm::force_resolve_methods;

verus! {

/// The characters of `s` with every `/` turned into `.`.
pub open spec fn slash_to_dot(s: Seq<char>) -> Seq<char> {
    replace_char(s, '/', '.')
}

/// The characters of `s` with every `.` turned into `/`.
pub open spec fn dot_to_slash(s: Seq<char>) -> Seq<char> {
    replace_char(s, '.', '/')
}

/// Whether the letter names a primitive type that an array can hold.
pub open spec fn is_primitive_letter(c: char) -> bool {
    c == 'Z' || c == 'B' || c == 'S' || c == 'C' || c == 'I' || c == 'J' || c == 'F' || c == 'D'
}

/// Whether the first `k` characters are all `[`.
pub open spec fn all_brackets(d: Seq<char>, k: int) -> bool {
    forall|i: int| 0 <= i < k ==> d[i] == '['
}

/// The runtime-binary class name of a type descriptor, if it has one.
///
/// * An object descriptor `L…;` names the class between `L` and `;`, with
///   dots for slashes.
/// * An object array, one or more `[` before an object descriptor, keeps
///   its brackets, its `L` and its `;`, with dots for slashes in between.
/// * A primitive array, one or more `[` before one primitive letter, is its
///   own binary name.
/// * Anything else has none.
pub open spec fn spec_binary_name(d: Seq<char>) -> Option<Seq<char>> {
    if d.len() == 0 {
        None
    } else if d[0] == '[' {
        if all_brackets(d, d.len() - 1) && is_primitive_letter(d.last()) {
            Some(d)
        } else {
            match d.index_of_first('L') {
                Some(p) => if all_brackets(d, p) && d.last() == ';' {
                    Some(
                        d.take(p) + seq!['L'] + slash_to_dot(d.subrange(p + 1, d.len() - 1))
                            + seq![';'],
                    )
                } else {
                    None
                },
                None => None,
            }
        }
    } else if d[0] == 'L' && d.last() == ';' {
        Some(slash_to_dot(d.subrange(1, d.len() - 1)))
    } else {
        None
    }
}

/// Tells whether the letter names a primitive type that an array can hold.
fn primitive_letter(c: char) -> (r: bool)
    ensures
        r == is_primitive_letter(c),
{
    c == 'Z' || c == 'B' || c == 'S' || c == 'C' || c == 'I' || c == 'J' || c == 'F' || c == 'D'
}

/// The position of the first `c` in `v`.
fn find_char(v: &Vec<char>, c: char) -> (r: Option<usize>)
    ensures
        match r {
            Some(i) => v@.index_of_first(c) == Some(i as int) && i < v.len() && v@[i as int] == c,
            None => v@.index_of_first(c) is None,
        },
{
    let mut i: usize = 0;
    while i < v.len()
        invariant
            i <= v.len(),
            forall|k: int| 0 <= k < i ==> v@[k] != c,
        decreases v.len() - i,
    {
        if v[i] == c {
            proof {
                v@.index_of_first_ensures(c);
            }
            return Some(i);
        }
        i += 1;
    }
    proof {
        v@.index_of_first_ensures(c);
    }
    None
}

/// Converts a DEX type descriptor to the runtime-binary class name.
pub fn descriptor_to_binary_name(descriptor: &str) -> (r: Option<String>)
    ensures
        match r {
            Some(s) => spec_binary_name(descriptor@) == Some(s@),
            None => spec_binary_name(descriptor@) is None,
        },
{
    let d = chars_of(descriptor);
    let n = d.len();
    if n == 0 {
        return None;
    }
    if d[0] == '[' {
        let mut k: usize = 1;
        while k < n && d[k] == '['
            invariant
                1 <= k <= n,
                n == d.len(),
                all_brackets(d@, k as int),
            decreases n - k,
        {
            k += 1;
        }
        proof {
            d@.index_of_first_ensures('L');
            let first = d@.index_of_first('L');
            if first is Some && all_brackets(d@, first->0) {
                // the first `L` stands where the brackets end
                if first->0 < k {
                    assert(d@[first->0] == '[');
                } else if first->0 > k {
                    assert(d@[k as int] == '[');
                }
            }
            if k < n && d@[k as int] == 'L' {
                assert(d@.contains('L'));
                if first->0 < k {
                    assert(d@[first->0] == '[');
                }
            }
            if all_brackets(d@, n - 1) && k < n - 1 {
                assert(d@[k as int] == '[');
            }
        }
        if k == n {
            None
        } else if k == n - 1 && primitive_letter(d[k]) {
            Some(descriptor.to_owned())
        } else if d[k] == 'L' && d[n - 1] == ';' {
            let p = k;
            let mut out = String::new();
            out.append(descriptor.substring_char(0, p));
            push_char(&mut out, 'L');
            push_replaced(&mut out, &d, p + 1, n - 1, '/', '.');
            push_char(&mut out, ';');
            assert(out@ == d@.take(p as int) + seq!['L'] + slash_to_dot(
                d@.subrange(p + 1, n - 1),
            ) + seq![';']);
            Some(out)
        } else {
            None
        }
    } else if d[0] == 'L' && d[n - 1] == ';' {
        let mut out = String::new();
        push_replaced(&mut out, &d, 1, n - 1, '/', '.');
        Some(out)
    } else {
        None
    }
}

/// The slash-separated internal form of a binary class name.
pub fn binary_to_internal_name(binary_name: &str) -> (r: String)
    ensures
        r@ == dot_to_slash(binary_name@),
{
    let b = chars_of(binary_name);
    let mut out = String::new();
    push_replaced(&mut out, &b, 0, b.len(), '.', '/');
    out
}

/// Whether a binary class name lies in a framework namespace.
pub open spec fn is_framework_name(n: Seq<char>) -> bool {
    ||| "android."@.is_prefix_of(n)
    ||| "com.android."@.is_prefix_of(n)
    ||| "androidx."@.is_prefix_of(n)
    ||| "java."@.is_prefix_of(n)
    ||| "javax."@.is_prefix_of(n)
    ||| "dalvik."@.is_prefix_of(n)
    ||| "sun."@.is_prefix_of(n)
    ||| "libcore."@.is_prefix_of(n)
    ||| "kotlin."@.is_prefix_of(n)
    ||| "kotlinx."@.is_prefix_of(n)
    ||| "org.json."@.is_prefix_of(n)
    ||| "org.xml."@.is_prefix_of(n)
    ||| "org.w3c."@.is_prefix_of(n)
}

/// Whether the class belongs to a framework namespace that is never
/// resolved.
pub fn should_skip_class(binary_name: &str) -> (r: bool)
    ensures
        r == is_framework_name(binary_name@),
{
    let n = chars_of(binary_name);
    has_prefix(&n, "android.") || has_prefix(&n, "com.android.") || has_prefix(&n, "androidx.")
        || has_prefix(&n, "java.") || has_prefix(&n, "javax.") || has_prefix(&n, "dalvik.")
        || has_prefix(&n, "sun.") || has_prefix(&n, "libcore.") || has_prefix(&n, "kotlin.")
        || has_prefix(&n, "kotlinx.") || has_prefix(&n, "org.json.") || has_prefix(&n, "org.xml.")
        || has_prefix(&n, "org.w3c.")
}

/// An object descriptor survives the trip to its binary name and back: for
/// a class name `inner` without dots, the binary name of `L inner ;` exists,
/// and putting slashes back for its dots, between `L` and `;`, gives the
/// descriptor again.
pub proof fn lemma_object_descriptor_round_trip(inner: Seq<char>)
    requires
        !inner.contains('.'),
    ensures
        spec_binary_name(seq!['L'] + inner + seq![';']) == Some(slash_to_dot(inner)),
        seq!['L'] + dot_to_slash(slash_to_dot(inner)) + seq![';'] == seq!['L'] + inner + seq![';'],
{
}

/// An object-array descriptor survives the trip as well: for brackets
/// `lead` and `inner` without dots, the binary name of `lead L inner ;`
/// exists, and putting slashes back for its dots gives the descriptor again.
pub proof fn lemma_array_descriptor_round_trip(lead: Seq<char>, inner: Seq<char>)
    requires
        lead.len() > 0,
        all_brackets(lead, lead.len() as int),
        !inner.contains('.'),
    ensures
        spec_binary_name(lead + seq!['L'] + inner + seq![';']) == Some(
            lead + seq!['L'] + slash_to_dot(inner) + seq![';'],
        ),
        dot_to_slash(lead + seq!['L'] + slash_to_dot(inner) + seq![';']) == lead + seq!['L'] + inner
            + seq![';'],
{
    let d = lead + seq!['L'] + inner + seq![';'];
    let p = lead.len() as int;
    d.index_of_first_ensures('L');
    assert(d[p] == 'L');
    assert(d[0] == lead[0]);
    let q = d.index_of_first('L')->0;
    if q < p {
        assert(d[q] == lead[q]);
    }
    assert(all_brackets(d, p)) by {
        assert forall|i: int| 0 <= i < p implies d[i] == '[' by {
            assert(d[i] == lead[i]);
        }
    }
    assert(d.take(p) =~= lead);
    assert(d.subrange(p + 1, d.len() - 1) =~= inner);
    assert(!is_primitive_letter(d.last()));
    let b = lead + seq!['L'] + slash_to_dot(inner) + seq![';'];
    assert(dot_to_slash(b) =~= d) by {
        assert forall|i: int| 0 <= i < d.len() implies dot_to_slash(b)[i] == d[i] by {
            if i < p {
                assert(b[i] == lead[i]);
            } else if p < i < d.len() - 1 {
                assert(inner.contains(inner[i - p - 1]));
            }
        }
    }
}

/// A primitive array is its own binary name.
pub proof fn lemma_primitive_array_is_unchanged(lead: Seq<char>, letter: char)
    requires
        lead.len() > 0,
        all_brackets(lead, lead.len() as int),
        is_primitive_letter(letter),
    ensures
        spec_binary_name(lead.push(letter)) == Some(lead.push(letter)),
{
    let d = lead.push(letter);
    assert(d[0] == lead[0]);
    assert(all_brackets(d, d.len() - 1)) by {
        assert forall|i: int| 0 <= i < d.len() - 1 implies d[i] == '[' by {
            assert(d[i] == lead[i]);
        }
    }
}

/// Brackets alone, or brackets before anything but one primitive letter or
/// an object descriptor, have no binary name.
pub proof fn lemma_brackets_alone_have_no_name(d: Seq<char>)
    requires
        d.len() > 0,
        all_brackets(d, d.len() as int),
    ensures
        spec_binary_name(d) is None,
{
    d.index_of_first_ensures('L');
    assert(d.last() == '[');
    if d.contains('L') {
        let q = d.index_of_first('L')->0;
        assert(d[q] == '[');
    }
}

/// What the resolver reads of a parsed method.
pub struct MethodKey {
    pub class_name: Seq<char>,
    pub method_name: Seq<char>,
    pub signature: Seq<char>,
    pub has_code: bool,
}

/// What the resolver reads of `m`.
pub open spec fn method_key(m: ParsedMethod) -> MethodKey {
    MethodKey {
        class_name: m.class_name@,
        method_name: m.method_name@,
        signature: m.signature@,
        has_code: m.code_item is Some,
    }
}

/// What the resolver reads of each method.
pub open spec fn method_keys(ms: Seq<ParsedMethod>) -> Seq<MethodKey> {
    ms.map_values(|m: ParsedMethod| method_key(m))
}

/// Whether method `j` carries code and has the class, name and signature of
/// method `i`.
pub open spec fn eligible_twin(ms: Seq<MethodKey>, j: int, i: int) -> bool {
    &&& ms[j].has_code
    &&& ms[j].class_name == ms[i].class_name
    &&& ms[j].method_name == ms[i].method_name
    &&& ms[j].signature == ms[i].signature
}

/// Whether an earlier method with code has the same class, name and
/// signature as method `i`.
pub open spec fn seen_before(ms: Seq<MethodKey>, i: int) -> bool {
    exists|j: int| 0 <= j < i && #[trigger] eligible_twin(ms, j, i)
}

/// What the resolver does with a method.
#[derive(Clone, Copy, Debug, PartialEq, Eq, Structural)]
pub enum Disposition {
    /// The method carries no code.
    Ineligible,
    /// An earlier method with code has the same class, name and signature.
    Duplicate,
    /// The class descriptor has no binary name.
    Untranslatable,
    /// The class lies in a framework namespace.
    SkippedSystem,
    /// The runtime is asked for the class and the method.
    Attempted,
}

/// What the resolver does with method `i`.
pub open spec fn disposition(ms: Seq<MethodKey>, i: int) -> Disposition {
    if !ms[i].has_code {
        Disposition::Ineligible
    } else if seen_before(ms, i) {
        Disposition::Duplicate
    } else {
        match spec_binary_name(ms[i].class_name) {
            None => Disposition::Untranslatable,
            Some(b) => if is_framework_name(b) {
                Disposition::SkippedSystem
            } else {
                Disposition::Attempted
            },
        }
    }
}

/// How many of the first `upto` methods have disposition `d`.
pub open spec fn count_of(ms: Seq<MethodKey>, d: Disposition, upto: int) -> nat
    decreases upto,
{
    if upto <= 0 {
        0
    } else {
        count_of(ms, d, upto - 1) + if disposition(ms, upto - 1) == d {
            1nat
        } else {
            0nat
        }
    }
}

/// How many of the first `upto` methods carry code.
pub open spec fn count_eligible(ms: Seq<MethodKey>, upto: int) -> nat
    decreases upto,
{
    if upto <= 0 {
        0
    } else {
        count_eligible(ms, upto - 1) + if ms[upto - 1].has_code {
            1nat
        } else {
            0nat
        }
    }
}

/// The counts grow with the number of methods looked at, by at most one for
/// each method.
pub proof fn lemma_count_monotonic(ms: Seq<MethodKey>, d: Disposition, a: int, b: int)
    requires
        0 <= a <= b,
    ensures
        count_of(ms, d, a) <= count_of(ms, d, b) <= count_of(ms, d, a) + (b - a),
    decreases b - a,
{
    if a < b {
        lemma_count_monotonic(ms, d, a, b - 1);
    }
}

/// The outcome of a resolver pass.
#[derive(Clone, Copy, Debug, PartialEq, Eq, Structural)]
pub struct ResolveReport {
    /// Methods that the runtime bound, as instance or as static methods.
    pub resolved: usize,
    /// Methods left alone because their class is a framework class.
    pub skipped_system: usize,
    /// Attempted methods whose class the native lookup did not find.
    pub class_not_found_by_native_lookup: usize,
    /// Methods whose class has no binary name or was found by no strategy.
    pub class_not_found_overall: usize,
    /// Methods whose class was found and that are neither instance nor
    /// static methods of it.
    pub method_not_found: usize,
    /// The pass stopped early on an unrecoverable runtime state.
    pub aborted: bool,
}

/// How the attempt on one method ended.
#[derive(Clone, Copy, Debug, PartialEq, Eq, Structural)]
pub enum StepEnd {
    /// A method lookup succeeded.
    Resolved,
    /// The static lookup succeeded and the exception state could not be
    /// cleared afterwards.
    ResolvedThenFatal,
    /// The class was found; both method lookups missed.
    MethodNotFound,
    /// No strategy found the class.
    ClassNotFound,
    /// A pending exception could not be cleared.
    Fatal,
}

/// What the attempt on one method yields for the report.
#[derive(Clone, Copy, Debug, PartialEq, Eq, Structural)]
pub struct StepOutcome {
    /// The native lookup missed and the miss was counted.
    pub native_miss: bool,
    pub end: StepEnd,
}

/// One more, as a counter.
pub open spec fn bump(n: usize, by: bool) -> usize {
    if by {
        (n + 1) as usize
    } else {
        n
    }
}

/// The report after an attempt with outcome `o` has been entered in `r`.
pub open spec fn tally(r: ResolveReport, o: StepOutcome) -> ResolveReport {
    ResolveReport {
        resolved: bump(r.resolved, o.end == StepEnd::Resolved || o.end == StepEnd::ResolvedThenFatal),
        skipped_system: r.skipped_system,
        class_not_found_by_native_lookup: bump(r.class_not_found_by_native_lookup, o.native_miss),
        class_not_found_overall: bump(r.class_not_found_overall, o.end == StepEnd::ClassNotFound),
        method_not_found: bump(r.method_not_found, o.end == StepEnd::MethodNotFound),
        aborted: r.aborted || o.end == StepEnd::Fatal || o.end == StepEnd::ResolvedThenFatal,
    }
}

/// The report of a pass that has done nothing.
pub open spec fn empty_report() -> ResolveReport {
    ResolveReport {
        resolved: 0,
        skipped_system: 0,
        class_not_found_by_native_lookup: 0,
        class_not_found_overall: 0,
        method_not_found: 0,
        aborted: false,
    }
}

impl ResolveReport {
    /// The report of a pass that has done nothing yet.
    pub fn new() -> (r: ResolveReport)
        ensures
            r == empty_report(),
    {
        ResolveReport {
            resolved: 0,
            skipped_system: 0,
            class_not_found_by_native_lookup: 0,
            class_not_found_overall: 0,
            method_not_found: 0,
            aborted: false,
        }
    }

    /// Enters the outcome of one attempt.
    pub fn record(self, o: StepOutcome) -> (r: ResolveReport)
        requires
            self.resolved < usize::MAX,
            self.class_not_found_by_native_lookup < usize::MAX,
            self.class_not_found_overall < usize::MAX,
            self.method_not_found < usize::MAX,
        ensures
            r == tally(self, o),
    {
        let mut r = self;
        if o.native_miss {
            r.class_not_found_by_native_lookup = r.class_not_found_by_native_lookup + 1;
        }
        match o.end {
            StepEnd::Resolved => {
                r.resolved = r.resolved + 1;
            },
            StepEnd::ResolvedThenFatal => {
                r.resolved = r.resolved + 1;
                r.aborted = true;
            },
            StepEnd::MethodNotFound => {
                r.method_not_found = r.method_not_found + 1;
            },
            StepEnd::ClassNotFound => {
                r.class_not_found_overall = r.class_not_found_overall + 1;
            },
            StepEnd::Fatal => {
                r.aborted = true;
            },
        }
        r
    }
}

/// What a class lookup through a loader came to.
pub enum Lookup<C> {
    /// The call returned a class.
    Found(C),
    /// The call returned without a class and without failing.
    Absent,
    /// The call failed; an exception may be pending.
    Failed,
}

/// One exchange with the runtime: what was asked of it, and what it
/// answered.
pub enum Asked<C, L> {
    /// The native lookup of the class with this internal name.
    FindClass { name: Seq<char>, found: Option<C> },
    /// The loading of the class with this binary name through a loader.
    LoadClass { loader: L, name: Seq<char>, got: Lookup<C> },
    /// The lookup of the class with this binary name, by name, through a
    /// loader.
    ClassForName { loader: L, name: Seq<char>, got: Lookup<C> },
    /// The lookup of an instance method of a class.
    InstanceMethod { class: C, name: Seq<char>, signature: Seq<char>, has: bool },
    /// The lookup of a static method of a class.
    StaticMethod { class: C, name: Seq<char>, signature: Seq<char>, has: bool },
    /// The request for the application's class loader.
    AppLoader { brought: Option<L> },
    /// The request for the system class loader.
    SystemLoader { brought: Option<L> },
    /// The clearing of the pending exception.
    ClearException { cleared: bool },
    /// The word that so many methods with code have been looked at.
    Heartbeat { processed: usize, total: usize },
}

/// The operations that the resolver needs of the managed runtime, for a
/// thread that is attached to it. Every operation adds one exchange to the
/// adapter's history.
pub trait ManagedVm {
    /// A handle to a class.
    type Class;

    /// A long-lived handle to a class loader.
    type Loader;

    /// What has been asked of the runtime through this adapter, and what it
    /// answered, in order. An adapter of this library keeps its history; the
    /// empty history stands for an adapter from elsewhere, which is not held
    /// to the contracts below.
    open spec fn history(&self) -> Seq<Asked<Self::Class, Self::Loader>> {
        Seq::empty()
    }

    /// Looks a class up by its internal, slash-separated name.
    fn find_class(&mut self, internal_name: &str) -> (r: Option<Self::Class>)
        ensures
            final(self).history() == old(self).history().push(
                (Asked::FindClass { name: internal_name@, found: r }),
            ),
    ;

    /// Asks `loader` to load the class with the given binary name.
    fn load_class(&mut self, loader: &Self::Loader, binary_name: &str) -> (r: Lookup<Self::Class>)
        ensures
            final(self).history() == old(self).history().push(
                (Asked::LoadClass { loader: *loader, name: binary_name@, got: r }),
            ),
    ;

    /// Asks for the class by name through `loader`, without initialising it.
    fn class_for_name(&mut self, loader: &Self::Loader, binary_name: &str) -> (r: Lookup<
        Self::Class,
    >)
        ensures
            final(self).history() == old(self).history().push(
                (Asked::ClassForName { loader: *loader, name: binary_name@, got: r }),
            ),
    ;

    /// Whether `class` has an instance method with this name and signature.
    fn has_instance_method(&mut self, class: &Self::Class, name: &str, signature: &str) -> (r:
        bool)
        ensures
            final(self).history() == old(self).history().push(
                (Asked::InstanceMethod {
                    class: *class,
                    name: name@,
                    signature: signature@,
                    has: r,
                }),
            ),
    ;

    /// Whether `class` has a static method with this name and signature.
    fn has_static_method(&mut self, class: &Self::Class, name: &str, signature: &str) -> (r: bool)
        ensures
            final(self).history() == old(self).history().push(
                (Asked::StaticMethod {
                    class: *class,
                    name: name@,
                    signature: signature@,
                    has: r,
                }),
            ),
    ;

    /// The application's class loader, as a long-lived handle.
    fn app_class_loader(&mut self) -> (r: Option<Self::Loader>)
        ensures
            final(self).history() == old(self).history().push((Asked::AppLoader { brought: r })),
    ;

    /// The system class loader, as a long-lived handle.
    fn system_class_loader(&mut self) -> (r: Option<Self::Loader>)
        ensures
            final(self).history() == old(self).history().push((Asked::SystemLoader { brought: r })),
    ;

    /// Clears a pending exception. `false` means that it could not be
    /// cleared.
    fn clear_exception(&mut self) -> (r: bool)
        ensures
            final(self).history() == old(self).history().push(
                (Asked::ClearException { cleared: r }),
            ),
    ;

    /// Tells that `processed` of `total` methods with code have been looked
    /// at.
    fn heartbeat(&mut self, processed: usize, total: usize)
        ensures
            final(self).history() == old(self).history().push(
                (Asked::Heartbeat { processed, total }),
            ),
    ;
}

/// The number of methods between two heartbeats.
pub const HEARTBEAT_EVERY: usize = 1000;

/// Whether a heartbeat is due once `processed` methods have been looked at.
pub fn heartbeat_due(processed: usize) -> (r: bool)
    ensures
        r == (processed % HEARTBEAT_EVERY == 0),
{
    processed % HEARTBEAT_EVERY == 0
}

/// Whether an earlier method with code has the class, name and signature of
/// method `i`.
pub fn is_duplicate(methods: &Vec<ParsedMethod>, i: usize) -> (r: bool)
    requires
        i < methods.len(),
    ensures
        r == seen_before(method_keys(methods@), i as int),
{
    let ghost ms = method_keys(methods@);
    let mut j: usize = 0;
    while j < i
        invariant
            j <= i < methods.len(),
            ms == method_keys(methods@),
            forall|k: int| 0 <= k < j ==> !eligible_twin(ms, k, i as int),
        decreases i - j,
    {
        let a = &methods[j];
        let b = &methods[i];
        if a.code_item.is_some() && a.class_name == b.class_name && a.method_name == b.method_name
            && a.signature == b.signature {
            assert(eligible_twin(ms, j as int, i as int));
            return true;
        }
        j += 1;
    }
    false
}

/// Decides what is done with method `i`; for a method that is attempted,
/// gives the binary name of its class.
pub fn plan_method(methods: &Vec<ParsedMethod>, i: usize) -> (r: (Disposition, Option<String>))
    requires
        i < methods.len(),
    ensures
        r.0 == disposition(method_keys(methods@), i as int),
        match r.1 {
            Some(b) => r.0 == Disposition::Attempted && spec_binary_name(methods@[i as int].class_name@)
                == Some(b@),
            None => r.0 != Disposition::Attempted,
        },
{
    let m = &methods[i];
    if m.code_item.is_none() {
        return (Disposition::Ineligible, None);
    }
    if is_duplicate(methods, i) {
        return (Disposition::Duplicate, None);
    }
    match descriptor_to_binary_name(m.class_name.as_str()) {
        None => (Disposition::Untranslatable, None),
        Some(binary) => {
            if should_skip_class(binary.as_str()) {
                (Disposition::SkippedSystem, None)
            } else {
                (Disposition::Attempted, Some(binary))
            }
        },
    }
}

/// How many methods carry code.
pub fn count_with_code(methods: &Vec<ParsedMethod>) -> (n: usize)
    ensures
        n == count_eligible(method_keys(methods@), methods.len() as int),
{
    let ghost ms = method_keys(methods@);
    let mut n: usize = 0;
    let mut i: usize = 0;
    while i < methods.len()
        invariant
            i <= methods.len(),
            ms == method_keys(methods@),
            n == count_eligible(ms, i as int),
            n <= i,
        decreases methods.len() - i,
    {
        if methods[i].code_item.is_some() {
            n += 1;
        }
        i += 1;
    }
    n
}

/// Whether the attempt that got these answers from the runtime ended with
/// this outcome.
pub open spec fn attempt_yields(answers: Seq<Answer>, loaders: int, o: StepOutcome) -> bool {
    &&& is_whole_run(answers, loaders)
    &&& state_after(answers, loaders) == (AttemptState {
        phase: Phase::Done(o.end),
        native_miss: o.native_miss,
    })
}

/// Attempts one method: asks the runtime what the procedure asks for,
/// request by request, until the procedure ends.
///
/// What is added to the adapter's history is one attempt on the method: a
/// whole run of the procedure, each exchange what the procedure asks for at
/// its place, with the names of this class and this method and the loaders
/// at hand. The outcome is the end of that run. Nothing is asked after a
/// clearing that failed.
pub fn attempt_method<V: ManagedVm>(
    vm: &mut V,
    loaders: &Vec<V::Loader>,
    binary_name: &str,
    method_name: &str,
    signature: &str,
) -> (o: StepOutcome)
    ensures
        exists|h: Seq<Asked<V::Class, V::Loader>>|
            final(vm).history() == old(vm).history() + h && #[trigger] is_attempt(
                h,
                attempt_target(loaders@, binary_name@, method_name@, signature@),
                o,
            ),
        exists|answers: Seq<Answer>| #[trigger] attempt_yields(answers, loaders.len() as int, o),
        o.end == StepEnd::ClassNotFound ==> o.native_miss,
{
    let internal = binary_to_internal_name(binary_name);
    let mut state = AttemptState::start();
    let mut class: Option<V::Class> = None;
    let ghost t = attempt_target(loaders@, binary_name@, method_name@, signature@);
    let ghost count = loaders.len() as int;
    let ghost mut h: Seq<Asked<V::Class, V::Loader>> = Seq::empty();
    proof {
        assert(old(vm).history() + h == old(vm).history());
    }
    loop
        invariant
            t == attempt_target(loaders@, binary_name@, method_name@, signature@),
            internal@ == t.internal,
            count == loaders.len(),
            vm.history() == old(vm).history() + h,
            state == state_after(answers_of(h), count),
            forall|n: int|
                0 <= n < h.len() ==> !((#[trigger] state_after(answers_of(h).take(n), count)).phase
                    is Done),
            forall|n: int| 0 <= n < h.len() ==> #[trigger] follows_procedure(h, n, t),
            class == found_class(h),
            stops_at_failed_clear(h),
            ends_in_failed_clear(h) <==> state.phase == Phase::Done(StepEnd::Fatal) || state.phase
                == Phase::Done(StepEnd::ResolvedThenFatal),
            state_fits(state, count),
            has_class(state.phase) ==> class is Some,
        decreases steps_left(state.phase, count),
    {
        let ghost before = vm.history();
        let answer = match state.request() {
            Request::Finish(end) => {
                let o = StepOutcome { native_miss: state.native_miss, end };
                proof {
                    reveal(is_attempt);
                }
                assert(attempt_yields(answers_of(h), count, o));
                assert(is_attempt(h, t, o));
                return o;
            },
            Request::FindClass => match vm.find_class(internal.as_str()) {
                Some(c) => {
                    class = Some(c);
                    Answer::Yes
                },
                None => Answer::Failed,
            },
            Request::LoadClass(k) => match vm.load_class(&loaders[k], binary_name) {
                Lookup::Found(c) => {
                    class = Some(c);
                    Answer::Yes
                },
                Lookup::Absent => Answer::No,
                Lookup::Failed => Answer::Failed,
            },
            Request::ClassForName(k) => match vm.class_for_name(&loaders[k], binary_name) {
                Lookup::Found(c) => {
                    class = Some(c);
                    Answer::Yes
                },
                Lookup::Absent => Answer::No,
                Lookup::Failed => Answer::Failed,
            },
            Request::InstanceMethod => match &class {
                Some(c) => if vm.has_instance_method(c, method_name, signature) {
                    Answer::Yes
                } else {
                    Answer::Failed
                },
                None => {
                    proof {
                        assert(false);
                    }
                    Answer::Failed
                },
            },
            Request::StaticMethod => match &class {
                Some(c) => if vm.has_static_method(c, method_name, signature) {
                    Answer::Yes
                } else {
                    Answer::Failed
                },
                None => {
                    proof {
                        assert(false);
                    }
                    Answer::Failed
                },
            },
            Request::ClearException => if vm.clear_exception() {
                Answer::Yes
            } else {
                Answer::Failed
            },
        };
        proof {
            let e = vm.history().last();
            assert(vm.history() == before.push(e));
            assert(answer == answer_of(e));
            let longer = h.push(e);
            assert(old(vm).history() + longer == (old(vm).history() + h).push(e));
            lemma_step_fits(state, answer, count);
            lemma_attempt_ends(state, answer, count);
            lemma_uncleared_is_fatal_or_not(state, answer, count);
            assert(answers_of(longer) == answers_of(h).push(answer));
            assert(answers_of(longer).drop_last() == answers_of(h));
            assert(longer.drop_last() == h);
            assert forall|n: int| 0 <= n < longer.len() implies answers_of(longer).take(n)
                == answers_of(h).take(n) && longer.take(n) == h.take(n) by {
                if n == h.len() {
                    assert(answers_of(h).take(n) == answers_of(h));
                    assert(h.take(n) == h);
                    assert(answers_of(longer).take(n) == answers_of(h));
                    assert(longer.take(n) == h);
                }
            }
            assert forall|n: int| 0 <= n < longer.len() implies #[trigger] follows_procedure(
                longer,
                n,
                t,
            ) by {
                if n < h.len() {
                    assert(follows_procedure(h, n, t));
                    assert(longer[n] == h[n]);
                } else {
                    assert(h.take(n) == h);
                    assert(answers_of(h).take(n) == answers_of(h));
                }
            }
            assert forall|n: int| 0 <= n < longer.len() implies !((#[trigger] state_after(
                answers_of(longer).take(n),
                count,
            )).phase is Done) by {
                if n < h.len() {
                    assert(answers_of(longer).take(n) == answers_of(h).take(n));
                } else {
                    assert(answers_of(longer).take(n) == answers_of(h));
                    assert(!(state.phase is Done));
                }
            }
            assert(stops_at_failed_clear(longer)) by {
                assert forall|n: int| 0 <= n < longer.len() - 1 implies !is_failed_clear(
                    #[trigger] longer[n],
                ) by {
                    assert(longer[n] == h[n]);
                    if n == h.len() - 1 {
                        assert(!ends_in_failed_clear(h));
                    }
                }
            }
            assert(longer.last() == e);
            h = longer;
        }
        state = state.step(answer, loaders.len());
    }
}

/// What holds of a report when the first `upto` methods have been dealt
/// with and the pass has not stopped early.
pub open spec fn report_covers(ms: Seq<MethodKey>, upto: int, r: ResolveReport) -> bool {
    &&& r.skipped_system == count_of(ms, Disposition::SkippedSystem, upto)
    &&& r.resolved + r.method_not_found + r.class_not_found_overall == count_of(
        ms,
        Disposition::Attempted,
        upto,
    ) + count_of(ms, Disposition::Untranslatable, upto)
    &&& r.class_not_found_overall >= count_of(ms, Disposition::Untranslatable, upto)
    &&& r.class_not_found_by_native_lookup <= count_of(ms, Disposition::Attempted, upto)
    &&& r.class_not_found_overall <= count_of(ms, Disposition::Untranslatable, upto)
        + r.class_not_found_by_native_lookup
}

/// What holds of every report, stopped early or not: no counter exceeds the
/// number of methods that could have raised it.
pub open spec fn report_within(ms: Seq<MethodKey>, r: ResolveReport) -> bool {
    let n = ms.len() as int;
    &&& r.skipped_system <= count_of(ms, Disposition::SkippedSystem, n)
    &&& r.resolved + r.method_not_found + r.class_not_found_overall <= count_of(
        ms,
        Disposition::Attempted,
        n,
    ) + count_of(ms, Disposition::Untranslatable, n)
    &&& r.class_not_found_by_native_lookup <= count_of(ms, Disposition::Attempted, n)
    &&& r.class_not_found_overall <= count_of(ms, Disposition::Untranslatable, n)
        + r.class_not_found_by_native_lookup
}

/// Runs the resolver pass over `methods` on an attached runtime.
///
/// Methods without code are passed over, and so is every method whose
/// class, name and signature an earlier method with code had. Of the others,
/// those whose class has no binary name count as class-not-found, those of
/// framework classes as skipped, and the rest are attempted in order. The
/// pass stops at the first exception that cannot be cleared.
///
/// If no method carries code the runtime is not touched.
pub fn resolve_methods<V: ManagedVm>(vm: &mut V, methods: &Vec<ParsedMethod>) -> (r: ResolveReport)
    ensures
        report_within(method_keys(methods@), r),
        !r.aborted ==> report_covers(method_keys(methods@), methods.len() as int, r),
        count_eligible(method_keys(methods@), methods.len() as int) == 0 ==> r == empty_report()
            && final(vm).history() == old(vm).history(),
        count_eligible(method_keys(methods@), methods.len() as int) > 0 ==> exists|
            t: PassTrace<V::Class, V::Loader>,
        |
            final(vm).history() == old(vm).history() + t.exchanges() && #[trigger] is_pass(
                t,
                method_keys(methods@),
                r,
            ),
        r.aborted <==> grew_to_failed_clear(old(vm).history(), final(vm).history()),
        nothing_after_failed_clear(old(vm).history(), final(vm).history()),
{
    let ghost ms = method_keys(methods@);
    let ghost start = vm.history();
    let n = methods.len();
    let mut report = ResolveReport::new();
    let total = count_with_code(methods);
    if total == 0 {
        proof {
            lemma_no_code_no_work(ms, n as int);
        }
        return report;
    }
    let ghost idle = StepOutcome { native_miss: false, end: StepEnd::ClassNotFound };
    let ghost failed = ResolveReport { aborted: true, ..empty_report() };
    let mut loaders: Vec<V::Loader> = Vec::new();
    let app = vm.app_class_loader();
    let ghost app_got = app;
    let mut app_cleared = false;
    match app {
        Some(l) => {
            loaders.push(l);
        },
        None => {
            app_cleared = vm.clear_exception();
            if !app_cleared {
                report.aborted = true;
                proof {
                    let t = PassTrace::<V::Class, V::Loader> {
                        app: None,
                        app_cleared: false,
                        system: None,
                        system_cleared: false,
                        steps: Seq::empty(),
                        outcomes: Seq::empty(),
                    };
                    lemma_pass_without_loaders(t, ms);
                    assert(t.prelude() == fetch::<V::Class, V::Loader>(true, None, false));
                    assert(vm.history() == start + t.exchanges());
                    assert(report == failed);
                    lemma_pass_stops_at_failed_clear(t, ms, report, start, vm.history());
                }
                return report;
            }
        },
    }
    let system = vm.system_class_loader();
    let ghost system_got = system;
    let mut system_cleared = false;
    match system {
        Some(l) => {
            loaders.push(l);
        },
        None => {
            system_cleared = vm.clear_exception();
            if !system_cleared {
                report.aborted = true;
                proof {
                    let t = PassTrace::<V::Class, V::Loader> {
                        app: app_got,
                        app_cleared,
                        system: None,
                        system_cleared: false,
                        steps: Seq::empty(),
                        outcomes: Seq::empty(),
                    };
                    lemma_pass_without_loaders(t, ms);
                    assert(t.prelude() == fetch::<V::Class, V::Loader>(true, app_got, app_cleared)
                        + fetch::<V::Class, V::Loader>(false, None, false));
                    assert(vm.history() == start + t.exchanges());
                    assert(report == failed);
                    lemma_pass_stops_at_failed_clear(t, ms, report, start, vm.history());
                }
                return report;
            }
        },
    }
    let ghost mut t = PassTrace::<V::Class, V::Loader> {
        app: app_got,
        app_cleared,
        system: system_got,
        system_cleared,
        steps: Seq::empty(),
        outcomes: Seq::empty(),
    };
    proof {
        lemma_pass_begins(t, ms);
        assert(t.prelude() == fetch::<V::Class, V::Loader>(true, app_got, app_cleared) + fetch::<
            V::Class,
            V::Loader,
        >(false, system_got, system_cleared));
        assert(vm.history() == start + t.exchanges());
        assert(loaders@ == t.loaders());
    }
    let ghost all_loaders = t.loaders();
    let mut processed: usize = 0;
    let mut i: usize = 0;
    while i < n
        invariant
            n == methods.len(),
            ms == method_keys(methods@),
            i <= n,
            processed == count_eligible(ms, i as int),
            total == count_eligible(ms, n as int),
            count_eligible(ms, n as int) > 0,
            !report.aborted,
            report_covers(ms, i as int, report),
            start == old(vm).history(),
            vm.history() == start + t.exchanges(),
            loaders@ == all_loaders,
            t.loaders() == all_loaders,
            is_pass_so_far(t, ms, i as int, report),
        decreases n - i,
    {
        let ghost before = t;
        let ghost report_before = report;
        let ghost history_before = vm.history();
        let (next_report, next_processed) = deal_with_method(
            vm,
            methods,
            i,
            &loaders,
            report,
            processed,
            total,
        );
        report = next_report;
        processed = next_processed;
        proof {
            let (step, o) = choose|step: Seq<Asked<V::Class, V::Loader>>, o: StepOutcome|
                vm.history() == history_before + step && #[trigger] is_step(
                    step,
                    ms,
                    i as int,
                    all_loaders,
                    o,
                ) && report == report_with(ms, i as int, report_before, o);
            lemma_pass_goes_on(before, ms, i as int, report_before, step, o);
            t = with_step(before, step, o);
            assert(start + (before.exchanges() + step) == (start + before.exchanges()) + step);
        }
        if report.aborted {
            proof {
                lemma_pass_stops_at_failed_clear(t, ms, report, start, vm.history());
            }
            return report;
        }
        i += 1;
    }
    proof {
        lemma_pass_ends(t, ms, report);
        lemma_pass_stops_at_failed_clear(t, ms, report, start, vm.history());
    }
    report
}

/// Deals with method `i`: emits the heartbeat if one is due, and attempts
/// the method if it is to be attempted. Returns the report with the method
/// entered, and the number of methods with code looked at so far.
fn deal_with_method<V: ManagedVm>(
    vm: &mut V,
    methods: &Vec<ParsedMethod>,
    i: usize,
    loaders: &Vec<V::Loader>,
    report: ResolveReport,
    processed: usize,
    total: usize,
) -> (r: (ResolveReport, usize))
    requires
        i < methods.len(),
        !report.aborted,
        processed == count_eligible(method_keys(methods@), i as int),
        total == count_eligible(method_keys(methods@), methods.len() as int),
        report_covers(method_keys(methods@), i as int, report),
    ensures
        r.1 == count_eligible(method_keys(methods@), i + 1),
        exists|step: Seq<Asked<V::Class, V::Loader>>, o: StepOutcome|
            final(vm).history() == old(vm).history() + step && #[trigger] is_step(
                step,
                method_keys(methods@),
                i as int,
                loaders@,
                o,
            ) && r.0 == report_with(method_keys(methods@), i as int, report, o),
        !r.0.aborted ==> report_covers(method_keys(methods@), i + 1, r.0),
        report_within(method_keys(methods@), r.0),
{
    let ghost ms = method_keys(methods@);
    let ghost start = vm.history();
    let n = methods.len();
    let m = &methods[i];
    let mut report = report;
    let mut processed = processed;
    let ghost idle = StepOutcome { native_miss: false, end: StepEnd::ClassNotFound };
    let ghost mut step: Seq<Asked<V::Class, V::Loader>> = Seq::empty();
    let ghost mut outcome = idle;
    proof {
        lemma_counts_bounded(ms, i as int);
        lemma_eligible_bounded(ms, i as int, n as int);
        lemma_eligible_bounded(ms, i + 1, n as int);
        lemma_count_monotonic(ms, Disposition::SkippedSystem, i + 1, n as int);
        lemma_count_monotonic(ms, Disposition::Attempted, i + 1, n as int);
        lemma_count_monotonic(ms, Disposition::Untranslatable, i + 1, n as int);
    }
    if m.code_item.is_some() {
        processed += 1;
        if heartbeat_due(processed) {
            vm.heartbeat(processed, total);
            proof {
                step = seq![vm.history().last()];
                assert(vm.history() == start + step);
            }
        }
    }
    assert(step == beat::<V::Class, V::Loader>(ms, i as int));
    assert(vm.history() == start + step);
    let (what, binary) = plan_method(methods, i);
    match what {
        Disposition::Ineligible => {},
        Disposition::Duplicate => {},
        Disposition::Untranslatable => {
            report.class_not_found_overall = report.class_not_found_overall + 1;
        },
        Disposition::SkippedSystem => {
            report.skipped_system = report.skipped_system + 1;
        },
        Disposition::Attempted => {
            if let Some(binary) = binary {
                let ghost mid = vm.history();
                let o = attempt_method(
                    vm,
                    loaders,
                    binary.as_str(),
                    m.method_name.as_str(),
                    m.signature.as_str(),
                );
                proof {
                    let tg = target_of(ms, i as int, loaders@);
                    assert(tg == attempt_target(loaders@, binary@, m.method_name@, m.signature@));
                    let h = choose|h: Seq<Asked<V::Class, V::Loader>>|
                        vm.history() == mid + h && #[trigger] is_attempt(h, tg, o);
                    assert(vm.history() == start + (step + h));
                    lemma_step_with_attempt(ms, i as int, loaders@, h, o);
                    step = step + h;
                    outcome = o;
                }
                report = report.record(o);
            }
        },
    }
    proof {
        if what != Disposition::Attempted {
            lemma_step_without_attempt::<V::Class, V::Loader>(ms, i as int, loaders@, outcome);
        }
        assert(is_step(step, ms, i as int, loaders@, outcome));
    }
    (report, processed)
}

/// The methods with code among the first `a` are no more than those among
/// the first `b`, and no more than `a`.
proof fn lemma_eligible_bounded(ms: Seq<MethodKey>, a: int, b: int)
    requires
        0 <= a <= b,
    ensures
        count_eligible(ms, a) <= count_eligible(ms, b),
        count_eligible(ms, a) <= a,
    decreases b,
{
    if a < b {
        lemma_eligible_bounded(ms, a, b - 1);
    } else if a > 0 {
        lemma_eligible_bounded(ms, a - 1, a - 1);
    }
}

/// While no method carries code, none is skipped, attempted or without a
/// binary name.
pub proof fn lemma_no_code_no_work(ms: Seq<MethodKey>, upto: int)
    requires
        count_eligible(ms, upto) == 0,
    ensures
        count_of(ms, Disposition::SkippedSystem, upto) == 0,
        count_of(ms, Disposition::Attempted, upto) == 0,
        count_of(ms, Disposition::Untranslatable, upto) == 0,
    decreases upto,
{
    if upto > 0 {
        lemma_no_code_no_work(ms, upto - 1);
    }
}

/// The methods skipped, attempted and without a binary name among the first
/// `upto` are at most `upto` together.
proof fn lemma_counts_bounded(ms: Seq<MethodKey>, upto: int)
    requires
        0 <= upto,
    ensures
        count_of(ms, Disposition::SkippedSystem, upto) + count_of(ms, Disposition::Attempted, upto)
            + count_of(ms, Disposition::Untranslatable, upto) <= upto,
    decreases upto,
{
    if upto > 0 {
        lemma_counts_bounded(ms, upto - 1);
    }
}

} // verus!
