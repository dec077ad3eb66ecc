use dex_unpacker::art_runtime::{
    attempt_method, binary_to_internal_name, count_with_code, descriptor_to_binary_name,
    heartbeat_due, is_duplicate, plan_method, resolve_methods, should_skip_class, Disposition,
    Lookup, ManagedVm, ResolveReport, StepEnd, StepOutcome,
};
use dex_unpacker::dex_parser::dex_structs::{CodeItem, CodeItemHeader, MethodId};
use dex_unpacker::dex_parser::ParsedMethod;

/// A runtime played from a script: which classes each strategy knows, which
/// methods exist, and which call of `clear_exception` fails.
#[derive(Default)]
struct FakeVm {
    native: Vec<&'static str>,
    by_load: Vec<(u8, &'static str)>,
    load_fails: bool,
    by_name: Vec<(u8, &'static str)>,
    instance: Vec<&'static str>,
    statics: Vec<&'static str>,
    no_app_loader: bool,
    no_system_loader: bool,
    clear_fails_at: Option<usize>,
    clears: usize,
    log: Vec<String>,
    beats: Vec<(usize, usize)>,
}

impl ManagedVm for FakeVm {
    type Class = String;
    type Loader = u8;

    fn find_class(&mut self, internal_name: &str) -> Option<String> {
        self.log.push(format!("find {}", internal_name));
        if self.native.contains(&internal_name) {
            Some(internal_name.replace('/', "."))
        } else {
            None
        }
    }

    fn load_class(&mut self, loader: &u8, binary_name: &str) -> Lookup<String> {
        self.log.push(format!("load {} {}", loader, binary_name));
        if self.by_load.iter().any(|(l, n)| l == loader && *n == binary_name) {
            Lookup::Found(binary_name.to_string())
        } else if self.load_fails {
            Lookup::Failed
        } else {
            Lookup::Absent
        }
    }

    fn class_for_name(&mut self, loader: &u8, binary_name: &str) -> Lookup<String> {
        self.log.push(format!("name {} {}", loader, binary_name));
        if self.by_name.iter().any(|(l, n)| l == loader && *n == binary_name) {
            Lookup::Found(binary_name.to_string())
        } else {
            Lookup::Failed
        }
    }

    fn has_instance_method(&mut self, class: &String, name: &str, signature: &str) -> bool {
        self.log.push(format!("instance {} {}{}", class, name, signature));
        self.instance.contains(&name)
    }

    fn has_static_method(&mut self, class: &String, name: &str, signature: &str) -> bool {
        self.log.push(format!("static {} {}{}", class, name, signature));
        self.statics.contains(&name)
    }

    fn app_class_loader(&mut self) -> Option<u8> {
        self.log.push("app loader".to_string());
        if self.no_app_loader {
            None
        } else {
            Some(1)
        }
    }

    fn system_class_loader(&mut self) -> Option<u8> {
        self.log.push("system loader".to_string());
        if self.no_system_loader {
            None
        } else {
            Some(2)
        }
    }

    fn clear_exception(&mut self) -> bool {
        self.clears += 1;
        self.clear_fails_at != Some(self.clears)
    }

    fn heartbeat(&mut self, processed: usize, total: usize) {
        self.beats.push((processed, total));
    }
}

fn method(class: &str, name: &str, sig: &str, with_code: bool) -> ParsedMethod {
    let code_item = if with_code {
        Some(CodeItem {
            header: CodeItemHeader {
                registers_size: 1,
                ins_size: 0,
                outs_size: 0,
                tries_size: 0,
                debug_info_off: 0,
                insns_size_in_code_units: 1,
            },
            insns: vec![0x000e],
        })
    } else {
        None
    };
    ParsedMethod {
        id: MethodId { class_idx: 0, proto_idx: 0, name_idx: 0 },
        class_name: class.to_string(),
        method_name: name.to_string(),
        signature: sig.to_string(),
        code_item,
    }
}

fn report(
    resolved: usize,
    skipped_system: usize,
    native: usize,
    overall: usize,
    method_not_found: usize,
    aborted: bool,
) -> ResolveReport {
    ResolveReport {
        resolved,
        skipped_system,
        class_not_found_by_native_lookup: native,
        class_not_found_overall: overall,
        method_not_found,
        aborted,
    }
}

fn ten_methods() -> Vec<ParsedMethod> {
    let mut methods = Vec::new();
    for i in 0..6 {
        methods.push(method("Landroid/app/Activity;", &format!("m{}", i), "()V", true));
    }
    methods.push(method("Lcom/app/Main;", "run", "()V", true));
    methods.push(method("Lcom/app/Main;", "main", "([Ljava/lang/String;)V", true));
    methods.push(method("Lcom/app/Main;", "gone", "()V", true));
    methods.push(method("Lcom/app/Other;", "run", "()V", true));
    methods
}

#[test]
fn framework_classes_are_skipped_and_the_rest_attempted() {
    let methods = ten_methods();
    let mut vm = FakeVm {
        native: vec!["com/app/Main"],
        instance: vec!["run"],
        statics: vec!["main"],
        ..FakeVm::default()
    };
    let r = resolve_methods(&mut vm, &methods);
    assert_eq!(r, report(2, 6, 1, 1, 1, false));
    assert_eq!(vm.log.iter().filter(|l| l.starts_with("find ")).count(), 4);
    assert!(!vm.log.iter().any(|l| l.contains("android")));
}

#[test]
fn the_skip_count_does_not_depend_on_what_the_runtime_answers() {
    let methods = ten_methods();
    let nothing = resolve_methods(&mut FakeVm::default(), &methods);
    assert_eq!(nothing, report(0, 6, 4, 4, 0, false));
    let mut all = FakeVm {
        native: vec!["com/app/Main", "com/app/Other"],
        instance: vec!["run", "main", "gone"],
        ..FakeVm::default()
    };
    assert_eq!(resolve_methods(&mut all, &methods), report(4, 6, 0, 0, 0, false));
    let mut failing = FakeVm { load_fails: true, ..FakeVm::default() };
    let r = resolve_methods(&mut failing, &methods);
    assert_eq!(r.skipped_system, 6);
    assert_eq!(r.resolved + r.class_not_found_overall + r.method_not_found, 4);
}

#[test]
fn methods_without_code_are_passed_over() {
    let methods = vec![
        method("Lcom/app/Main;", "run", "()V", false),
        method("Landroid/app/Activity;", "onCreate", "()V", false),
    ];
    let mut vm = FakeVm::default();
    assert_eq!(resolve_methods(&mut vm, &methods), report(0, 0, 0, 0, 0, false));
    assert!(vm.log.is_empty());
    assert_eq!(resolve_methods(&mut vm, &vec![]), report(0, 0, 0, 0, 0, false));
    assert_eq!(count_with_code(&methods), 0);
    assert_eq!(count_with_code(&ten_methods()), 10);
}

#[test]
fn a_repeated_method_is_attempted_once() {
    let methods = vec![
        method("Lcom/app/Main;", "run", "()V", true),
        method("Lcom/app/Main;", "run", "()V", false),
        method("Lcom/app/Main;", "run", "()V", true),
        method("Lcom/app/Main;", "run", "(I)V", true),
        method("Landroid/os/Bundle;", "size", "()I", true),
        method("Landroid/os/Bundle;", "size", "()I", true),
        method("I", "x", "()V", true),
        method("I", "x", "()V", true),
    ];
    assert!(!is_duplicate(&methods, 0));
    assert!(is_duplicate(&methods, 1));
    assert!(is_duplicate(&methods, 2));
    assert!(!is_duplicate(&methods, 3));
    assert!(is_duplicate(&methods, 5));
    let mut vm = FakeVm { native: vec!["com/app/Main"], instance: vec!["run"], ..FakeVm::default() };
    assert_eq!(resolve_methods(&mut vm, &methods), report(2, 1, 0, 1, 0, false));
    // a method without code does not shadow a later one with code
    let methods = vec![method("Lcom/app/A;", "f", "()V", false), method("Lcom/app/A;", "f", "()V", true)];
    assert!(!is_duplicate(&methods, 1));
}

#[test]
fn a_class_without_binary_name_counts_as_not_found() {
    let methods = vec![
        method("I", "x", "()V", true),
        method("", "y", "()V", true),
        method("Lcom/app/Broken", "z", "()V", true),
        method("??", "w", "()V", true),
    ];
    let mut vm = FakeVm::default();
    assert_eq!(resolve_methods(&mut vm, &methods), report(0, 0, 0, 4, 0, false));
    assert!(!vm.log.iter().any(|l| l.starts_with("find ")));
}

#[test]
fn the_strategies_are_tried_in_order() {
    let mut vm = FakeVm::default();
    let o = attempt_method(&mut vm, &vec![1, 2], "com.app.Main", "run", "()V");
    assert_eq!(o, StepOutcome { native_miss: true, end: StepEnd::ClassNotFound });
    assert_eq!(
        vm.log,
        vec![
            "find com/app/Main",
            "load 1 com.app.Main",
            "load 2 com.app.Main",
            "name 1 com.app.Main",
            "name 2 com.app.Main"
        ]
    );
    // an absent class needs no clearing; a failed call does
    assert_eq!(vm.clears, 3);
}

#[test]
fn the_first_strategy_that_finds_the_class_ends_the_search() {
    let mut vm = FakeVm { native: vec!["com/app/Main"], instance: vec!["run"], ..FakeVm::default() };
    let o = attempt_method(&mut vm, &vec![1, 2], "com.app.Main", "run", "()V");
    assert_eq!(o, StepOutcome { native_miss: false, end: StepEnd::Resolved });
    assert_eq!(vm.log, vec!["find com/app/Main", "instance com.app.Main run()V"]);
    assert_eq!(vm.clears, 0);

    let mut vm = FakeVm { by_load: vec![(2, "com.app.Main")], statics: vec!["run"], ..FakeVm::default() };
    let o = attempt_method(&mut vm, &vec![1, 2], "com.app.Main", "run", "()V");
    assert_eq!(o, StepOutcome { native_miss: true, end: StepEnd::Resolved });
    assert_eq!(
        vm.log,
        vec![
            "find com/app/Main",
            "load 1 com.app.Main",
            "load 2 com.app.Main",
            "instance com.app.Main run()V",
            "static com.app.Main run()V"
        ]
    );

    let mut vm = FakeVm { by_name: vec![(1, "com.app.Main")], ..FakeVm::default() };
    let o = attempt_method(&mut vm, &vec![1, 2], "com.app.Main", "run", "()V");
    assert_eq!(o, StepOutcome { native_miss: true, end: StepEnd::MethodNotFound });
    assert_eq!(vm.log[3], "name 1 com.app.Main");
    assert_eq!(vm.log.len(), 6);
}

#[test]
fn array_classes_are_looked_up_by_their_descriptor() {
    let mut vm = FakeVm::default();
    let _ = attempt_method(&mut vm, &vec![], "[Lcom.app.Main;", "clone", "()Ljava/lang/Object;");
    assert_eq!(vm.log, vec!["find [Lcom/app/Main;"]);
}

#[test]
fn an_exception_that_cannot_be_cleared_ends_the_pass() {
    let methods = ten_methods();
    // the first clearing follows the native miss on com.app.Other
    let mut vm = FakeVm {
        native: vec!["com/app/Main"],
        instance: vec!["run", "main", "gone"],
        clear_fails_at: Some(1),
        ..FakeVm::default()
    };
    assert_eq!(resolve_methods(&mut vm, &methods), report(3, 6, 0, 0, 0, true));
    // the miss is counted once the exception has been cleared
    let mut vm = FakeVm { load_fails: true, clear_fails_at: Some(2), ..FakeVm::default() };
    let r = resolve_methods(&mut vm, &methods);
    assert_eq!(r, report(0, 6, 1, 0, 0, true));
    assert_eq!(vm.log.iter().filter(|l| l.starts_with("find ")).count(), 1);
}

#[test]
fn a_fatal_state_is_told_apart_at_each_step() {
    let run = |vm: &mut FakeVm| attempt_method(vm, &vec![1], "com.app.Main", "run", "()V");
    let mut vm = FakeVm { native: vec!["com/app/Main"], clear_fails_at: Some(1), ..FakeVm::default() };
    assert_eq!(run(&mut vm), StepOutcome { native_miss: false, end: StepEnd::Fatal });
    let mut vm = FakeVm {
        native: vec!["com/app/Main"],
        statics: vec!["run"],
        clear_fails_at: Some(2),
        ..FakeVm::default()
    };
    assert_eq!(run(&mut vm), StepOutcome { native_miss: false, end: StepEnd::ResolvedThenFatal });
    let mut vm = FakeVm { native: vec!["com/app/Main"], clear_fails_at: Some(2), ..FakeVm::default() };
    assert_eq!(run(&mut vm), StepOutcome { native_miss: false, end: StepEnd::Fatal });
    let mut vm = FakeVm { clear_fails_at: Some(1), ..FakeVm::default() };
    assert_eq!(run(&mut vm), StepOutcome { native_miss: false, end: StepEnd::Fatal });
    let mut vm = FakeVm { clear_fails_at: Some(2), ..FakeVm::default() };
    assert_eq!(run(&mut vm), StepOutcome { native_miss: true, end: StepEnd::Fatal });
}

#[test]
fn outcomes_are_entered_in_the_report() {
    let r = report(1, 2, 3, 4, 5, false);
    let enter = |native_miss, end| r.record(StepOutcome { native_miss, end });
    assert_eq!(enter(false, StepEnd::Resolved), report(2, 2, 3, 4, 5, false));
    assert_eq!(enter(true, StepEnd::Resolved), report(2, 2, 4, 4, 5, false));
    assert_eq!(enter(false, StepEnd::ResolvedThenFatal), report(2, 2, 3, 4, 5, true));
    assert_eq!(enter(false, StepEnd::MethodNotFound), report(1, 2, 3, 4, 6, false));
    assert_eq!(enter(true, StepEnd::ClassNotFound), report(1, 2, 4, 5, 5, false));
    assert_eq!(enter(true, StepEnd::Fatal), report(1, 2, 4, 4, 5, true));
    assert_eq!(ResolveReport::new(), report(0, 0, 0, 0, 0, false));
}

#[test]
fn the_pass_runs_with_the_loaders_that_can_be_had() {
    let methods = vec![method("Lcom/app/Main;", "run", "()V", true)];
    let mut vm = FakeVm { no_app_loader: true, by_load: vec![(2, "com.app.Main")], instance: vec!["run"], ..FakeVm::default() };
    assert_eq!(resolve_methods(&mut vm, &methods), report(1, 0, 1, 0, 0, false));
    assert_eq!(vm.log[..4], ["app loader", "system loader", "find com/app/Main", "load 2 com.app.Main"]);
    let mut vm = FakeVm { no_app_loader: true, no_system_loader: true, ..FakeVm::default() };
    assert_eq!(resolve_methods(&mut vm, &methods), report(0, 0, 1, 1, 0, false));
    assert_eq!(vm.log, vec!["app loader", "system loader", "find com/app/Main"]);
    // a loader that cannot be had leaves an exception to clear
    let mut vm = FakeVm { no_app_loader: true, clear_fails_at: Some(1), ..FakeVm::default() };
    assert_eq!(resolve_methods(&mut vm, &methods), report(0, 0, 0, 0, 0, true));
    assert_eq!(vm.log, vec!["app loader"]);
    let mut vm = FakeVm { no_system_loader: true, clear_fails_at: Some(1), ..FakeVm::default() };
    assert_eq!(resolve_methods(&mut vm, &methods), report(0, 0, 0, 0, 0, true));
}

#[test]
fn a_heartbeat_comes_every_thousand_methods() {
    assert!(heartbeat_due(1000));
    assert!(heartbeat_due(2000));
    assert!(!heartbeat_due(999));
    assert!(!heartbeat_due(1001));
    assert!(!heartbeat_due(1));
    let mut methods = Vec::new();
    for i in 0..2500 {
        methods.push(method("Landroid/view/View;", &format!("m{}", i), "()V", i % 5 != 0));
    }
    let mut vm = FakeVm::default();
    let r = resolve_methods(&mut vm, &methods);
    assert_eq!(r, report(0, 2000, 0, 0, 0, false));
    assert_eq!(vm.beats, vec![(1000, 2000), (2000, 2000)]);
}

#[test]
fn descriptors_are_translated_to_binary_names() {
    let name = |d: &str| descriptor_to_binary_name(d);
    assert_eq!(name("Lpkg/Sub/Cls;"), Some("pkg.Sub.Cls".to_string()));
    assert_eq!(name("Ljava/lang/String;"), Some("java.lang.String".to_string()));
    assert_eq!(name("LCls;"), Some("Cls".to_string()));
    assert_eq!(name("L;"), Some("".to_string()));
    assert_eq!(name("[Lpkg/Cls;"), Some("[Lpkg.Cls;".to_string()));
    assert_eq!(name("[[[Lpkg/Sub/Cls;"), Some("[[[Lpkg.Sub.Cls;".to_string()));
    assert_eq!(name("[I"), Some("[I".to_string()));
    assert_eq!(name("[[B"), Some("[[B".to_string()));
    for letter in ["Z", "B", "S", "C", "I", "J", "F", "D"] {
        let array = format!("[[[{}", letter);
        assert_eq!(name(&array), Some(array.clone()));
    }
    assert_eq!(name("Lpkg/\u{e9}t\u{e9}/Cls;"), Some("pkg.\u{e9}t\u{e9}.Cls".to_string()));
    assert_eq!(name("[L\u{1F600}/X;"), Some("[L\u{1F600}.X;".to_string()));
}

#[test]
fn what_is_no_class_has_no_binary_name() {
    let name = |d: &str| descriptor_to_binary_name(d);
    assert_eq!(name(""), None);
    assert_eq!(name("I"), None);
    assert_eq!(name("V"), None);
    assert_eq!(name("L"), None);
    assert_eq!(name(";"), None);
    assert_eq!(name("Lpkg/Cls"), None);
    assert_eq!(name("pkg/Cls;"), None);
    assert_eq!(name("[Lpkg/Cls"), None);
    assert_eq!(name("[L"), None);
    assert_eq!(name("??"), None);
}

#[test]
fn brackets_need_an_element_type() {
    let name = |d: &str| descriptor_to_binary_name(d);
    assert_eq!(name("["), None);
    assert_eq!(name("[["), None);
    assert_eq!(name("[Q"), None);
    assert_eq!(name("[V"), None);
    assert_eq!(name("[II"), None);
    assert_eq!(name("[I;"), None);
    assert_eq!(name("[i"), None);
    assert_eq!(name("[I["), None);
    assert_eq!(name("[;"), None);
    assert_eq!(name("[x/Ly/z;"), None);
    assert_eq!(name("[ILy/z;"), None);
    assert_eq!(name("[[xLy;"), None);
}

#[test]
fn an_object_array_keeps_its_brackets() {
    assert_eq!(descriptor_to_binary_name("[LaLb/c;"), Some("[LaLb.c;".to_string()));
    assert_eq!(descriptor_to_binary_name("[[L;"), Some("[[L;".to_string()));
    assert_eq!(descriptor_to_binary_name("[La/b[c;"), Some("[La.b[c;".to_string()));
}

#[test]
fn a_descriptor_survives_the_round_trip() {
    for inner in ["pkg/Sub/Cls", "Cls", "a/b/c/d/E$1", ""] {
        let descriptor = format!("L{};", inner);
        let binary = descriptor_to_binary_name(&descriptor).unwrap();
        assert_eq!(format!("L{};", binary_to_internal_name(&binary)), descriptor);
    }
    for descriptor in ["[Lpkg/Cls;", "[[La/b/C;"] {
        let binary = descriptor_to_binary_name(descriptor).unwrap();
        assert_eq!(binary_to_internal_name(&binary), descriptor);
    }
    assert_eq!(binary_to_internal_name("java.lang.String"), "java/lang/String");
    assert_eq!(binary_to_internal_name(""), "");
}

#[test]
fn framework_namespaces_are_skipped() {
    for name in [
        "android.app.Activity",
        "com.android.internal.os.Zygote",
        "androidx.core.View",
        "java.lang.String",
        "javax.crypto.Cipher",
        "dalvik.system.DexFile",
        "sun.misc.Unsafe",
        "libcore.io.Libcore",
        "kotlin.Unit",
        "kotlinx.coroutines.Job",
        "org.json.JSONObject",
        "org.xml.sax.Parser",
        "org.w3c.dom.Node",
        "android.",
    ] {
        assert!(should_skip_class(name), "{}", name);
    }
    for name in [
        "",
        "android",
        "androidy.X",
        "com.app.Main",
        "com.androidx.X",
        "org.jsonx.X",
        "org.apache.X",
        "Android.app.Activity",
        "x.android.app.Activity",
        "[Landroid.app.Activity;",
        "javafx.X",
        "kotlin",
    ] {
        assert!(!should_skip_class(name), "{}", name);
    }
}

#[test]
fn every_method_gets_its_disposition() {
    let methods = ten_methods();
    let plans: Vec<Disposition> = (0..methods.len()).map(|i| plan_method(&methods, i).0).collect();
    assert_eq!(plans.iter().filter(|d| **d == Disposition::SkippedSystem).count(), 6);
    assert_eq!(plans.iter().filter(|d| **d == Disposition::Attempted).count(), 4);
    assert_eq!(plan_method(&methods, 0), (Disposition::SkippedSystem, None));
    assert_eq!(
        plan_method(&methods, 6),
        (Disposition::Attempted, Some("com.app.Main".to_string()))
    );
    let odd = vec![
        method("Lcom/app/Main;", "run", "()V", false),
        method("Lcom/app/Main;", "run", "()V", true),
        method("Lcom/app/Main;", "run", "()V", true),
        method("Z", "run", "()V", true),
        method("[Lcom/app/Main;", "clone", "()Ljava/lang/Object;", true),
        method("[I", "clone", "()Ljava/lang/Object;", true),
        method("[Ljava/lang/String;", "clone", "()Ljava/lang/Object;", true),
    ];
    assert_eq!(plan_method(&odd, 0), (Disposition::Ineligible, None));
    assert_eq!(plan_method(&odd, 1).0, Disposition::Attempted);
    assert_eq!(plan_method(&odd, 2), (Disposition::Duplicate, None));
    assert_eq!(plan_method(&odd, 3), (Disposition::Untranslatable, None));
    assert_eq!(
        plan_method(&odd, 4),
        (Disposition::Attempted, Some("[Lcom.app.Main;".to_string()))
    );
    assert_eq!(plan_method(&odd, 5), (Disposition::Attempted, Some("[I".to_string())));
    // an array of framework objects does not start with a framework prefix
    assert_eq!(plan_method(&odd, 6).0, Disposition::Attempted);
}
