//! The managed-runtime adapter over JNI.
//!
//! Every call into the runtime goes through one small trusted function that
//! promises nothing of its result; the adapter's methods and the resolver
//! are verified whatever the runtime answers. The adapter keeps, as ghost
//! state, the history of what was asked through it.

use vstd::prelude::*;
use crate::art_runtime::{
    count_eligible, count_with_code, empty_report, method_keys, report_covers, report_within,
    resolve_methods, Asked, Lookup, ManagedVm, ResolveReport,
};
use crate::art_runtime::trace::{is_pass, PassTrace};
use crate::dex_parser::ParsedMethod;

verus! {

/// `jni::JavaVM`, the runtime; opaque.
#[verifier::external_type_specification]
#[verifier::external_body]
pub struct ExJavaVM(jni::JavaVM);

/// `jni::JNIEnv`, the runtime as seen from an attached thread; opaque.
#[verifier::external_type_specification]
#[verifier::external_body]
pub struct ExJNIEnv<'a>(jni::JNIEnv<'a>);

/// `jni::objects::JObject`, a local reference to an object; opaque.
#[verifier::external_type_specification]
#[verifier::external_body]
pub struct ExJObject<'a>(jni::objects::JObject<'a>);

/// `jni::objects::JClass`, a local reference to a class; opaque.
#[verifier::external_type_specification]
#[verifier::external_body]
pub struct ExJClass<'a>(jni::objects::JClass<'a>);

/// `jni::objects::JString`, a local reference to a string; opaque.
#[verifier::external_type_specification]
#[verifier::external_body]
pub struct ExJString<'a>(jni::objects::JString<'a>);

/// `jni::objects::GlobalRef`, a reference that outlives the call that made it; opaque.
#[verifier::external_type_specification]
#[verifier::external_body]
pub struct ExGlobalRef(jni::objects::GlobalRef);

/// `jni_sys::_jobject`, what a raw object reference points to; opaque.
#[verifier::external_type_specification]
#[verifier::external_body]
pub struct ExRawObject(jni_sys::_jobject);

/// What a call of a managed method came to.
pub enum Returned<T> {
    /// The call returned an object reference, which may be null.
    Object(T),
    /// The call returned a value that is no object.
    NotAnObject,
    /// The call failed; an exception may be pending.
    Failed,
}

/// Attaches the current thread as a daemon, with
/// `JavaVM::attach_current_thread_as_daemon`. Nothing is promised of the
/// outcome.
#[verifier::external_body]
fn jni_attach<'a>(vm: &'a jni::JavaVM) -> Option<jni::JNIEnv<'a>> {
    vm.attach_current_thread_as_daemon().ok()
}

/// Looks a class up with `JNIEnv::find_class`. Nothing is promised of the
/// outcome.
#[verifier::external_body]
fn jni_find_class<'a>(env: &mut jni::JNIEnv<'a>, name: &str) -> Option<jni::objects::JClass<'a>> {
    env.find_class(name).ok()
}

/// Clears a pending exception with `JNIEnv::exception_clear` and tells
/// whether the call succeeded. Nothing is promised of the outcome.
#[verifier::external_body]
fn jni_exception_clear<'a>(env: &mut jni::JNIEnv<'a>) -> bool {
    env.exception_clear().is_ok()
}

/// Promotes a local reference with `JNIEnv::new_global_ref`. Nothing is
/// promised of the outcome.
#[verifier::external_body]
fn jni_new_global_ref<'a, 'b>(
    env: &mut jni::JNIEnv<'a>,
    obj: &jni::objects::JObject<'b>,
) -> Option<jni::objects::GlobalRef> {
    env.new_global_ref(obj).ok()
}

/// Makes a managed string with `JNIEnv::new_string`. Nothing is promised of
/// the outcome.
#[verifier::external_body]
fn jni_new_string<'a>(env: &mut jni::JNIEnv<'a>, text: &str) -> Option<jni::objects::JString<'a>> {
    env.new_string(text).ok()
}

/// The signatures of the methods that the adapter calls. Each takes and
/// returns objects and flags only; none holds a signature within itself.
pub open spec fn is_called_signature(sig: Seq<char>) -> bool {
    ||| sig == "(Ljava/lang/String;)Ljava/lang/Class;"@
    ||| sig == "(Ljava/lang/String;ZLjava/lang/ClassLoader;)Ljava/lang/Class;"@
    ||| sig == "()Landroid/app/ActivityThread;"@
    ||| sig == "()Landroid/app/Application;"@
    ||| sig == "()Ljava/lang/ClassLoader;"@
}

/// Calls an instance method with `JNIEnv::call_method`, with no argument or
/// with one string. The signature must be one of those that the adapter
/// calls: the outside function does not return on a signature that holds
/// another. Nothing is promised of the outcome.
#[verifier::external_body]
fn jni_call_method<'a, 'b, 'c>(
    env: &mut jni::JNIEnv<'a>,
    obj: &jni::objects::JObject<'b>,
    name: &str,
    sig: &str,
    arg: Option<&jni::objects::JString<'c>>,
) -> Returned<jni::objects::JObject<'a>>
    requires
        is_called_signature(sig@),
{
    let args: Vec<jni::objects::JValue> = arg.into_iter().map(jni::objects::JValue::from).collect();
    match env.call_method(obj, name, sig, &args) {
        Ok(v) => match v.l() {
            Ok(o) => Returned::Object(o),
            Err(_) => Returned::NotAnObject,
        },
        Err(_) => Returned::Failed,
    }
}

/// Calls a static method with `JNIEnv::call_static_method`, with no
/// argument or with a string, a flag and a loader. The signature must be
/// one of those that the adapter calls: the outside function does not return
/// on a signature that holds another. Nothing is promised of the outcome.
#[verifier::external_body]
fn jni_call_static_method<'a, 'b, 'c>(
    env: &mut jni::JNIEnv<'a>,
    class: &jni::objects::JClass<'b>,
    name: &str,
    sig: &str,
    arg: Option<(&jni::objects::JString<'c>, bool, &jni::objects::GlobalRef)>,
) -> Returned<jni::objects::JObject<'a>>
    requires
        is_called_signature(sig@),
{
    let args: Vec<jni::objects::JValue> = match arg {
        Some((s, flag, loader)) => vec![s.into(), flag.into(), loader.as_obj().into()],
        None => Vec::new(),
    };
    match env.call_static_method(class, name, sig, &args) {
        Ok(v) => match v.l() {
            Ok(o) => Returned::Object(o),
            Err(_) => Returned::NotAnObject,
        },
        Err(_) => Returned::Failed,
    }
}

/// Looks an instance method up with `JNIEnv::get_method_id` and tells
/// whether the call succeeded. Nothing is promised of the outcome.
#[verifier::external_body]
fn jni_get_method_id<'a, 'b>(
    env: &mut jni::JNIEnv<'a>,
    class: &jni::objects::JClass<'b>,
    name: &str,
    sig: &str,
) -> bool {
    env.get_method_id(class, name, sig).is_ok()
}

/// Looks a static method up with `JNIEnv::get_static_method_id` and tells
/// whether the call succeeded. Nothing is promised of the outcome.
#[verifier::external_body]
fn jni_get_static_method_id<'a, 'b>(
    env: &mut jni::JNIEnv<'a>,
    class: &jni::objects::JClass<'b>,
    name: &str,
    sig: &str,
) -> bool {
    env.get_static_method_id(class, name, sig).is_ok()
}

/// Whether the reference is null, by `JObject::as_raw`. Nothing is promised
/// of the outcome.
#[verifier::external_body]
fn jni_is_null<'a>(obj: &jni::objects::JObject<'a>) -> bool {
    obj.as_raw().is_null()
}

/// Takes an object reference for a class reference, with `JClass::from`.
#[verifier::external_body]
fn jni_into_class<'a>(obj: jni::objects::JObject<'a>) -> jni::objects::JClass<'a> {
    jni::objects::JClass::from(obj)
}

/// The object behind a global reference, by `GlobalRef::as_obj`.
#[verifier::external_body]
fn jni_global_object<'a>(global: &'a jni::objects::GlobalRef) -> &'a jni::objects::JObject<'static> {
    global.as_obj()
}

/// The managed runtime as the current thread reaches it over JNI.
pub struct JniVm<'a> {
    env: jni::JNIEnv<'a>,
    /// `java.lang.Class`, on which classes are asked for by name.
    class_class: jni::objects::JClass<'a>,
    /// What has been asked through this adapter since the thread was
    /// attached.
    log: Ghost<Seq<Asked<jni::objects::JClass<'a>, jni::objects::GlobalRef>>>,
}

/// The class in a returned object reference, if the call returned one: a
/// call that failed is a failed lookup, a call that returned no object or a
/// null reference found no class, and any other reference is taken for the
/// class.
fn returned_class<'a>(ret: Returned<jni::objects::JObject<'a>>) -> (r: Lookup<
    jni::objects::JClass<'a>,
>)
    ensures
        match ret {
            Returned::Failed => r is Failed,
            Returned::NotAnObject => r is Absent,
            Returned::Object(_) => r is Absent || r is Found,
        },
{
    match ret {
        Returned::Object(o) => {
            if jni_is_null(&o) {
                Lookup::Absent
            } else {
                Lookup::Found(jni_into_class(o))
            }
        },
        Returned::NotAnObject => Lookup::Absent,
        Returned::Failed => Lookup::Failed,
    }
}

/// The object in a returned reference, unless the call failed, returned no
/// object or returned null.
fn returned_object<'a>(ret: Returned<jni::objects::JObject<'a>>) -> (r: Option<
    jni::objects::JObject<'a>,
>)
    ensures
        match ret {
            Returned::Object(o) => r is None || r == Some(o),
            Returned::NotAnObject => r is None,
            Returned::Failed => r is None,
        },
{
    match ret {
        Returned::Object(o) => {
            if jni_is_null(&o) {
                None
            } else {
                Some(o)
            }
        },
        Returned::NotAnObject => None,
        Returned::Failed => None,
    }
}

impl<'a> JniVm<'a> {
    /// Attaches the current thread to the runtime as a daemon and looks up
    /// `java.lang.Class`. `None` if either fails.
    pub fn attach(vm: &'a jni::JavaVM) -> (r: Option<JniVm<'a>>)
        ensures
            r matches Some(runtime) ==> runtime.history() == Seq::<
                Asked<jni::objects::JClass<'a>, jni::objects::GlobalRef>,
            >::empty(),
    {
        let mut env = match jni_attach(vm) {
            Some(env) => env,
            None => {
                return None;
            },
        };
        match jni_find_class(&mut env, "java/lang/Class") {
            Some(class_class) => Some(JniVm { env, class_class, log: Ghost(Seq::empty()) }),
            None => {
                let _ = jni_exception_clear(&mut env);
                None
            },
        }
    }
}

impl<'a> ManagedVm for JniVm<'a> {
    type Class = jni::objects::JClass<'a>;

    type Loader = jni::objects::GlobalRef;

    closed spec fn history(&self) -> Seq<Asked<jni::objects::JClass<'a>, jni::objects::GlobalRef>> {
        self.log@
    }

    fn find_class(&mut self, internal_name: &str) -> (r: Option<jni::objects::JClass<'a>>) {
        let r = jni_find_class(&mut self.env, internal_name);
        proof {
            self.log@ = self.log@.push((Asked::FindClass { name: internal_name@, found: r }));
        }
        r
    }

    fn load_class(&mut self, loader: &jni::objects::GlobalRef, binary_name: &str) -> (r: Lookup<
        jni::objects::JClass<'a>,
    >) {
        let r = match jni_new_string(&mut self.env, binary_name) {
            Some(name) => returned_class(
                jni_call_method(
                    &mut self.env,
                    jni_global_object(loader),
                    "loadClass",
                    "(Ljava/lang/String;)Ljava/lang/Class;",
                    Some(&name),
                ),
            ),
            None => Lookup::Failed,
        };
        proof {
            self.log@ = self.log@.push(
                (Asked::LoadClass { loader: *loader, name: binary_name@, got: r }),
            );
        }
        r
    }

    fn class_for_name(&mut self, loader: &jni::objects::GlobalRef, binary_name: &str) -> (r: Lookup<
        jni::objects::JClass<'a>,
    >) {
        let r = match jni_new_string(&mut self.env, binary_name) {
            Some(name) => returned_class(
                jni_call_static_method(
                    &mut self.env,
                    &self.class_class,
                    "forName",
                    "(Ljava/lang/String;ZLjava/lang/ClassLoader;)Ljava/lang/Class;",
                    Some((&name, false, loader)),
                ),
            ),
            None => Lookup::Failed,
        };
        proof {
            self.log@ = self.log@.push(
                (Asked::ClassForName { loader: *loader, name: binary_name@, got: r }),
            );
        }
        r
    }

    fn has_instance_method(
        &mut self,
        class: &jni::objects::JClass<'a>,
        name: &str,
        signature: &str,
    ) -> (r: bool) {
        let r = jni_get_method_id(&mut self.env, class, name, signature);
        proof {
            self.log@ = self.log@.push(
                (Asked::InstanceMethod {
                    class: *class,
                    name: name@,
                    signature: signature@,
                    has: r,
                }),
            );
        }
        r
    }

    fn has_static_method(
        &mut self,
        class: &jni::objects::JClass<'a>,
        name: &str,
        signature: &str,
    ) -> (r: bool) {
        let r = jni_get_static_method_id(&mut self.env, class, name, signature);
        proof {
            self.log@ = self.log@.push(
                (Asked::StaticMethod {
                    class: *class,
                    name: name@,
                    signature: signature@,
                    has: r,
                }),
            );
        }
        r
    }

    fn app_class_loader(&mut self) -> (r: Option<jni::objects::GlobalRef>) {
        let r = self.fetch_app_loader();
        proof {
            self.log@ = self.log@.push((Asked::AppLoader { brought: r }));
        }
        r
    }

    fn system_class_loader(&mut self) -> (r: Option<jni::objects::GlobalRef>) {
        let r = self.fetch_system_loader();
        proof {
            self.log@ = self.log@.push((Asked::SystemLoader { brought: r }));
        }
        r
    }

    fn clear_exception(&mut self) -> (r: bool) {
        let r = jni_exception_clear(&mut self.env);
        proof {
            self.log@ = self.log@.push((Asked::ClearException { cleared: r }));
        }
        r
    }

    fn heartbeat(&mut self, processed: usize, total: usize) {
        proof {
            self.log@ = self.log@.push((Asked::Heartbeat { processed, total }));
        }
    }
}

impl<'a> JniVm<'a> {
    /// The application's class loader, by way of
    /// `ActivityThread.currentActivityThread().getApplication().getClassLoader()`,
    /// as a global reference. The history is left as it is.
    fn fetch_app_loader(&mut self) -> (r: Option<jni::objects::GlobalRef>)
        ensures
            final(self).history() == old(self).history(),
    {
        let activity_thread = match jni_find_class(&mut self.env, "android/app/ActivityThread") {
            Some(c) => c,
            None => {
                return None;
            },
        };
        let current = match returned_object(
            jni_call_static_method(
                &mut self.env,
                &activity_thread,
                "currentActivityThread",
                "()Landroid/app/ActivityThread;",
                None,
            ),
        ) {
            Some(o) => o,
            None => {
                return None;
            },
        };
        let app = match returned_object(
            jni_call_method(
                &mut self.env,
                &current,
                "getApplication",
                "()Landroid/app/Application;",
                None,
            ),
        ) {
            Some(o) => o,
            None => {
                return None;
            },
        };
        let loader = match returned_object(
            jni_call_method(&mut self.env, &app, "getClassLoader", "()Ljava/lang/ClassLoader;", None),
        ) {
            Some(o) => o,
            None => {
                return None;
            },
        };
        jni_new_global_ref(&mut self.env, &loader)
    }

    /// The system class loader, by way of
    /// `ClassLoader.getSystemClassLoader()`, as a global reference. The
    /// history is left as it is.
    fn fetch_system_loader(&mut self) -> (r: Option<jni::objects::GlobalRef>)
        ensures
            final(self).history() == old(self).history(),
    {
        let class_loader = match jni_find_class(&mut self.env, "java/lang/ClassLoader") {
            Some(c) => c,
            None => {
                return None;
            },
        };
        let loader = match returned_object(
            jni_call_static_method(
                &mut self.env,
                &class_loader,
                "getSystemClassLoader",
                "()Ljava/lang/ClassLoader;",
                None,
            ),
        ) {
            Some(o) => o,
            None => {
                return None;
            },
        };
        jni_new_global_ref(&mut self.env, &loader)
    }
}

/// Attaches to the runtime and runs the resolver pass over `methods`.
///
/// If no method carries code the runtime is not touched and the report is
/// empty. If the thread cannot be attached, or `java.lang.Class` cannot be
/// found, the pass is reported as aborted with every counter at zero.
/// Otherwise the report is that of a pass on the attached runtime, whose
/// history, empty at first, holds the exchanges of that pass and no other.
pub fn force_resolve_methods<'a>(vm: &'a jni::JavaVM, methods: &Vec<ParsedMethod>) -> (r:
    ResolveReport)
    ensures
        report_within(method_keys(methods@), r),
        !r.aborted ==> report_covers(method_keys(methods@), methods.len() as int, r),
        count_eligible(method_keys(methods@), methods.len() as int) == 0 ==> r == empty_report(),
        count_eligible(method_keys(methods@), methods.len() as int) > 0 ==> r == (ResolveReport {
            aborted: true,
            ..empty_report()
        }) || exists|t: PassTrace<jni::objects::JClass<'a>, jni::objects::GlobalRef>| #[trigger]
            is_pass(t, method_keys(methods@), r),
{
    if count_with_code(methods) == 0 {
        return resolve_methods_without_code(methods);
    }
    match JniVm::attach(vm) {
        Some(mut runtime) => resolve_methods(&mut runtime, methods),
        None => {
            let mut report = ResolveReport::new();
            report.aborted = true;
            report
        },
    }
}

/// The report for a list in which no method carries code.
fn resolve_methods_without_code(methods: &Vec<ParsedMethod>) -> (r: ResolveReport)
    requires
        count_eligible(method_keys(methods@), methods.len() as int) == 0,
    ensures
        r == empty_report(),
        report_within(method_keys(methods@), r),
        report_covers(method_keys(methods@), methods.len() as int, r),
{
    proof {
        crate::art_runtime::lemma_no_code_no_work(method_keys(methods@), methods.len() as int);
    }
    ResolveReport::new()
}

} // verus!
