use plugin_host::ExternalFunctions;
use plugin_host::Function;
use plugin_host::InvocationError;
use plugin_host::LoadError;
use plugin_host::ModuleOpening;
use plugin_host::PluginDeclaration;
use plugin_host::PluginModule;
use plugin_host::PluginRegistrar;

enum TestFn {
    Add,
    Mul,
    Always(i64),
}

impl Function for TestFn {
    fn call(&self, args: &[i64]) -> Result<i64, InvocationError> {
        match self {
            TestFn::Add => {
                if args.len() != 2 {
                    return Err(InvocationError::ArityMismatch {
                        expected: 2,
                        found: args.len(),
                    });
                }
                Ok(args[0] + args[1])
            }
            TestFn::Mul => {
                if args.len() != 2 {
                    return Err(InvocationError::ArityMismatch {
                        expected: 2,
                        found: args.len(),
                    });
                }
                Ok(args[0] * args[1])
            }
            TestFn::Always(v) => Ok(*v),
        }
    }

    fn help(&self) -> Option<&str> {
        match self {
            TestFn::Add => Some("adds two numbers"),
            _ => None,
        }
    }
}

struct ModuleA;

impl PluginModule<TestFn> for ModuleA {
    fn register(&self, registrar: &mut PluginRegistrar<TestFn>) {
        registrar.register_function("add", TestFn::Add);
    }
}

struct ModuleB;

impl PluginModule<TestFn> for ModuleB {
    fn register(&self, registrar: &mut PluginRegistrar<TestFn>) {
        registrar.register_function("mul", TestFn::Mul);
        registrar.register_function("answer", TestFn::Always(42));
    }
}

struct ModuleDupInPass;

impl PluginModule<TestFn> for ModuleDupInPass {
    fn register(&self, registrar: &mut PluginRegistrar<TestFn>) {
        registrar.register_function("twice", TestFn::Always(1));
        registrar.register_function("twice", TestFn::Always(2));
    }
}

struct ModuleShadow;

impl PluginModule<TestFn> for ModuleShadow {
    fn register(&self, registrar: &mut PluginRegistrar<TestFn>) {
        registrar.register_function("add", TestFn::Always(3));
    }
}

struct ModuleEmpty;

impl PluginModule<TestFn> for ModuleEmpty {
    fn register(&self, _registrar: &mut PluginRegistrar<TestFn>) {}
}

fn host() -> PluginDeclaration {
    PluginDeclaration {
        rustc_version: String::from("rustc-test-1.0"),
        core_version: String::from("core-test-0.1"),
    }
}

fn matching_decl() -> PluginDeclaration {
    host()
}

fn opened<M>(entry: M, handle: u32) -> ModuleOpening<M, u32> {
    ModuleOpening::Opened {
        declaration: matching_decl(),
        entry,
        handle,
    }
}

#[test]
fn disjoint_modules_union() {
    let h = host();
    let mut ef: ExternalFunctions<TestFn, u32> = ExternalFunctions::new();
    assert!(ef.load(&h, opened(ModuleA, 10)).is_ok());
    assert!(ef.load(&h, opened(ModuleB, 11)).is_ok());
    assert_eq!(ef.call("add", &[2, 3]), Ok(5));
    assert_eq!(ef.call("mul", &[4, 5]), Ok(20));
    assert_eq!(ef.call("answer", &[]), Ok(42));
    assert_eq!(ef.module_count(), 2);
}

#[test]
fn version_mismatch_leaves_registry_unchanged() {
    let h = host();
    let mut ef: ExternalFunctions<TestFn, u32> = ExternalFunctions::new();
    assert!(ef.load(&h, opened(ModuleA, 10)).is_ok());
    let bad = ModuleOpening::Opened {
        declaration: PluginDeclaration {
            rustc_version: String::from("rustc-other"),
            core_version: String::from("core-test-0.1"),
        },
        entry: ModuleB,
        handle: 11u32,
    };
    let r = ef.load(&h, bad);
    match r {
        Err(LoadError::VersionMismatch { expected, found }) => {
            assert_eq!(expected.rustc_version, "rustc-test-1.0");
            assert_eq!(expected.core_version, "core-test-0.1");
            assert_eq!(found.rustc_version, "rustc-other");
            assert_eq!(found.core_version, "core-test-0.1");
        }
        other => panic!("expected a version mismatch, got {:?}", other),
    }
    // nothing was committed: the rejected module's names are absent,
    // earlier entries still dispatch, no handle was retained
    assert!(matches!(
        ef.call("mul", &[4, 5]),
        Err(InvocationError::Other { .. })
    ));
    assert_eq!(ef.call("add", &[2, 3]), Ok(5));
    assert_eq!(ef.module_count(), 1);
}

#[test]
fn core_version_mismatch_rejected_too() {
    let h = host();
    let mut ef: ExternalFunctions<TestFn, u32> = ExternalFunctions::new();
    let bad = ModuleOpening::Opened {
        declaration: PluginDeclaration {
            rustc_version: String::from("rustc-test-1.0"),
            core_version: String::from("core-other"),
        },
        entry: ModuleA,
        handle: 7u32,
    };
    assert!(matches!(
        ef.load(&h, bad),
        Err(LoadError::VersionMismatch { .. })
    ));
    assert_eq!(ef.module_count(), 0);
}

#[test]
fn overwrite_within_one_pass() {
    let h = host();
    let mut ef: ExternalFunctions<TestFn, u32> = ExternalFunctions::new();
    assert!(ef.load(&h, opened(ModuleDupInPass, 10)).is_ok());
    assert_eq!(ef.call("twice", &[]), Ok(2));
}

#[test]
fn overwrite_across_loads() {
    let h = host();
    let mut ef: ExternalFunctions<TestFn, u32> = ExternalFunctions::new();
    assert!(ef.load(&h, opened(ModuleA, 10)).is_ok());
    assert_eq!(ef.call("add", &[2, 3]), Ok(5));
    assert!(ef.load(&h, opened(ModuleShadow, 11)).is_ok());
    assert_eq!(ef.call("add", &[2, 3]), Ok(3));
}

#[test]
fn unknown_name_reported_registry_unaffected() {
    let h = host();
    let mut ef: ExternalFunctions<TestFn, u32> = ExternalFunctions::new();
    assert!(ef.load(&h, opened(ModuleA, 10)).is_ok());
    match ef.call("missing", &[1]) {
        Err(InvocationError::Other { msg }) => {
            assert_eq!(msg, "\"missing\" not found");
        }
        other => panic!("expected a not-found error, got {:?}", other),
    }
    assert_eq!(ef.call("add", &[2, 3]), Ok(5));
}

#[test]
fn entry_outlives_registrar_and_later_loads() {
    let h = host();
    let mut ef: ExternalFunctions<TestFn, u32> = ExternalFunctions::new();
    assert!(ef.load(&h, opened(ModuleA, 10)).is_ok());
    // the registrar of that load is long gone; load more modules on top
    assert!(ef.load(&h, opened(ModuleB, 11)).is_ok());
    let entry = ef.get("add").expect("add must be registered");
    // the entry still dispatches, and its owner index is a live position
    // in the keep-alive list
    assert!((entry.owner as usize) < ef.module_count());
    assert_eq!(entry.call(&[20, 22]), Ok(42));
    assert_eq!(entry.help(), Some("adds two numbers"));
}

#[test]
fn add_scenario() {
    let h = host();
    let mut ef: ExternalFunctions<TestFn, u32> = ExternalFunctions::new();
    assert!(ef.load(&h, opened(ModuleA, 10)).is_ok());
    assert_eq!(ef.call("add", &[2, 3]), Ok(5));
    assert_eq!(
        ef.call("add", &[2]),
        Err(InvocationError::ArityMismatch {
            expected: 2,
            found: 1
        })
    );
}

#[test]
fn open_failure_is_io_and_older_entries_survive() {
    let h = host();
    let mut ef: ExternalFunctions<TestFn, u32> = ExternalFunctions::new();
    assert!(ef.load(&h, opened(ModuleA, 10)).is_ok());
    let r = ef.load(
        &h,
        ModuleOpening::<ModuleB, u32>::Failed {
            msg: String::from("/nonexistent/path: cannot open"),
        },
    );
    match r {
        Err(LoadError::Io { msg }) => assert_eq!(msg, "/nonexistent/path: cannot open"),
        other => panic!("expected an open failure, got {:?}", other),
    }
    assert_eq!(ef.call("add", &[2, 3]), Ok(5));
    assert_eq!(ef.module_count(), 1);
}

#[test]
fn missing_declaration_reported() {
    let h = host();
    let mut ef: ExternalFunctions<TestFn, u32> = ExternalFunctions::new();
    let r = ef.load(&h, ModuleOpening::<ModuleA, u32>::NoDeclaration);
    assert!(matches!(r, Err(LoadError::MissingDeclaration)));
    assert_eq!(ef.module_count(), 0);
}

#[test]
fn empty_module_still_kept_alive() {
    let h = host();
    let mut ef: ExternalFunctions<TestFn, u32> = ExternalFunctions::new();
    assert!(ef.load(&h, opened(ModuleEmpty, 10)).is_ok());
    assert_eq!(ef.module_count(), 1);
}
