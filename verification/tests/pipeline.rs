use wasixcc::error::DriverError;
use wasixcc::compiler::ModuleKind;
use wasixcc::settings::{LlvmLocation, UserSettings};
use wasixcc::{run_ar, run_compiler, run_linker, run_nm, run_ranlib};

fn base_settings() -> UserSettings {
    UserSettings {
        sysroot_location: Some("/sr".to_string()),
        llvm_location: LlvmLocation::FromPath("/t".to_string()),
        extra_compiler_flags: vec![],
        extra_linker_flags: vec![],
        force_wasm_opt: false,
        wasm_opt_flags: vec![],
        module_kind: None,
        wasm_exceptions: false,
        pic: false,
    }
}

fn strings(xs: &[&str]) -> Vec<String> {
    xs.iter().map(|x| x.to_string()).collect()
}

#[test]
fn zero_inputs_pass_through_verbatim() {
    let args = strings(&["-dumpmachine"]);
    let cmds = run_compiler(args, base_settings(), false, "/tmp0".to_string()).unwrap();
    assert_eq!(cmds.len(), 1);
    assert_eq!(cmds[0].program, "/t/clang");
    assert_eq!(cmds[0].args, strings(&["-dumpmachine"]));
}

#[test]
fn zero_inputs_pass_through_uses_cxx_compiler() {
    let args = strings(&["--version"]);
    let cmds = run_compiler(args, base_settings(), true, "/tmp0".to_string()).unwrap();
    assert_eq!(cmds.len(), 1);
    assert_eq!(cmds[0].program, "/t/clang++");
    assert_eq!(cmds[0].args, strings(&["--version"]));
}

#[test]
fn static_main_pipeline_commands() {
    let args = strings(&["in.c", "-o", "app"]);
    let cmds = run_compiler(args, base_settings(), false, "/tmp0".to_string()).unwrap();
    assert_eq!(cmds.len(), 2);

    assert_eq!(cmds[0].program, "/t/clang");
    assert_eq!(
        cmds[0].args,
        strings(&[
            "--sysroot",
            "/sr",
            "--target=wasm32-wasi",
            "-c",
            "-matomics",
            "-mbulk-memory",
            "-mmutable-globals",
            "-pthread",
            "-mthread-model",
            "posix",
            "-fno-trapping-math",
            "-D_WASI_EMULATED_MMAN",
            "-D_WASI_EMULATED_SIGNAL",
            "-D_WASI_EMULATED_PROCESS_CLOCKS",
            "-ftls-model=local-exec",
            "-g",
            "in.c",
            "-o",
            "/tmp0/in.c.0.o",
        ])
    );

    assert_eq!(cmds[1].program, "/t/wasm-ld");
    assert_eq!(
        cmds[1].args,
        strings(&[
            "--extra-features=atomics",
            "--extra-features=bulk-memory",
            "--extra-features=mutable-globals",
            "--shared-memory",
            "--max-memory=4294967296",
            "--import-memory",
            "--export-dynamic",
            "--export=__wasm_call_ctors",
            "--export=__wasm_init_tls",
            "--export=__wasm_signal",
            "--export=__tls_size",
            "--export=__tls_align",
            "--export=__tls_base",
            "--export-if-defined=__stack_pointer",
            "--export-if-defined=__heap_base",
            "--export-if-defined=__data_end",
            "-L/sr/lib",
            "-L/sr/lib/wasm32-wasi",
            "-lwasi-emulated-mman",
            "-lc",
            "-lresolv",
            "-lrt",
            "-lm",
            "-lpthread",
            "-lutil",
            "-z",
            "stack-size=8388608",
            "/tmp0/in.c.0.o",
            "/sr/lib/wasm32-wasi/crt1.o",
            "-o",
            "app",
        ])
    );
}

#[test]
fn objects_for_same_base_name_are_numbered() {
    let args = strings(&["a/x.c", "b/x.c", "-o", "app"]);
    let cmds = run_compiler(args, base_settings(), false, "/tmp0".to_string()).unwrap();
    assert_eq!(cmds.len(), 3);
    assert_eq!(cmds[0].args.last().unwrap(), "/tmp0/x.c.0.o");
    assert_eq!(cmds[1].args.last().unwrap(), "/tmp0/x.c.1.o");
    // the link stage sees both objects, in input order
    let link = &cmds[2];
    assert!(link.args.contains(&"/tmp0/x.c.0.o".to_string()));
    assert!(link.args.contains(&"/tmp0/x.c.1.o".to_string()));
}

#[test]
fn object_file_kind_compiles_everything_at_once() {
    let args = strings(&["-c", "a.c", "b.c"]);
    let cmds = run_compiler(args, base_settings(), false, "/tmp0".to_string()).unwrap();
    assert_eq!(cmds.len(), 1);
    assert_eq!(cmds[0].program, "/t/clang");
    let n = cmds[0].args.len();
    // all inputs in one invocation, producing the default object output
    assert_eq!(&cmds[0].args[n - 4..], &strings(&["a.c", "b.c", "-o", "a.o"])[..]);
}

#[test]
fn wasm_opt_runs_with_opt_level_and_debug_flag() {
    let mut settings = base_settings();
    settings.wasm_exceptions = true;
    let args = strings(&["-O2", "-g2", "in.c", "-o", "app"]);
    let cmds = run_compiler(args, settings, false, "/tmp0".to_string()).unwrap();
    assert_eq!(cmds.len(), 3);
    let opt = &cmds[2];
    assert_eq!(opt.program, "wasm-opt");
    assert_eq!(
        opt.args,
        strings(&["--experimental-new-eh", "-O2", "-g", "app", "-o", "app"])
    );
}

#[test]
fn wasm_opt_skipped_when_it_would_do_nothing() {
    // optimization level zero passes no flag, so with nothing else to
    // pass the optimizer stage is skipped entirely
    let args = strings(&["-O0", "in.c", "-o", "app"]);
    let cmds = run_compiler(args, base_settings(), false, "/tmp0".to_string()).unwrap();
    assert_eq!(cmds.len(), 2);
}

#[test]
fn no_wasm_opt_flag_disables_the_stage() {
    let args = strings(&["-O3", "--no-wasm-opt", "in.c", "-o", "app"]);
    let cmds = run_compiler(args, base_settings(), false, "/tmp0".to_string()).unwrap();
    assert_eq!(cmds.len(), 2);
    // the stage-disabling flag is not forwarded to the compiler
    assert!(!cmds[0].args.contains(&"--no-wasm-opt".to_string()));
    assert!(cmds[0].args.contains(&"-O3".to_string()));
}

#[test]
fn exception_flags_forwarding() {
    let args = strings(&["-fwasm-exceptions", "in.c", "-o", "app"]);
    let cmds = run_compiler(args, base_settings(), false, "/tmp0".to_string()).unwrap();
    // interpreted only: the driver injects its own exception flag instead
    let compile = &cmds[0];
    assert_eq!(
        compile.args.iter().filter(|a| *a == "-fwasm-exceptions").count(),
        1
    );
    let link = &cmds[1];
    assert!(link.args.contains(&"-mllvm".to_string()));
    assert!(link.args.contains(&"--wasm-enable-sjlj".to_string()));
}

#[test]
fn missing_sysroot_is_a_configuration_error() {
    let mut settings = base_settings();
    settings.sysroot_location = None;
    let err =
        run_compiler(strings(&["in.c"]), settings, false, "/tmp0".to_string()).unwrap_err();
    assert_eq!(err, DriverError::MissingSysroot);
}

#[test]
fn cxx_invocations_suppress_native_exceptions_and_add_cxx_libs() {
    let args = strings(&["in.cpp", "-o", "app"]);
    let cmds = run_compiler(args, base_settings(), true, "/tmp0".to_string()).unwrap();
    assert_eq!(cmds[0].program, "/t/clang++");
    assert!(cmds[0].args.contains(&"-fno-exceptions".to_string()));
    assert!(cmds[1].args.contains(&"-lc++".to_string()));
    assert!(cmds[1].args.contains(&"-lc++abi".to_string()));
}

#[test]
fn pic_kinds_get_position_independent_flags() {
    let mut settings = base_settings();
    settings.module_kind = Some(ModuleKind::SharedLibrary);
    let cmds = run_compiler(
        strings(&["in.c", "-o", "lib.so"]),
        settings,
        false,
        "/tmp0".to_string(),
    )
    .unwrap();
    assert!(cmds[0].args.contains(&"-fPIC".to_string()));
    assert!(cmds[0].args.contains(&"-ftls-model=global-dynamic".to_string()));
    assert!(cmds[0].args.contains(&"-fvisibility=default".to_string()));
    assert!(!cmds[0].args.contains(&"-ftls-model=local-exec".to_string()));
    let link = &cmds[1];
    assert!(link.args.contains(&"--experimental-pic".to_string()));
    assert!(link.args.contains(&"-shared".to_string()));
    assert!(link.args.contains(&"--no-entry".to_string()));
    assert!(link.args.contains(&"--unresolved-symbols=import-dynamic".to_string()));
    // a shared library is not an executable: no base libraries
    assert!(!link.args.contains(&"-lc".to_string()));
    assert!(link.args.contains(&"/sr/lib/wasm32-wasi/scrt1.o".to_string()));
}

#[test]
fn link_only_shared_library() {
    let args = strings(&["-o", "out.wasm", "-shared", "-m", "module", "mod.wasm"]);
    let cmds = run_linker(args, base_settings()).unwrap();
    assert_eq!(cmds.len(), 1);
    let link = &cmds[0];
    assert_eq!(link.program, "/t/wasm-ld");
    assert_eq!(
        link.args,
        strings(&[
            "-shared",
            "-m",
            "module",
            "--extra-features=atomics",
            "--extra-features=bulk-memory",
            "--extra-features=mutable-globals",
            "--shared-memory",
            "--max-memory=4294967296",
            "--import-memory",
            "--export-dynamic",
            "--export=__wasm_call_ctors",
            "--export=__wasm_init_tls",
            "--export=__wasm_signal",
            "--export=__tls_size",
            "--export=__tls_align",
            "--export=__tls_base",
            "--experimental-pic",
            "--export-if-defined=__wasm_apply_data_relocs",
            "-shared",
            "--no-entry",
            "--unresolved-symbols=import-dynamic",
            "mod.wasm",
            "/sr/lib/wasm32-wasi/scrt1.o",
            "-o",
            "out.wasm",
        ])
    );
}

#[test]
fn link_only_rejects_object_file_kind() {
    let mut settings = base_settings();
    settings.module_kind = Some(ModuleKind::ObjectFile);
    let err = run_linker(strings(&["mod.wasm"]), settings).unwrap_err();
    assert_eq!(err, DriverError::NotLinkable { kind: ModuleKind::ObjectFile });
    assert_eq!(
        err.message(),
        "Only binaries can be linked, current module kind is: object-file"
    );
}

#[test]
fn link_only_rejects_empty_input() {
    let err = run_linker(strings(&["-shared"]), base_settings()).unwrap_err();
    assert_eq!(err, DriverError::NoInput);
    assert_eq!(err.message(), "No input");
}

#[test]
fn link_only_forced_wasm_opt() {
    let mut settings = base_settings();
    settings.force_wasm_opt = true;
    settings.wasm_opt_flags = vec!["--strip-debug".to_string()];
    let cmds = run_linker(strings(&["-o", "out.wasm", "mod.wasm"]), settings).unwrap();
    assert_eq!(cmds.len(), 2);
    let opt = &cmds[1];
    assert_eq!(opt.program, "wasm-opt");
    assert_eq!(opt.args, strings(&["--strip-debug", "out.wasm", "-o", "out.wasm"]));
}

#[test]
fn passthrough_tools_forward_arguments_verbatim() {
    let settings = base_settings();
    let ar = run_ar(strings(&["rcs", "lib.a", "x.o"]), &settings);
    assert_eq!(ar.program, "/t/llvm-ar");
    assert_eq!(ar.args, strings(&["rcs", "lib.a", "x.o"]));

    let nm = run_nm(strings(&["lib.a"]), &settings);
    assert_eq!(nm.program, "/t/llvm-nm");
    assert_eq!(nm.args, strings(&["lib.a"]));

    let sys = UserSettings { llvm_location: LlvmLocation::FromSystem(20), ..base_settings() };
    let ranlib = run_ranlib(strings(&["lib.a"]), &sys);
    assert_eq!(ranlib.program, "llvm-ranlib-20");
    assert_eq!(ranlib.args, strings(&["lib.a"]));
}

#[test]
fn extra_flags_are_injected_between_fixed_and_forwarded() {
    let mut settings = base_settings();
    settings.extra_compiler_flags = vec!["-DX=1".to_string()];
    settings.extra_linker_flags = vec!["--verbose".to_string()];
    let cmds = run_compiler(
        strings(&["-O1", "in.c", "-o", "app"]),
        settings,
        false,
        "/tmp0".to_string(),
    )
    .unwrap();
    let compile = &cmds[0];
    let dpos = compile.args.iter().position(|a| a == "-DX=1").unwrap();
    let opos = compile.args.iter().position(|a| a == "-O1").unwrap();
    assert!(dpos < opos);
    assert!(cmds[1].args.contains(&"--verbose".to_string()));
}

#[test]
fn dynamic_main_link_flags() {
    let mut settings = base_settings();
    settings.module_kind = Some(ModuleKind::DynamicMain);
    let cmds = run_compiler(
        strings(&["in.c", "-o", "app"]),
        settings,
        false,
        "/tmp0".to_string(),
    )
    .unwrap();
    let link = &cmds[1];
    assert!(link.args.contains(&"--whole-archive".to_string()));
    assert!(link.args.contains(&"--export-all".to_string()));
    assert!(link.args.contains(&"--no-whole-archive".to_string()));
    assert!(link.args.contains(&"-pie".to_string()));
    assert!(link.args.contains(&"-lcommon-tag-stubs".to_string()));
    assert!(link.args.contains(&"/sr/lib/wasm32-wasi/crt1.o".to_string()));
}
