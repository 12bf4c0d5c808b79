use wasixcc::compiler::{
    deduce_module_kind, prepare_compiler_args, prepare_linker_args, update_build_settings_from_arg,
    BuildSettings, DebugLevel, ModuleKind, OptLevel,
};
use wasixcc::error::DriverError;
use wasixcc::settings::{LlvmLocation, UserSettings};

fn fresh_settings() -> UserSettings {
    UserSettings {
        sysroot_location: None,
        llvm_location: LlvmLocation::FromSystem(0),
        extra_compiler_flags: vec![],
        extra_linker_flags: vec![],
        force_wasm_opt: false,
        wasm_opt_flags: vec![],
        module_kind: None,
        wasm_exceptions: false,
        pic: false,
    }
}

fn strings(xs: &[&str]) -> Vec<String> {
    xs.iter().map(|x| x.to_string()).collect()
}

#[test]
fn test_deduce_module_kind() {
    assert_eq!(deduce_module_kind("o"), Some(ModuleKind::ObjectFile));
    assert_eq!(deduce_module_kind("so"), Some(ModuleKind::SharedLibrary));
    assert_eq!(deduce_module_kind("unknown"), None);
}

#[test]
fn test_update_build_settings_from_arg() {
    let mut bs = BuildSettings {
        opt_level: OptLevel::O0,
        debug_level: DebugLevel::Off,
        use_wasm_opt: true,
    };
    let mut us = fresh_settings();
    assert!(update_build_settings_from_arg("-O3", &mut bs, &mut us).unwrap());
    assert_eq!(bs.opt_level, OptLevel::O3);
    assert!(update_build_settings_from_arg("-g1", &mut bs, &mut us).unwrap());
    assert_eq!(bs.debug_level, DebugLevel::G1);
    assert!(!update_build_settings_from_arg("--no-wasm-opt", &mut bs, &mut us).unwrap());
    assert!(!update_build_settings_from_arg("-fwasm-exceptions", &mut bs, &mut us).unwrap());
    assert!(us.wasm_exceptions);
    assert!(update_build_settings_from_arg("-fno-wasm-exceptions", &mut bs, &mut us).unwrap());
    assert!(!us.wasm_exceptions);
}

#[test]
fn test_prepare_compiler_args_and_build_settings() {
    let mut us = fresh_settings();
    let args = strings(&[
        "-O2",
        "-g0",
        "-fwasm-exceptions",
        "--no-wasm-opt",
        "-Wl,-foo,bar",
        "-Xlinker",
        "baz",
        "-z",
        "zo",
        "-o",
        "out",
        "in.c",
        "lib.o",
    ]);
    let (pa, bs) = prepare_compiler_args(args, &mut us).unwrap();
    assert_eq!(bs.opt_level, OptLevel::O2);
    assert_eq!(bs.debug_level, DebugLevel::G0);
    assert!(!bs.use_wasm_opt);
    assert!(us.wasm_exceptions);
    assert_eq!(pa.compiler_args, vec!["-O2".to_string(), "-g0".to_string()]);
    assert_eq!(
        pa.linker_args,
        vec![
            "-foo".to_string(),
            "bar".to_string(),
            "baz".to_string(),
            "-z".to_string(),
            "zo".to_string()
        ]
    );
    assert_eq!(pa.output, Some("out".to_string()));
    assert_eq!(pa.compiler_inputs, vec!["in.c".to_string()]);
    assert_eq!(pa.linker_inputs, vec!["lib.o".to_string()]);
}

#[test]
fn test_prepare_linker_args() {
    let mut us = fresh_settings();
    let args = strings(&["-o", "out.wasm", "-shared", "-m", "module", "mod.wasm"]);
    let pa = prepare_linker_args(args, &mut us).unwrap();
    assert_eq!(pa.output, Some("out.wasm".to_string()));
    assert_eq!(
        pa.linker_args,
        vec![
            "-shared".to_string(),
            "-m".to_string(),
            "module".to_string()
        ]
    );
    assert_eq!(pa.linker_inputs, vec!["mod.wasm".to_string()]);
    assert_eq!(us.module_kind, Some(ModuleKind::SharedLibrary));
}

#[test]
fn wl_splits_at_first_comma_only() {
    let mut us = fresh_settings();
    let (pa, _) = prepare_compiler_args(strings(&["-Wl,a,b"]), &mut us).unwrap();
    assert_eq!(pa.linker_args, vec!["a".to_string(), "b".to_string()]);

    let mut us = fresh_settings();
    let (pa, _) = prepare_compiler_args(strings(&["-Wl,a"]), &mut us).unwrap();
    assert_eq!(pa.linker_args, vec!["a".to_string()]);

    let mut us = fresh_settings();
    let (pa, _) = prepare_compiler_args(strings(&["-Wl,a,b,c"]), &mut us).unwrap();
    assert_eq!(pa.linker_args, vec!["a".to_string(), "b,c".to_string()]);
}

#[test]
fn trailing_flag_needing_argument_fails_naming_it() {
    for flag in ["-Xlinker", "-z", "-o"] {
        let mut us = fresh_settings();
        let err = prepare_compiler_args(strings(&[flag]), &mut us).unwrap_err();
        assert_eq!(err, DriverError::MissingArgument { flag: flag.to_string() });
        assert_eq!(err.message(), format!("Expected argument after {flag}"));
    }
    let mut us = fresh_settings();
    let err = prepare_linker_args(strings(&["-o"]), &mut us).unwrap_err();
    assert_eq!(err, DriverError::MissingArgument { flag: "-o".to_string() });
}

#[test]
fn consuming_flag_eats_following_flag_token() {
    // "-z" always consumes the next token, so a final "-o" here is an
    // argument, not a flag, and no error arises.
    let mut us = fresh_settings();
    let (pa, _) = prepare_compiler_args(strings(&["-z", "-o"]), &mut us).unwrap();
    assert_eq!(pa.linker_args, vec!["-z".to_string(), "-o".to_string()]);
    assert_eq!(pa.output, None);
}

#[test]
fn explicit_module_kind_is_never_overridden() {
    let mut us = fresh_settings();
    us.module_kind = Some(ModuleKind::StaticMain);
    let (_, _) = prepare_compiler_args(
        strings(&["-o", "lib.so", "-shared", "in.c"]),
        &mut us,
    )
    .unwrap();
    assert_eq!(us.module_kind, Some(ModuleKind::StaticMain));

    let mut us = fresh_settings();
    us.module_kind = Some(ModuleKind::DynamicMain);
    let _ = prepare_linker_args(strings(&["-o", "x.o", "-shared", "a.wasm"]), &mut us).unwrap();
    assert_eq!(us.module_kind, Some(ModuleKind::DynamicMain));
}

#[test]
fn output_extension_infers_module_kind() {
    let mut us = fresh_settings();
    let _ = prepare_compiler_args(strings(&["-o", "lib.so"]), &mut us).unwrap();
    assert_eq!(us.module_kind, Some(ModuleKind::SharedLibrary));

    let mut us = fresh_settings();
    let _ = prepare_compiler_args(strings(&["-o", "thing.o"]), &mut us).unwrap();
    assert_eq!(us.module_kind, Some(ModuleKind::ObjectFile));

    let mut us = fresh_settings();
    let _ = prepare_compiler_args(strings(&["-o", "app.wasm"]), &mut us).unwrap();
    assert_eq!(us.module_kind, None);
    assert_eq!(us.module_kind(), ModuleKind::StaticMain);

    let mut us = fresh_settings();
    let _ = prepare_compiler_args(strings(&["-o", "noext"]), &mut us).unwrap();
    assert_eq!(us.module_kind, None);
}

#[test]
fn forwarded_flags_infer_module_kind() {
    let mut us = fresh_settings();
    let _ = prepare_compiler_args(strings(&["-c", "in.c"]), &mut us).unwrap();
    assert_eq!(us.module_kind, Some(ModuleKind::ObjectFile));

    let mut us = fresh_settings();
    let _ = prepare_compiler_args(strings(&["-shared", "in.c"]), &mut us).unwrap();
    assert_eq!(us.module_kind, Some(ModuleKind::SharedLibrary));

    // compiler-flag inference takes priority over linker-flag inference
    let mut us = fresh_settings();
    let _ = prepare_compiler_args(strings(&["-Wl,-pie", "-c", "in.c"]), &mut us).unwrap();
    assert_eq!(us.module_kind, Some(ModuleKind::ObjectFile));

    let mut us = fresh_settings();
    let _ = prepare_compiler_args(strings(&["-Wl,-pie", "in.c"]), &mut us).unwrap();
    assert_eq!(us.module_kind, Some(ModuleKind::DynamicMain));

    let mut us = fresh_settings();
    let _ = prepare_linker_args(strings(&["-pie", "a.wasm"]), &mut us).unwrap();
    assert_eq!(us.module_kind, Some(ModuleKind::DynamicMain));
}

#[test]
fn invalid_level_suffixes_are_rejected() {
    let mut us = fresh_settings();
    let err = prepare_compiler_args(strings(&["-Oq"]), &mut us).unwrap_err();
    assert_eq!(err, DriverError::InvalidArgument { arg: "-Oq".to_string() });
    assert_eq!(err.message(), "Invalid argument: -Oq");

    let mut us = fresh_settings();
    let err = prepare_compiler_args(strings(&["-ggdb"]), &mut us).unwrap_err();
    assert_eq!(err, DriverError::InvalidArgument { arg: "-ggdb".to_string() });
}

#[test]
fn bare_debug_flag_means_level_two() {
    let mut bs = BuildSettings {
        opt_level: OptLevel::O0,
        debug_level: DebugLevel::Off,
        use_wasm_opt: true,
    };
    let mut us = fresh_settings();
    assert!(update_build_settings_from_arg("-g", &mut bs, &mut us).unwrap());
    assert_eq!(bs.debug_level, DebugLevel::G2);
    for (arg, lvl) in [
        ("-O0", OptLevel::O0),
        ("-O1", OptLevel::O1),
        ("-O2", OptLevel::O2),
        ("-O3", OptLevel::O3),
        ("-O4", OptLevel::O4),
        ("-Os", OptLevel::Os),
        ("-Oz", OptLevel::Oz),
    ] {
        assert!(update_build_settings_from_arg(arg, &mut bs, &mut us).unwrap());
        assert_eq!(bs.opt_level, lvl);
    }
}

#[test]
fn flags_with_arguments_consume_the_next_token() {
    let mut us = fresh_settings();
    let (pa, _) = prepare_compiler_args(
        strings(&["-I", "dir", "-D", "NAME=1", "in.c"]),
        &mut us,
    )
    .unwrap();
    assert_eq!(
        pa.compiler_args,
        vec![
            "-I".to_string(),
            "dir".to_string(),
            "-D".to_string(),
            "NAME=1".to_string()
        ]
    );
    assert_eq!(pa.compiler_inputs, vec!["in.c".to_string()]);
}

#[test]
fn classification_is_idempotent() {
    let args = strings(&[
        "-O2",
        "-g",
        "-Wl,-x,y",
        "-fwasm-exceptions",
        "-I",
        "dir",
        "-o",
        "lib.so",
        "a.c",
        "b.o",
    ]);
    let mut us1 = fresh_settings();
    let r1 = prepare_compiler_args(args.clone(), &mut us1).unwrap();
    let mut us2 = fresh_settings();
    let r2 = prepare_compiler_args(args, &mut us2).unwrap();
    assert_eq!(r1.0, r2.0);
    assert_eq!(r1.1, r2.1);
    assert_eq!(us1, us2);
}
