use wasixcc::compiler::ModuleKind;
use wasixcc::error::DriverError;
use wasixcc::settings::{
    gather_user_settings, read_bool_user_setting, read_string_list_user_setting,
    separate_user_settings_args, try_get_user_setting_value, EnvVar, LlvmLocation,
};

fn env(pairs: &[(&str, &str)]) -> Vec<EnvVar> {
    pairs
        .iter()
        .map(|(n, v)| EnvVar { name: n.to_string(), value: v.to_string() })
        .collect()
}

#[test]
fn test_read_string_list_user_setting() {
    let value = "a:b\\:c:d";
    let list = read_string_list_user_setting(value);
    assert_eq!(list, vec!["a", "b:c", "d"]);
}

#[test]
fn test_read_bool_user_setting() {
    assert_eq!(read_bool_user_setting("1"), Some(true));
    assert_eq!(read_bool_user_setting("true"), Some(true));
    assert_eq!(read_bool_user_setting("Yes"), Some(true));
    assert_eq!(read_bool_user_setting("0"), Some(false));
    assert_eq!(read_bool_user_setting("false"), Some(false));
    assert_eq!(read_bool_user_setting("No"), Some(false));
    assert_eq!(read_bool_user_setting("invalid"), None);
}

#[test]
fn test_separate_user_settings_args() {
    let args = vec![
        "-sA=1".to_string(),
        "-c".to_string(),
        "-sB=2".to_string(),
        "file.c".to_string(),
    ];
    let (settings, rest) = separate_user_settings_args(args.clone());
    assert_eq!(settings, vec!["-sA=1".to_string(), "-sB=2".to_string()]);
    assert_eq!(rest, vec!["-c".to_string(), "file.c".to_string()]);
}

#[test]
fn test_try_get_user_setting_value_arg_and_env() {
    let args = vec!["-sFOO=bar".to_string()];
    let got = try_get_user_setting_value("FOO", &args, &env(&[]));
    assert_eq!(got, Some("bar".to_string()));
    // fallback to the environment snapshot
    let args2: Vec<String> = Vec::new();
    let got2 = try_get_user_setting_value("FOO", &args2, &env(&[("WASIXCC_FOO", "baz")]));
    assert_eq!(got2, Some("baz".to_string()));
}

#[test]
fn test_gather_user_settings() {
    let args = vec![
        "-sSYSROOT=/sys".to_string(),
        "-sCOMPILER_FLAGS=a:b".to_string(),
        "-sLINKER_FLAGS=x:y".to_string(),
        "-sFORCE_WASM_OPT=1".to_string(),
        "-sWASM_OPT_FLAGS=m:n".to_string(),
        "-sMODULE_KIND=shared-library".to_string(),
        "-sWASM_EXCEPTIONS=yes".to_string(),
        "-sPIC=false".to_string(),
    ];
    let settings = gather_user_settings(&args, &env(&[])).unwrap();
    assert_eq!(settings.sysroot_location, Some("/sys".to_string()));
    assert_eq!(
        settings.extra_compiler_flags,
        vec!["a".to_string(), "b".to_string()]
    );
    assert_eq!(
        settings.extra_linker_flags,
        vec!["x".to_string(), "y".to_string()]
    );
    assert!(settings.force_wasm_opt);
    assert_eq!(
        settings.wasm_opt_flags,
        vec!["m".to_string(), "n".to_string()]
    );
    assert_eq!(settings.module_kind, Some(ModuleKind::SharedLibrary));
    assert!(settings.wasm_exceptions);
    assert!(!settings.pic);
}

#[test]
fn arg_setting_takes_precedence_over_env() {
    let args = vec!["-sFOO=fromarg".to_string()];
    let got = try_get_user_setting_value("FOO", &args, &env(&[("WASIXCC_FOO", "fromenv")]));
    assert_eq!(got, Some("fromarg".to_string()));
}

#[test]
fn first_matching_arg_wins() {
    let args = vec!["-sFOO=one".to_string(), "-sFOO=two".to_string()];
    let got = try_get_user_setting_value("FOO", &args, &env(&[]));
    assert_eq!(got, Some("one".to_string()));
}

#[test]
fn setting_value_stops_at_second_equals_sign() {
    let args = vec!["-sFOO=a=b".to_string()];
    let got = try_get_user_setting_value("FOO", &args, &env(&[]));
    assert_eq!(got, Some("a".to_string()));
}

#[test]
fn bool_tokens_any_letter_case() {
    for v in ["1", "true", "TRUE", "True", "tRuE", "yes", "YES", "yEs"] {
        assert_eq!(read_bool_user_setting(v), Some(true), "value {v}");
    }
    for v in ["0", "false", "FALSE", "FaLsE", "no", "NO", "nO"] {
        assert_eq!(read_bool_user_setting(v), Some(false), "value {v}");
    }
    for v in ["", "2", "truth", "yess", "on", "off", "nope"] {
        assert_eq!(read_bool_user_setting(v), None, "value {v}");
    }
}

#[test]
fn string_list_drops_empty_and_whitespace_segments() {
    assert_eq!(read_string_list_user_setting("a::b"), vec!["a", "b"]);
    assert_eq!(read_string_list_user_setting(":a:"), vec!["a"]);
    assert_eq!(read_string_list_user_setting(" a :  : b "), vec!["a", "b"]);
    assert_eq!(read_string_list_user_setting(""), Vec::<String>::new());
    assert_eq!(read_string_list_user_setting(" :  : "), Vec::<String>::new());
}

#[test]
fn string_list_escape_handling() {
    assert_eq!(read_string_list_user_setting("a\\:b"), vec!["a:b"]);
    assert_eq!(read_string_list_user_setting("a\\xb"), vec!["a\\xb"]);
    assert_eq!(read_string_list_user_setting("ab\\"), vec!["ab\\"]);
}

#[test]
fn gather_rejects_bad_boolean() {
    let args = vec!["-sFORCE_WASM_OPT=maybe".to_string()];
    let err = gather_user_settings(&args, &env(&[])).unwrap_err();
    assert_eq!(
        err,
        DriverError::InvalidBoolSetting {
            name: "FORCE_WASM_OPT".to_string(),
            value: "maybe".to_string(),
        }
    );
    assert_eq!(err.message(), "Invalid value maybe for FORCE_WASM_OPT");
}

#[test]
fn gather_rejects_unknown_module_kind() {
    let args = vec!["-sMODULE_KIND=plugin".to_string()];
    let err = gather_user_settings(&args, &env(&[])).unwrap_err();
    assert_eq!(err, DriverError::UnknownModuleKind { value: "plugin".to_string() });
    assert_eq!(err.message(), "Unknown module kind: plugin");
}

#[test]
fn gather_defaults() {
    let settings = gather_user_settings(&Vec::new(), &env(&[])).unwrap();
    assert_eq!(settings.sysroot_location, None);
    assert_eq!(settings.llvm_location, LlvmLocation::FromSystem(20));
    assert!(settings.extra_compiler_flags.is_empty());
    assert!(settings.extra_linker_flags.is_empty());
    assert!(!settings.force_wasm_opt);
    assert!(settings.wasm_opt_flags.is_empty());
    assert_eq!(settings.module_kind, None);
    assert!(!settings.wasm_exceptions);
    assert!(!settings.pic);
}

#[test]
fn gather_reads_environment_snapshot() {
    let settings = gather_user_settings(
        &Vec::new(),
        &env(&[("WASIXCC_SYSROOT", "/es"), ("WASIXCC_PIC", "yes")]),
    )
    .unwrap();
    assert_eq!(settings.sysroot_location, Some("/es".to_string()));
    assert!(settings.pic);
}

#[test]
fn tool_path_from_directory_and_from_system() {
    let from_path = LlvmLocation::FromPath("/opt/llvm/bin".to_string());
    assert_eq!(from_path.get_tool_path("clang"), "/opt/llvm/bin/clang");
    let trailing = LlvmLocation::FromPath("/opt/llvm/bin/".to_string());
    assert_eq!(trailing.get_tool_path("clang"), "/opt/llvm/bin/clang");
    let from_system = LlvmLocation::FromSystem(20);
    assert_eq!(from_system.get_tool_path("clang"), "clang-20");
    assert_eq!(LlvmLocation::FromSystem(0).get_tool_path("llvm-ar"), "llvm-ar-0");
    assert_eq!(
        LlvmLocation::FromSystem(4294967295).get_tool_path("x"),
        "x-4294967295"
    );
}
