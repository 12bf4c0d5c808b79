//! Classification of the raw argument list: which tokens are driver
//! control flags, which are forwarded to the compiler or the linker,
//! which are input files, and what they imply for the build settings
//! and the module kind.

use vstd::prelude::*;

use crate::error::{DriverError, DriverErrorView};
use crate::settings::UserSettings;
use crate::strutil::{
    ends_with, find_char, find_in_str, has_prefix, has_suffix, rfind_char, rfind_in_str,
    starts_with, str_eq, str_views,
};

verus! {

/// The kind of artifact being produced.
#[derive(Debug, Clone, Copy, PartialEq, Eq, Structural)]
pub enum ModuleKind {
    /// An executable whose imports are resolved statically.
    StaticMain,
    /// A position-independent executable, relocatable at load time.
    DynamicMain,
    /// A shared library.
    SharedLibrary,
    /// A relocatable object file.
    ObjectFile,
}

impl ModuleKind {
    pub open spec fn spec_requires_pic(&self) -> bool {
        matches!(self, ModuleKind::DynamicMain | ModuleKind::SharedLibrary)
    }

    /// Whether the kind needs position-independent code.
    #[verifier::when_used_as_spec(spec_requires_pic)]
    pub fn requires_pic(&self) -> (r: bool)
        ensures
            r == self.spec_requires_pic(),
    {
        matches!(self, ModuleKind::DynamicMain | ModuleKind::SharedLibrary)
    }

    pub open spec fn spec_is_binary(&self) -> bool {
        matches!(
            self,
            ModuleKind::StaticMain | ModuleKind::DynamicMain | ModuleKind::SharedLibrary,
        )
    }

    /// Whether the kind is a linkable binary (everything but an object
    /// file).
    #[verifier::when_used_as_spec(spec_is_binary)]
    pub fn is_binary(&self) -> (r: bool)
        ensures
            r == self.spec_is_binary(),
    {
        matches!(
            self,
            ModuleKind::StaticMain | ModuleKind::DynamicMain | ModuleKind::SharedLibrary,
        )
    }

    pub open spec fn spec_is_executable(&self) -> bool {
        matches!(self, ModuleKind::StaticMain | ModuleKind::DynamicMain)
    }

    /// Whether the kind is an executable.
    #[verifier::when_used_as_spec(spec_is_executable)]
    pub fn is_executable(&self) -> (r: bool)
        ensures
            r == self.spec_is_executable(),
    {
        matches!(self, ModuleKind::StaticMain | ModuleKind::DynamicMain)
    }

    /// The kind's name, as spelled in the MODULE_KIND setting.
    pub open spec fn spec_name(&self) -> Seq<char> {
        match self {
            ModuleKind::StaticMain => "static-main"@,
            ModuleKind::DynamicMain => "dynamic-main"@,
            ModuleKind::SharedLibrary => "shared-library"@,
            ModuleKind::ObjectFile => "object-file"@,
        }
    }

    /// The kind's name, as spelled in the MODULE_KIND setting.
    pub fn name(&self) -> (r: String)
        ensures
            r@ == self.spec_name(),
    {
        match self {
            ModuleKind::StaticMain => "static-main".to_owned(),
            ModuleKind::DynamicMain => "dynamic-main".to_owned(),
            ModuleKind::SharedLibrary => "shared-library".to_owned(),
            ModuleKind::ObjectFile => "object-file".to_owned(),
        }
    }
}

/// The optimization level requested on the command line.
#[derive(Debug, Clone, Copy, PartialEq, Eq, Structural)]
pub enum OptLevel {
    O0,
    O1,
    O2,
    O3,
    O4,
    Os,
    Oz,
}

/// The debug-info level requested on the command line.
#[derive(Debug, Clone, Copy, PartialEq, Eq, Structural)]
pub enum DebugLevel {
    Off,
    G0,
    G1,
    G2,
    G3,
}

/// Settings derived strictly from compiler flags.
#[derive(Debug, Clone, Copy, PartialEq, Eq, Structural)]
pub struct BuildSettings {
    pub opt_level: OptLevel,
    pub debug_level: DebugLevel,
    pub use_wasm_opt: bool,
}

/// The classified argument list.
#[derive(Debug, Clone, PartialEq, Eq)]
pub struct PreparedArgs {
    pub compiler_args: Vec<String>,
    pub linker_args: Vec<String>,
    pub compiler_inputs: Vec<String>,
    pub linker_inputs: Vec<String>,
    pub output: Option<String>,
}

/// The mathematical model of a `PreparedArgs`.
pub struct PreparedArgsView {
    pub compiler_args: Seq<Seq<char>>,
    pub linker_args: Seq<Seq<char>>,
    pub compiler_inputs: Seq<Seq<char>>,
    pub linker_inputs: Seq<Seq<char>>,
    pub output: Option<Seq<char>>,
}

impl View for PreparedArgs {
    type V = PreparedArgsView;

    open spec fn view(&self) -> PreparedArgsView {
        PreparedArgsView {
            compiler_args: str_views(self.compiler_args@),
            linker_args: str_views(self.linker_args@),
            compiler_inputs: str_views(self.compiler_inputs@),
            linker_inputs: str_views(self.linker_inputs@),
            output: match self.output {
                Some(ref p) => Some(p@),
                None => None,
            },
        }
    }
}

/// The compiler flags that consume the following token.
pub open spec fn is_clang_flag_with_arg(a: Seq<char>) -> bool {
    ||| a == "-MT"@
    ||| a == "-MF"@
    ||| a == "-MJ"@
    ||| a == "-MQ"@
    ||| a == "-D"@
    ||| a == "-U"@
    ||| a == "-o"@
    ||| a == "-x"@
    ||| a == "-Xpreprocessor"@
    ||| a == "-include"@
    ||| a == "-imacros"@
    ||| a == "-idirafter"@
    ||| a == "-iprefix"@
    ||| a == "-iwithprefix"@
    ||| a == "-iwithprefixbefore"@
    ||| a == "-isysroot"@
    ||| a == "-imultilib"@
    ||| a == "-A"@
    ||| a == "-isystem"@
    ||| a == "-iquote"@
    ||| a == "-install_name"@
    ||| a == "-compatibility_version"@
    ||| a == "-mllvm"@
    ||| a == "-mthread-model"@
    ||| a == "-current_version"@
    ||| a == "-I"@
    ||| a == "-l"@
    ||| a == "-L"@
    ||| a == "-include-pch"@
    ||| a == "-u"@
    ||| a == "-undefined"@
    ||| a == "-target"@
    ||| a == "-Xlinker"@
    ||| a == "-Xclang"@
    ||| a == "-z"@
}

/// Whether the compiler flag consumes the following token.
pub fn clang_flag_has_arg(arg: &str) -> (r: bool)
    ensures
        r == is_clang_flag_with_arg(arg@),
{
    str_eq(arg, "-MT") || str_eq(arg, "-MF") || str_eq(arg, "-MJ") || str_eq(arg, "-MQ") || str_eq(
        arg,
        "-D",
    ) || str_eq(arg, "-U") || str_eq(arg, "-o") || str_eq(arg, "-x") || str_eq(
        arg,
        "-Xpreprocessor",
    ) || str_eq(arg, "-include") || str_eq(arg, "-imacros") || str_eq(arg, "-idirafter") || str_eq(
        arg,
        "-iprefix",
    ) || str_eq(arg, "-iwithprefix") || str_eq(arg, "-iwithprefixbefore") || str_eq(
        arg,
        "-isysroot",
    ) || str_eq(arg, "-imultilib") || str_eq(arg, "-A") || str_eq(arg, "-isystem") || str_eq(
        arg,
        "-iquote",
    ) || str_eq(arg, "-install_name") || str_eq(arg, "-compatibility_version") || str_eq(
        arg,
        "-mllvm",
    ) || str_eq(arg, "-mthread-model") || str_eq(arg, "-current_version") || str_eq(arg, "-I")
        || str_eq(arg, "-l") || str_eq(arg, "-L") || str_eq(arg, "-include-pch") || str_eq(arg, "-u")
        || str_eq(arg, "-undefined") || str_eq(arg, "-target") || str_eq(arg, "-Xlinker") || str_eq(
        arg,
        "-Xclang",
    ) || str_eq(arg, "-z")
}

/// The linker flags that consume the following token.
pub open spec fn is_wasm_ld_flag_with_arg(a: Seq<char>) -> bool {
    ||| a == "-o"@
    ||| a == "-mllvm"@
    ||| a == "-L"@
    ||| a == "-l"@
    ||| a == "-m"@
    ||| a == "-O"@
    ||| a == "-y"@
    ||| a == "-z"@
}

/// Whether the linker flag consumes the following token.
pub fn wasm_ld_flag_has_arg(arg: &str) -> (r: bool)
    ensures
        r == is_wasm_ld_flag_with_arg(arg@),
{
    str_eq(arg, "-o") || str_eq(arg, "-mllvm") || str_eq(arg, "-L") || str_eq(arg, "-l") || str_eq(
        arg,
        "-m",
    ) || str_eq(arg, "-O") || str_eq(arg, "-y") || str_eq(arg, "-z")
}

/// The module kind implied by an output-file extension: `o` means an
/// object file, `so` a shared library, anything else implies nothing.
pub open spec fn spec_deduce_module_kind(ext: Seq<char>) -> Option<ModuleKind> {
    if ext == "o"@ {
        Some(ModuleKind::ObjectFile)
    } else if ext == "so"@ {
        Some(ModuleKind::SharedLibrary)
    } else {
        None
    }
}

/// The module kind implied by an output-file extension.
pub fn deduce_module_kind(extension: &str) -> (r: Option<ModuleKind>)
    ensures
        r == spec_deduce_module_kind(extension@),
{
    if str_eq(extension, "o") {
        Some(ModuleKind::ObjectFile)
    } else if str_eq(extension, "so") {
        Some(ModuleKind::SharedLibrary)
    } else {
        None
    }
}

broadcast use
    vstd::seq_lib::lemma_seq_skip_of_skip,
    vstd::seq_lib::lemma_seq_skip_index,
    crate::strutil::lemma_str_views_push,
    crate::strutil::lemma_str_views_len,
    crate::strutil::lemma_str_views_index;

/// The optimization level an `-O` suffix denotes, if any.
pub open spec fn spec_opt_level(suffix: Seq<char>) -> Option<OptLevel> {
    if suffix == "0"@ {
        Some(OptLevel::O0)
    } else if suffix == "1"@ {
        Some(OptLevel::O1)
    } else if suffix == "2"@ {
        Some(OptLevel::O2)
    } else if suffix == "3"@ {
        Some(OptLevel::O3)
    } else if suffix == "4"@ {
        Some(OptLevel::O4)
    } else if suffix == "s"@ {
        Some(OptLevel::Os)
    } else if suffix == "z"@ {
        Some(OptLevel::Oz)
    } else {
        None
    }
}

/// The debug level a `-g` suffix denotes, if any; a bare `-g` means
/// level 2.
pub open spec fn spec_debug_level(suffix: Seq<char>) -> Option<DebugLevel> {
    if suffix.len() == 0 {
        Some(DebugLevel::G2)
    } else if suffix == "0"@ {
        Some(DebugLevel::G0)
    } else if suffix == "1"@ {
        Some(DebugLevel::G1)
    } else if suffix == "2"@ {
        Some(DebugLevel::G2)
    } else if suffix == "3"@ {
        Some(DebugLevel::G3)
    } else {
        None
    }
}

/// What one flag does to the build settings: the updated build settings,
/// the updated exception-model toggle, and whether the flag stays in the
/// forwarded compiler arguments.
pub open spec fn spec_update_build_settings(arg: Seq<char>, bs: BuildSettings, wex: bool) -> Result<
    (BuildSettings, bool, bool),
    DriverErrorView,
> {
    if has_prefix(arg, "-O"@) {
        match spec_opt_level(arg.skip(2)) {
            Some(l) => Ok(((BuildSettings { opt_level: l, ..bs }), wex, true)),
            None => Err((DriverErrorView::InvalidArgument { arg: arg })),
        }
    } else if has_prefix(arg, "-g"@) {
        match spec_debug_level(arg.skip(2)) {
            Some(l) => Ok(((BuildSettings { debug_level: l, ..bs }), wex, true)),
            None => Err((DriverErrorView::InvalidArgument { arg: arg })),
        }
    } else if arg == "-fwasm-exceptions"@ {
        Ok((bs, true, false))
    } else if arg == "-fno-wasm-exceptions"@ {
        Ok((bs, false, true))
    } else if arg == "--no-wasm-opt"@ {
        Ok(((BuildSettings { use_wasm_opt: false, ..bs }), wex, false))
    } else {
        Ok((bs, wex, true))
    }
}

/// Interprets one flag for the build settings.  The result says whether
/// the flag should stay in the forwarded compiler arguments.
pub fn update_build_settings_from_arg(
    arg: &str,
    build_settings: &mut BuildSettings,
    user_settings: &mut UserSettings,
) -> (r: Result<bool, DriverError>)
    ensures
        match spec_update_build_settings(
            arg@,
            *old(build_settings),
            old(user_settings).wasm_exceptions,
        ) {
            Ok((bs2, wex2, keep)) => r is Ok && r->Ok_0 == keep && *final(build_settings) == bs2
                && *final(user_settings) == (UserSettings {
                wasm_exceptions: wex2,
                ..*old(user_settings)
            }),
            Err(e) => r is Err && r->Err_0@ == e && *final(build_settings) == *old(build_settings)
                && *final(user_settings) == *old(user_settings),
        },
{
    let n = arg.unicode_len();
    proof {
        reveal_strlit("-O");
        reveal_strlit("-g");
    }
    if starts_with(arg, "-O") {
        let suffix = arg.substring_char(2, n);
        proof {
            assert(suffix@ =~= arg@.skip(2));
        }
        let lvl = if str_eq(suffix, "0") {
            Some(OptLevel::O0)
        } else if str_eq(suffix, "1") {
            Some(OptLevel::O1)
        } else if str_eq(suffix, "2") {
            Some(OptLevel::O2)
        } else if str_eq(suffix, "3") {
            Some(OptLevel::O3)
        } else if str_eq(suffix, "4") {
            Some(OptLevel::O4)
        } else if str_eq(suffix, "s") {
            Some(OptLevel::Os)
        } else if str_eq(suffix, "z") {
            Some(OptLevel::Oz)
        } else {
            None
        };
        match lvl {
            Some(l) => {
                build_settings.opt_level = l;
                Ok(true)
            },
            None => Err(DriverError::InvalidArgument { arg: arg.to_owned() }),
        }
    } else if starts_with(arg, "-g") {
        let suffix = arg.substring_char(2, n);
        proof {
            assert(suffix@ =~= arg@.skip(2));
        }
        let lvl = if suffix.unicode_len() == 0 {
            Some(DebugLevel::G2)
        } else if str_eq(suffix, "0") {
            Some(DebugLevel::G0)
        } else if str_eq(suffix, "1") {
            Some(DebugLevel::G1)
        } else if str_eq(suffix, "2") {
            Some(DebugLevel::G2)
        } else if str_eq(suffix, "3") {
            Some(DebugLevel::G3)
        } else {
            None
        };
        match lvl {
            Some(l) => {
                build_settings.debug_level = l;
                Ok(true)
            },
            None => Err(DriverError::InvalidArgument { arg: arg.to_owned() }),
        }
    } else if str_eq(arg, "-fwasm-exceptions") {
        user_settings.wasm_exceptions = true;
        Ok(false)
    } else if str_eq(arg, "-fno-wasm-exceptions") {
        user_settings.wasm_exceptions = false;
        Ok(true)
    } else if str_eq(arg, "--no-wasm-opt") {
        build_settings.use_wasm_opt = false;
        Ok(false)
    } else {
        Ok(true)
    }
}

/// The extension of the output path: the part of the last path component
/// after its last `.`, provided that dot is not the component's first
/// character.
pub open spec fn spec_extension(path: Seq<char>) -> Option<Seq<char>> {
    let base = path.skip(rfind_char(path, '/') + 1);
    let d = rfind_char(base, '.');
    if d > 0 {
        Some(base.skip(d + 1))
    } else {
        None
    }
}

/// The extension of the output path, if it has one.
fn path_extension(path: &str) -> (r: Option<String>)
    ensures
        match r {
            Some(e) => spec_extension(path@) == Some(e@),
            None => spec_extension(path@) is None,
        },
{
    let n = path.unicode_len();
    proof {
        crate::strutil::lemma_rfind_char(path@, '/');
    }
    let base = match rfind_in_str(path, '/') {
        Some(i) => path.substring_char(i + 1, n),
        None => path,
    };
    proof {
        assert(base@ =~= path@.skip(rfind_char(path@, '/') + 1));
        crate::strutil::lemma_rfind_char(base@, '.');
    }
    let m = base.unicode_len();
    match rfind_in_str(base, '.') {
        Some(d) => {
            if d > 0 {
                let e = base.substring_char(d + 1, m);
                proof {
                    assert(e@ =~= base@.skip(rfind_char(base@, '.') + 1));
                }
                Some(e.to_owned())
            } else {
                None
            }
        },
        None => None,
    }
}

/// The linker tokens carried by one `-Wl,` argument: the remainder is
/// split at its first comma into two tokens, or forwarded whole when it
/// has none.
pub open spec fn spec_wl_pieces(a: Seq<char>) -> Seq<Seq<char>> {
    let rest = a.skip(4);
    let j = find_char(rest, ',');
    if j >= 0 {
        seq![rest.take(j), rest.skip(j + 1)]
    } else {
        seq![rest]
    }
}

fn wl_pieces(arg: &str) -> (r: Vec<String>)
    requires
        has_prefix(arg@, "-Wl,"@),
    ensures
        str_views(r@) == spec_wl_pieces(arg@),
{
    let n = arg.unicode_len();
    proof {
        reveal_strlit("-Wl,");
    }
    let rest = arg.substring_char(4, n);
    proof {
        assert(rest@ =~= arg@.skip(4));
        crate::strutil::lemma_find_char(rest@, ',');
    }
    let mut r: Vec<String> = Vec::new();
    match find_in_str(rest, ',') {
        Some(j) => {
            let m = rest.unicode_len();
            let x = rest.substring_char(0, j);
            let y = rest.substring_char(j + 1, m);
            r.push(x.to_owned());
            r.push(y.to_owned());
            proof {
                let rv = arg@.skip(4);
                let jj = find_char(rv, ',');
                assert(x@ =~= rv.take(jj));
                assert(y@ =~= rv.skip(jj + 1));
                assert(str_views(r@) =~= spec_wl_pieces(arg@));
            }
        },
        None => {
            r.push(rest.to_owned());
            proof {
                assert(str_views(r@) =~= spec_wl_pieces(arg@));
            }
        },
    }
    r
}

/// The running state of the classifier: the classified arguments so far,
/// the build settings derived so far, and the two settings fields the
/// argument list may update.
pub struct ClassState {
    pub pa: PreparedArgsView,
    pub bs: BuildSettings,
    pub module_kind: Option<ModuleKind>,
    pub wasm_exceptions: bool,
}

/// The classifier's single left-to-right pass, consuming one or two
/// tokens per step.
pub open spec fn spec_classify(args: Seq<Seq<char>>, st: ClassState) -> Result<
    ClassState,
    DriverErrorView,
>
    decreases args.len(),
{
    if args.len() == 0 {
        Ok(st)
    } else {
        let a = args[0];
        if has_prefix(a, "-Wl,"@) {
            spec_classify(
                args.skip(1),
                ClassState {
                    pa: PreparedArgsView {
                        linker_args: st.pa.linker_args + spec_wl_pieces(a),
                        ..st.pa
                    },
                    ..st
                },
            )
        } else if a == "-Xlinker"@ {
            if args.len() == 1 {
                Err((DriverErrorView::MissingArgument { flag: a }))
            } else {
                spec_classify(
                    args.skip(2),
                    ClassState {
                        pa: PreparedArgsView {
                            linker_args: st.pa.linker_args.push(args[1]),
                            ..st.pa
                        },
                        ..st
                    },
                )
            }
        } else if a == "-z"@ {
            if args.len() == 1 {
                Err((DriverErrorView::MissingArgument { flag: a }))
            } else {
                spec_classify(
                    args.skip(2),
                    ClassState {
                        pa: PreparedArgsView {
                            linker_args: st.pa.linker_args + seq!["-z"@, args[1]],
                            ..st.pa
                        },
                        ..st
                    },
                )
            }
        } else if a == "-o"@ {
            if args.len() == 1 {
                Err((DriverErrorView::MissingArgument { flag: a }))
            } else {
                let out = args[1];
                let mk = if st.module_kind is None {
                    match spec_extension(out) {
                        Some(e) => spec_deduce_module_kind(e),
                        None => None,
                    }
                } else {
                    st.module_kind
                };
                spec_classify(
                    args.skip(2),
                    ClassState {
                        pa: PreparedArgsView { output: Some(out), ..st.pa },
                        module_kind: mk,
                        ..st
                    },
                )
            }
        } else if a.len() > 0 && a[0] == '-' {
            match spec_update_build_settings(a, st.bs, st.wasm_exceptions) {
                Err(e) => Err(e),
                Ok((bs2, wex2, keep)) => {
                    let st2 = ClassState { bs: bs2, wasm_exceptions: wex2, ..st };
                    if keep {
                        if is_clang_flag_with_arg(a) && args.len() >= 2 {
                            spec_classify(
                                args.skip(2),
                                ClassState {
                                    pa: PreparedArgsView {
                                        compiler_args: st2.pa.compiler_args + seq![a, args[1]],
                                        ..st2.pa
                                    },
                                    ..st2
                                },
                            )
                        } else {
                            spec_classify(
                                args.skip(1),
                                ClassState {
                                    pa: PreparedArgsView {
                                        compiler_args: st2.pa.compiler_args.push(a),
                                        ..st2.pa
                                    },
                                    ..st2
                                },
                            )
                        }
                    } else {
                        spec_classify(args.skip(1), st2)
                    }
                },
            }
        } else {
            if has_suffix(a, ".o"@) || has_suffix(a, ".a"@) {
                spec_classify(
                    args.skip(1),
                    ClassState {
                        pa: PreparedArgsView {
                            linker_inputs: st.pa.linker_inputs.push(a),
                            ..st.pa
                        },
                        ..st
                    },
                )
            } else {
                spec_classify(
                    args.skip(1),
                    ClassState {
                        pa: PreparedArgsView {
                            compiler_inputs: st.pa.compiler_inputs.push(a),
                            ..st.pa
                        },
                        ..st
                    },
                )
            }
        }
    }
}

/// The module kind the forwarded compiler flags imply: the first
/// `-shared` makes it a shared library, the first single-file flag
/// (`-c`, `-S`, `-E`) an object file.
pub open spec fn spec_infer_from_compiler_args(cargs: Seq<Seq<char>>) -> Option<ModuleKind>
    decreases cargs.len(),
{
    if cargs.len() == 0 {
        None
    } else if cargs[0] == "-shared"@ {
        Some(ModuleKind::SharedLibrary)
    } else if cargs[0] == "-c"@ || cargs[0] == "-S"@ || cargs[0] == "-E"@ {
        Some(ModuleKind::ObjectFile)
    } else {
        spec_infer_from_compiler_args(cargs.skip(1))
    }
}

/// The module kind the forwarded linker flags imply: the first `-shared`
/// makes it a shared library, the first `-pie` a position-independent
/// executable.
pub open spec fn spec_infer_from_linker_args(largs: Seq<Seq<char>>) -> Option<ModuleKind>
    decreases largs.len(),
{
    if largs.len() == 0 {
        None
    } else if largs[0] == "-shared"@ {
        Some(ModuleKind::SharedLibrary)
    } else if largs[0] == "-pie"@ {
        Some(ModuleKind::DynamicMain)
    } else {
        spec_infer_from_linker_args(largs.skip(1))
    }
}

/// The classifier's starting state.
pub open spec fn spec_init_state(mk: Option<ModuleKind>, wex: bool) -> ClassState {
    ClassState {
        pa: PreparedArgsView {
            compiler_args: Seq::empty(),
            linker_args: Seq::empty(),
            compiler_inputs: Seq::empty(),
            linker_inputs: Seq::empty(),
            output: None,
        },
        bs: BuildSettings {
            opt_level: OptLevel::O0,
            debug_level: DebugLevel::G0,
            use_wasm_opt: true,
        },
        module_kind: mk,
        wasm_exceptions: wex,
    }
}

/// The module kind after the whole pass: an explicit or output-inferred
/// kind stands; otherwise compiler-flag inference is tried before
/// linker-flag inference.
pub open spec fn spec_classified_kind(st: ClassState) -> Option<ModuleKind> {
    if st.module_kind is Some {
        st.module_kind
    } else {
        match spec_infer_from_compiler_args(st.pa.compiler_args) {
            Some(k) => Some(k),
            None => spec_infer_from_linker_args(st.pa.linker_args),
        }
    }
}

/// The full compiler-mode classification: the single pass, then module
/// kind inference from the forwarded flags.
pub open spec fn spec_prepare_compiler_args(
    args: Seq<Seq<char>>,
    mk: Option<ModuleKind>,
    wex: bool,
) -> Result<ClassState, DriverErrorView> {
    match spec_classify(args, spec_init_state(mk, wex)) {
        Ok(st) => Ok((ClassState { module_kind: spec_classified_kind(st), ..st })),
        Err(e) => Err(e),
    }
}

/// Classifies the pipeline argument list for compiler mode in a single
/// left-to-right pass, then infers the module kind from the forwarded
/// flags if none was configured.  An explicitly configured module kind is
/// never overridden.
#[verifier::rlimit(100)]
pub fn prepare_compiler_args(args: Vec<String>, user_settings: &mut UserSettings) -> (r: Result<
    (PreparedArgs, BuildSettings),
    DriverError,
>)
    ensures
        ({
            let res = spec_prepare_compiler_args(
                str_views(args@),
                old(user_settings).module_kind,
                old(user_settings).wasm_exceptions,
            );
            &&& (match r {
                Ok(pb) => {
                    &&& res is Ok
                    &&& pb.0@ == res->Ok_0.pa
                    &&& pb.1 == res->Ok_0.bs
                    &&& final(user_settings).module_kind == res->Ok_0.module_kind
                    &&& final(user_settings).wasm_exceptions == res->Ok_0.wasm_exceptions
                },
                Err(e) => res is Err && e@ == res->Err_0,
            })
            &&& *final(user_settings) == (UserSettings {
                module_kind: final(user_settings).module_kind,
                wasm_exceptions: final(user_settings).wasm_exceptions,
                ..*old(user_settings)
            })
            &&& (old(user_settings).module_kind is Some ==> final(user_settings).module_kind == old(
                user_settings,
            ).module_kind)
        }),
{
    broadcast use crate::strutil::lemma_str_views_add;

    let ghost av = str_views(args@);
    let ghost init = spec_init_state(
        user_settings.module_kind,
        user_settings.wasm_exceptions,
    );
    let mut compiler_args: Vec<String> = Vec::new();
    let mut linker_args: Vec<String> = Vec::new();
    let mut compiler_inputs: Vec<String> = Vec::new();
    let mut linker_inputs: Vec<String> = Vec::new();
    let mut output: Option<String> = None;
    let mut bs = BuildSettings {
        opt_level: OptLevel::O0,
        debug_level: DebugLevel::G0,
        use_wasm_opt: true,
    };
    let mut i: usize = 0;
    proof {
        assert(av.skip(0) =~= av);
        assert(str_views(Seq::<String>::empty()) =~= Seq::<Seq<char>>::empty());
    }
    while i < args.len()
        invariant
            av == str_views(args@),
            init == spec_init_state(
                old(user_settings).module_kind,
                old(user_settings).wasm_exceptions,
            ),
            0 <= i <= args.len(),
            spec_classify(
                av.skip(i as int),
                (ClassState {
                    pa: PreparedArgsView {
                        compiler_args: str_views(compiler_args@),
                        linker_args: str_views(linker_args@),
                        compiler_inputs: str_views(compiler_inputs@),
                        linker_inputs: str_views(linker_inputs@),
                        output: match output {
                            Some(ref o) => Some(o@),
                            None => None,
                        },
                    },
                    bs: bs,
                    module_kind: user_settings.module_kind,
                    wasm_exceptions: user_settings.wasm_exceptions,
                }),
            ) == spec_classify(av, init),
            *user_settings == (UserSettings {
                module_kind: user_settings.module_kind,
                wasm_exceptions: user_settings.wasm_exceptions,
                ..*old(user_settings)
            }),
            old(user_settings).module_kind is Some ==> user_settings.module_kind == old(
                user_settings,
            ).module_kind,
        decreases args.len() - i,
    {
        let ghost cur = ClassState {
            pa: PreparedArgsView {
                compiler_args: str_views(compiler_args@),
                linker_args: str_views(linker_args@),
                compiler_inputs: str_views(compiler_inputs@),
                linker_inputs: str_views(linker_inputs@),
                output: match output {
                    Some(ref o) => Some(o@),
                    None => None,
                },
            },
            bs: bs,
            module_kind: user_settings.module_kind,
            wasm_exceptions: user_settings.wasm_exceptions,
        };
        let ghost pre = av.skip(i as int);
        proof {
            assert(pre[0] == av[i as int]);
            assert(av[i as int] == args@[i as int]@);
            if i + 1 < args@.len() {
                assert(pre[1] == av[i + 1]);
                assert(av[i + 1] == args@[i + 1]@);
            }
            assert(pre.skip(1) =~= av.skip(i + 1));
            if i + 2 <= args@.len() {
                assert(pre.skip(2) =~= av.skip(i + 2));
            }
        }
        let a = &args[i];
        if starts_with(a.as_str(), "-Wl,") {
            let ghost la0 = linker_args@;
            let mut pieces = wl_pieces(a.as_str());
            let ghost pv = pieces@;
            linker_args.append(&mut pieces);
            i = i + 1;
            proof {
                let nxt = ClassState {
                    pa: PreparedArgsView {
                        linker_args: cur.pa.linker_args + spec_wl_pieces(pre[0]),
                        ..cur.pa
                    },
                    ..cur
                };
                assert(spec_classify(pre, cur) == spec_classify(pre.skip(1), nxt));
                assert(linker_args@ == la0 + pv);
                assert(str_views(la0 + pv) == str_views(la0) + str_views(pv));
                assert(str_views(linker_args@) == nxt.pa.linker_args);
            }
        } else if str_eq(a.as_str(), "-Xlinker") {
            if i + 1 >= args.len() {
                proof {
                    assert(pre.len() == 1);
                }
                return Err(DriverError::MissingArgument { flag: "-Xlinker".to_owned() });
            }
            linker_args.push(args[i + 1].clone());
            i = i + 2;
            proof {
                let nxt = ClassState {
                    pa: PreparedArgsView {
                        linker_args: cur.pa.linker_args.push(pre[1]),
                        ..cur.pa
                    },
                    ..cur
                };
                assert(spec_classify(pre, cur) == spec_classify(pre.skip(2), nxt));
                assert(str_views(linker_args@) =~= nxt.pa.linker_args);
            }
        } else if str_eq(a.as_str(), "-z") {
            if i + 1 >= args.len() {
                proof {
                    assert(pre.len() == 1);
                }
                return Err(DriverError::MissingArgument { flag: "-z".to_owned() });
            }
            linker_args.push("-z".to_owned());
            linker_args.push(args[i + 1].clone());
            i = i + 2;
            proof {
                let nxt = ClassState {
                    pa: PreparedArgsView {
                        linker_args: cur.pa.linker_args + seq!["-z"@, pre[1]],
                        ..cur.pa
                    },
                    ..cur
                };
                assert(spec_classify(pre, cur) == spec_classify(pre.skip(2), nxt));
                assert(str_views(linker_args@) =~= nxt.pa.linker_args);
            }
        } else if str_eq(a.as_str(), "-o") {
            if i + 1 >= args.len() {
                proof {
                    assert(pre.len() == 1);
                }
                return Err(DriverError::MissingArgument { flag: "-o".to_owned() });
            }
            let out = args[i + 1].clone();
            if user_settings.module_kind.is_none() {
                match path_extension(out.as_str()) {
                    Some(e) => {
                        match deduce_module_kind(e.as_str()) {
                            Some(k) => {
                                user_settings.module_kind = Some(k);
                            },
                            None => {},
                        }
                    },
                    None => {},
                }
            }
            output = Some(out);
            i = i + 2;
            proof {
                let mk_spec = if cur.module_kind is None {
                    match spec_extension(pre[1]) {
                        Some(e) => spec_deduce_module_kind(e),
                        None => None,
                    }
                } else {
                    cur.module_kind
                };
                assert(user_settings.module_kind == mk_spec);
                let nxt = ClassState {
                    pa: PreparedArgsView { output: Some(pre[1]), ..cur.pa },
                    module_kind: mk_spec,
                    ..cur
                };
                assert(spec_classify(pre, cur) == spec_classify(pre.skip(2), nxt));
            }
        } else if a.as_str().unicode_len() > 0 && a.as_str().get_char(0) == '-' {
            proof {
                assert(pre[0].len() > 0 && pre[0][0] == '-');
            }
            let keep = match update_build_settings_from_arg(a.as_str(), &mut bs, user_settings) {
                Ok(keep) => keep,
                Err(e) => {
                    proof {
                        assert(spec_classify(pre, cur) == Err::<ClassState, DriverErrorView>(
                            spec_update_build_settings(pre[0], cur.bs, cur.wasm_exceptions)->Err_0,
                        ));
                    }
                    return Err(e);
                },
            };
            let ghost st2 = ClassState {
                bs: bs,
                wasm_exceptions: user_settings.wasm_exceptions,
                ..cur
            };
            if keep {
                let has_next = clang_flag_has_arg(a.as_str());
                compiler_args.push(a.clone());
                if has_next && i + 1 < args.len() {
                    compiler_args.push(args[i + 1].clone());
                    i = i + 2;
                    proof {
                        let nxt = ClassState {
                            pa: PreparedArgsView {
                                compiler_args: st2.pa.compiler_args + seq![pre[0], pre[1]],
                                ..st2.pa
                            },
                            ..st2
                        };
                        assert(spec_classify(pre, cur) == spec_classify(pre.skip(2), nxt));
                        assert(str_views(compiler_args@) =~= nxt.pa.compiler_args);
                    }
                } else {
                    i = i + 1;
                    proof {
                        let nxt = ClassState {
                            pa: PreparedArgsView {
                                compiler_args: st2.pa.compiler_args.push(pre[0]),
                                ..st2.pa
                            },
                            ..st2
                        };
                        assert(spec_classify(pre, cur) == spec_classify(pre.skip(1), nxt));
                        assert(str_views(compiler_args@) =~= nxt.pa.compiler_args);
                    }
                }
            } else {
                i = i + 1;
                proof {
                    assert(spec_classify(pre, cur) == spec_classify(pre.skip(1), st2));
                }
            }
        } else {
            if ends_with(a.as_str(), ".o") || ends_with(a.as_str(), ".a") {
                linker_inputs.push(a.clone());
                i = i + 1;
                proof {
                    let nxt = ClassState {
                        pa: PreparedArgsView {
                            linker_inputs: cur.pa.linker_inputs.push(pre[0]),
                            ..cur.pa
                        },
                        ..cur
                    };
                    assert(spec_classify(pre, cur) == spec_classify(pre.skip(1), nxt));
                    assert(str_views(linker_inputs@) =~= nxt.pa.linker_inputs);
                }
            } else {
                compiler_inputs.push(a.clone());
                i = i + 1;
                proof {
                    let nxt = ClassState {
                        pa: PreparedArgsView {
                            compiler_inputs: cur.pa.compiler_inputs.push(pre[0]),
                            ..cur.pa
                        },
                        ..cur
                    };
                    assert(spec_classify(pre, cur) == spec_classify(pre.skip(1), nxt));
                    assert(str_views(compiler_inputs@) =~= nxt.pa.compiler_inputs);
                }
            }
        }
    }
    proof {
        assert(av.skip(args@.len() as int) =~= Seq::<Seq<char>>::empty());
    }

    let ghost done = ClassState {
        pa: PreparedArgsView {
            compiler_args: str_views(compiler_args@),
            linker_args: str_views(linker_args@),
            compiler_inputs: str_views(compiler_inputs@),
            linker_inputs: str_views(linker_inputs@),
            output: match output {
                Some(ref o) => Some(o@),
                None => None,
            },
        },
        bs: bs,
        module_kind: user_settings.module_kind,
        wasm_exceptions: user_settings.wasm_exceptions,
    };
    proof {
        assert(spec_classify(av, init) == Ok::<ClassState, DriverErrorView>(done));
    }

    if user_settings.module_kind.is_none() {
        let ghost cav = str_views(compiler_args@);
        let mut found: Option<ModuleKind> = None;
        let mut k: usize = 0;
        proof {
            assert(cav.skip(0) =~= cav);
        }
        while k < compiler_args.len()
            invariant
                cav == str_views(compiler_args@),
                0 <= k <= compiler_args.len(),
                match found {
                    Some(f) => spec_infer_from_compiler_args(cav) == Some(f),
                    None => spec_infer_from_compiler_args(cav) == spec_infer_from_compiler_args(
                        cav.skip(k as int),
                    ),
                },
            decreases compiler_args.len() - k,
        {
            if found.is_none() {
                proof {
                    assert(cav.skip(k as int)[0] == cav[k as int]);
                    assert(cav[k as int] == compiler_args@[k as int]@);
                    assert(cav.skip(k as int).skip(1) =~= cav.skip(k + 1));
                }
                let ca = &compiler_args[k];
                if str_eq(ca.as_str(), "-shared") {
                    found = Some(ModuleKind::SharedLibrary);
                } else if str_eq(ca.as_str(), "-c") || str_eq(ca.as_str(), "-S") || str_eq(
                    ca.as_str(),
                    "-E",
                ) {
                    found = Some(ModuleKind::ObjectFile);
                }
            }
            k = k + 1;
        }
        proof {
            assert(cav.skip(compiler_args@.len() as int) =~= Seq::<Seq<char>>::empty());
        }
        match found {
            Some(kind) => {
                user_settings.module_kind = Some(kind);
            },
            None => {},
        }
    }

    if user_settings.module_kind.is_none() {
        let ghost lav = str_views(linker_args@);
        let mut found: Option<ModuleKind> = None;
        let mut k: usize = 0;
        proof {
            assert(lav.skip(0) =~= lav);
        }
        while k < linker_args.len()
            invariant
                lav == str_views(linker_args@),
                0 <= k <= linker_args.len(),
                match found {
                    Some(f) => spec_infer_from_linker_args(lav) == Some(f),
                    None => spec_infer_from_linker_args(lav) == spec_infer_from_linker_args(
                        lav.skip(k as int),
                    ),
                },
            decreases linker_args.len() - k,
        {
            if found.is_none() {
                proof {
                    assert(lav.skip(k as int)[0] == lav[k as int]);
                    assert(lav[k as int] == linker_args@[k as int]@);
                    assert(lav.skip(k as int).skip(1) =~= lav.skip(k + 1));
                }
                let la = &linker_args[k];
                if str_eq(la.as_str(), "-shared") {
                    found = Some(ModuleKind::SharedLibrary);
                } else if str_eq(la.as_str(), "-pie") {
                    found = Some(ModuleKind::DynamicMain);
                }
            }
            k = k + 1;
        }
        proof {
            assert(lav.skip(linker_args@.len() as int) =~= Seq::<Seq<char>>::empty());
        }
        match found {
            Some(kind) => {
                user_settings.module_kind = Some(kind);
            },
            None => {},
        }
    }

    let result = PreparedArgs { compiler_args, linker_args, compiler_inputs, linker_inputs, output };
    Ok((result, bs))
}

/// The linker-mode classifier's single left-to-right pass: only `-o` is
/// interpreted; every other flag is forwarded to the linker, consuming a
/// following token when the linker flag table says so, and every bare
/// token is a linker input.
pub open spec fn spec_classify_linker(args: Seq<Seq<char>>, st: ClassState) -> Result<
    ClassState,
    DriverErrorView,
>
    decreases args.len(),
{
    if args.len() == 0 {
        Ok(st)
    } else {
        let a = args[0];
        if a == "-o"@ {
            if args.len() == 1 {
                Err((DriverErrorView::MissingArgument { flag: a }))
            } else {
                let out = args[1];
                let mk = if st.module_kind is None {
                    match spec_extension(out) {
                        Some(e) => spec_deduce_module_kind(e),
                        None => None,
                    }
                } else {
                    st.module_kind
                };
                spec_classify_linker(
                    args.skip(2),
                    ClassState {
                        pa: PreparedArgsView { output: Some(out), ..st.pa },
                        module_kind: mk,
                        ..st
                    },
                )
            }
        } else if a.len() > 0 && a[0] == '-' {
            if is_wasm_ld_flag_with_arg(a) && args.len() >= 2 {
                spec_classify_linker(
                    args.skip(2),
                    ClassState {
                        pa: PreparedArgsView {
                            linker_args: st.pa.linker_args + seq![a, args[1]],
                            ..st.pa
                        },
                        ..st
                    },
                )
            } else {
                spec_classify_linker(
                    args.skip(1),
                    ClassState {
                        pa: PreparedArgsView {
                            linker_args: st.pa.linker_args.push(a),
                            ..st.pa
                        },
                        ..st
                    },
                )
            }
        } else {
            spec_classify_linker(
                args.skip(1),
                ClassState {
                    pa: PreparedArgsView {
                        linker_inputs: st.pa.linker_inputs.push(a),
                        ..st.pa
                    },
                    ..st
                },
            )
        }
    }
}

/// The full linker-mode classification: the single pass, then module kind
/// inference from the forwarded linker flags.
pub open spec fn spec_prepare_linker_args(args: Seq<Seq<char>>, mk: Option<ModuleKind>) -> Result<
    ClassState,
    DriverErrorView,
> {
    match spec_classify_linker(args, spec_init_state(mk, false)) {
        Ok(st) => Ok(
            (ClassState {
                module_kind: if st.module_kind is Some {
                    st.module_kind
                } else {
                    spec_infer_from_linker_args(st.pa.linker_args)
                },
                ..st
            }),
        ),
        Err(e) => Err(e),
    }
}

/// Classifies the pipeline argument list for link-only mode, then infers
/// the module kind from the forwarded linker flags if none was
/// configured.  An explicitly configured module kind is never overridden.
#[verifier::rlimit(100)]
pub fn prepare_linker_args(args: Vec<String>, user_settings: &mut UserSettings) -> (r: Result<
    PreparedArgs,
    DriverError,
>)
    ensures
        ({
            let res = spec_prepare_linker_args(str_views(args@), old(user_settings).module_kind);
            &&& (match r {
                Ok(pa) => {
                    &&& res is Ok
                    &&& pa@ == res->Ok_0.pa
                    &&& final(user_settings).module_kind == res->Ok_0.module_kind
                },
                Err(e) => res is Err && e@ == res->Err_0,
            })
            &&& *final(user_settings) == (UserSettings {
                module_kind: final(user_settings).module_kind,
                ..*old(user_settings)
            })
            &&& (old(user_settings).module_kind is Some ==> final(user_settings).module_kind == old(
                user_settings,
            ).module_kind)
        }),
{
    let ghost av = str_views(args@);
    let ghost init = spec_init_state(user_settings.module_kind, false);
    let mut linker_args: Vec<String> = Vec::new();
    let mut linker_inputs: Vec<String> = Vec::new();
    let mut output: Option<String> = None;
    let mut i: usize = 0;
    proof {
        assert(av.skip(0) =~= av);
        assert(str_views(Seq::<String>::empty()) =~= Seq::<Seq<char>>::empty());
    }
    while i < args.len()
        invariant
            av == str_views(args@),
            init == spec_init_state(old(user_settings).module_kind, false),
            0 <= i <= args.len(),
            spec_classify_linker(
                av.skip(i as int),
                (ClassState {
                    pa: PreparedArgsView {
                        compiler_args: Seq::empty(),
                        linker_args: str_views(linker_args@),
                        compiler_inputs: Seq::empty(),
                        linker_inputs: str_views(linker_inputs@),
                        output: match output {
                            Some(ref o) => Some(o@),
                            None => None,
                        },
                    },
                    bs: init.bs,
                    module_kind: user_settings.module_kind,
                    wasm_exceptions: false,
                }),
            ) == spec_classify_linker(av, init),
            *user_settings == (UserSettings {
                module_kind: user_settings.module_kind,
                ..*old(user_settings)
            }),
            old(user_settings).module_kind is Some ==> user_settings.module_kind == old(
                user_settings,
            ).module_kind,
        decreases args.len() - i,
    {
        let ghost cur = ClassState {
            pa: PreparedArgsView {
                compiler_args: Seq::empty(),
                linker_args: str_views(linker_args@),
                compiler_inputs: Seq::empty(),
                linker_inputs: str_views(linker_inputs@),
                output: match output {
                    Some(ref o) => Some(o@),
                    None => None,
                },
            },
            bs: init.bs,
            module_kind: user_settings.module_kind,
            wasm_exceptions: false,
        };
        let ghost pre = av.skip(i as int);
        proof {
            assert(pre[0] == av[i as int]);
            assert(av[i as int] == args@[i as int]@);
            if i + 1 < args@.len() {
                assert(pre[1] == av[i + 1]);
                assert(av[i + 1] == args@[i + 1]@);
            }
            assert(pre.skip(1) =~= av.skip(i + 1));
            if i + 2 <= args@.len() {
                assert(pre.skip(2) =~= av.skip(i + 2));
            }
        }
        let a = &args[i];
        if str_eq(a.as_str(), "-o") {
            if i + 1 >= args.len() {
                proof {
                    assert(pre.len() == 1);
                }
                return Err(DriverError::MissingArgument { flag: "-o".to_owned() });
            }
            let out = args[i + 1].clone();
            if user_settings.module_kind.is_none() {
                match path_extension(out.as_str()) {
                    Some(e) => {
                        match deduce_module_kind(e.as_str()) {
                            Some(k) => {
                                user_settings.module_kind = Some(k);
                            },
                            None => {},
                        }
                    },
                    None => {},
                }
            }
            output = Some(out);
            i = i + 2;
            proof {
                let mk_spec = if cur.module_kind is None {
                    match spec_extension(pre[1]) {
                        Some(e) => spec_deduce_module_kind(e),
                        None => None,
                    }
                } else {
                    cur.module_kind
                };
                assert(user_settings.module_kind == mk_spec);
                let nxt = ClassState {
                    pa: PreparedArgsView { output: Some(pre[1]), ..cur.pa },
                    module_kind: mk_spec,
                    ..cur
                };
                assert(spec_classify_linker(pre, cur) == spec_classify_linker(pre.skip(2), nxt));
            }
        } else if a.as_str().unicode_len() > 0 && a.as_str().get_char(0) == '-' {
            proof {
                assert(pre[0].len() > 0 && pre[0][0] == '-');
            }
            let has_next = wasm_ld_flag_has_arg(a.as_str());
            linker_args.push(a.clone());
            if has_next && i + 1 < args.len() {
                linker_args.push(args[i + 1].clone());
                i = i + 2;
                proof {
                    let nxt = ClassState {
                        pa: PreparedArgsView {
                            linker_args: cur.pa.linker_args + seq![pre[0], pre[1]],
                            ..cur.pa
                        },
                        ..cur
                    };
                    assert(spec_classify_linker(pre, cur) == spec_classify_linker(
                        pre.skip(2),
                        nxt,
                    ));
                    assert(str_views(linker_args@) =~= nxt.pa.linker_args);
                }
            } else {
                i = i + 1;
                proof {
                    let nxt = ClassState {
                        pa: PreparedArgsView {
                            linker_args: cur.pa.linker_args.push(pre[0]),
                            ..cur.pa
                        },
                        ..cur
                    };
                    assert(spec_classify_linker(pre, cur) == spec_classify_linker(
                        pre.skip(1),
                        nxt,
                    ));
                    assert(str_views(linker_args@) =~= nxt.pa.linker_args);
                }
            }
        } else {
            linker_inputs.push(a.clone());
            i = i + 1;
            proof {
                let nxt = ClassState {
                    pa: PreparedArgsView {
                        linker_inputs: cur.pa.linker_inputs.push(pre[0]),
                        ..cur.pa
                    },
                    ..cur
                };
                assert(spec_classify_linker(pre, cur) == spec_classify_linker(pre.skip(1), nxt));
                assert(str_views(linker_inputs@) =~= nxt.pa.linker_inputs);
            }
        }
    }
    proof {
        assert(av.skip(args@.len() as int) =~= Seq::<Seq<char>>::empty());
    }

    if user_settings.module_kind.is_none() {
        let ghost lav = str_views(linker_args@);
        let mut found: Option<ModuleKind> = None;
        let mut k: usize = 0;
        proof {
            assert(lav.skip(0) =~= lav);
        }
        while k < linker_args.len()
            invariant
                lav == str_views(linker_args@),
                0 <= k <= linker_args.len(),
                match found {
                    Some(f) => spec_infer_from_linker_args(lav) == Some(f),
                    None => spec_infer_from_linker_args(lav) == spec_infer_from_linker_args(
                        lav.skip(k as int),
                    ),
                },
            decreases linker_args.len() - k,
        {
            if found.is_none() {
                proof {
                    assert(lav.skip(k as int)[0] == lav[k as int]);
                    assert(lav[k as int] == linker_args@[k as int]@);
                    assert(lav.skip(k as int).skip(1) =~= lav.skip(k + 1));
                }
                let la = &linker_args[k];
                if str_eq(la.as_str(), "-shared") {
                    found = Some(ModuleKind::SharedLibrary);
                } else if str_eq(la.as_str(), "-pie") {
                    found = Some(ModuleKind::DynamicMain);
                }
            }
            k = k + 1;
        }
        proof {
            assert(lav.skip(linker_args@.len() as int) =~= Seq::<Seq<char>>::empty());
        }
        match found {
            Some(kind) => {
                user_settings.module_kind = Some(kind);
            },
            None => {},
        }
    }

    let result = PreparedArgs {
        compiler_args: Vec::new(),
        linker_args,
        compiler_inputs: Vec::new(),
        linker_inputs,
        output,
    };
    proof {
        assert(str_views(Seq::<String>::empty()) =~= Seq::<Seq<char>>::empty());
    }
    Ok(result)
}

/// A flag that consumes a following token fails, naming that flag, when
/// the classifier reaches it as the final token: `-Xlinker`, `-z` and
/// `-o` each demand a following argument.  (When an earlier flag
/// consumes the final token as its own argument — as in `-z -o` — the
/// scanner never reaches that token as a flag, so no error arises.)
pub proof fn lemma_trailing_flag_fails(flag: Seq<char>, st: ClassState)
    requires
        flag == "-Xlinker"@ || flag == "-z"@ || flag == "-o"@,
    ensures
        spec_classify(seq![flag], st) == Err::<ClassState, DriverErrorView>(
            (DriverErrorView::MissingArgument { flag }),
        ),
{
    reveal_strlit("-Xlinker");
    reveal_strlit("-z");
    reveal_strlit("-o");
    reveal_strlit("-Wl,");
    assert(seq![flag].len() == 1);
    assert(seq![flag][0] == flag);
    assert(!has_prefix(flag, "-Wl,"@)) by {
        if has_prefix(flag, "-Wl,"@) {
            assert(flag.take(4)[1] == flag[1]);
            assert(flag[1] == 'W');
        }
    }
}

/// In link-only mode the output flag behaves the same way: a trailing
/// `-o` fails naming it.
pub proof fn lemma_trailing_output_flag_fails_linker(st: ClassState)
    ensures
        spec_classify_linker(seq!["-o"@], st) == Err::<ClassState, DriverErrorView>(
            (DriverErrorView::MissingArgument { flag: "-o"@ }),
        ),
{
    reveal_strlit("-o");
    assert(seq!["-o"@].len() == 1);
    assert(seq!["-o"@][0] == "-o"@);
}

/// Classification is deterministic: its outcome is a function of the
/// argument list and the starting settings alone, so classifying the
/// same argument list twice, each time from fresh settings, yields
/// identical results.
pub proof fn lemma_classification_deterministic(
    args1: Seq<Seq<char>>,
    args2: Seq<Seq<char>>,
    mk: Option<ModuleKind>,
    wex: bool,
)
    requires
        args1 == args2,
    ensures
        spec_prepare_compiler_args(args1, mk, wex) == spec_prepare_compiler_args(args2, mk, wex),
        spec_prepare_linker_args(args1, mk) == spec_prepare_linker_args(args2, mk),
{
}

} // verus!
