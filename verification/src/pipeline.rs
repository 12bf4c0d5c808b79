//! Planning of the compile, link and post-link-optimize stages: each
//! stage becomes a fully constructed command (program and argument
//! vector) that the embedding program runs in order, stopping at the
//! first failure.

use vstd::prelude::*;

use crate::compiler::{
    prepare_compiler_args, prepare_linker_args, spec_prepare_compiler_args,
    spec_prepare_linker_args, BuildSettings, DebugLevel, ModuleKind, OptLevel, PreparedArgs,
    PreparedArgsView,
};
use crate::error::{DriverError, DriverErrorView};
use crate::settings::{
    spec_settings_kind, spec_tool_path, UserSettings, UserSettingsView,
};
use crate::strutil::{
    chars_of, chars_range, clone_strings, dec_str, join_path, path_join, rfind_char, str_views,
    string_of, u64_to_string,
};

verus! {

broadcast use
    vstd::seq_lib::group_seq_lib_default,
    crate::strutil::lemma_str_views_push,
    crate::strutil::lemma_str_views_len,
    crate::strutil::lemma_str_views_index,
    crate::strutil::lemma_str_views_add;

/// One fully constructed tool invocation: the program to run and its
/// argument vector, in order.
#[derive(Debug, Clone, PartialEq, Eq)]
pub struct CommandSpec {
    pub program: String,
    pub args: Vec<String>,
}

/// The mathematical model of a `CommandSpec`.
pub struct CommandSpecView {
    pub program: Seq<char>,
    pub args: Seq<Seq<char>>,
}

impl View for CommandSpec {
    type V = CommandSpecView;

    open spec fn view(&self) -> CommandSpecView {
        CommandSpecView { program: self.program@, args: str_views(self.args@) }
    }
}

/// The views of a sequence of commands.
pub open spec fn cmd_views(s: Seq<CommandSpec>) -> Seq<CommandSpecView> {
    s.map_values(|c: CommandSpec| c@)
}

pub broadcast proof fn lemma_cmd_views_len(s: Seq<CommandSpec>)
    ensures
        #[trigger] cmd_views(s).len() == s.len(),
{
}

pub broadcast proof fn lemma_cmd_views_index(s: Seq<CommandSpec>, i: int)
    requires
        0 <= i < s.len(),
    ensures
        #[trigger] cmd_views(s)[i] == s[i]@,
{
}

pub broadcast proof fn lemma_cmd_views_push(s: Seq<CommandSpec>, x: CommandSpec)
    ensures
        #[trigger] cmd_views(s.push(x)) == cmd_views(s).push(x@),
{
    assert(cmd_views(s.push(x)) =~= cmd_views(s).push(x@));
}

/// Everything one invocation of the pipeline needs: the resolved
/// settings, the build settings and classified arguments, whether this is
/// a C++ invocation, and the directory for intermediate object files.
pub struct State {
    pub user_settings: UserSettings,
    pub build_settings: BuildSettings,
    pub args: PreparedArgs,
    pub cxx: bool,
    pub temp_dir: String,
}

/// The mathematical model of a `State`.
pub struct StateView {
    pub user_settings: UserSettingsView,
    pub build_settings: BuildSettings,
    pub args: PreparedArgsView,
    pub cxx: bool,
    pub temp_dir: Seq<char>,
}

impl View for State {
    type V = StateView;

    open spec fn view(&self) -> StateView {
        StateView {
            user_settings: self.user_settings@,
            build_settings: self.build_settings,
            args: self.args@,
            cxx: self.cxx,
            temp_dir: self.temp_dir@,
        }
    }
}

/// The resolved output path: the explicit one, or `a.out` for linkable
/// kinds and `a.o` for an object file.
pub open spec fn spec_output_path(st: StateView) -> Seq<char> {
    match st.args.output {
        Some(o) => o,
        None => if spec_settings_kind(st.user_settings) == ModuleKind::ObjectFile {
            "a.o"@
        } else {
            "a.out"@
        },
    }
}

/// The path the produced artifact is written to.
pub fn output_path(state: &State) -> (r: String)
    ensures
        r@ == spec_output_path(state@),
{
    match &state.args.output {
        Some(o) => o.clone(),
        None => {
            match state.user_settings.module_kind() {
                ModuleKind::StaticMain | ModuleKind::DynamicMain | ModuleKind::SharedLibrary => {
                    "a.out".to_owned()
                },
                ModuleKind::ObjectFile => "a.o".to_owned(),
            }
        },
    }
}

/// The path without its trailing separators.
pub open spec fn strip_trailing_slashes(p: Seq<char>) -> Seq<char>
    decreases p.len(),
{
    if p.len() > 0 && p[p.len() - 1] == '/' {
        strip_trailing_slashes(p.drop_last())
    } else {
        p
    }
}

proof fn lemma_strip_trailing_slashes(p: Seq<char>, j: int)
    requires
        0 <= j <= p.len(),
        forall|k: int| j <= k < p.len() ==> p[k] == '/',
        j > 0 ==> p[j - 1] != '/',
    ensures
        strip_trailing_slashes(p) == p.take(j),
    decreases p.len() - j,
{
    if j == p.len() {
        assert(p.take(j) =~= p);
    } else {
        let t = p.drop_last();
        assert(p[p.len() - 1] == '/');
        assert forall|k: int| j <= k < t.len() implies t[k] == '/' by {
            assert(t[k] == p[k]);
        }
        if j > 0 {
            assert(t[j - 1] == p[j - 1]);
        }
        lemma_strip_trailing_slashes(t, j);
        assert(t.take(j) =~= p.take(j));
    }
}

/// The file-name component of a compiler input: the part after the last
/// separator, ignoring trailing separators; an input with no such
/// component is named `output`.
pub open spec fn spec_base_name(p: Seq<char>) -> Seq<char> {
    let t = strip_trailing_slashes(p);
    let b = t.skip(rfind_char(t, '/') + 1);
    if b.len() == 0 {
        "output"@
    } else {
        b
    }
}

fn base_name(path: &str) -> (r: String)
    ensures
        r@ == spec_base_name(path@),
{
    let v = chars_of(path);
    let n = v.len();
    let mut e = n;
    while e > 0 && v[e - 1] == '/'
        invariant
            n == v@.len(),
            v@ == path@,
            0 <= e <= n,
            forall|k: int| e <= k < n ==> v@[k] == '/',
        decreases e,
    {
        e = e - 1;
    }
    proof {
        lemma_strip_trailing_slashes(path@, e as int);
    }
    let ghost t = path@.take(e as int);
    let mut b = e;
    while b > 0 && v[b - 1] != '/'
        invariant
            n == v@.len(),
            v@ == path@,
            0 <= b <= e <= n,
            forall|k: int| b <= k < e ==> v@[k] != '/',
        decreases b,
    {
        b = b - 1;
    }
    proof {
        if b > 0 {
            assert(t[b - 1] == '/');
            assert forall|k: int| b - 1 < k < t.len() implies t[k] != '/' by {
                assert(t[k] == v@[k]);
            }
            crate::strutil::lemma_rfind_char_unique(t, '/', b - 1);
        } else {
            assert forall|k: int| 0 <= k < t.len() implies t[k] != '/' by {
                assert(t[k] == v@[k]);
            }
            crate::strutil::lemma_rfind_char_none(t, '/');
        }
        assert(t.skip(b as int) =~= path@.subrange(b as int, e as int));
    }
    if b == e {
        proof {
            assert(t.skip(b as int).len() == 0);
        }
        "output".to_owned()
    } else {
        let piece = chars_range(&v, b, e);
        proof {
            assert(t.skip(b as int).len() > 0);
        }
        string_of(&piece)
    }
}

/// How many of the given inputs share the given base name.
pub open spec fn count_base_matches(inputs: Seq<Seq<char>>, b: Seq<char>) -> int
    decreases inputs.len(),
{
    if inputs.len() == 0 {
        0int
    } else {
        count_base_matches(inputs.drop_last(), b) + if spec_base_name(inputs.last()) == b {
            1int
        } else {
            0int
        }
    }
}

/// The temporary object file that the given compiler input is compiled
/// into: the input's base name, a per-base-name counter, and an `.o`
/// suffix, inside the temporary directory.
pub open spec fn spec_object_name(inputs: Seq<Seq<char>>, i: int, temp: Seq<char>) -> Seq<char> {
    let base = spec_base_name(inputs[i]);
    join_path(temp, base + "."@ + dec_str(count_base_matches(inputs.take(i), base)) + ".o"@)
}

/// The temporary object files for all compiler inputs, in input order.
pub open spec fn spec_object_paths(inputs: Seq<Seq<char>>, temp: Seq<char>) -> Seq<Seq<char>> {
    Seq::new(inputs.len(), |i: int| spec_object_name(inputs, i, temp))
}

/// The compiler binary used: `clang` or `clang++`, resolved through the
/// toolchain location.
pub open spec fn spec_compiler_program(st: StateView) -> Seq<char> {
    spec_tool_path(
        st.user_settings.llvm_location,
        if st.cxx {
            "clang++"@
        } else {
            "clang"@
        },
    )
}

/// The mandatory flag prefix shared by every compile invocation: target
/// and feature flags, threading and floating-point model, WASI emulation
/// macros, the user's extra compiler flags, the exception and
/// position-independence flags the settings call for, and a debug flag,
/// followed by the forwarded compiler flags.
pub open spec fn spec_compile_base_args(st: StateView) -> Seq<Seq<char>> {
    let us = st.user_settings;
    seq![
        "--sysroot"@,
        us.sysroot_location->0,
        "--target=wasm32-wasi"@,
        "-c"@,
        "-matomics"@,
        "-mbulk-memory"@,
        "-mmutable-globals"@,
        "-pthread"@,
        "-mthread-model"@,
        "posix"@,
        "-fno-trapping-math"@,
        "-D_WASI_EMULATED_MMAN"@,
        "-D_WASI_EMULATED_SIGNAL"@,
        "-D_WASI_EMULATED_PROCESS_CLOCKS"@,
    ] + us.extra_compiler_flags + (if us.wasm_exceptions {
        seq!["-fwasm-exceptions"@]
    } else {
        Seq::<Seq<char>>::empty()
    }) + (if spec_settings_kind(us).requires_pic() || us.pic {
        seq!["-fPIC"@, "-ftls-model=global-dynamic"@, "-fvisibility=default"@]
    } else {
        seq!["-ftls-model=local-exec"@]
    }) + (if st.cxx {
        seq!["-fno-exceptions"@]
    } else {
        Seq::<Seq<char>>::empty()
    }) + (if st.build_settings.debug_level != DebugLevel::Off {
        seq!["-g"@]
    } else {
        Seq::<Seq<char>>::empty()
    }) + st.args.compiler_args
}

#[verifier::rlimit(100)]
fn compile_base_args(state: &State) -> (r: Vec<String>)
    requires
        state.user_settings.sysroot_location is Some,
    ensures
        str_views(r@) == spec_compile_base_args(state@),
{
    let ghost us = state@.user_settings;
    let mut v: Vec<String> = Vec::new();
    v.push("--sysroot".to_owned());
    v.push(state.user_settings.sysroot_location().clone());
    v.push("--target=wasm32-wasi".to_owned());
    v.push("-c".to_owned());
    v.push("-matomics".to_owned());
    v.push("-mbulk-memory".to_owned());
    v.push("-mmutable-globals".to_owned());
    v.push("-pthread".to_owned());
    v.push("-mthread-model".to_owned());
    v.push("posix".to_owned());
    v.push("-fno-trapping-math".to_owned());
    v.push("-D_WASI_EMULATED_MMAN".to_owned());
    v.push("-D_WASI_EMULATED_SIGNAL".to_owned());
    v.push("-D_WASI_EMULATED_PROCESS_CLOCKS".to_owned());
    let ghost c1 = seq![
        "--sysroot"@,
        us.sysroot_location->0,
        "--target=wasm32-wasi"@,
        "-c"@,
        "-matomics"@,
        "-mbulk-memory"@,
        "-mmutable-globals"@,
        "-pthread"@,
        "-mthread-model"@,
        "posix"@,
        "-fno-trapping-math"@,
        "-D_WASI_EMULATED_MMAN"@,
        "-D_WASI_EMULATED_SIGNAL"@,
        "-D_WASI_EMULATED_PROCESS_CLOCKS"@,
    ];
    proof {
        assert(str_views(v@) =~= c1);
    }
    let mut t: usize = 0;
    proof {
        assert(c1 + us.extra_compiler_flags.take(0) =~= c1);
    }
    while t < state.user_settings.extra_compiler_flags.len()
        invariant
            us == state@.user_settings,
            0 <= t <= state.user_settings.extra_compiler_flags.len(),
            str_views(v@) == c1 + us.extra_compiler_flags.take(t as int),
        decreases state.user_settings.extra_compiler_flags.len() - t,
    {
        v.push(state.user_settings.extra_compiler_flags[t].clone());
        t = t + 1;
        proof {
            assert(str_views(v@) =~= c1 + us.extra_compiler_flags.take(t as int));
        }
    }
    proof {
        assert(us.extra_compiler_flags.take(
            state.user_settings.extra_compiler_flags@.len() as int,
        ) =~= us.extra_compiler_flags);
    }
    let ghost acc2 = c1 + us.extra_compiler_flags;
    if state.user_settings.wasm_exceptions {
        v.push("-fwasm-exceptions".to_owned());
    }
    let ghost acc3 = acc2 + (if us.wasm_exceptions {
        seq!["-fwasm-exceptions"@]
    } else {
        Seq::<Seq<char>>::empty()
    });
    proof {
        assert(str_views(v@) =~= acc3);
    }
    if state.user_settings.module_kind().requires_pic() || state.user_settings.pic {
        v.push("-fPIC".to_owned());
        v.push("-ftls-model=global-dynamic".to_owned());
        v.push("-fvisibility=default".to_owned());
    } else {
        v.push("-ftls-model=local-exec".to_owned());
    }
    let ghost acc4 = acc3 + (if spec_settings_kind(us).requires_pic() || us.pic {
        seq!["-fPIC"@, "-ftls-model=global-dynamic"@, "-fvisibility=default"@]
    } else {
        seq!["-ftls-model=local-exec"@]
    });
    proof {
        assert(str_views(v@) =~= acc4);
    }
    if state.cxx {
        v.push("-fno-exceptions".to_owned());
    }
    let ghost acc5 = acc4 + (if state@.cxx {
        seq!["-fno-exceptions"@]
    } else {
        Seq::<Seq<char>>::empty()
    });
    proof {
        assert(str_views(v@) =~= acc5);
    }
    if !matches!(state.build_settings.debug_level, DebugLevel::Off) {
        v.push("-g".to_owned());
    }
    let ghost acc6 = acc5 + (if state@.build_settings.debug_level != DebugLevel::Off {
        seq!["-g"@]
    } else {
        Seq::<Seq<char>>::empty()
    });
    proof {
        assert(str_views(v@) =~= acc6);
    }
    let mut w: usize = 0;
    proof {
        assert(acc6 + state@.args.compiler_args.take(0) =~= acc6);
    }
    while w < state.args.compiler_args.len()
        invariant
            us == state@.user_settings,
            acc6 == acc5 + (if state@.build_settings.debug_level != DebugLevel::Off {
                seq!["-g"@]
            } else {
                Seq::<Seq<char>>::empty()
            }),
            0 <= w <= state.args.compiler_args.len(),
            str_views(v@) == acc6 + state@.args.compiler_args.take(w as int),
        decreases state.args.compiler_args.len() - w,
    {
        v.push(state.args.compiler_args[w].clone());
        w = w + 1;
        proof {
            assert(str_views(v@) =~= acc6 + state@.args.compiler_args.take(w as int));
        }
    }
    proof {
        assert(state@.args.compiler_args.take(state.args.compiler_args@.len() as int)
            =~= state@.args.compiler_args);
        assert(str_views(v@) =~= spec_compile_base_args(state@));
    }
    v
}

fn object_name_for(inputs: &Vec<String>, i: usize, temp: &str) -> (r: String)
    requires
        i < inputs@.len(),
    ensures
        r@ == spec_object_name(str_views(inputs@), i as int, temp@),
{
    let ghost iv = str_views(inputs@);
    let base = base_name(inputs[i].as_str());
    let mut cnt: u64 = 0;
    let mut j: usize = 0;
    proof {
        assert(iv.take(0) =~= Seq::<Seq<char>>::empty());
    }
    while j < i
        invariant
            iv == str_views(inputs@),
            i < inputs@.len(),
            base@ == spec_base_name(iv[i as int]),
            0 <= j <= i,
            cnt <= j,
            cnt as int == count_base_matches(iv.take(j as int), base@),
        decreases i - j,
    {
        let other = base_name(inputs[j].as_str());
        proof {
            assert(iv.take(j + 1).drop_last() =~= iv.take(j as int));
            assert(iv.take(j + 1).last() == iv[j as int]);
        }
        if crate::strutil::str_eq(other.as_str(), base.as_str()) {
            cnt = cnt + 1;
        }
        j = j + 1;
    }
    let num = u64_to_string(cnt);
    let mut name = base;
    name.append(".");
    name.append(num.as_str());
    name.append(".o");
    proof {
        assert(name@ =~= spec_base_name(iv[i as int]) + "."@ + dec_str(cnt as int) + ".o"@);
    }
    path_join(temp, name.as_str())
}

/// The compile-stage commands: for a linkable kind, one invocation per
/// compiler input producing a temporary object file; for an object file,
/// one invocation of all inputs producing the resolved output.
pub open spec fn spec_compile_commands(st: StateView) -> Seq<CommandSpecView> {
    if spec_settings_kind(st.user_settings).is_binary() {
        Seq::new(
            st.args.compiler_inputs.len(),
            |i: int|
                CommandSpecView {
                    program: spec_compiler_program(st),
                    args: spec_compile_base_args(st) + seq![
                        st.args.compiler_inputs[i],
                        "-o"@,
                        spec_object_name(st.args.compiler_inputs, i, st.temp_dir),
                    ],
                },
        )
    } else {
        seq![
            CommandSpecView {
                program: spec_compiler_program(st),
                args: spec_compile_base_args(st) + st.args.compiler_inputs + seq![
                    "-o"@,
                    spec_output_path(st),
                ],
            },
        ]
    }
}

/// Builds the compile-stage commands.  For a linkable kind each produced
/// object path is appended to the linker inputs, in input order.
#[verifier::rlimit(100)]
pub fn compile_inputs(state: &mut State) -> (r: Vec<CommandSpec>)
    requires
        old(state).user_settings.sysroot_location is Some,
    ensures
        cmd_views(r@) == spec_compile_commands(old(state)@),
        spec_settings_kind(old(state)@.user_settings).is_binary() ==> final(state)@ == (StateView {
            args: (PreparedArgsView {
                linker_inputs: old(state)@.args.linker_inputs + spec_object_paths(
                    old(state)@.args.compiler_inputs,
                    old(state)@.temp_dir,
                ),
                ..old(state)@.args
            }),
            ..old(state)@
        }),
        !spec_settings_kind(old(state)@.user_settings).is_binary() ==> *final(state) == *old(state),
{
    broadcast use lemma_cmd_views_push, lemma_cmd_views_len, lemma_cmd_views_index;

    let ghost st0 = old(state)@;
    let base_args = compile_base_args(state);
    let tool = if state.cxx {
        "clang++"
    } else {
        "clang"
    };
    let program = state.user_settings.llvm_location.get_tool_path(tool);
    let mut cmds: Vec<CommandSpec> = Vec::new();
    if state.user_settings.module_kind().is_binary() {
        let n = state.args.compiler_inputs.len();
        let mut i: usize = 0;
        proof {
            assert(cmd_views(cmds@) =~= spec_compile_commands(st0).take(0));
            assert(st0.args.linker_inputs + spec_object_paths(
                st0.args.compiler_inputs,
                st0.temp_dir,
            ).take(0) =~= st0.args.linker_inputs);
        }
        while i < n
            invariant
                st0 == old(state)@,
                spec_settings_kind(st0.user_settings).is_binary(),
                str_views(base_args@) == spec_compile_base_args(st0),
                program@ == spec_compiler_program(st0),
                n == state.args.compiler_inputs@.len(),
                0 <= i <= n,
                state.user_settings == old(state).user_settings,
                state.build_settings == old(state).build_settings,
                state.cxx == old(state).cxx,
                state.temp_dir == old(state).temp_dir,
                state.args.compiler_args == old(state).args.compiler_args,
                state.args.compiler_inputs == old(state).args.compiler_inputs,
                state.args.linker_args == old(state).args.linker_args,
                state.args.output == old(state).args.output,
                str_views(state.args.linker_inputs@) == st0.args.linker_inputs
                    + spec_object_paths(st0.args.compiler_inputs, st0.temp_dir).take(i as int),
                cmd_views(cmds@) == spec_compile_commands(st0).take(i as int),
            decreases n - i,
        {
            let obj = object_name_for(&state.args.compiler_inputs, i, state.temp_dir.as_str());
            let mut cargs = clone_strings(&base_args);
            cargs.push(state.args.compiler_inputs[i].clone());
            cargs.push("-o".to_owned());
            cargs.push(obj.clone());
            proof {
                assert(str_views(cargs@) =~= spec_compile_base_args(st0) + seq![
                    st0.args.compiler_inputs[i as int],
                    "-o"@,
                    spec_object_name(st0.args.compiler_inputs, i as int, st0.temp_dir),
                ]);
            }
            let cmd = CommandSpec { program: program.clone(), args: cargs };
            let ghost cmdv = cmd@;
            let ghost cmds0 = cmds@;
            let ghost li0 = state.args.linker_inputs@;
            let ghost objv = obj@;
            cmds.push(cmd);
            state.args.linker_inputs.push(obj);
            i = i + 1;
            proof {
                assert(cmdv == spec_compile_commands(st0)[i - 1]);
                assert(cmd_views(cmds@) == cmd_views(cmds0).push(cmdv));
                assert(cmd_views(cmds@) =~= spec_compile_commands(st0).take(i as int));
                assert(str_views(state.args.linker_inputs@) == str_views(li0).push(objv));
                assert(objv == spec_object_paths(st0.args.compiler_inputs, st0.temp_dir)[i - 1]);
                assert(str_views(state.args.linker_inputs@) =~= st0.args.linker_inputs
                    + spec_object_paths(st0.args.compiler_inputs, st0.temp_dir).take(i as int));
            }
        }
        proof {
            assert(spec_compile_commands(st0).take(spec_compile_commands(st0).len() as int)
                =~= spec_compile_commands(st0));
            assert(spec_object_paths(st0.args.compiler_inputs, st0.temp_dir).take(
                spec_object_paths(st0.args.compiler_inputs, st0.temp_dir).len() as int,
            ) =~= spec_object_paths(st0.args.compiler_inputs, st0.temp_dir));
        }
    } else {
        let mut cargs = clone_strings(&base_args);
        let mut w: usize = 0;
        proof {
            assert(spec_compile_base_args(st0) + st0.args.compiler_inputs.take(0)
                =~= spec_compile_base_args(st0));
        }
        while w < state.args.compiler_inputs.len()
            invariant
                st0 == old(state)@,
                *state == *old(state),
                0 <= w <= state.args.compiler_inputs.len(),
                str_views(cargs@) == spec_compile_base_args(st0) + st0.args.compiler_inputs.take(
                    w as int,
                ),
            decreases state.args.compiler_inputs.len() - w,
        {
            cargs.push(state.args.compiler_inputs[w].clone());
            w = w + 1;
            proof {
                assert(str_views(cargs@) =~= spec_compile_base_args(st0)
                    + st0.args.compiler_inputs.take(w as int));
            }
        }
        proof {
            assert(st0.args.compiler_inputs.take(state.args.compiler_inputs@.len() as int)
                =~= st0.args.compiler_inputs);
        }
        cargs.push("-o".to_owned());
        let out = output_path(state);
        cargs.push(out);
        proof {
            assert(str_views(cargs@) =~= spec_compile_base_args(st0) + st0.args.compiler_inputs
                + seq!["-o"@, spec_output_path(st0)]);
        }
        let cmd = CommandSpec { program: program, args: cargs };
        cmds.push(cmd);
        proof {
            assert(cmd_views(cmds@) =~= spec_compile_commands(st0));
        }
    }
    cmds
}

/// The first stretch of the linker command line: the forwarded linker
/// flags, the mandatory shared-memory and feature flags, the user's
/// extra linker flags, the exception flags, and the thread-local-storage
/// exports.
pub open spec fn spec_link_args_a(st: StateView) -> Seq<Seq<char>> {
    let us = st.user_settings;
    st.args.linker_args + seq![
        "--extra-features=atomics"@,
        "--extra-features=bulk-memory"@,
        "--extra-features=mutable-globals"@,
        "--shared-memory"@,
        "--max-memory=4294967296"@,
        "--import-memory"@,
        "--export-dynamic"@,
        "--export=__wasm_call_ctors"@,
    ] + us.extra_linker_flags + (if us.wasm_exceptions {
        seq!["-mllvm"@, "--wasm-enable-sjlj"@]
    } else {
        Seq::<Seq<char>>::empty()
    }) + seq![
        "--export=__wasm_init_tls"@,
        "--export=__wasm_signal"@,
        "--export=__tls_size"@,
        "--export=__tls_align"@,
        "--export=__tls_base"@,
    ]
}

/// The linker command line up to and with the kind-specific flags:
/// executable-only exports, whole-archive wrapping, the sysroot library
/// paths and base libraries for executables, position-independence
/// flags, and the flags each module kind demands.
pub open spec fn spec_link_args_front(st: StateView) -> Seq<Seq<char>> {
    let us = st.user_settings;
    let kind = spec_settings_kind(us);
    let sysroot = us.sysroot_location->0;
    let lib = join_path(sysroot, "lib"@);
    let lib32 = join_path(lib, "wasm32-wasi"@);
    spec_link_args_a(st) + (if kind.is_executable() {
        seq![
            "--export-if-defined=__stack_pointer"@,
            "--export-if-defined=__heap_base"@,
            "--export-if-defined=__data_end"@,
        ]
    } else {
        Seq::<Seq<char>>::empty()
    }) + (if kind == ModuleKind::DynamicMain {
        seq!["--whole-archive"@, "--export-all"@]
    } else {
        Seq::<Seq<char>>::empty()
    }) + (if kind.is_executable() {
        seq![
            "-L"@ + lib,
            "-L"@ + lib32,
            "-lwasi-emulated-mman"@,
            "-lc"@,
            "-lresolv"@,
            "-lrt"@,
            "-lm"@,
            "-lpthread"@,
            "-lutil"@,
        ] + (if st.cxx {
            seq!["-lc++"@, "-lc++abi"@]
        } else {
            Seq::<Seq<char>>::empty()
        })
    } else {
        Seq::<Seq<char>>::empty()
    }) + (if kind == ModuleKind::DynamicMain {
        seq!["--no-whole-archive"@]
    } else {
        Seq::<Seq<char>>::empty()
    }) + (if kind.requires_pic() {
        seq!["--experimental-pic"@, "--export-if-defined=__wasm_apply_data_relocs"@]
    } else {
        Seq::<Seq<char>>::empty()
    }) + (match kind {
        ModuleKind::StaticMain => seq!["-z"@, "stack-size=8388608"@],
        ModuleKind::DynamicMain => seq!["-pie"@, "-lcommon-tag-stubs"@],
        ModuleKind::SharedLibrary => seq![
            "-shared"@,
            "--no-entry"@,
            "--unresolved-symbols=import-dynamic"@,
        ],
        ModuleKind::ObjectFile => Seq::<Seq<char>>::empty(),
    })
}

/// The full linker command line: the front, the linker inputs, the
/// C-runtime start object, and the output path.
pub open spec fn spec_link_args(st: StateView) -> Seq<Seq<char>> {
    let us = st.user_settings;
    let kind = spec_settings_kind(us);
    let lib32 = join_path(join_path(us.sysroot_location->0, "lib"@), "wasm32-wasi"@);
    spec_link_args_front(st) + st.args.linker_inputs + seq![
        join_path(
            lib32,
            if kind.is_executable() {
                "crt1.o"@
            } else {
                "scrt1.o"@
            },
        ),
    ] + seq!["-o"@, spec_output_path(st)]
}

#[verifier::rlimit(100)]
fn link_args_a(state: &State) -> (r: Vec<String>)
    ensures
        str_views(r@) == spec_link_args_a(state@),
{
    let ghost us = state@.user_settings;

    let mut v: Vec<String> = Vec::new();

    let mut t: usize = 0;
    proof {
        assert(str_views(v@) =~= state@.args.linker_args.take(0));
    }
    while t < state.args.linker_args.len()
        invariant
            0 <= t <= state.args.linker_args.len(),
            str_views(v@) == state@.args.linker_args.take(t as int),
        decreases state.args.linker_args.len() - t,
    {
        v.push(state.args.linker_args[t].clone());
        t = t + 1;
        proof {
            assert(str_views(v@) =~= state@.args.linker_args.take(t as int));
        }
    }
    proof {
        assert(state@.args.linker_args.take(state.args.linker_args@.len() as int)
            =~= state@.args.linker_args);
    }
    let ghost g0 = state@.args.linker_args;

    let ghost p1 = v@;
    v.push("--extra-features=atomics".to_owned());
    v.push("--extra-features=bulk-memory".to_owned());
    v.push("--extra-features=mutable-globals".to_owned());
    v.push("--shared-memory".to_owned());
    v.push("--max-memory=4294967296".to_owned());
    v.push("--import-memory".to_owned());
    v.push("--export-dynamic".to_owned());
    v.push("--export=__wasm_call_ctors".to_owned());
    let ghost g1 = g0 + seq![
        "--extra-features=atomics"@,
        "--extra-features=bulk-memory"@,
        "--extra-features=mutable-globals"@,
        "--shared-memory"@,
        "--max-memory=4294967296"@,
        "--import-memory"@,
        "--export-dynamic"@,
        "--export=__wasm_call_ctors"@,
    ];
    proof {
        assert(str_views(v@) =~= str_views(p1) + seq![
            "--extra-features=atomics"@,
            "--extra-features=bulk-memory"@,
            "--extra-features=mutable-globals"@,
            "--shared-memory"@,
            "--max-memory=4294967296"@,
            "--import-memory"@,
            "--export-dynamic"@,
            "--export=__wasm_call_ctors"@,
        ]);
        assert(str_views(v@) == g1);
    }

    let mut u: usize = 0;
    proof {
        assert(g1 + us.extra_linker_flags.take(0) =~= g1);
    }
    while u < state.user_settings.extra_linker_flags.len()
        invariant
            us == state@.user_settings,
            g1 == g0 + seq![
                "--extra-features=atomics"@,
                "--extra-features=bulk-memory"@,
                "--extra-features=mutable-globals"@,
                "--shared-memory"@,
                "--max-memory=4294967296"@,
                "--import-memory"@,
                "--export-dynamic"@,
                "--export=__wasm_call_ctors"@,
            ],
            0 <= u <= state.user_settings.extra_linker_flags.len(),
            str_views(v@) == g1 + us.extra_linker_flags.take(u as int),
        decreases state.user_settings.extra_linker_flags.len() - u,
    {
        v.push(state.user_settings.extra_linker_flags[u].clone());
        u = u + 1;
        proof {
            assert(str_views(v@) =~= g1 + us.extra_linker_flags.take(u as int));
        }
    }
    proof {
        assert(us.extra_linker_flags.take(state.user_settings.extra_linker_flags@.len() as int)
            =~= us.extra_linker_flags);
    }
    let ghost g2 = g1 + us.extra_linker_flags;

    let ghost p3 = v@;
    if state.user_settings.wasm_exceptions {
        v.push("-mllvm".to_owned());
        v.push("--wasm-enable-sjlj".to_owned());
    }
    let ghost g3 = g2 + (if us.wasm_exceptions {
        seq!["-mllvm"@, "--wasm-enable-sjlj"@]
    } else {
        Seq::<Seq<char>>::empty()
    });
    proof {
        assert(str_views(v@) =~= str_views(p3) + (if us.wasm_exceptions {
            seq!["-mllvm"@, "--wasm-enable-sjlj"@]
        } else {
            Seq::<Seq<char>>::empty()
        }));
        assert(str_views(v@) == g3);
    }

    let ghost p4 = v@;
    v.push("--export=__wasm_init_tls".to_owned());
    v.push("--export=__wasm_signal".to_owned());
    v.push("--export=__tls_size".to_owned());
    v.push("--export=__tls_align".to_owned());
    v.push("--export=__tls_base".to_owned());
    let ghost g4 = g3 + seq![
        "--export=__wasm_init_tls"@,
        "--export=__wasm_signal"@,
        "--export=__tls_size"@,
        "--export=__tls_align"@,
        "--export=__tls_base"@,
    ];
    proof {
        assert(str_views(v@) =~= str_views(p4) + seq![
            "--export=__wasm_init_tls"@,
            "--export=__wasm_signal"@,
            "--export=__tls_size"@,
            "--export=__tls_align"@,
            "--export=__tls_base"@,
        ]);
        assert(str_views(v@) == g4);
        assert(str_views(v@) == spec_link_args_a(state@));
    }
    v
}

#[verifier::rlimit(100)]
fn link_args_front(state: &State) -> (r: Vec<String>)
    requires
        state.user_settings.sysroot_location is Some,
        spec_settings_kind(state@.user_settings).is_binary(),
    ensures
        str_views(r@) == spec_link_args_front(state@),
{
    let ghost us = state@.user_settings;
    let ghost kind = spec_settings_kind(us);
    let sysroot_lib_path = path_join(state.user_settings.sysroot_location().as_str(), "lib");
    let sysroot_lib_wasm32_path = path_join(sysroot_lib_path.as_str(), "wasm32-wasi");
    let mut v = link_args_a(state);
    let ghost g4 = spec_link_args_a(state@);

    let module_kind = state.user_settings.module_kind();

    let ghost p5 = v@;
    if module_kind.is_executable() {
        v.push("--export-if-defined=__stack_pointer".to_owned());
        v.push("--export-if-defined=__heap_base".to_owned());
        v.push("--export-if-defined=__data_end".to_owned());
    }
    let ghost g5 = g4 + (if kind.is_executable() {
        seq![
            "--export-if-defined=__stack_pointer"@,
            "--export-if-defined=__heap_base"@,
            "--export-if-defined=__data_end"@,
        ]
    } else {
        Seq::<Seq<char>>::empty()
    });
    proof {
        assert(str_views(v@) =~= str_views(p5) + (if kind.is_executable() {
            seq![
                "--export-if-defined=__stack_pointer"@,
                "--export-if-defined=__heap_base"@,
                "--export-if-defined=__data_end"@,
            ]
        } else {
            Seq::<Seq<char>>::empty()
        }));
        assert(str_views(v@) == g5);
    }

    let ghost p6 = v@;
    if matches!(module_kind, ModuleKind::DynamicMain) {
        v.push("--whole-archive".to_owned());
        v.push("--export-all".to_owned());
    }
    let ghost g6 = g5 + (if kind == ModuleKind::DynamicMain {
        seq!["--whole-archive"@, "--export-all"@]
    } else {
        Seq::<Seq<char>>::empty()
    });
    proof {
        assert(str_views(v@) =~= str_views(p6) + (if kind == ModuleKind::DynamicMain {
            seq!["--whole-archive"@, "--export-all"@]
        } else {
            Seq::<Seq<char>>::empty()
        }));
        assert(str_views(v@) == g6);
    }

    let ghost p7 = v@;
    if module_kind.is_executable() {
        let mut lib_arg = "-L".to_owned();
        lib_arg.append(sysroot_lib_path.as_str());
        v.push(lib_arg);

        let mut lib_arg32 = "-L".to_owned();
        lib_arg32.append(sysroot_lib_wasm32_path.as_str());
        v.push(lib_arg32);

        v.push("-lwasi-emulated-mman".to_owned());
        v.push("-lc".to_owned());
        v.push("-lresolv".to_owned());
        v.push("-lrt".to_owned());
        v.push("-lm".to_owned());
        v.push("-lpthread".to_owned());
        v.push("-lutil".to_owned());

        if state.cxx {
            v.push("-lc++".to_owned());
            v.push("-lc++abi".to_owned());
        }
    }
    let ghost lib = join_path(us.sysroot_location->0, "lib"@);
    let ghost lib32 = join_path(lib, "wasm32-wasi"@);
    let ghost g7 = g6 + (if kind.is_executable() {
        seq![
            "-L"@ + lib,
            "-L"@ + lib32,
            "-lwasi-emulated-mman"@,
            "-lc"@,
            "-lresolv"@,
            "-lrt"@,
            "-lm"@,
            "-lpthread"@,
            "-lutil"@,
        ] + (if state@.cxx {
            seq!["-lc++"@, "-lc++abi"@]
        } else {
            Seq::<Seq<char>>::empty()
        })
    } else {
        Seq::<Seq<char>>::empty()
    });
    proof {
        assert(str_views(v@) =~= str_views(p7) + (if kind.is_executable() {
            seq![
                "-L"@ + lib,
                "-L"@ + lib32,
                "-lwasi-emulated-mman"@,
                "-lc"@,
                "-lresolv"@,
                "-lrt"@,
                "-lm"@,
                "-lpthread"@,
                "-lutil"@,
            ] + (if state@.cxx {
                seq!["-lc++"@, "-lc++abi"@]
            } else {
                Seq::<Seq<char>>::empty()
            })
        } else {
            Seq::<Seq<char>>::empty()
        }));
        assert(str_views(v@) == g7);
    }

    let ghost p8 = v@;
    if matches!(module_kind, ModuleKind::DynamicMain) {
        v.push("--no-whole-archive".to_owned());
    }
    let ghost g8 = g7 + (if kind == ModuleKind::DynamicMain {
        seq!["--no-whole-archive"@]
    } else {
        Seq::<Seq<char>>::empty()
    });
    proof {
        assert(str_views(v@) =~= str_views(p8) + (if kind == ModuleKind::DynamicMain {
            seq!["--no-whole-archive"@]
        } else {
            Seq::<Seq<char>>::empty()
        }));
        assert(str_views(v@) == g8);
    }

    let ghost p9 = v@;
    if state.user_settings.module_kind().requires_pic() {
        v.push("--experimental-pic".to_owned());
        v.push("--export-if-defined=__wasm_apply_data_relocs".to_owned());
    }
    let ghost g9 = g8 + (if kind.requires_pic() {
        seq!["--experimental-pic"@, "--export-if-defined=__wasm_apply_data_relocs"@]
    } else {
        Seq::<Seq<char>>::empty()
    });
    proof {
        assert(str_views(v@) =~= str_views(p9) + (if kind.requires_pic() {
            seq!["--experimental-pic"@, "--export-if-defined=__wasm_apply_data_relocs"@]
        } else {
            Seq::<Seq<char>>::empty()
        }));
        assert(str_views(v@) == g9);
    }

    let ghost p10 = v@;
    match module_kind {
        ModuleKind::StaticMain => {
            v.push("-z".to_owned());
            v.push("stack-size=8388608".to_owned());
        },
        ModuleKind::DynamicMain => {
            v.push("-pie".to_owned());
            v.push("-lcommon-tag-stubs".to_owned());
        },
        ModuleKind::SharedLibrary => {
            v.push("-shared".to_owned());
            v.push("--no-entry".to_owned());
            v.push("--unresolved-symbols=import-dynamic".to_owned());
        },
        ModuleKind::ObjectFile => unreached(),
    }
    let ghost g10 = g9 + (match kind {
        ModuleKind::StaticMain => seq!["-z"@, "stack-size=8388608"@],
        ModuleKind::DynamicMain => seq!["-pie"@, "-lcommon-tag-stubs"@],
        ModuleKind::SharedLibrary => seq![
            "-shared"@,
            "--no-entry"@,
            "--unresolved-symbols=import-dynamic"@,
        ],
        ModuleKind::ObjectFile => Seq::<Seq<char>>::empty(),
    });
    proof {
        assert(str_views(v@) =~= str_views(p10) + (match kind {
            ModuleKind::StaticMain => seq!["-z"@, "stack-size=8388608"@],
            ModuleKind::DynamicMain => seq!["-pie"@, "-lcommon-tag-stubs"@],
            ModuleKind::SharedLibrary => seq![
                "-shared"@,
                "--no-entry"@,
                "--unresolved-symbols=import-dynamic"@,
            ],
            ModuleKind::ObjectFile => Seq::<Seq<char>>::empty(),
        }));
        assert(str_views(v@) == g10);
        assert(str_views(v@) == spec_link_args_front(state@));
    }
    v
}

/// Builds the link-stage command.  Object files never reach this stage:
/// classification routes them to the compile stage alone, and `run` and
/// `link_only` only link linkable kinds.
#[verifier::rlimit(100)]
pub fn link_inputs(state: &State) -> (r: CommandSpec)
    requires
        state.user_settings.sysroot_location is Some,
        spec_settings_kind(state@.user_settings).is_binary(),
    ensures
        r@.program == spec_tool_path(state@.user_settings.llvm_location, "wasm-ld"@),
        r@.args == spec_link_args(state@),
{
    let ghost us = state@.user_settings;
    let ghost kind = spec_settings_kind(us);
    let ghost lib = join_path(us.sysroot_location->0, "lib"@);
    let ghost lib32 = join_path(lib, "wasm32-wasi"@);
    let program = state.user_settings.llvm_location.get_tool_path("wasm-ld");
    let sysroot_lib_path = path_join(state.user_settings.sysroot_location().as_str(), "lib");
    let sysroot_lib_wasm32_path = path_join(sysroot_lib_path.as_str(), "wasm32-wasi");
    let module_kind = state.user_settings.module_kind();

    let mut v = link_args_front(state);
    let ghost g10 = spec_link_args_front(state@);

    let mut w: usize = 0;
    proof {
        assert(g10 + state@.args.linker_inputs.take(0) =~= g10);
    }
    while w < state.args.linker_inputs.len()
        invariant
            0 <= w <= state.args.linker_inputs.len(),
            str_views(v@) == g10 + state@.args.linker_inputs.take(w as int),
        decreases state.args.linker_inputs.len() - w,
    {
        v.push(state.args.linker_inputs[w].clone());
        w = w + 1;
        proof {
            assert(str_views(v@) =~= g10 + state@.args.linker_inputs.take(w as int));
        }
    }
    proof {
        assert(state@.args.linker_inputs.take(state.args.linker_inputs@.len() as int)
            =~= state@.args.linker_inputs);
    }
    let ghost g11 = g10 + state@.args.linker_inputs;

    let ghost p12 = v@;
    let crt = if module_kind.is_executable() {
        path_join(sysroot_lib_wasm32_path.as_str(), "crt1.o")
    } else {
        path_join(sysroot_lib_wasm32_path.as_str(), "scrt1.o")
    };
    v.push(crt);
    let ghost g12 = g11 + seq![
        join_path(
            lib32,
            if kind.is_executable() {
                "crt1.o"@
            } else {
                "scrt1.o"@
            },
        ),
    ];
    proof {
        assert(str_views(v@) =~= str_views(p12) + seq![
            join_path(
                lib32,
                if kind.is_executable() {
                    "crt1.o"@
                } else {
                    "scrt1.o"@
                },
            ),
        ]);
        assert(str_views(v@) == g12);
    }

    let ghost p13 = v@;
    v.push("-o".to_owned());
    let out = output_path(state);
    v.push(out);
    proof {
        assert(str_views(v@) =~= str_views(p13) + seq!["-o"@, spec_output_path(state@)]);
        assert(str_views(v@) == g12 + seq!["-o"@, spec_output_path(state@)]);
        assert(str_views(v@) == spec_link_args(state@));
    }

    CommandSpec { program, args: v }
}

/// The flag the post-link optimizer gets for each optimization level;
/// no flag is passed for level zero.
pub open spec fn spec_opt_flag(l: OptLevel) -> Seq<Seq<char>> {
    match l {
        OptLevel::O0 => Seq::<Seq<char>>::empty(),
        OptLevel::O1 => seq!["-O1"@],
        OptLevel::O2 => seq!["-O2"@],
        OptLevel::O3 => seq!["-O3"@],
        OptLevel::O4 => seq!["-O4"@],
        OptLevel::Os => seq!["-Os"@],
        OptLevel::Oz => seq!["-Oz"@],
    }
}

/// The post-link-optimize command: the exception flag if enabled, the
/// optimization-level flag, and the user's optimizer flags; when that
/// list is empty the stage is skipped.  A debug-preserving flag is added
/// for debug level 1 and above, and the tool rewrites the output in
/// place.
pub open spec fn spec_wasm_opt_command(st: StateView) -> Option<CommandSpecView> {
    let head = (if st.user_settings.wasm_exceptions {
        seq!["--experimental-new-eh"@]
    } else {
        Seq::<Seq<char>>::empty()
    }) + spec_opt_flag(st.build_settings.opt_level) + st.user_settings.wasm_opt_flags;
    if head.len() == 0 {
        None
    } else {
        let dbg = matches!(
            st.build_settings.debug_level,
            DebugLevel::G1 | DebugLevel::G2 | DebugLevel::G3,
        );
        Some(
            (CommandSpecView {
                program: "wasm-opt"@,
                args: head + (if dbg {
                    seq!["-g"@]
                } else {
                    Seq::<Seq<char>>::empty()
                }) + seq![spec_output_path(st), "-o"@, spec_output_path(st)],
            }),
        )
    }
}

/// Builds the post-link-optimize command, or nothing when no flag at all
/// would be passed to the optimizer.
#[verifier::rlimit(100)]
pub fn run_wasm_opt(state: &State) -> (r: Option<CommandSpec>)
    ensures
        match r {
            Some(c) => spec_wasm_opt_command(state@) == Some(c@),
            None => spec_wasm_opt_command(state@) is None,
        },
{
    let ghost us = state@.user_settings;
    let mut v: Vec<String> = Vec::new();
    let ghost p0 = v@;
    if state.user_settings.wasm_exceptions {
        v.push("--experimental-new-eh".to_owned());
    }
    let ghost h1 = if us.wasm_exceptions {
        seq!["--experimental-new-eh"@]
    } else {
        Seq::<Seq<char>>::empty()
    };
    proof {
        assert(str_views(v@) =~= h1);
    }
    match state.build_settings.opt_level {
        OptLevel::O0 => (),
        OptLevel::O1 => {
            v.push("-O1".to_owned());
        },
        OptLevel::O2 => {
            v.push("-O2".to_owned());
        },
        OptLevel::O3 => {
            v.push("-O3".to_owned());
        },
        OptLevel::O4 => {
            v.push("-O4".to_owned());
        },
        OptLevel::Os => {
            v.push("-Os".to_owned());
        },
        OptLevel::Oz => {
            v.push("-Oz".to_owned());
        },
    }
    let ghost h2 = h1 + spec_opt_flag(state@.build_settings.opt_level);
    proof {
        assert(str_views(v@) =~= h2);
    }
    let mut t: usize = 0;
    proof {
        assert(h2 + us.wasm_opt_flags.take(0) =~= h2);
    }
    while t < state.user_settings.wasm_opt_flags.len()
        invariant
            us == state@.user_settings,
            h2 == (if us.wasm_exceptions {
                seq!["--experimental-new-eh"@]
            } else {
                Seq::<Seq<char>>::empty()
            }) + spec_opt_flag(state@.build_settings.opt_level),
            0 <= t <= state.user_settings.wasm_opt_flags.len(),
            str_views(v@) == h2 + us.wasm_opt_flags.take(t as int),
        decreases state.user_settings.wasm_opt_flags.len() - t,
    {
        v.push(state.user_settings.wasm_opt_flags[t].clone());
        t = t + 1;
        proof {
            assert(str_views(v@) =~= h2 + us.wasm_opt_flags.take(t as int));
        }
    }
    proof {
        assert(us.wasm_opt_flags.take(state.user_settings.wasm_opt_flags@.len() as int)
            =~= us.wasm_opt_flags);
    }
    let ghost head = h2 + us.wasm_opt_flags;

    if v.len() == 0 {
        return None;
    }

    let ghost pd = v@;
    if matches!(
        state.build_settings.debug_level,
        DebugLevel::G1 | DebugLevel::G2 | DebugLevel::G3,
    ) {
        v.push("-g".to_owned());
    }
    proof {
        let ghost dl = state@.build_settings.debug_level;
        assert(str_views(v@) =~= str_views(pd) + (if matches!(
            dl,
            DebugLevel::G1 | DebugLevel::G2 | DebugLevel::G3,
        ) {
            seq!["-g"@]
        } else {
            Seq::<Seq<char>>::empty()
        }));
    }
    let ghost pe = v@;
    let out = output_path(state);
    v.push(out.clone());
    v.push("-o".to_owned());
    v.push(out);
    proof {
        assert(str_views(v@) =~= str_views(pe) + seq![
            spec_output_path(state@),
            "-o"@,
            spec_output_path(state@),
        ]);
        assert(spec_wasm_opt_command(state@) is Some);
    }
    let cmd = CommandSpec { program: "wasm-opt".to_owned(), args: v };
    proof {
        assert(cmd@.args == spec_wasm_opt_command(state@)->0.args);
        assert(cmd@ == spec_wasm_opt_command(state@)->0);
    }
    Some(cmd)
}

/// The full compile pipeline for one invocation: classification, then
/// either a verbatim pass-through of the original arguments when there
/// are no inputs at all, or the compile commands, the link command for
/// linkable kinds, and the post-link-optimize command when it applies.
pub open spec fn spec_run(
    args: Seq<Seq<char>>,
    us: UserSettingsView,
    run_cxx: bool,
    temp_dir: Seq<char>,
) -> Result<Seq<CommandSpecView>, DriverErrorView> {
    match spec_prepare_compiler_args(args, us.module_kind, us.wasm_exceptions) {
        Err(e) => Err(e),
        Ok(st) => {
            let us2 = UserSettingsView {
                module_kind: st.module_kind,
                wasm_exceptions: st.wasm_exceptions,
                ..us
            };
            if st.pa.compiler_inputs.len() == 0 && st.pa.linker_inputs.len() == 0 {
                Ok(
                    seq![
                        CommandSpecView {
                            program: spec_tool_path(
                                us2.llvm_location,
                                if run_cxx {
                                    "clang++"@
                                } else {
                                    "clang"@
                                },
                            ),
                            args: args,
                        },
                    ],
                )
            } else if us2.sysroot_location is None {
                Err(DriverErrorView::MissingSysroot)
            } else {
                let stv = StateView {
                    user_settings: us2,
                    build_settings: st.bs,
                    args: st.pa,
                    cxx: run_cxx,
                    temp_dir: temp_dir,
                };
                let stv2 = StateView {
                    args: PreparedArgsView {
                        linker_inputs: st.pa.linker_inputs + spec_object_paths(
                            st.pa.compiler_inputs,
                            temp_dir,
                        ),
                        ..st.pa
                    },
                    ..stv
                };
                let kind = spec_settings_kind(us2);
                Ok(
                    spec_compile_commands(stv) + (if kind.is_binary() {
                        seq![
                            CommandSpecView {
                                program: spec_tool_path(us2.llvm_location, "wasm-ld"@),
                                args: spec_link_args(stv2),
                            },
                        ]
                    } else {
                        Seq::<CommandSpecView>::empty()
                    }) + (if kind.is_binary() && st.bs.use_wasm_opt {
                        match spec_wasm_opt_command(stv2) {
                            Some(c) => seq![c],
                            None => Seq::<CommandSpecView>::empty(),
                        }
                    } else {
                        Seq::<CommandSpecView>::empty()
                    }),
                )
            }
        },
    }
}

/// Plans the compile pipeline: the commands to run in order, stopping at
/// the first failure.  With no compiler and no linker inputs the original
/// argument list is passed through verbatim to the compiler, so that
/// diagnostic-only invocations keep working.
#[verifier::rlimit(100)]
pub fn run(args: Vec<String>, user_settings: UserSettings, run_cxx: bool, temp_dir: String) -> (r:
    Result<Vec<CommandSpec>, DriverError>)
    ensures
        match r {
            Ok(c) => spec_run(str_views(args@), user_settings@, run_cxx, temp_dir@) == Ok::<
                Seq<CommandSpecView>,
                DriverErrorView,
            >(cmd_views(c@)),
            Err(e) => spec_run(str_views(args@), user_settings@, run_cxx, temp_dir@) == Err::<
                Seq<CommandSpecView>,
                DriverErrorView,
            >(e@),
        },
{
    broadcast use lemma_cmd_views_push, lemma_cmd_views_len, lemma_cmd_views_index;

    let ghost us0 = user_settings@;
    let ghost av = str_views(args@);
    let original_args = clone_strings(&args);
    let mut user_settings = user_settings;
    let pb = match prepare_compiler_args(args, &mut user_settings) {
        Ok(pb) => pb,
        Err(e) => {
            return Err(e);
        },
    };
    let (pa, bs) = pb;
    let ghost st = spec_prepare_compiler_args(av, us0.module_kind, us0.wasm_exceptions)->Ok_0;
    let ghost us2 = UserSettingsView {
        module_kind: st.module_kind,
        wasm_exceptions: st.wasm_exceptions,
        ..us0
    };
    proof {
        assert(user_settings@ == us2);
    }

    if pa.compiler_inputs.len() == 0 && pa.linker_inputs.len() == 0 {
        let tool = if run_cxx {
            "clang++"
        } else {
            "clang"
        };
        let program = user_settings.llvm_location.get_tool_path(tool);
        let cmd = CommandSpec { program, args: original_args };
        let ghost cmdv = cmd@;
        let mut cmds: Vec<CommandSpec> = Vec::new();
        cmds.push(cmd);
        proof {
            assert(cmd_views(cmds@) =~= seq![cmdv]);
        }
        return Ok(cmds);
    }

    if user_settings.sysroot_location.is_none() {
        return Err(DriverError::MissingSysroot);
    }

    let mut state = State {
        user_settings,
        build_settings: bs,
        args: pa,
        cxx: run_cxx,
        temp_dir,
    };
    let ghost stv = state@;
    let mut cmds = compile_inputs(&mut state);
    let ghost stv2 = state@;

    if state.user_settings.module_kind().is_binary() {
        let link = link_inputs(&state);
        let ghost linkv = link@;
        cmds.push(link);
        proof {
            assert(cmd_views(cmds@) == cmd_views(cmds@.drop_last()).push(linkv));
        }
        if state.build_settings.use_wasm_opt {
            match run_wasm_opt(&state) {
                Some(c) => {
                    let ghost cv = c@;
                    cmds.push(c);
                    proof {
                        assert(cmd_views(cmds@) =~= spec_compile_commands(stv) + seq![linkv]
                            + seq![cv]);
                    }
                },
                None => {
                    proof {
                        assert(cmd_views(cmds@) =~= spec_compile_commands(stv) + seq![linkv]
                            + Seq::<CommandSpecView>::empty());
                    }
                },
            }
        } else {
            proof {
                assert(cmd_views(cmds@) =~= spec_compile_commands(stv) + seq![linkv]
                    + Seq::<CommandSpecView>::empty());
            }
        }
    } else {
        proof {
            assert(cmd_views(cmds@) =~= spec_compile_commands(stv)
                + Seq::<CommandSpecView>::empty() + Seq::<CommandSpecView>::empty());
        }
    }
    Ok(cmds)
}

/// The link-only pipeline: classification, the binary-kind and input
/// checks, the link command, and the post-link-optimize command when the
/// settings force it.  Optimization and debug levels are fixed at their
/// lowest since there is no compile step to derive them from.
pub open spec fn spec_link_only(args: Seq<Seq<char>>, us: UserSettingsView) -> Result<
    Seq<CommandSpecView>,
    DriverErrorView,
> {
    match spec_prepare_linker_args(args, us.module_kind) {
        Err(e) => Err(e),
        Ok(st) => {
            let us2 = UserSettingsView { module_kind: st.module_kind, ..us };
            let kind = spec_settings_kind(us2);
            if !kind.is_binary() {
                Err((DriverErrorView::NotLinkable { kind }))
            } else if st.pa.linker_inputs.len() == 0 {
                Err(DriverErrorView::NoInput)
            } else if us2.sysroot_location is None {
                Err(DriverErrorView::MissingSysroot)
            } else {
                let bs = BuildSettings {
                    opt_level: OptLevel::O0,
                    debug_level: DebugLevel::G0,
                    use_wasm_opt: us2.force_wasm_opt,
                };
                let stv = StateView {
                    user_settings: us2,
                    build_settings: bs,
                    args: st.pa,
                    cxx: false,
                    temp_dir: "."@,
                };
                Ok(
                    seq![
                        CommandSpecView {
                            program: spec_tool_path(us2.llvm_location, "wasm-ld"@),
                            args: spec_link_args(stv),
                        },
                    ] + (if bs.use_wasm_opt {
                        match spec_wasm_opt_command(stv) {
                            Some(c) => seq![c],
                            None => Seq::<CommandSpecView>::empty(),
                        }
                    } else {
                        Seq::<CommandSpecView>::empty()
                    }),
                )
            }
        },
    }
}

/// Plans the link-only pipeline.  Only linkable kinds can be linked, and
/// an empty linker-input list is an error.
#[verifier::rlimit(100)]
pub fn link_only(args: Vec<String>, user_settings: UserSettings) -> (r: Result<
    Vec<CommandSpec>,
    DriverError,
>)
    ensures
        match r {
            Ok(c) => spec_link_only(str_views(args@), user_settings@) == Ok::<
                Seq<CommandSpecView>,
                DriverErrorView,
            >(cmd_views(c@)),
            Err(e) => spec_link_only(str_views(args@), user_settings@) == Err::<
                Seq<CommandSpecView>,
                DriverErrorView,
            >(e@),
        },
{
    broadcast use lemma_cmd_views_push, lemma_cmd_views_len, lemma_cmd_views_index;

    let ghost us0 = user_settings@;
    let ghost av = str_views(args@);
    let mut user_settings = user_settings;
    let pa = match prepare_linker_args(args, &mut user_settings) {
        Ok(pa) => pa,
        Err(e) => {
            return Err(e);
        },
    };
    let ghost st = spec_prepare_linker_args(av, us0.module_kind)->Ok_0;
    let ghost us2 = UserSettingsView { module_kind: st.module_kind, ..us0 };
    proof {
        assert(user_settings@ == us2);
    }

    if !user_settings.module_kind().is_binary() {
        return Err(DriverError::NotLinkable { kind: user_settings.module_kind() });
    }

    if pa.linker_inputs.len() == 0 {
        return Err(DriverError::NoInput);
    }

    if user_settings.sysroot_location.is_none() {
        return Err(DriverError::MissingSysroot);
    }

    let build_settings = BuildSettings {
        opt_level: OptLevel::O0,
        debug_level: DebugLevel::G0,
        use_wasm_opt: user_settings.force_wasm_opt,
    };

    let state = State {
        user_settings,
        build_settings,
        args: pa,
        cxx: false,
        temp_dir: ".".to_owned(),
    };
    let ghost stv = state@;

    let mut cmds: Vec<CommandSpec> = Vec::new();
    let link = link_inputs(&state);
    let ghost linkv = link@;
    cmds.push(link);

    if state.build_settings.use_wasm_opt {
        match run_wasm_opt(&state) {
            Some(c) => {
                let ghost cv = c@;
                cmds.push(c);
                proof {
                    assert(cmd_views(cmds@) =~= seq![linkv] + seq![cv]);
                }
            },
            None => {
                proof {
                    assert(cmd_views(cmds@) =~= seq![linkv] + Seq::<CommandSpecView>::empty());
                }
            },
        }
    } else {
        proof {
            assert(cmd_views(cmds@) =~= seq![linkv] + Seq::<CommandSpecView>::empty());
        }
    }
    Ok(cmds)
}

} // verus!
