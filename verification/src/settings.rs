//! User-facing configuration: where the toolchain lives, where the sysroot
//! is, and the behavior toggles that can be set through `-s<NAME>=<value>`
//! arguments or environment variables with the `WASIXCC_` prefix.

use vstd::prelude::*;

use crate::compiler::ModuleKind;
use crate::error::{DriverError, DriverErrorView};
use crate::strutil::{
    chars_of, contains_char, dec_str, find_char, find_in_str, has_prefix, join_path, path_join,
    starts_with, str_eq, str_views, string_of, trim, trim_chars, u64_to_string,
};

verus! {

/// One environment variable, handed in by the embedding program so that
/// configuration lookup is a pure function of its arguments.
#[derive(Debug, Clone, PartialEq, Eq)]
pub struct EnvVar {
    pub name: String,
    pub value: String,
}

/// The mathematical model of an environment variable.
pub struct EnvVarView {
    pub name: Seq<char>,
    pub value: Seq<char>,
}

impl View for EnvVar {
    type V = EnvVarView;

    open spec fn view(&self) -> EnvVarView {
        EnvVarView { name: self.name@, value: self.value@ }
    }
}

/// The character-sequence views of a sequence of environment variables.
pub open spec fn env_views(s: Seq<EnvVar>) -> Seq<EnvVarView> {
    s.map_values(|x: EnvVar| x@)
}

/// Where to find the LLVM tools: either a directory holding unsuffixed
/// tool binaries, or the system `PATH` with a numeric version suffix.
#[derive(Debug, Clone, PartialEq, Eq)]
pub enum LlvmLocation {
    FromPath(String),
    FromSystem(u32),
}

/// The mathematical model of an `LlvmLocation`.
pub enum LlvmLocationView {
    FromPath(Seq<char>),
    FromSystem(u32),
}

impl View for LlvmLocation {
    type V = LlvmLocationView;

    open spec fn view(&self) -> LlvmLocationView {
        match self {
            LlvmLocation::FromPath(p) => LlvmLocationView::FromPath(p@),
            LlvmLocation::FromSystem(v) => LlvmLocationView::FromSystem(*v),
        }
    }
}

/// The path used to invoke the given tool: either inside the configured
/// directory, or the bare tool name with the version suffix appended.
pub open spec fn spec_tool_path(loc: LlvmLocationView, tool: Seq<char>) -> Seq<char> {
    match loc {
        LlvmLocationView::FromPath(p) => join_path(p, tool),
        LlvmLocationView::FromSystem(v) => tool + "-"@ + dec_str(v as int),
    }
}

impl LlvmLocation {
    pub fn get_tool_path(&self, tool: &str) -> (r: String)
        ensures
            r@ == spec_tool_path(self@, tool@),
    {
        match self {
            LlvmLocation::FromPath(path) => path_join(path.as_str(), tool),
            LlvmLocation::FromSystem(version_suffix) => {
                let mut r = tool.to_owned();
                r.append("-");
                let v = u64_to_string(*version_suffix as u64);
                r.append(v.as_str());
                r
            },
        }
    }
}

/// Settings provided by the user through environment variables or `-s`
/// flags.  Some can be overridden by compiler flags; e.g.
/// `-fno-wasm-exceptions` takes priority over `-sWASM_EXCEPTIONS=1`.
#[derive(Debug, Clone, PartialEq, Eq)]
pub struct UserSettings {
    pub sysroot_location: Option<String>,  // key name: SYSROOT
    pub llvm_location: LlvmLocation,  // key name: LLVM_LOCATION
    pub extra_compiler_flags: Vec<String>,  // key name: COMPILER_FLAGS
    pub extra_linker_flags: Vec<String>,  // key name: LINKER_FLAGS
    pub force_wasm_opt: bool,  // key name: FORCE_WASM_OPT
    pub wasm_opt_flags: Vec<String>,  // key name: WASM_OPT_FLAGS
    pub module_kind: Option<ModuleKind>,  // key name: MODULE_KIND
    pub wasm_exceptions: bool,  // key name: WASM_EXCEPTIONS
    pub pic: bool,  // key name: PIC
}

/// The mathematical model of a `UserSettings`.
pub struct UserSettingsView {
    pub sysroot_location: Option<Seq<char>>,
    pub llvm_location: LlvmLocationView,
    pub extra_compiler_flags: Seq<Seq<char>>,
    pub extra_linker_flags: Seq<Seq<char>>,
    pub force_wasm_opt: bool,
    pub wasm_opt_flags: Seq<Seq<char>>,
    pub module_kind: Option<ModuleKind>,
    pub wasm_exceptions: bool,
    pub pic: bool,
}

impl View for UserSettings {
    type V = UserSettingsView;

    open spec fn view(&self) -> UserSettingsView {
        UserSettingsView {
            sysroot_location: match self.sysroot_location {
                Some(ref p) => Some(p@),
                None => None,
            },
            llvm_location: self.llvm_location@,
            extra_compiler_flags: str_views(self.extra_compiler_flags@),
            extra_linker_flags: str_views(self.extra_linker_flags@),
            force_wasm_opt: self.force_wasm_opt,
            wasm_opt_flags: str_views(self.wasm_opt_flags@),
            module_kind: self.module_kind,
            wasm_exceptions: self.wasm_exceptions,
            pic: self.pic,
        }
    }
}

/// The module kind that the settings resolve to: the explicitly configured
/// or inferred kind, or an executable with statically resolved imports by
/// default.
pub open spec fn spec_settings_kind(us: UserSettingsView) -> ModuleKind {
    match us.module_kind {
        Some(k) => k,
        None => ModuleKind::StaticMain,
    }
}

impl UserSettings {
    /// The configured sysroot path.  Callers must have checked that one is
    /// configured; `run` and `link_only` report `MissingSysroot` otherwise.
    pub fn sysroot_location(&self) -> (r: &String)
        requires
            self.sysroot_location is Some,
        ensures
            Some(r@) == self@.sysroot_location,
    {
        match &self.sysroot_location {
            Some(p) => p,
            None => unreached(),
        }
    }

    /// The module kind to build, defaulting to a statically linked
    /// executable when none was configured or inferred.
    pub fn module_kind(&self) -> (r: ModuleKind)
        ensures
            r == spec_settings_kind(self@),
    {
        match self.module_kind {
            Some(k) => k,
            None => ModuleKind::StaticMain,
        }
    }
}

broadcast use vstd::seq_lib::lemma_seq_skip_of_skip, vstd::seq_lib::lemma_seq_skip_index;

/// A settings-bearing argument: a `-s` prefix with an `=` somewhere after
/// it.
pub open spec fn is_settings_arg(a: Seq<char>) -> bool {
    has_prefix(a, "-s"@) && a.contains('=')
}

/// The settings-bearing arguments, in order, followed by the remaining
/// pipeline arguments, in order.
pub open spec fn spec_settings_partition(args: Seq<Seq<char>>) -> (Seq<Seq<char>>, Seq<Seq<char>>) {
    (
        args.filter(|a: Seq<char>| is_settings_arg(a)),
        args.filter(|a: Seq<char>| !is_settings_arg(a)),
    )
}

proof fn lemma_filter_one(s: Seq<Seq<char>>, x: Seq<char>, p: spec_fn(Seq<char>) -> bool)
    ensures
        s.push(x).filter(p) == if p(x) {
            s.filter(p).push(x)
        } else {
            s.filter(p)
        },
{
    reveal(Seq::filter);
    assert(s.push(x).drop_last() =~= s);
    assert(s.push(x).last() == x);
}

/// Splits the raw argument list into settings-bearing arguments and
/// pipeline arguments.
pub fn separate_user_settings_args(args: Vec<String>) -> (r: (Vec<String>, Vec<String>))
    ensures
        str_views(r.0@) == spec_settings_partition(str_views(args@)).0,
        str_views(r.1@) == spec_settings_partition(str_views(args@)).1,
{
    broadcast use crate::strutil::lemma_str_views_push;
    broadcast use crate::strutil::lemma_str_views_len;
    broadcast use crate::strutil::lemma_str_views_index;

    let ghost av = str_views(args@);
    let ghost p = |a: Seq<char>| is_settings_arg(a);
    let ghost q = |a: Seq<char>| !is_settings_arg(a);
    let mut settings: Vec<String> = Vec::new();
    let mut rest: Vec<String> = Vec::new();
    let mut i: usize = 0;
    proof {
        assert(av.take(0) =~= Seq::<Seq<char>>::empty());
        assert(str_views(settings@) =~= av.take(0).filter(p));
        assert(str_views(rest@) =~= av.take(0).filter(q));
    }
    while i < args.len()
        invariant
            av == str_views(args@),
            p == (|a: Seq<char>| is_settings_arg(a)),
            q == (|a: Seq<char>| !is_settings_arg(a)),
            0 <= i <= args.len(),
            str_views(settings@) == av.take(i as int).filter(p),
            str_views(rest@) == av.take(i as int).filter(q),
        decreases args.len() - i,
    {
        let a = &args[i];
        proof {
            assert(av.take(i + 1) =~= av.take(i as int).push(av[i as int]));
            lemma_filter_one(av.take(i as int), av[i as int], p);
            lemma_filter_one(av.take(i as int), av[i as int], q);
        }
        if starts_with(a.as_str(), "-s") && contains_char(a.as_str(), '=') {
            settings.push(a.clone());
        } else {
            rest.push(a.clone());
        }
        i = i + 1;
    }
    proof {
        assert(av.take(args@.len() as int) =~= av);
    }
    (settings, rest)
}

/// The `-s<NAME>=` prefix that introduces an inline setting.
pub open spec fn spec_setting_prefix(name: Seq<char>) -> Seq<char> {
    "-s"@ + name + "="@
}

/// The value carried by a settings-bearing argument: the characters
/// between the `=` that ends the prefix and the next `=` or the end.
pub open spec fn spec_arg_setting_value(a: Seq<char>, name: Seq<char>) -> Seq<char> {
    let rest = a.skip(spec_setting_prefix(name).len() as int);
    let j = find_char(rest, '=');
    if j >= 0 {
        rest.take(j)
    } else {
        rest
    }
}

/// The value of the first argument bearing the given setting name, if any.
pub open spec fn spec_lookup_args(name: Seq<char>, args: Seq<Seq<char>>) -> Option<Seq<char>>
    decreases args.len(),
{
    if args.len() == 0 {
        None
    } else if has_prefix(args[0], spec_setting_prefix(name)) {
        Some(spec_arg_setting_value(args[0], name))
    } else {
        spec_lookup_args(name, args.skip(1))
    }
}

/// The value of the first environment variable named `WASIXCC_<name>`, if
/// any.
pub open spec fn spec_lookup_env(name: Seq<char>, env: Seq<EnvVarView>) -> Option<Seq<char>>
    decreases env.len(),
{
    if env.len() == 0 {
        None
    } else if env[0].name == "WASIXCC_"@ + name {
        Some(env[0].value)
    } else {
        spec_lookup_env(name, env.skip(1))
    }
}

/// The resolved value of a setting: inline arguments take precedence over
/// the environment.
pub open spec fn spec_setting(
    name: Seq<char>,
    args: Seq<Seq<char>>,
    env: Seq<EnvVarView>,
) -> Option<Seq<char>> {
    match spec_lookup_args(name, args) {
        Some(v) => Some(v),
        None => spec_lookup_env(name, env),
    }
}

/// Looks the named setting up, first among the settings-bearing arguments
/// (first match wins), then in the environment snapshot.
pub fn try_get_user_setting_value(name: &str, args: &Vec<String>, env: &Vec<EnvVar>) -> (r: Option<
    String,
>)
    ensures
        match r {
            Some(v) => spec_setting(name@, str_views(args@), env_views(env@)) == Some(v@),
            None => spec_setting(name@, str_views(args@), env_views(env@)) is None,
        },
{
    broadcast use crate::strutil::lemma_str_views_len;
    broadcast use crate::strutil::lemma_str_views_index;

    let ghost av = str_views(args@);
    let mut prefix = "-s".to_owned();
    prefix.append(name);
    prefix.append("=");
    proof {
        assert(prefix@ =~= spec_setting_prefix(name@));
    }
    let plen = prefix.unicode_len();
    let mut i: usize = 0;
    while i < args.len()
        invariant
            av == str_views(args@),
            prefix@ == spec_setting_prefix(name@),
            plen == prefix@.len(),
            0 <= i <= args.len(),
            spec_lookup_args(name@, av.skip(i as int)) == spec_lookup_args(name@, av),
        decreases args.len() - i,
    {
        let a = &args[i];
        proof {
            assert(av.skip(i as int)[0] == av[i as int]);
            assert(av.skip(i as int).skip(1) =~= av.skip(i + 1));
        }
        if starts_with(a.as_str(), prefix.as_str()) {
            let n = a.as_str().unicode_len();
            let rest = a.as_str().substring_char(plen, n);
            proof {
                assert(rest@ =~= a@.skip(plen as int));
            }
            let jopt = find_in_str(rest, '=');
            proof {
                crate::strutil::lemma_find_char(rest@, '=');
            }
            let value = match jopt {
                Some(j) => rest.substring_char(0, j),
                None => rest,
            };
            proof {
                let rv = a@.skip(plen as int);
                let j = find_char(rv, '=');
                if j >= 0 {
                    assert(value@ =~= rv.take(j));
                } else {
                    assert(value@ =~= rv);
                }
                assert(value@ == spec_arg_setting_value(av[i as int], name@));
            }
            return Some(value.to_owned());
        }
        i = i + 1;
    }
    proof {
        assert(av.skip(args@.len() as int) =~= Seq::<Seq<char>>::empty());
    }

    let ghost ev = env_views(env@);
    let mut env_name = "WASIXCC_".to_owned();
    env_name.append(name);
    proof {
        assert(env_name@ =~= "WASIXCC_"@ + name@);
    }
    let mut k: usize = 0;
    while k < env.len()
        invariant
            ev == env_views(env@),
            env_name@ == "WASIXCC_"@ + name@,
            0 <= k <= env.len(),
            spec_lookup_args(name@, str_views(args@)) is None,
            spec_lookup_env(name@, ev.skip(k as int)) == spec_lookup_env(name@, ev),
        decreases env.len() - k,
    {
        let e = &env[k];
        proof {
            assert(ev.skip(k as int)[0] == ev[k as int]);
            assert(ev.skip(k as int).skip(1) =~= ev.skip(k + 1));
            assert(ev[k as int] == env@[k as int]@);
        }
        if str_eq(e.name.as_str(), env_name.as_str()) {
            return Some(e.value.clone());
        }
        k = k + 1;
    }
    proof {
        assert(ev.skip(env@.len() as int) =~= Seq::<EnvVarView>::empty());
    }
    None
}

/// Both spellings of one letter.
pub open spec fn ci(c: char, lo: char, up: char) -> bool {
    c == lo || c == up
}

/// The truthy tokens: `1`, `true`, `yes`, in any letter case.
pub open spec fn is_truthy(s: Seq<char>) -> bool {
    ||| s == "1"@
    ||| (s.len() == 4 && ci(s[0], 't', 'T') && ci(s[1], 'r', 'R') && ci(s[2], 'u', 'U') && ci(
        s[3],
        'e',
        'E',
    ))
    ||| (s.len() == 3 && ci(s[0], 'y', 'Y') && ci(s[1], 'e', 'E') && ci(s[2], 's', 'S'))
}

/// The falsy tokens: `0`, `false`, `no`, in any letter case.
pub open spec fn is_falsy(s: Seq<char>) -> bool {
    ||| s == "0"@
    ||| (s.len() == 5 && ci(s[0], 'f', 'F') && ci(s[1], 'a', 'A') && ci(s[2], 'l', 'L') && ci(
        s[3],
        's',
        'S',
    ) && ci(s[4], 'e', 'E'))
    ||| (s.len() == 2 && ci(s[0], 'n', 'N') && ci(s[1], 'o', 'O'))
}

/// The boolean a setting value denotes, or nothing when the value is not
/// a recognized token.
pub open spec fn spec_read_bool(s: Seq<char>) -> Option<bool> {
    if is_truthy(s) {
        Some(true)
    } else if is_falsy(s) {
        Some(false)
    } else {
        None
    }
}

fn char_ci(c: char, lo: char, up: char) -> (r: bool)
    ensures
        r == ci(c, lo, up),
{
    c == lo || c == up
}

/// Reads a boolean setting value: the truthy tokens yield `true`, the
/// falsy ones `false`, and any other value is rejected.
pub fn read_bool_user_setting(value: &str) -> (r: Option<bool>)
    ensures
        r == spec_read_bool(value@),
{
    let n = value.unicode_len();
    proof {
        reveal_strlit("1");
        reveal_strlit("0");
    }
    if n == 1 {
        let c = value.get_char(0);
        if c == '1' {
            proof {
                assert(value@ =~= "1"@);
            }
            return Some(true);
        }
        if c == '0' {
            proof {
                assert(value@ =~= "0"@);
            }
            return Some(false);
        }
        proof {
            assert(value@ != "1"@) by {
                assert(value@[0] != '1');
            }
            assert(value@ != "0"@) by {
                assert(value@[0] != '0');
            }
        }
        return None;
    }
    proof {
        assert(value@ != "1"@);
        assert(value@ != "0"@);
    }
    if n == 4 && char_ci(value.get_char(0), 't', 'T') && char_ci(value.get_char(1), 'r', 'R')
        && char_ci(value.get_char(2), 'u', 'U') && char_ci(value.get_char(3), 'e', 'E') {
        return Some(true);
    }
    if n == 3 && char_ci(value.get_char(0), 'y', 'Y') && char_ci(value.get_char(1), 'e', 'E')
        && char_ci(value.get_char(2), 's', 'S') {
        return Some(true);
    }
    if n == 5 && char_ci(value.get_char(0), 'f', 'F') && char_ci(value.get_char(1), 'a', 'A')
        && char_ci(value.get_char(2), 'l', 'L') && char_ci(value.get_char(3), 's', 'S') && char_ci(
        value.get_char(4),
        'e',
        'E',
    ) {
        return Some(false);
    }
    if n == 2 && char_ci(value.get_char(0), 'n', 'N') && char_ci(value.get_char(1), 'o', 'O') {
        return Some(false);
    }
    None
}

/// Adds the current piece to the list: whitespace is trimmed and an
/// empty piece is dropped.
pub open spec fn push_piece(acc: Seq<Seq<char>>, cur: Seq<char>) -> Seq<Seq<char>> {
    if trim(cur).len() == 0 {
        acc
    } else {
        acc.push(trim(cur))
    }
}

/// The state machine of the list-setting parser: `:` separates pieces and
/// `\:` puts a literal `:` inside one.
pub open spec fn split_list(s: Seq<char>, cur: Seq<char>, acc: Seq<Seq<char>>) -> Seq<Seq<char>>
    decreases s.len(),
{
    if s.len() == 0 {
        push_piece(acc, cur)
    } else if s[0] == '\\' {
        if s.len() == 1 {
            push_piece(acc, cur.push('\\'))
        } else if s[1] == ':' {
            split_list(s.skip(2), cur.push(':'), acc)
        } else {
            split_list(s.skip(2), cur.push('\\').push(s[1]), acc)
        }
    } else if s[0] == ':' {
        split_list(s.skip(1), Seq::empty(), push_piece(acc, cur))
    } else {
        split_list(s.skip(1), cur.push(s[0]), acc)
    }
}

/// The elements a list-valued setting denotes.
pub open spec fn spec_string_list(s: Seq<char>) -> Seq<Seq<char>> {
    split_list(s, Seq::empty(), Seq::empty())
}

fn flush_piece(result: &mut Vec<String>, current: &mut Vec<char>)
    ensures
        str_views(final(result)@) == push_piece(str_views(old(result)@), old(current)@),
        final(current)@ == Seq::<char>::empty(),
{
    broadcast use crate::strutil::lemma_str_views_push;

    let t = trim_chars(current);
    if t.len() > 0 {
        let piece = string_of(&t);
        result.push(piece);
    }
    current.clear();
}

/// Reads a list-valued setting: pieces are separated by `:`, a literal
/// `:` is written `\:`, and empty or all-whitespace pieces are dropped.
pub fn read_string_list_user_setting(value: &str) -> (r: Vec<String>)
    ensures
        str_views(r@) == spec_string_list(value@),
{
    let chars = chars_of(value);
    let n = chars.len();
    let mut result: Vec<String> = Vec::new();
    let mut current: Vec<char> = Vec::new();
    let mut i: usize = 0;
    proof {
        assert(value@.skip(0) =~= value@);
        assert(str_views(result@) =~= Seq::<Seq<char>>::empty());
    }
    while i < n
        invariant
            n == chars@.len(),
            chars@ == value@,
            0 <= i <= n,
            split_list(value@.skip(i as int), current@, str_views(result@)) == spec_string_list(
                value@,
            ),
        decreases n - i,
    {
        let ghost pre = value@.skip(i as int);
        let c = chars[i];
        if c == '\\' {
            if i + 1 < n {
                let d = chars[i + 1];
                if d == ':' {
                    current.push(':');
                } else {
                    current.push('\\');
                    current.push(d);
                }
                proof {
                    assert(pre[1] == value@[i + 1]);
                    assert(pre.skip(2) =~= value@.skip(i + 2));
                }
                i = i + 2;
            } else {
                current.push('\\');
                proof {
                    assert(pre.len() == 1);
                    assert(value@.skip(i + 1) =~= Seq::<char>::empty());
                }
                i = i + 1;
            }
        } else if c == ':' {
            flush_piece(&mut result, &mut current);
            proof {
                assert(pre.skip(1) =~= value@.skip(i + 1));
            }
            i = i + 1;
        } else {
            current.push(c);
            proof {
                assert(pre.skip(1) =~= value@.skip(i + 1));
            }
            i = i + 1;
        }
    }
    proof {
        assert(value@.skip(n as int) =~= Seq::<char>::empty());
    }
    flush_piece(&mut result, &mut current);
    result
}

/// A `:` inside a list element is written `\\:` in the serialized form.
pub open spec fn escape_elem(e: Seq<char>) -> Seq<char>
    decreases e.len(),
{
    if e.len() == 0 {
        Seq::empty()
    } else if e[0] == ':' {
        seq!['\\', ':'] + escape_elem(e.skip(1))
    } else {
        seq![e[0]] + escape_elem(e.skip(1))
    }
}

/// The serialized form of a list-valued setting: elements joined with
/// `:`, every `:` inside an element escaped.
pub open spec fn serialize_string_list(l: Seq<Seq<char>>) -> Seq<char>
    decreases l.len(),
{
    if l.len() == 0 {
        Seq::empty()
    } else if l.len() == 1 {
        escape_elem(l[0])
    } else {
        escape_elem(l[0]) + seq![':'] + serialize_string_list(l.skip(1))
    }
}

proof fn lemma_split_escaped(e: Seq<char>, s: Seq<char>, cur: Seq<char>, acc: Seq<Seq<char>>)
    requires
        !e.contains('\\'),
    ensures
        split_list(escape_elem(e) + s, cur, acc) == split_list(s, cur + e, acc),
    decreases e.len(),
{
    if e.len() == 0 {
        assert(escape_elem(e) + s =~= s);
        assert(cur + e =~= cur);
    } else {
        let rest = e.skip(1);
        assert(!rest.contains('\\')) by {
            if rest.contains('\\') {
                let i = choose|i: int| 0 <= i < rest.len() && rest[i] == '\\';
                assert(e[i + 1] == '\\');
                assert(e.contains('\\'));
            }
        }
        assert(e[0] != '\\') by {
            if e[0] == '\\' {
                assert(e.contains('\\'));
            }
        }
        let w = escape_elem(e) + s;
        if e[0] == ':' {
            assert(w[0] == '\\');
            assert(w[1] == ':');
            assert(w.len() >= 2);
            assert(w.skip(2) =~= escape_elem(rest) + s);
            lemma_split_escaped(rest, s, cur.push(':'), acc);
            assert(cur.push(':') + rest =~= cur + e);
        } else {
            assert(w[0] == e[0]);
            assert(w.skip(1) =~= escape_elem(rest) + s);
            lemma_split_escaped(rest, s, cur.push(e[0]), acc);
            assert(cur.push(e[0]) + rest =~= cur + e);
        }
    }
}

proof fn lemma_parse_serialized(l: Seq<Seq<char>>, acc: Seq<Seq<char>>)
    requires
        forall|i: int|
            0 <= i < l.len() ==> trim(#[trigger] l[i]) == l[i] && l[i].len() > 0 && !l[i].contains(
                '\\',
            ),
    ensures
        split_list(serialize_string_list(l), Seq::empty(), acc) == acc + l,
    decreases l.len(),
{
    if l.len() == 0 {
        assert(trim(Seq::<char>::empty()) =~= Seq::<char>::empty());
        assert(acc + l =~= acc);
    } else if l.len() == 1 {
        lemma_split_escaped(l[0], Seq::empty(), Seq::empty(), acc);
        assert(escape_elem(l[0]) + Seq::<char>::empty() =~= escape_elem(l[0]));
        assert(Seq::<char>::empty() + l[0] =~= l[0]);
        assert(split_list(Seq::empty(), l[0], acc) == push_piece(acc, l[0]));
        assert(acc + l =~= acc.push(l[0]));
    } else {
        let rest = l.skip(1);
        let w = seq![':'] + serialize_string_list(rest);
        lemma_split_escaped(l[0], w, Seq::empty(), acc);
        assert(escape_elem(l[0]) + w =~= serialize_string_list(l));
        assert(w[0] == ':');
        assert(w.skip(1) =~= serialize_string_list(rest));
        assert(Seq::<char>::empty() + l[0] =~= l[0]);
        assert(split_list(w, l[0], acc) == split_list(
            serialize_string_list(rest),
            Seq::empty(),
            push_piece(acc, l[0]),
        ));
        assert(push_piece(acc, l[0]) == acc.push(l[0]));
        assert forall|i: int| 0 <= i < rest.len() implies trim(#[trigger] rest[i]) == rest[i]
            && rest[i].len() > 0 && !rest[i].contains('\\') by {
            assert(rest[i] == l[i + 1]);
        }
        lemma_parse_serialized(rest, acc.push(l[0]));
        assert(acc.push(l[0]) + rest =~= acc + l);
    }
}

/// Round trip: parsing the serialized form of a list reproduces it,
/// provided every element is non-empty, free of leading and trailing
/// whitespace, and free of backslashes.
pub proof fn lemma_string_list_round_trip(l: Seq<Seq<char>>)
    requires
        forall|i: int|
            0 <= i < l.len() ==> trim(#[trigger] l[i]) == l[i] && l[i].len() > 0 && !l[i].contains(
                '\\',
            ),
    ensures
        spec_string_list(serialize_string_list(l)) == l,
{
    lemma_parse_serialized(l, Seq::empty());
    assert(Seq::<Seq<char>>::empty() + l =~= l);
}

proof fn lemma_push_piece_elements(acc: Seq<Seq<char>>, cur: Seq<char>)
    requires
        forall|i: int|
            0 <= i < acc.len() ==> trim(#[trigger] acc[i]) == acc[i] && acc[i].len() > 0,
    ensures
        forall|i: int|
            0 <= i < push_piece(acc, cur).len() ==> trim(#[trigger] push_piece(acc, cur)[i])
                == push_piece(acc, cur)[i] && push_piece(acc, cur)[i].len() > 0,
{
    crate::strutil::lemma_trim_idempotent(cur);
    if trim(cur).len() > 0 {
        assert forall|i: int| 0 <= i < push_piece(acc, cur).len() implies trim(
            #[trigger] push_piece(acc, cur)[i],
        ) == push_piece(acc, cur)[i] && push_piece(acc, cur)[i].len() > 0 by {
            if i < acc.len() {
                assert(push_piece(acc, cur)[i] == acc[i]);
            } else {
                assert(push_piece(acc, cur)[i] == trim(cur));
            }
        }
    }
}

proof fn lemma_split_list_elements(s: Seq<char>, cur: Seq<char>, acc: Seq<Seq<char>>)
    requires
        forall|i: int|
            0 <= i < acc.len() ==> trim(#[trigger] acc[i]) == acc[i] && acc[i].len() > 0,
    ensures
        forall|i: int|
            0 <= i < split_list(s, cur, acc).len() ==> trim(
                #[trigger] split_list(s, cur, acc)[i],
            ) == split_list(s, cur, acc)[i] && split_list(s, cur, acc)[i].len() > 0,
    decreases s.len(),
{
    if s.len() == 0 {
        lemma_push_piece_elements(acc, cur);
        assert(split_list(s, cur, acc) == push_piece(acc, cur));
    } else if s[0] == '\\' {
        if s.len() == 1 {
            lemma_push_piece_elements(acc, cur.push('\\'));
            assert(split_list(s, cur, acc) == push_piece(acc, cur.push('\\')));
        } else if s[1] == ':' {
            lemma_split_list_elements(s.skip(2), cur.push(':'), acc);
            assert(split_list(s, cur, acc) == split_list(s.skip(2), cur.push(':'), acc));
        } else {
            lemma_split_list_elements(s.skip(2), cur.push('\\').push(s[1]), acc);
            assert(split_list(s, cur, acc) == split_list(
                s.skip(2),
                cur.push('\\').push(s[1]),
                acc,
            ));
        }
    } else if s[0] == ':' {
        lemma_push_piece_elements(acc, cur);
        lemma_split_list_elements(s.skip(1), Seq::empty(), push_piece(acc, cur));
        assert(split_list(s, cur, acc) == split_list(s.skip(1), Seq::empty(), push_piece(acc, cur)));
    } else {
        lemma_split_list_elements(s.skip(1), cur.push(s[0]), acc);
        assert(split_list(s, cur, acc) == split_list(s.skip(1), cur.push(s[0]), acc));
    }
}

/// Dropped segments: every element the list parser produces is non-empty
/// and free of leading and trailing whitespace, so empty and
/// all-whitespace segments never appear in the result.
pub proof fn lemma_string_list_elements_trimmed(s: Seq<char>)
    ensures
        forall|i: int|
            0 <= i < spec_string_list(s).len() ==> trim(#[trigger] spec_string_list(s)[i])
                == spec_string_list(s)[i] && spec_string_list(s)[i].len() > 0,
{
    lemma_split_list_elements(s, Seq::empty(), Seq::empty());
}

/// The module kind a MODULE_KIND setting value names, if any.
pub open spec fn spec_parse_module_kind(v: Seq<char>) -> Option<ModuleKind> {
    if v == "static-main"@ {
        Some(ModuleKind::StaticMain)
    } else if v == "dynamic-main"@ {
        Some(ModuleKind::DynamicMain)
    } else if v == "shared-library"@ {
        Some(ModuleKind::SharedLibrary)
    } else if v == "object-file"@ {
        Some(ModuleKind::ObjectFile)
    } else {
        None
    }
}

/// A list-valued setting resolves to its parsed elements, or to the empty
/// list when it is not set.
pub open spec fn spec_list_setting(
    name: Seq<char>,
    args: Seq<Seq<char>>,
    env: Seq<EnvVarView>,
) -> Seq<Seq<char>> {
    match spec_setting(name, args, env) {
        Some(v) => spec_string_list(v),
        None => Seq::empty(),
    }
}

/// A boolean setting resolves to its parsed value, to `false` when it is
/// not set, and to an error when its value is not a recognized token.
pub open spec fn spec_bool_setting(
    name: Seq<char>,
    args: Seq<Seq<char>>,
    env: Seq<EnvVarView>,
) -> Result<bool, DriverErrorView> {
    match spec_setting(name, args, env) {
        None => Ok(false),
        Some(v) => match spec_read_bool(v) {
            Some(b) => Ok(b),
            None => Err(DriverErrorView::InvalidBoolSetting { name: name, value: v }),
        },
    }
}

/// The MODULE_KIND setting resolves to a kind, to nothing when it is not
/// set, and to an error when its value is not one of the four kind names.
pub open spec fn spec_kind_setting(args: Seq<Seq<char>>, env: Seq<EnvVarView>) -> Result<
    Option<ModuleKind>,
    DriverErrorView,
> {
    match spec_setting("MODULE_KIND"@, args, env) {
        None => Ok(None),
        Some(v) => match spec_parse_module_kind(v) {
            Some(k) => Ok(Some(k)),
            None => Err(DriverErrorView::UnknownModuleKind { value: v }),
        },
    }
}

/// The fully resolved settings, or the first configuration error in the
/// order the settings are read: FORCE_WASM_OPT, MODULE_KIND,
/// WASM_EXCEPTIONS, PIC.
pub open spec fn spec_gather(args: Seq<Seq<char>>, env: Seq<EnvVarView>) -> Result<
    UserSettingsView,
    DriverErrorView,
> {
    if spec_bool_setting("FORCE_WASM_OPT"@, args, env) is Err {
        Err(spec_bool_setting("FORCE_WASM_OPT"@, args, env)->Err_0)
    } else if spec_kind_setting(args, env) is Err {
        Err(spec_kind_setting(args, env)->Err_0)
    } else if spec_bool_setting("WASM_EXCEPTIONS"@, args, env) is Err {
        Err(spec_bool_setting("WASM_EXCEPTIONS"@, args, env)->Err_0)
    } else if spec_bool_setting("PIC"@, args, env) is Err {
        Err(spec_bool_setting("PIC"@, args, env)->Err_0)
    } else {
        Ok(
            UserSettingsView {
                sysroot_location: spec_setting("SYSROOT"@, args, env),
                llvm_location: match spec_setting("LLVM_LOCATION"@, args, env) {
                    Some(p) => LlvmLocationView::FromPath(p),
                    None => LlvmLocationView::FromSystem(20),
                },
                extra_compiler_flags: spec_list_setting("COMPILER_FLAGS"@, args, env),
                extra_linker_flags: spec_list_setting("LINKER_FLAGS"@, args, env),
                force_wasm_opt: spec_bool_setting("FORCE_WASM_OPT"@, args, env)->Ok_0,
                wasm_opt_flags: spec_list_setting("WASM_OPT_FLAGS"@, args, env),
                module_kind: spec_kind_setting(args, env)->Ok_0,
                wasm_exceptions: spec_bool_setting("WASM_EXCEPTIONS"@, args, env)->Ok_0,
                pic: spec_bool_setting("PIC"@, args, env)->Ok_0,
            },
        )
    }
}

/// Resolves every recognized setting from the settings-bearing arguments
/// and the environment snapshot, arguments first.
pub fn gather_user_settings(args: &Vec<String>, env: &Vec<EnvVar>) -> (r: Result<
    UserSettings,
    DriverError,
>)
    ensures
        match r {
            Ok(us) => spec_gather(str_views(args@), env_views(env@)) == Ok::<
                UserSettingsView,
                DriverErrorView,
            >(us@),
            Err(e) => spec_gather(str_views(args@), env_views(env@)) == Err::<
                UserSettingsView,
                DriverErrorView,
            >(e@),
        },
{
    let llvm_location = match try_get_user_setting_value("LLVM_LOCATION", args, env) {
        Some(path) => LlvmLocation::FromPath(path),
        None => LlvmLocation::FromSystem(20),
    };

    let sysroot_location = try_get_user_setting_value("SYSROOT", args, env);

    let extra_compiler_flags = match try_get_user_setting_value("COMPILER_FLAGS", args, env) {
        Some(flags) => read_string_list_user_setting(flags.as_str()),
        None => Vec::new(),
    };

    let extra_linker_flags = match try_get_user_setting_value("LINKER_FLAGS", args, env) {
        Some(flags) => read_string_list_user_setting(flags.as_str()),
        None => Vec::new(),
    };

    let force_wasm_opt = match try_get_user_setting_value("FORCE_WASM_OPT", args, env) {
        Some(value) => match read_bool_user_setting(value.as_str()) {
            Some(b) => b,
            None => {
                return Err(
                    DriverError::InvalidBoolSetting { name: "FORCE_WASM_OPT".to_owned(), value },
                );
            },
        },
        None => false,
    };

    let wasm_opt_flags = match try_get_user_setting_value("WASM_OPT_FLAGS", args, env) {
        Some(flags) => read_string_list_user_setting(flags.as_str()),
        None => Vec::new(),
    };

    let module_kind = match try_get_user_setting_value("MODULE_KIND", args, env) {
        Some(kind) => {
            if str_eq(kind.as_str(), "static-main") {
                Some(ModuleKind::StaticMain)
            } else if str_eq(kind.as_str(), "dynamic-main") {
                Some(ModuleKind::DynamicMain)
            } else if str_eq(kind.as_str(), "shared-library") {
                Some(ModuleKind::SharedLibrary)
            } else if str_eq(kind.as_str(), "object-file") {
                Some(ModuleKind::ObjectFile)
            } else {
                return Err(DriverError::UnknownModuleKind { value: kind });
            }
        },
        None => None,
    };

    let wasm_exceptions = match try_get_user_setting_value("WASM_EXCEPTIONS", args, env) {
        Some(value) => match read_bool_user_setting(value.as_str()) {
            Some(b) => b,
            None => {
                return Err(
                    DriverError::InvalidBoolSetting { name: "WASM_EXCEPTIONS".to_owned(), value },
                );
            },
        },
        None => false,
    };

    let pic = match try_get_user_setting_value("PIC", args, env) {
        Some(value) => match read_bool_user_setting(value.as_str()) {
            Some(b) => b,
            None => {
                return Err(DriverError::InvalidBoolSetting { name: "PIC".to_owned(), value });
            },
        },
        None => false,
    };

    let result = UserSettings {
        sysroot_location,
        llvm_location,
        extra_compiler_flags,
        extra_linker_flags,
        force_wasm_opt,
        wasm_opt_flags,
        module_kind,
        wasm_exceptions,
        pic,
    };
    proof {
        assert(str_views(Seq::<String>::empty()) =~= Seq::<Seq<char>>::empty());
    }
    Ok(result)
}

} // verus!
