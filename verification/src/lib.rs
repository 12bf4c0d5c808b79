//! A compiler-driver front end that translates conventional C/C++ compiler
//! and linker command lines into the invocation sequences needed to build a
//! WASI-based multi-threaded target.
//!
//! The library is purely computational: it resolves layered configuration,
//! classifies arguments, infers the module kind, and constructs the argument
//! vectors for each pipeline stage.  Running the resulting commands, reading
//! the process environment and managing temporary directories are left to the
//! embedding program.

pub mod compiler;
pub mod error;
pub mod pipeline;
pub mod settings;
pub mod strutil;

use vstd::prelude::*;

use crate::error::DriverError;
use crate::pipeline::{
    cmd_views, link_only, run, spec_link_only, spec_run, CommandSpec, CommandSpecView,
};
use crate::settings::{spec_tool_path, UserSettings};
use crate::strutil::str_views;

verus! {

/// Builds the invocation of a raw tool: every argument is forwarded
/// verbatim; only the toolchain location is consulted.
pub fn run_tool_with_passthrough_args(
    tool: &str,
    args: Vec<String>,
    user_settings: &UserSettings,
) -> (r: CommandSpec)
    ensures
        r@.program == spec_tool_path(user_settings@.llvm_location, tool@),
        r@.args == str_views(args@),
{
    let program = user_settings.llvm_location.get_tool_path(tool);
    CommandSpec { program, args }
}

/// Plans a compiler-mode invocation: the commands to run in order,
/// stopping at the first failure.
pub fn run_compiler(
    args: Vec<String>,
    user_settings: UserSettings,
    run_cxx: bool,
    temp_dir: String,
) -> (r: Result<Vec<CommandSpec>, DriverError>)
    ensures
        match r {
            Ok(c) => spec_run(str_views(args@), user_settings@, run_cxx, temp_dir@) == Ok::<
                Seq<CommandSpecView>,
                error::DriverErrorView,
            >(cmd_views(c@)),
            Err(e) => spec_run(str_views(args@), user_settings@, run_cxx, temp_dir@) == Err::<
                Seq<CommandSpecView>,
                error::DriverErrorView,
            >(e@),
        },
{
    run(args, user_settings, run_cxx, temp_dir)
}

/// Plans a link-only invocation.
pub fn run_linker(args: Vec<String>, user_settings: UserSettings) -> (r: Result<
    Vec<CommandSpec>,
    DriverError,
>)
    ensures
        match r {
            Ok(c) => spec_link_only(str_views(args@), user_settings@) == Ok::<
                Seq<CommandSpecView>,
                error::DriverErrorView,
            >(cmd_views(c@)),
            Err(e) => spec_link_only(str_views(args@), user_settings@) == Err::<
                Seq<CommandSpecView>,
                error::DriverErrorView,
            >(e@),
        },
{
    link_only(args, user_settings)
}

/// Plans an archiver invocation: a verbatim pass-through to `llvm-ar`.
pub fn run_ar(args: Vec<String>, user_settings: &UserSettings) -> (r: CommandSpec)
    ensures
        r@.program == spec_tool_path(user_settings@.llvm_location, "llvm-ar"@),
        r@.args == str_views(args@),
{
    run_tool_with_passthrough_args("llvm-ar", args, user_settings)
}

/// Plans a symbol-listing invocation: a verbatim pass-through to
/// `llvm-nm`.
pub fn run_nm(args: Vec<String>, user_settings: &UserSettings) -> (r: CommandSpec)
    ensures
        r@.program == spec_tool_path(user_settings@.llvm_location, "llvm-nm"@),
        r@.args == str_views(args@),
{
    run_tool_with_passthrough_args("llvm-nm", args, user_settings)
}

/// Plans an archive-index rebuild: a verbatim pass-through to
/// `llvm-ranlib`.
pub fn run_ranlib(args: Vec<String>, user_settings: &UserSettings) -> (r: CommandSpec)
    ensures
        r@.program == spec_tool_path(user_settings@.llvm_location, "llvm-ranlib"@),
        r@.args == str_views(args@),
{
    run_tool_with_passthrough_args("llvm-ranlib", args, user_settings)
}

} // verus!
