//! The error type shared by configuration resolution, argument
//! classification and pipeline planning.

use vstd::prelude::*;

use crate::compiler::ModuleKind;

verus! {

/// Everything that can go wrong while resolving settings, classifying
/// arguments or planning the build pipeline.  Each variant carries the
/// data needed to render the diagnostic text.
#[derive(Debug, Clone, PartialEq, Eq)]
pub enum DriverError {
    /// A flag that consumes the following token was the last argument.
    MissingArgument { flag: String },
    /// An optimization- or debug-level flag with an unrecognized suffix.
    InvalidArgument { arg: String },
    /// A boolean-valued setting whose value is not a recognized token.
    InvalidBoolSetting { name: String, value: String },
    /// A module-kind setting whose value is not one of the four kind names.
    UnknownModuleKind { value: String },
    /// Compiling or linking was requested without a configured sysroot.
    MissingSysroot,
    /// Linking was requested for a module kind that cannot be linked.
    NotLinkable { kind: ModuleKind },
    /// Link-only mode was invoked with no linker inputs.
    NoInput,
}

/// The mathematical model of a `DriverError`.
pub enum DriverErrorView {
    MissingArgument { flag: Seq<char> },
    InvalidArgument { arg: Seq<char> },
    InvalidBoolSetting { name: Seq<char>, value: Seq<char> },
    UnknownModuleKind { value: Seq<char> },
    MissingSysroot,
    NotLinkable { kind: ModuleKind },
    NoInput,
}

impl View for DriverError {
    type V = DriverErrorView;

    open spec fn view(&self) -> DriverErrorView {
        match self {
            DriverError::MissingArgument { flag } => (DriverErrorView::MissingArgument {
                flag: flag@,
            }),
            DriverError::InvalidArgument { arg } => (DriverErrorView::InvalidArgument {
                arg: arg@,
            }),
            DriverError::InvalidBoolSetting { name, value } => (
            DriverErrorView::InvalidBoolSetting { name: name@, value: value@ }),
            DriverError::UnknownModuleKind { value } => (DriverErrorView::UnknownModuleKind {
                value: value@,
            }),
            DriverError::MissingSysroot => DriverErrorView::MissingSysroot,
            DriverError::NotLinkable { kind } => (DriverErrorView::NotLinkable { kind: *kind }),
            DriverError::NoInput => DriverErrorView::NoInput,
        }
    }
}

/// The diagnostic text of each error.
pub open spec fn spec_message(e: DriverErrorView) -> Seq<char> {
    match e {
        DriverErrorView::MissingArgument { flag } => "Expected argument after "@ + flag,
        DriverErrorView::InvalidArgument { arg } => "Invalid argument: "@ + arg,
        DriverErrorView::InvalidBoolSetting { name, value } => "Invalid value "@ + value
            + " for "@ + name,
        DriverErrorView::UnknownModuleKind { value } => "Unknown module kind: "@ + value,
        DriverErrorView::MissingSysroot =>
        "A user-provided sysroot is required to run. Please set it using -sSYSROOT=path or the WASIXCC_SYSROOT environment variable."@,
        DriverErrorView::NotLinkable { kind } => "Only binaries can be linked, current module kind is: "@
            + kind.spec_name(),
        DriverErrorView::NoInput => "No input"@,
    }
}

impl DriverError {
    /// Human-readable text describing the error.
    pub fn message(&self) -> (r: String)
        ensures
            r@ == spec_message(self@),
    {
        match self {
            DriverError::MissingArgument { flag } => {
                let mut s = "Expected argument after ".to_owned();
                s.append(flag.as_str());
                s
            },
            DriverError::InvalidArgument { arg } => {
                let mut s = "Invalid argument: ".to_owned();
                s.append(arg.as_str());
                s
            },
            DriverError::InvalidBoolSetting { name, value } => {
                let mut s = "Invalid value ".to_owned();
                s.append(value.as_str());
                s.append(" for ");
                s.append(name.as_str());
                s
            },
            DriverError::UnknownModuleKind { value } => {
                let mut s = "Unknown module kind: ".to_owned();
                s.append(value.as_str());
                s
            },
            DriverError::MissingSysroot => {
                "A user-provided sysroot is required to run. Please set it using -sSYSROOT=path or the WASIXCC_SYSROOT environment variable.".to_owned()
            },
            DriverError::NotLinkable { kind } => {
                let mut s = "Only binaries can be linked, current module kind is: ".to_owned();
                let n = kind.name();
                s.append(n.as_str());
                s
            },
            DriverError::NoInput => "No input".to_owned(),
        }
    }
}

} // verus!
