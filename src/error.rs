use vstd::prelude::*;

verus! {

/// Every failure the engine reports to the session.
#[derive(Debug)]
pub enum RiftError {
    ParseError(String),
    ExecutionError { language: String, message: String },
    UnsupportedLanguage(String),
    DeploymentError { target: String, message: String },
    IoError(String),
    TransformationError { from: String, to: String, message: String },
    VariableNotFound(String),
    FunctionNotFound(String),
    ConfigError(String),
    DependencyError { language: String, dependency: String },
    CacheError(String),
    NetworkError(String),
    SerializationError(String),
    TreeSitterError(String),
    /// The language's compiler or interpreter could not be started.
    ToolchainNotFound(String),
    /// A `while` loop reached the iteration ceiling.
    IterationLimitExceeded,
    /// A deployment sink lacks a configuration key it needs.
    DeployConfigMissing { target: String, key: String },
    /// A deployment sink failed on every attempt.
    DeployFailed { target: String, attempts: u32 },
    /// Several deployment sinks failed; one entry per failed sink.
    DeployFailures(Vec<RiftError>),
    /// A node that cannot be executed as a statement.
    UnsupportedOperation,
}

} // verus!

verus! {

broadcast use vstd::std_specs::vec::group_vec_axioms;

/// An error as a mathematical value.
pub enum ErrorV {
    ParseError(Seq<char>),
    ExecutionError { language: Seq<char>, message: Seq<char> },
    UnsupportedLanguage(Seq<char>),
    DeploymentError { target: Seq<char>, message: Seq<char> },
    IoError(Seq<char>),
    TransformationError { from: Seq<char>, to: Seq<char>, message: Seq<char> },
    VariableNotFound(Seq<char>),
    FunctionNotFound(Seq<char>),
    ConfigError(Seq<char>),
    DependencyError { language: Seq<char>, dependency: Seq<char> },
    CacheError(Seq<char>),
    NetworkError(Seq<char>),
    SerializationError(Seq<char>),
    TreeSitterError(Seq<char>),
    ToolchainNotFound(Seq<char>),
    IterationLimitExceeded,
    DeployConfigMissing { target: Seq<char>, key: Seq<char> },
    DeployFailed { target: Seq<char>, attempts: u32 },
    DeployFailures(Seq<ErrorV>),
    UnsupportedOperation,
}

pub open spec fn errors_view(v: &Vec<RiftError>) -> Seq<ErrorV>
    decreases v,
{
    Seq::new(v.len() as nat, |i: int| if 0 <= i < v.len() { error_view(&v[i]) } else { ErrorV::UnsupportedOperation })
}

pub open spec fn error_view(e: &RiftError) -> ErrorV
    decreases e,
{
    match e {
        RiftError::ParseError(m) => ErrorV::ParseError(m@),
        RiftError::ExecutionError { language, message } => ErrorV::ExecutionError {
            language: language@,
            message: message@,
        },
        RiftError::UnsupportedLanguage(l) => ErrorV::UnsupportedLanguage(l@),
        RiftError::DeploymentError { target, message } => ErrorV::DeploymentError {
            target: target@,
            message: message@,
        },
        RiftError::IoError(m) => ErrorV::IoError(m@),
        RiftError::TransformationError { from, to, message } => ErrorV::TransformationError {
            from: from@,
            to: to@,
            message: message@,
        },
        RiftError::VariableNotFound(n) => ErrorV::VariableNotFound(n@),
        RiftError::FunctionNotFound(n) => ErrorV::FunctionNotFound(n@),
        RiftError::ConfigError(m) => ErrorV::ConfigError(m@),
        RiftError::DependencyError { language, dependency } => ErrorV::DependencyError {
            language: language@,
            dependency: dependency@,
        },
        RiftError::CacheError(m) => ErrorV::CacheError(m@),
        RiftError::NetworkError(m) => ErrorV::NetworkError(m@),
        RiftError::SerializationError(m) => ErrorV::SerializationError(m@),
        RiftError::TreeSitterError(m) => ErrorV::TreeSitterError(m@),
        RiftError::ToolchainNotFound(l) => ErrorV::ToolchainNotFound(l@),
        RiftError::IterationLimitExceeded => ErrorV::IterationLimitExceeded,
        RiftError::DeployConfigMissing { target, key } => ErrorV::DeployConfigMissing {
            target: target@,
            key: key@,
        },
        RiftError::DeployFailed { target, attempts } => ErrorV::DeployFailed {
            target: target@,
            attempts: *attempts,
        },
        RiftError::DeployFailures(v) => ErrorV::DeployFailures(errors_view(v)),
        RiftError::UnsupportedOperation => ErrorV::UnsupportedOperation,
    }
}

impl View for RiftError {
    type V = ErrorV;

    open spec fn view(&self) -> ErrorV {
        error_view(self)
    }
}

} // verus!
