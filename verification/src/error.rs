//! The errors that end a run.

use vstd::prelude::*;
use vstd::string::StringExecFns;

verus! {

/// Why a run ended. Each of them is fatal: nothing is retried and nothing
/// that was written is taken back.
#[derive(Debug, PartialEq, Eq)]
pub enum ProcessError {
    /// The configuration file is missing or malformed.
    ConfigError { path: String, cause: String },
    /// The metadata file of an application is missing or malformed.
    MetadataError { path: String, cause: String },
    /// The folder structure yields no project and application, or a file has
    /// no extension.
    LayoutError { path: String },
    /// A template fragment failed to parse at startup.
    TemplateLoadError { cause: String },
    /// A template or a filter failed.
    RenderError { template: String, application: String, cause: String },
    /// The hook script of an application exited with a failure.
    HookError { output: Vec<u8> },
    /// An output file could not be written.
    WriteError { path: String, cause: String },
}

/// The kinds of error, without what they carry.
#[derive(Clone, Copy, Debug, PartialEq, Eq, Structural)]
pub enum ErrorKind {
    Config,
    Metadata,
    Layout,
    TemplateLoad,
    Render,
    Hook,
    Write,
}

/// What an error holds, as plain values.
pub enum ErrorView {
    ConfigError { path: Seq<char>, cause: Seq<char> },
    MetadataError { path: Seq<char>, cause: Seq<char> },
    LayoutError { path: Seq<char> },
    TemplateLoadError { cause: Seq<char> },
    RenderError { template: Seq<char>, application: Seq<char>, cause: Seq<char> },
    HookError { output: Seq<u8> },
    WriteError { path: Seq<char>, cause: Seq<char> },
}

/// The message of an error.
pub open spec fn message_text(e: ErrorView) -> Seq<char> {
    match e {
        ErrorView::ConfigError { path, cause } => "failed to parse config file "@ + path + ": "@
            + cause,
        ErrorView::MetadataError { path, cause } => "failed to parse metadata file "@ + path
            + ": "@ + cause,
        ErrorView::LayoutError { path } =>
            "unable to determine project, application or file type from folder structure for "@
            + path,
        ErrorView::TemplateLoadError { cause } => "failed to load templates: "@ + cause,
        ErrorView::RenderError { template, application, cause } => "failed to render template "@
            + template + " for application "@ + application + ": "@ + cause,
        ErrorView::HookError { .. } => "script exited with a non zero status"@,
        ErrorView::WriteError { path, cause } => "failed to write "@ + path + ": "@ + cause,
    }
}

impl View for ProcessError {
    type V = ErrorView;

    open spec fn view(&self) -> ErrorView {
        match self {
            ProcessError::ConfigError { path, cause } => ErrorView::ConfigError {
                path: path@,
                cause: cause@,
            },
            ProcessError::MetadataError { path, cause } => ErrorView::MetadataError {
                path: path@,
                cause: cause@,
            },
            ProcessError::LayoutError { path } => ErrorView::LayoutError { path: path@ },
            ProcessError::TemplateLoadError { cause } => ErrorView::TemplateLoadError {
                cause: cause@,
            },
            ProcessError::RenderError { template, application, cause } => ErrorView::RenderError {
                template: template@,
                application: application@,
                cause: cause@,
            },
            ProcessError::HookError { output } => ErrorView::HookError { output: output@ },
            ProcessError::WriteError { path, cause } => ErrorView::WriteError {
                path: path@,
                cause: cause@,
            },
        }
    }
}

impl ProcessError {
    /// A copy of the error.
    pub fn duplicate(&self) -> (r: ProcessError)
        ensures
            r@ == self@,
    {
        match self {
            ProcessError::ConfigError { path, cause } => ProcessError::ConfigError {
                path: path.clone(),
                cause: cause.clone(),
            },
            ProcessError::MetadataError { path, cause } => ProcessError::MetadataError {
                path: path.clone(),
                cause: cause.clone(),
            },
            ProcessError::LayoutError { path } => ProcessError::LayoutError { path: path.clone() },
            ProcessError::TemplateLoadError { cause } => ProcessError::TemplateLoadError {
                cause: cause.clone(),
            },
            ProcessError::RenderError { template, application, cause } => {
                ProcessError::RenderError {
                    template: template.clone(),
                    application: application.clone(),
                    cause: cause.clone(),
                }
            },
            ProcessError::HookError { output } => {
                let copy = output.clone();
                assert(copy@ =~= output@);
                ProcessError::HookError { output: copy }
            },
            ProcessError::WriteError { path, cause } => ProcessError::WriteError {
                path: path.clone(),
                cause: cause.clone(),
            },
        }
    }

    /// What to tell the operator: the kind of failure, with the file, the
    /// template or the application that it concerns.
    pub fn message(&self) -> (r: String)
        ensures
            r@ == message_text(self@),
    {
        match self {
            ProcessError::ConfigError { path, cause } => {
                let mut text = "failed to parse config file ".to_owned();
                text.append(path.as_str());
                text.append(": ");
                text.append(cause.as_str());
                text
            },
            ProcessError::MetadataError { path, cause } => {
                let mut text = "failed to parse metadata file ".to_owned();
                text.append(path.as_str());
                text.append(": ");
                text.append(cause.as_str());
                text
            },
            ProcessError::LayoutError { path } => {
                let mut text = "unable to determine project, application or file type from folder structure for ".to_owned();
                text.append(path.as_str());
                text
            },
            ProcessError::TemplateLoadError { cause } => {
                let mut text = "failed to load templates: ".to_owned();
                text.append(cause.as_str());
                text
            },
            ProcessError::RenderError { template, application, cause } => {
                let mut text = "failed to render template ".to_owned();
                text.append(template.as_str());
                text.append(" for application ");
                text.append(application.as_str());
                text.append(": ");
                text.append(cause.as_str());
                text
            },
            ProcessError::HookError { .. } => "script exited with a non zero status".to_owned(),
            ProcessError::WriteError { path, cause } => {
                let mut text = "failed to write ".to_owned();
                text.append(path.as_str());
                text.append(": ");
                text.append(cause.as_str());
                text
            },
        }
    }

    /// The kind of the error.
    pub open spec fn spec_kind(&self) -> ErrorKind {
        match self {
            ProcessError::ConfigError { .. } => ErrorKind::Config,
            ProcessError::MetadataError { .. } => ErrorKind::Metadata,
            ProcessError::LayoutError { .. } => ErrorKind::Layout,
            ProcessError::TemplateLoadError { .. } => ErrorKind::TemplateLoad,
            ProcessError::RenderError { .. } => ErrorKind::Render,
            ProcessError::HookError { .. } => ErrorKind::Hook,
            ProcessError::WriteError { .. } => ErrorKind::Write,
        }
    }

    /// The kind of the error.
    #[verifier::when_used_as_spec(spec_kind)]
    pub fn kind(&self) -> (r: ErrorKind)
        ensures
            r == self.spec_kind(),
    {
        match self {
            ProcessError::ConfigError { .. } => ErrorKind::Config,
            ProcessError::MetadataError { .. } => ErrorKind::Metadata,
            ProcessError::LayoutError { .. } => ErrorKind::Layout,
            ProcessError::TemplateLoadError { .. } => ErrorKind::TemplateLoad,
            ProcessError::RenderError { .. } => ErrorKind::Render,
            ProcessError::HookError { .. } => ErrorKind::Hook,
            ProcessError::WriteError { .. } => ErrorKind::Write,
        }
    }
}

} // verus!
