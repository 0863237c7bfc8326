//! Error taxonomy.
//!
//! Registration-time problems are configuration errors and are meant to stop
//! startup; render-time problems are reported to the caller of the request
//! and leave the rest of the template store usable.

use vstd::prelude::*;
use vstd::string::StringExecFns;

verus! {

/// A failure while registering a template.
#[derive(Debug)]
pub enum ConfigError {
    /// The name is already registered. Registration never silently
    /// overwrites an earlier template.
    DuplicateTemplateName(String),
    /// The template source could not be parsed; the message comes from the
    /// template engine.
    Parse(String),
}

/// A failure while producing a rendered body.
#[derive(Debug)]
pub enum TemplateError {
    /// No template is registered under the requested name.
    NotFound(String),
    /// The template engine failed to evaluate the template; the message
    /// comes from the engine.
    Evaluation(String),
    /// The minification filter rejected the rendered output. When
    /// minification is requested, a failure here fails the whole request;
    /// unminified content is never served silently.
    Minify(String),
}

impl ConfigError {
    /// A readable description of the failure.
    pub fn message(&self) -> (r: String)
        ensures
            match *self {
                ConfigError::DuplicateTemplateName(_) => true,
                ConfigError::Parse(m) => r@ == m@,
            },
    {
        match self {
            ConfigError::DuplicateTemplateName(name) => {
                let mut s = name.clone();
                s.append(" is already registered");
                s
            },
            ConfigError::Parse(m) => m.clone(),
        }
    }
}

impl TemplateError {
    /// A readable description of the failure.
    pub fn message(&self) -> (r: String)
        ensures
            match *self {
                TemplateError::NotFound(_) => true,
                TemplateError::Evaluation(m) => r@ == m@,
                TemplateError::Minify(m) => r@ == m@,
            },
    {
        match self {
            TemplateError::NotFound(name) => {
                let mut s = name.clone();
                s.append(" is not registered");
                s
            },
            TemplateError::Evaluation(m) => m.clone(),
            TemplateError::Minify(m) => m.clone(),
        }
    }
}

} // verus!
