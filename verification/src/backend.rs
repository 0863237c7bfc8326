//! The boundary with the template engine and the minifier.
//!
//! The engine compiles and evaluates templates; the minifier rewrites
//! rendered markup. Both live outside this crate, so each call goes through a
//! declared type or a small trusted wrapper here, and everything that can be
//! decided from their results is decided — and verified — elsewhere in the
//! crate.

use vstd::prelude::*;

use crate::error::TemplateError;

verus! {

#[verifier::external_type_specification]
#[verifier::external_body]
pub struct ExTera(tera::Tera);

#[verifier::external_type_specification]
#[verifier::external_body]
pub struct ExContext(tera::Context);

/// What the minifier makes of the given characters: the minified output, or
/// nothing when the minifier rejects the input. The minifier reads nothing
/// but its input, so the result is a function of the characters alone.
pub uninterp spec fn minified_of(s: Seq<char>) -> Option<Seq<char>>;

/// Relies on tera::Tera::default: a fresh engine with no templates
/// registered.
#[verifier::external_body]
pub(crate) fn tera_new() -> tera::Tera {
    tera::Tera::default()
}

/// Relies on tera::Tera::add_raw_template: parses the source text and
/// registers it in the engine under the name, reporting a parse failure with
/// its message.
#[verifier::external_body]
pub(crate) fn tera_add_raw_template(t: &mut tera::Tera, name: &String, source: &str) -> Result<
    (),
    String,
> {
    match t.add_raw_template(name.as_str(), source) {
        Ok(()) => Ok(()),
        Err(e) => Err(format!("{}", e)),
    }
}

/// Relies on tera::Tera::add_template_file: reads the file at the path,
/// parses it and registers it in the engine under the name. What comes back
/// depends on what is on disk at the moment of the call.
#[verifier::external_body]
pub(crate) fn tera_add_template_file(t: &mut tera::Tera, path: &String, name: &String) -> Result<
    (),
    String,
> {
    match t.add_template_file(path.as_str(), Some(name.as_str())) {
        Ok(()) => Ok(()),
        Err(e) => Err(format!("{}", e)),
    }
}

/// Relies on tera::Tera::render: evaluates the named template under the
/// given context. A name the engine does not know is reported as its
/// `ErrorKind::TemplateNotFound`, which this wrapper maps to
/// [`TemplateError::NotFound`] carrying the requested name; any other
/// failure becomes [`TemplateError::Evaluation`] with the engine's message.
#[verifier::external_body]
pub(crate) fn tera_render(t: &tera::Tera, name: &String, context: &tera::Context) -> (r: Result<
    String,
    TemplateError,
>)
    ensures
        r matches Err(TemplateError::NotFound(n)) ==> n@ == name@,
        !(r matches Err(TemplateError::Minify(m))),
    {
    match t.render(name.as_str(), context) {
        Ok(html) => Ok(html),
        Err(e) => {
            let msg = format!("{}", e);
            match e.kind {
                tera::ErrorKind::TemplateNotFound(_) => Err(TemplateError::NotFound(name.clone())),
                _ => Err(TemplateError::Evaluation(msg)),
            }
        },
    }
}

/// Relies on html_minifier::minify: rewrites the markup deterministically
/// from its input alone; a rejected input is reported with the minifier's
/// message. The minified output and when it exists are both named by
/// [`minified_of`].
#[verifier::external_body]
pub(crate) fn minify_html(html: &String) -> (r: Result<String, String>)
    ensures
        r is Ok == minified_of(html@) is Some,
        r matches Ok(m) ==> minified_of(html@) == Some(m@),
    {
    match html_minifier::minify(html.as_str()) {
        Ok(m) => Ok(m),
        Err(e) => Err(format!("{}", e)),
    }
}

/// A context for template evaluation: named values handed to the engine when
/// a template is rendered. The values live inside the engine's own context
/// type; this crate only carries them through.
#[derive(Debug)]
pub struct TemplateContext {
    inner: tera::Context,
}

impl TemplateContext {
    /// Relies on tera::Context::new: an empty context.
    #[verifier::external_body]
    pub fn new() -> TemplateContext {
        TemplateContext { inner: tera::Context::new() }
    }

    /// Relies on tera::Context::insert: binds the key to a string value. A
    /// plain string always serializes, so the call cannot panic.
    #[verifier::external_body]
    pub fn insert_str(&mut self, key: &str, value: &str) {
        self.inner.insert(key, value);
    }

    /// Relies on tera::Context::insert: binds the key to an integer value. A
    /// plain integer always serializes, so the call cannot panic.
    #[verifier::external_body]
    pub fn insert_i64(&mut self, key: &str, value: i64) {
        self.inner.insert(key, &value);
    }

    /// Relies on tera::Context::insert: binds the key to a boolean value. A
    /// plain boolean always serializes, so the call cannot panic.
    #[verifier::external_body]
    pub fn insert_bool(&mut self, key: &str, value: bool) {
        self.inner.insert(key, &value);
    }

    /// The engine's view of this context.
    pub(crate) fn as_tera(&self) -> &tera::Context {
        &self.inner
    }
}

} // verus!
