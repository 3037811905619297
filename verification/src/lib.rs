//! Extraction of runnable code samples from documentation, template-based
//! assembly of each sample into an independently named test case, and the
//! pure parts of the harness that compiles and runs the assembled text.

pub mod assemble;
pub mod extract;
pub mod harness;
pub mod names;
pub mod strutil;
pub mod tags;

use vstd::prelude::*;
use crate::strutil::opt_view;

verus! {

/// One documentation file handed to generation: its path, its text, and the
/// text of its sibling template file when that file exists.
pub struct DocumentInput {
    pub path: String,
    pub contents: String,
    pub template_contents: Option<String>,
}

pub struct DocumentInputV {
    pub path: Seq<char>,
    pub contents: Seq<char>,
    pub template_contents: Option<Seq<char>>,
}

impl View for DocumentInput {
    type V = DocumentInputV;

    open spec fn view(&self) -> DocumentInputV {
        DocumentInputV {
            path: self.path@,
            contents: self.contents@,
            template_contents: opt_view(self.template_contents),
        }
    }
}

/// The configuration of one generation pass, built once at the entry point:
/// the build output directory the generated entries name, and the documents.
pub struct Config {
    pub out_dir: String,
    pub docs: Vec<DocumentInput>,
}

pub struct ConfigV {
    pub out_dir: Seq<char>,
    pub docs: Seq<DocumentInputV>,
}

impl View for Config {
    type V = ConfigV;

    open spec fn view(&self) -> ConfigV {
        ConfigV { out_dir: self.out_dir@, docs: self.docs@.map_values(|d: DocumentInput| d@) }
    }
}

/// The whole generation pass as a value: extract every document, then emit
/// the artifact text, or the first missing-template error.
pub open spec fn run_spec(c: ConfigV) -> Result<Seq<char>, crate::assemble::SkepticErrorV> {
    crate::assemble::emit_spec(c.out_dir, crate::extract::extract_suite_spec(c))
}

/// Runs one generation pass over in-memory documents and returns the full
/// artifact text, or the first missing-template error in document order.
pub fn run(config: &Config) -> (r: Result<String, crate::assemble::SkepticError>)
    ensures
        crate::assemble::res_view(r) == run_spec(config@),
{
    let suite = crate::extract::extract_tests(config);
    crate::assemble::emit_tests(config, suite)
}

} // verus!
