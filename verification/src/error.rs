//! The error taxonomy of the build pipeline. Every failure aborts the
//! current build and is surfaced as one of these typed values.

use vstd::prelude::*;
use vstd::string::StringExecFns;

verus! {

/// A typed build failure. Payloads carry a human-readable detail message.
#[derive(Debug, PartialEq, Eq)]
pub enum RawSSGError {
    Io(String),
    Json(String),
    Yaml(String),
    Template(String),
    Render(String),
    Config(String),
    Frontmatter(String),
    Build(String),
    Watcher(String),
}

impl RawSSGError {
    /// The prefix that introduces this error's message.
    pub open spec fn spec_prefix(&self) -> Seq<char> {
        match self {
            RawSSGError::Io(_) => "IO error: "@,
            RawSSGError::Json(_) => "JSON parsing error: "@,
            RawSSGError::Yaml(_) => "YAML parsing error: "@,
            RawSSGError::Template(_) => "Template error: "@,
            RawSSGError::Render(_) => "Template render error: "@,
            RawSSGError::Config(_) => "Config error: "@,
            RawSSGError::Frontmatter(_) => "Frontmatter error: "@,
            RawSSGError::Build(_) => "Build error: "@,
            RawSSGError::Watcher(_) => "Watcher error: "@,
        }
    }

    /// The detail payload.
    pub open spec fn spec_detail(&self) -> Seq<char> {
        match self {
            RawSSGError::Io(m) => m@,
            RawSSGError::Json(m) => m@,
            RawSSGError::Yaml(m) => m@,
            RawSSGError::Template(m) => m@,
            RawSSGError::Render(m) => m@,
            RawSSGError::Config(m) => m@,
            RawSSGError::Frontmatter(m) => m@,
            RawSSGError::Build(m) => m@,
            RawSSGError::Watcher(m) => m@,
        }
    }

    /// The human-readable message: the variant's prefix followed by the
    /// detail payload.
    pub fn message(&self) -> (r: String)
        ensures
            r@ == self.spec_prefix() + self.spec_detail(),
    {
        let mut s = String::new();
        match self {
            RawSSGError::Io(m) => {
                s.append("IO error: ");
                s.append(m.as_str());
            },
            RawSSGError::Json(m) => {
                s.append("JSON parsing error: ");
                s.append(m.as_str());
            },
            RawSSGError::Yaml(m) => {
                s.append("YAML parsing error: ");
                s.append(m.as_str());
            },
            RawSSGError::Template(m) => {
                s.append("Template error: ");
                s.append(m.as_str());
            },
            RawSSGError::Render(m) => {
                s.append("Template render error: ");
                s.append(m.as_str());
            },
            RawSSGError::Config(m) => {
                s.append("Config error: ");
                s.append(m.as_str());
            },
            RawSSGError::Frontmatter(m) => {
                s.append("Frontmatter error: ");
                s.append(m.as_str());
            },
            RawSSGError::Build(m) => {
                s.append("Build error: ");
                s.append(m.as_str());
            },
            RawSSGError::Watcher(m) => {
                s.append("Watcher error: ");
                s.append(m.as_str());
            },
        }
        s
    }
}

} // verus!
