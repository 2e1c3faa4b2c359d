//! The errors that end a run.

use vstd::prelude::*;
use vstd::string::*;

verus! {

/// Why no client was generated.
#[derive(Debug)]
pub enum BuildError {
    /// The source of a module is not valid Rust: the module and the parser's
    /// message.
    Parse { module: String, message: String },
    /// A name or a type in the record of a function cannot be written back
    /// as code: the module and the function of the record.
    Synthesis { module: String, function: String },
    /// The text of the generated block cannot be split into tokens.
    Render,
}

/// What a `BuildError` holds, its texts as sequences of characters.
pub enum BuildErrorView {
    Parse { module: Seq<char>, message: Seq<char> },
    Synthesis { module: Seq<char>, function: Seq<char> },
    Render,
}

impl DeepView for BuildError {
    type V = BuildErrorView;

    open spec fn deep_view(&self) -> BuildErrorView {
        match *self {
            BuildError::Parse { module, message } => BuildErrorView::Parse {
                module: module@,
                message: message@,
            },
            BuildError::Synthesis { module, function } => BuildErrorView::Synthesis {
                module: module@,
                function: function@,
            },
            BuildError::Render => BuildErrorView::Render,
        }
    }
}

impl View for BuildError {
    type V = BuildErrorView;

    open spec fn view(&self) -> BuildErrorView {
        self.deep_view()
    }
}

/// The sentence that reports an error.
pub open spec fn error_text(error: BuildErrorView) -> Seq<char> {
    match error {
        BuildErrorView::Parse { module, message } => "cannot parse module "@ + module + ": "@
            + message,
        BuildErrorView::Synthesis { module, function } => "cannot write a method for "@ + module
            + "::"@ + function,
        BuildErrorView::Render => "cannot render the generated block"@,
    }
}

impl BuildError {
    /// The sentence that reports this error.
    pub fn message(&self) -> (r: String)
        ensures
            r@ == error_text(self@),
    {
        match self {
            BuildError::Parse { module, message } => {
                let mut r = String::from_str("cannot parse module ");
                r.append(module.as_str());
                r.append(": ");
                r.append(message.as_str());
                r
            },
            BuildError::Synthesis { module, function } => {
                let mut r = String::from_str("cannot write a method for ");
                r.append(module.as_str());
                r.append("::");
                r.append(function.as_str());
                r
            },
            BuildError::Render => String::from_str("cannot render the generated block"),
        }
    }
}

} // verus!
