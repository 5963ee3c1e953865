//! How an invocation ends: the kinds of failure, the messages that describe
//! them, and the exit code.

use crate::apply::{Step, Variant};
use crate::cli::UsageError;
use crate::resolver::RequestError;
use crate::session::Status;
use vstd::prelude::*;
use vstd::string::*;

verus! {

/// Why an invocation failed.
#[derive(Clone, Debug, PartialEq, Eq)]
pub enum Failure {
    /// The command line cannot be carried out.
    Usage(UsageError),
    /// The path that was named is not a file that can be reached.
    NotAFile(String),
    /// The theme file could not be read.
    ReadTheme,
    /// The theme file was read but is not a theme.
    ParseTheme,
    /// A step against the configuration store or the stylesheet failed.
    Step(Step),
}

pub enum FailureView {
    Usage(UsageError),
    NotAFile(Seq<char>),
    ReadTheme,
    ParseTheme,
    Step(Step),
}

impl View for Failure {
    type V = FailureView;

    open spec fn view(&self) -> FailureView {
        match self {
            Failure::Usage(error) => FailureView::Usage(*error),
            Failure::NotAFile(path) => FailureView::NotAFile(path@),
            Failure::ReadTheme => FailureView::ReadTheme,
            Failure::ParseTheme => FailureView::ParseTheme,
            Failure::Step(step) => FailureView::Step(*step),
        }
    }
}

/// How an invocation ended.
#[derive(Clone, Debug, PartialEq, Eq)]
pub enum Outcome {
    /// The usage text was printed.
    HelpShown,
    /// Every step of the plan succeeded.
    Applied,
    Failed(Failure),
}

impl UsageError {
    pub open spec fn text(self) -> Seq<char> {
        match self {
            UsageError::DefaultWithGtk4 =>
                "You may not set the default theme when --gtk4 is specified."@,
            UsageError::MissingTheme =>
                "You must provide a path to a theme file, or specify 'default'. Run 'set-cosmic-theme --help' for more information."@,
            UsageError::TooManyArguments =>
                "Too many arguments given. Run 'set-cosmic-theme --help' for more information."@,
        }
    }

    /// The sentence that tells the user what is wrong with the command line.
    pub fn message(&self) -> (message: &'static str)
        ensures
            message@ == self.text(),
    {
        match self {
            UsageError::DefaultWithGtk4 =>
                "You may not set the default theme when --gtk4 is specified.",
            UsageError::MissingTheme =>
                "You must provide a path to a theme file, or specify 'default'. Run 'set-cosmic-theme --help' for more information.",
            UsageError::TooManyArguments =>
                "Too many arguments given. Run 'set-cosmic-theme --help' for more information.",
        }
    }
}

impl RequestError {
    /// The usage error that a refused request amounts to.
    pub fn as_usage(&self) -> (error: UsageError)
        ensures
            error == UsageError::DefaultWithGtk4,
    {
        match self {
            RequestError::StylesheetWithoutPayload => UsageError::DefaultWithGtk4,
        }
    }
}

impl Variant {
    pub open spec fn failure_text(self) -> Seq<char> {
        match self {
            Variant::Dark => "Failed to set Cosmic dark theme"@,
            Variant::Light => "Failed to set Cosmic light theme"@,
        }
    }

    /// What is said when setting this variant failed, whichever step it was.
    pub fn failure_message(&self) -> (message: &'static str)
        ensures
            message@ == self.failure_text(),
    {
        match self {
            Variant::Dark => "Failed to set Cosmic dark theme",
            Variant::Light => "Failed to set Cosmic light theme",
        }
    }
}

impl Step {
    pub open spec fn failure_text(self) -> Seq<char> {
        match self {
            Step::OpenBuilderConfig(_) => "Could not get Cosmic theme builder config"@,
            Step::OpenThemeConfig(_) => "Could not get Cosmic theme config"@,
            Step::WriteTheme(_, _) => "Failed to write theme"@,
            Step::WriteBuilder(_, _) => "Failed to write theme builder"@,
            Step::WriteStylesheet => "Failed to set GTK4 user CSS"@,
        }
    }

    /// What is said when this step failed.
    pub fn failure_message(&self) -> (message: &'static str)
        ensures
            message@ == self.failure_text(),
    {
        match self {
            Step::OpenBuilderConfig(_) => "Could not get Cosmic theme builder config",
            Step::OpenThemeConfig(_) => "Could not get Cosmic theme config",
            Step::WriteTheme(_, _) => "Failed to write theme",
            Step::WriteBuilder(_, _) => "Failed to write theme builder",
            Step::WriteStylesheet => "Failed to set GTK4 user CSS",
        }
    }
}

impl FailureView {
    /// The messages that describe the failure, the most general first. A
    /// failed step of a variant is described by the variant, then the step.
    pub open spec fn messages(self) -> Seq<Seq<char>> {
        match self {
            FailureView::Usage(error) => seq![error.text()],
            FailureView::NotAFile(path) => seq![
                "The path "@ + path
                    + " does not exist, is not a file, or could not be accessed."@,
            ],
            FailureView::ReadTheme => seq!["Failed to read theme file"@],
            FailureView::ParseTheme => seq!["Failed to parse theme file"@],
            FailureView::Step(step) => match step.variant_of() {
                Some(variant) => seq![variant.failure_text(), step.failure_text()],
                None => seq![step.failure_text()],
            },
        }
    }
}

impl Failure {
    /// The messages that describe the failure, the most general first.
    pub fn messages(&self) -> (lines: Vec<String>)
        ensures
            lines.deep_view() == self@.messages(),
    {
        let mut lines: Vec<String> = Vec::new();
        match self {
            Failure::Usage(error) => {
                lines.push(String::from_str(error.message()));
            },
            Failure::NotAFile(path) => {
                let mut line = String::from_str("The path ");
                line.append(path.as_str());
                line.append(" does not exist, is not a file, or could not be accessed.");
                lines.push(line);
            },
            Failure::ReadTheme => {
                lines.push(String::from_str("Failed to read theme file"));
            },
            Failure::ParseTheme => {
                lines.push(String::from_str("Failed to parse theme file"));
            },
            Failure::Step(step) => {
                match step.variant() {
                    Some(variant) => {
                        lines.push(String::from_str(variant.failure_message()));
                    },
                    None => {},
                }
                lines.push(String::from_str(step.failure_message()));
            },
        }
        assert(lines.deep_view() =~= self@.messages());
        lines
    }
}

impl Outcome {
    /// How a session that has come to rest ended; `None` while a step is
    /// still pending.
    pub fn of_status(status: Status) -> (outcome: Option<Outcome>)
        ensures
            match status {
                Status::Pending(_) => outcome is None,
                Status::Finished => outcome == Some(Outcome::Applied),
                Status::Failed(step) => outcome == Some(Outcome::Failed(Failure::Step(step))),
            },
    {
        match status {
            Status::Pending(_) => None,
            Status::Finished => Some(Outcome::Applied),
            Status::Failed(step) => Some(Outcome::Failed(Failure::Step(step))),
        }
    }

    /// The process's exit code: 0 after success or help, 1 after any failure.
    pub fn exit_code(&self) -> (code: i32)
        ensures
            code == if self is Failed {
                1i32
            } else {
                0i32
            },
    {
        match self {
            Outcome::Failed(_) => 1,
            _ => 0,
        }
    }
}

} // verus!
