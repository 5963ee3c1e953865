//! The theme mode resolver: from a request to the plan of what is written.

use crate::cli::{parse, Args, ArgsView, InvocationView, UsageError};
use vstd::prelude::*;

verus! {

/// What the resolver reads of a parsed theme descriptor.
#[derive(Clone, Copy, Debug, PartialEq, Eq, Structural)]
pub struct ThemePayload {
    /// Whether the descriptor's palette is a dark one.
    pub dark_palette: bool,
}

impl ThemePayload {
    pub fn new(dark_palette: bool) -> (payload: ThemePayload)
        ensures
            payload.dark_palette == dark_palette,
    {
        ThemePayload { dark_palette }
    }

    pub fn is_dark_palette(&self) -> (dark: bool)
        ensures
            dark == self.dark_palette,
    {
        self.dark_palette
    }
}

/// What was asked for: the explicit mode flags, the stylesheet flag, and the
/// theme that was loaded, if any. Without a payload the built-in defaults
/// are meant.
#[derive(Clone, Copy, Debug, PartialEq, Eq, Structural)]
pub struct ThemeRequest {
    pub want_dark: bool,
    pub want_light: bool,
    pub want_secondary_stylesheet: bool,
    pub payload: Option<ThemePayload>,
}

/// What is to be written. Each flag that is set stands for one write.
#[derive(Clone, Copy, Debug, PartialEq, Eq, Structural)]
pub struct ThemePlan {
    pub write_dark: bool,
    pub write_light: bool,
    pub write_secondary_stylesheet: bool,
}

/// Why a request is turned away before it is resolved.
#[derive(Clone, Copy, Debug, PartialEq, Eq, Structural)]
pub enum RequestError {
    /// The secondary stylesheet was asked for without a theme to derive it
    /// from: the built-in defaults have no stylesheet generator.
    StylesheetWithoutPayload,
}

impl ThemeRequest {
    /// Neither mode flag was given, so the mode has to be inferred.
    pub open spec fn mode_unspecified(self) -> bool {
        !self.want_dark && !self.want_light
    }

    /// A request is well formed unless it asks for the secondary stylesheet
    /// without a payload.
    pub open spec fn well_formed(self) -> bool {
        self.want_secondary_stylesheet ==> self.payload is Some
    }

    /// The plan that the request resolves to.
    pub open spec fn plan(self) -> ThemePlan {
        ThemePlan {
            write_dark: if self.mode_unspecified() {
                match self.payload {
                    Some(p) => p.dark_palette,
                    None => true,
                }
            } else {
                self.want_dark
            },
            write_light: if self.mode_unspecified() {
                match self.payload {
                    Some(p) => !p.dark_palette,
                    None => true,
                }
            } else {
                self.want_light
            },
            write_secondary_stylesheet: self.want_secondary_stylesheet,
        }
    }

    /// The request that parsed arguments and the theme loaded for them make.
    pub open spec fn of_args(args: ArgsView, payload: Option<ThemePayload>) -> ThemeRequest {
        ThemeRequest {
            want_dark: args.set_dark,
            want_light: args.set_light,
            want_secondary_stylesheet: args.set_gtk4,
            payload,
        }
    }

    /// Builds the request for parsed arguments. `payload` is the theme that
    /// was loaded from the file they name, `None` where they name none.
    pub fn from_args(args: &Args, payload: Option<ThemePayload>) -> (request: ThemeRequest)
        ensures
            request == Self::of_args(args@, payload),
    {
        ThemeRequest {
            want_dark: args.set_dark,
            want_light: args.set_light,
            want_secondary_stylesheet: args.set_gtk4,
            payload,
        }
    }

    /// Accepts exactly the well-formed requests.
    pub fn validate(&self) -> (checked: Result<(), RequestError>)
        ensures
            checked is Ok <==> self.well_formed(),
            checked is Err ==> checked == Err::<(), RequestError>(
                RequestError::StylesheetWithoutPayload,
            ),
    {
        if self.want_secondary_stylesheet && self.payload.is_none() {
            Err(RequestError::StylesheetWithoutPayload)
        } else {
            Ok(())
        }
    }

    /// Resolves the request. Explicit mode flags are taken as they are; with
    /// none given the payload's palette decides, and without a payload both
    /// variants are written.
    pub fn resolve(&self) -> (plan: ThemePlan)
        ensures
            plan == self.plan(),
            self.mode_unspecified() && self.payload == Some(ThemePayload { dark_palette: true })
                ==> plan.write_dark && !plan.write_light,
            self.mode_unspecified() && self.payload == Some(ThemePayload { dark_palette: false })
                ==> !plan.write_dark && plan.write_light,
            self.mode_unspecified() && self.payload is None ==> plan.write_dark
                && plan.write_light,
            !self.mode_unspecified() ==> plan.write_dark == self.want_dark && plan.write_light
                == self.want_light,
            self.want_dark && self.want_light ==> plan.write_dark && plan.write_light,
            plan.write_secondary_stylesheet == self.want_secondary_stylesheet,
            plan.write_dark || plan.write_light,
    {
        let (write_dark, write_light) = if !self.want_dark && !self.want_light {
            match self.payload {
                Some(payload) => (payload.is_dark_palette(), !payload.is_dark_palette()),
                None => (true, true),
            }
        } else {
            (self.want_dark, self.want_light)
        };
        ThemePlan {
            write_dark,
            write_light,
            write_secondary_stylesheet: self.want_secondary_stylesheet,
        }
    }
}

/// A request made from accepted arguments, with a payload exactly where
/// they name a file, is well formed.
pub proof fn lemma_accepted_request_well_formed(
    line: Seq<Seq<char>>,
    args: ArgsView,
    payload: Option<ThemePayload>,
)
    requires
        parse(line) == Ok::<InvocationView, UsageError>(InvocationView::Apply(args)),
        payload is Some <==> args.theme_file is Some,
    ensures
        ThemeRequest::of_args(args, payload).well_formed(),
{
}

} // verus!
