//! The closed error taxonomies that the engine surfaces instead of invoking
//! an action: structural dispatch failures and per-flag resolution failures.

use vstd::prelude::*;

verus! {

/// Error produced by the dispatcher itself, without any action running.
#[derive(PartialEq, Eq, Structural, Clone, Copy, Debug)]
pub struct ActionError {
    pub kind: ActionErrorKind,
}

/// The one structural failure of dispatch: the resolved command binds no
/// action.
#[derive(PartialEq, Eq, Structural, Clone, Copy, Debug)]
pub enum ActionErrorKind {
    NotFound,
}

/// Error produced by one flag-resolution query.
#[derive(PartialEq, Eq, Structural, Clone, Copy, Debug)]
pub struct FlagError {
    pub kind: FlagErrorKind,
}

/// The failure modes of a flag-resolution query, one per cause.
#[derive(PartialEq, Eq, Structural, Clone, Copy, Debug)]
pub enum FlagErrorKind {
    /// No occurrence of the flag was found in the token slice.
    NotFound,
    /// No descriptor names or aliases the queried identifier.
    Undefined,
    /// The descriptor's declared type differs from the accessor used.
    TypeError,
    /// A value token was present but failed to parse as the declared type.
    ValueTypeError,
    /// The flag requires a value token and none followed it.
    ArgumentError,
}

/// The result type of a whole dispatch: the engine's own errors, or a value
/// an action chose to propagate.
#[derive(PartialEq, Clone, Debug)]
pub enum RunError {
    /// The dispatcher found no action to invoke.
    Action(ActionError),
    /// A flag-resolution failure that an action chose to propagate.
    Flag(FlagError),
    /// Any other failure an action chose to propagate, as a message.
    Custom(String),
}

impl ActionErrorKind {
    /// Short name of the kind.
    pub fn message(&self) -> (r: &'static str)
        ensures
            r@ == "NotFound"@,
    {
        match *self {
            ActionErrorKind::NotFound => "NotFound",
        }
    }
}

impl ActionError {
    /// Short name of the carried kind.
    pub fn message(&self) -> (r: &'static str)
        ensures
            r@ == "NotFound"@,
    {
        self.kind.message()
    }
}

impl FlagErrorKind {
    /// Short name of the kind.
    pub fn message(&self) -> (r: &'static str)
        ensures
            *self == FlagErrorKind::NotFound ==> r@ == "NotFound"@,
            *self == FlagErrorKind::Undefined ==> r@ == "Undefined"@,
            *self == FlagErrorKind::TypeError ==> r@ == "TypeError"@,
            *self == FlagErrorKind::ValueTypeError ==> r@ == "ValueTypeError"@,
            *self == FlagErrorKind::ArgumentError ==> r@ == "ArgumentError"@,
    {
        match *self {
            FlagErrorKind::NotFound => "NotFound",
            FlagErrorKind::Undefined => "Undefined",
            FlagErrorKind::TypeError => "TypeError",
            FlagErrorKind::ValueTypeError => "ValueTypeError",
            FlagErrorKind::ArgumentError => "ArgumentError",
        }
    }

    /// Human-readable description of the kind.
    pub fn description(&self) -> (r: &'static str)
        ensures
            *self == FlagErrorKind::NotFound ==> r@ == "Flag not found"@,
            *self == FlagErrorKind::Undefined ==> r@ == "Flag undefined"@,
            *self == FlagErrorKind::TypeError ==> r@ == "Flag type mismatch"@,
            *self == FlagErrorKind::ValueTypeError ==> r@ == "Value type mismatch"@,
            *self == FlagErrorKind::ArgumentError ==> r@ == "Illegal argument"@,
    {
        match *self {
            FlagErrorKind::NotFound => "Flag not found",
            FlagErrorKind::Undefined => "Flag undefined",
            FlagErrorKind::TypeError => "Flag type mismatch",
            FlagErrorKind::ValueTypeError => "Value type mismatch",
            FlagErrorKind::ArgumentError => "Illegal argument",
        }
    }
}

impl FlagError {
    /// Short name of the carried kind.
    pub fn message(&self) -> (r: &'static str)
        ensures
            self.kind == FlagErrorKind::NotFound ==> r@ == "NotFound"@,
            self.kind == FlagErrorKind::Undefined ==> r@ == "Undefined"@,
            self.kind == FlagErrorKind::TypeError ==> r@ == "TypeError"@,
            self.kind == FlagErrorKind::ValueTypeError ==> r@ == "ValueTypeError"@,
            self.kind == FlagErrorKind::ArgumentError ==> r@ == "ArgumentError"@,
    {
        self.kind.message()
    }
}

} // verus!
