//! The actions taken on forbidden keys, and the options that pick them.

use vstd::prelude::*;

verus! {

/// What to do when a forbidden key is found.
#[derive(Clone, Copy, PartialEq, Eq, Hash, Debug, Structural)]
pub enum Action {
    /// Reject the input with a forbidden-property error.
    Error,
    /// Delete the offending key from the result.
    Remove,
    /// Skip the check for this key and keep it.
    Ignore,
}

impl Default for Action {
    /// The default action rejects the input.
    fn default() -> (a: Action)
        ensures
            a == Action::Error,
    {
        Action::Error
    }
}

/// Configuration for parsing and scanning.
///
/// The defaults match a strict parser: both actions are [`Action::Error`] and
/// `safe` is off.
#[derive(Clone, Copy, PartialEq, Eq, Hash, Debug, Structural)]
pub struct Options {
    /// Action for a `__proto__` key.
    pub proto_action: Action,
    /// Action for a `constructor.prototype` nesting.
    pub constructor_action: Action,
    /// When true, a detected violation yields `Ok(None)` instead of an error.
    pub safe: bool,
}

impl Default for Options {
    /// Both actions [`Action::Error`], `safe` off.
    fn default() -> (o: Options)
        ensures
            o == (Options { proto_action: Action::Error, constructor_action: Action::Error, safe: false }),
    {
        Options { proto_action: Action::Error, constructor_action: Action::Error, safe: false }
    }
}

impl Options {
    /// Set the action for `__proto__` keys.
    pub fn proto_action(self, action: Action) -> (o: Options)
        ensures
            o == (Options { proto_action: action, ..self }),
    {
        let mut o = self;
        o.proto_action = action;
        o
    }

    /// Set the action for `constructor.prototype` nestings.
    pub fn constructor_action(self, action: Action) -> (o: Options)
        ensures
            o == (Options { constructor_action: action, ..self }),
    {
        let mut o = self;
        o.constructor_action = action;
        o
    }

    /// Set the `safe` flag. When true a violation yields `Ok(None)`.
    pub fn safe(self, safe: bool) -> (o: Options)
        ensures
            o == (Options { safe: safe, ..self }),
    {
        let mut o = self;
        o.safe = safe;
        o
    }
}

} // verus!
