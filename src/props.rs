//! The enumerated attribute types of the document vocabulary, each with its
//! default.
use vstd::prelude::*;

verus! {

/// The assign type that allows for precise manipulation of the datamodel
/// location: replacechildren (the default), firstchild, lastchild,
/// previoussibling, nextsibling, replace, delete, addattribute.
#[derive(Debug, Clone, Copy, PartialEq, Eq, Structural)]
pub enum AssignTypeDatatypeProps {
    Replacechildren,
    Firstchild,
    Lastchild,
    Previoussibling,
    Nextsibling,
    Replace,
    Delete,
    Addattribute,
}

impl Default for AssignTypeDatatypeProps {
    /// Replacechildren.
    fn default() -> (r: Self)
        ensures
            r == AssignTypeDatatypeProps::Replacechildren,
    {
        AssignTypeDatatypeProps::Replacechildren
    }
}

/// The binding type in use for the document.
#[derive(Debug, Clone, Copy, PartialEq, Eq, Structural)]
pub enum BindingDatatypeProps {
    Early,
    Late,
}

impl Default for BindingDatatypeProps {
    /// Early.
    fn default() -> (r: Self)
        ensures
            r == BindingDatatypeProps::Early,
    {
        BindingDatatypeProps::Early
    }
}

/// Boolean: true or false only.
#[derive(Debug, Clone, Copy, PartialEq, Eq, Structural)]
pub enum BooleanDatatypeProps {
    True,
    False,
}

impl Default for BooleanDatatypeProps {
    /// True.
    fn default() -> (r: Self)
        ensures
            r == BooleanDatatypeProps::True,
    {
        BooleanDatatypeProps::True
    }
}

/// The processor execution mode for the document, "lax" or "strict".
#[derive(Debug, Clone, Copy, PartialEq, Eq, Structural)]
pub enum ExmodeDatatypeProps {
    Lax,
    Strict,
}

impl Default for ExmodeDatatypeProps {
    /// Lax.
    fn default() -> (r: Self)
        ensures
            r == ExmodeDatatypeProps::Lax,
    {
        ExmodeDatatypeProps::Lax
    }
}

/// The type of a history state: shallow or deep.
#[derive(Debug, Clone, Copy, PartialEq, Eq, Structural)]
pub enum HistoryTypeDatatypeProps {
    Shallow,
    Deep,
}

impl Default for HistoryTypeDatatypeProps {
    /// Shallow.
    fn default() -> (r: Self)
        ensures
            r == HistoryTypeDatatypeProps::Shallow,
    {
        HistoryTypeDatatypeProps::Shallow
    }
}

/// The type of a transition: internal or external.
#[derive(Debug, Clone, Copy, PartialEq, Eq, Structural)]
pub enum TransitionTypeDatatypeProps {
    Internal,
    External,
}

impl Default for TransitionTypeDatatypeProps {
    /// Internal.
    fn default() -> (r: Self)
        ensures
            r == TransitionTypeDatatypeProps::Internal,
    {
        TransitionTypeDatatypeProps::Internal
    }
}

} // verus!
