use vstd::prelude::*;

verus! {

/// Why a lookup or a parse failed: the variable is absent from the
/// environment, or it is present but its raw value does not convert to the
/// requested type.
#[derive(Debug)]
pub enum EnvError {
    /// The named variable is not set in the environment.
    Missing(String),
    /// The named variable is set, but its value cannot be converted; `value`
    /// carries the offending string.
    ParseError { key: String, value: String },
}

/// The abstract form of `EnvError`: the same two variants, over character
/// sequences instead of heap-allocated strings, for use in contracts.
pub enum EnvErrorView {
    Missing(Seq<char>),
    ParseError { key: Seq<char>, value: Seq<char> },
}

impl View for EnvError {
    type V = EnvErrorView;

    open spec fn view(&self) -> EnvErrorView {
        match self {
            EnvError::Missing(name) => EnvErrorView::Missing(name@),
            EnvError::ParseError { key, value } => EnvErrorView::ParseError {
                key: key@,
                value: value@,
            },
        }
    }
}

} // verus!
