//! Resolution of a structured, data-only description of a localizable
//! message into a single human-readable string.

use vstd::prelude::*;

pub mod digits;
pub mod engine;
pub mod fmt;
pub mod laws;
pub mod oracle;
pub mod resolve;
pub mod strmap;
pub mod value;

verus! {

/// Runtime error that occurs when the input cannot be formatted.
#[derive(Debug)]
pub enum Error {
    /// The placeholder formatter rejected a template/argument combination.
    FormatError(String),
    /// An array value had no elements, so no join separator is available.
    MissingJoinSeparator,
}

/// The mathematical model of an [`Error`].
pub enum ErrView {
    /// The placeholder formatter's diagnostic text.
    FormatError(Seq<char>),
    /// An array value had no elements.
    MissingJoinSeparator,
}

impl View for Error {
    type V = ErrView;

    open spec fn view(&self) -> ErrView {
        match self {
            Error::FormatError(d) => ErrView::FormatError(d@),
            Error::MissingJoinSeparator => ErrView::MissingJoinSeparator,
        }
    }
}

/// The model of a resolution outcome: the produced string, or the
/// error, by view.
pub open spec fn res_view(r: Result<String, Error>) -> Result<Seq<char>, ErrView> {
    match r {
        Result::Ok(s) => Result::Ok(s@),
        Result::Err(e) => Result::Err(e@),
    }
}

impl Error {
    /// Whether this error is the missing-separator error.
    pub fn is_missing_join_separator(&self) -> (r: bool)
        ensures
            r == (self@ is MissingJoinSeparator),
    {
        match self {
            Error::MissingJoinSeparator => true,
            Error::FormatError(_) => false,
        }
    }

    /// The formatter's diagnostic text, where there is one.
    pub fn diagnostic(&self) -> (r: Option<&String>)
        ensures
            match r {
                Option::Some(d) => self@ == ErrView::FormatError(d@),
                Option::None => self@ is MissingJoinSeparator,
            },
    {
        match self {
            Error::FormatError(d) => Some(d),
            Error::MissingJoinSeparator => None,
        }
    }
}

/// A message tree together with its caller-supplied base argument
/// mapping, ready to be resolved to one translated, formatted string.
pub struct SerdeGetText {
    /// The message tree.
    pub value: value::Value,
    /// Base arguments that can be provided for keywords format.
    pub args: strmap::StrMap,
}

impl SerdeGetText {
    /// Every oracle-bound identifier in the tree is free of NUL
    /// characters.
    pub open spec fn wf(self) -> bool {
        self.value.wf()
    }

    /// Wrap a message tree with an empty base argument mapping.
    pub fn new(value: value::Value) -> (r: SerdeGetText)
        ensures
            r.value == value,
            r.args@ == Map::<Seq<char>, Seq<char>>::empty(),
    {
        SerdeGetText { value, args: strmap::StrMap::new() }
    }

    /// Resolve the tree against the base argument mapping: the final
    /// string, or the first error met.
    pub fn try_into_string(&self) -> (r: Result<String, Error>)
        requires
            self.wf(),
        ensures
            resolve::resolves_to(self.value, self.args@, res_view(r)),
    {
        self.value.try_into_string(&self.args)
    }
}

} // verus!
