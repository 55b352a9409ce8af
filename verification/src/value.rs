//! The recursive value model: one node of a message tree, together
//! with the argument shapes that may be attached to a node.

use vstd::prelude::*;

verus! {

/// No character of the string is the NUL character. The translation
/// oracle hands its identifiers to a C API, which cannot carry NUL.
pub open spec fn no_nul(s: Seq<char>) -> bool {
    forall|i: int| 0 <= i < s.len() ==> s[i] != '\0'
}

/// A timestamp to be rendered by the locale-aware date/time renderer.
pub struct DatetimeValue {
    /// The strftime-style format pattern.
    pub strftime: String,
    /// Seconds since the Unix epoch.
    pub epoch: i64,
}

/// A plain translation call: one message identifier.
pub struct ValueGetText(pub String);

/// A pluralizing translation call: singular and plural identifiers
/// and the count that selects between them.
pub struct ValueNGetText {
    /// The singular message identifier.
    pub singular: String,
    /// The plural message identifier.
    pub plural: String,
    /// The count.
    pub n: u32,
}

/// A translation call with a disambiguating context.
pub struct ValuePGetText {
    /// The context.
    pub ctx: String,
    /// The message identifier.
    pub msgid: String,
}

/// A translation call against a specific domain.
pub struct ValueDGetText {
    /// The domain.
    pub domain: String,
    /// The message identifier.
    pub msgid: String,
}

/// A pluralizing translation call against a specific domain.
pub struct ValueDNGetText {
    /// The domain.
    pub domain: String,
    /// The singular message identifier.
    pub singular: String,
    /// The plural message identifier.
    pub plural: String,
    /// The count.
    pub n: u32,
}

/// A pluralizing translation call with a disambiguating context.
pub struct ValueNPGetText {
    /// The context.
    pub ctx: String,
    /// The singular message identifier.
    pub singular: String,
    /// The plural message identifier.
    pub plural: String,
    /// The count.
    pub n: u32,
}

/// The locale facet that governs a translation call.
#[derive(Clone, Copy, PartialEq, Eq, Structural)]
pub enum LocaleCategory {
    /// Character classification and case conversion.
    LcCType,
    /// Non-monetary numeric formats.
    LcNumeric,
    /// Date and time formats.
    LcTime,
    /// Collation order.
    LcCollate,
    /// Monetary formats.
    LcMonetary,
    /// Formats of informative and diagnostic messages.
    LcMessages,
    /// All facets at once.
    LcAll,
    /// Paper size.
    LcPaper,
    /// Name formats.
    LcName,
    /// Address formats and location information.
    LcAddress,
    /// Telephone number formats.
    LcTelephone,
    /// Measurement units.
    LcMeasurement,
    /// Metadata about the locale information.
    LcIdentification,
}

/// A pluralizing translation call against a specific domain under a
/// chosen locale category.
pub struct ValueDCNGetText {
    /// The domain.
    pub domain: String,
    /// The singular message identifier.
    pub singular: String,
    /// The plural message identifier.
    pub plural: String,
    /// The count.
    pub n: u32,
    /// The locale facet that governs the lookup.
    pub category: LocaleCategory,
}

/// One node of a message tree.
pub enum Value {
    /// Literal text, rendered as-is with no substitution.
    Text(String),
    /// An integer, rendered as its canonical decimal numeral.
    Integer(i64),
    /// A floating-point number, carried as the decimal text the tree
    /// producer rendered it to.
    Float(String),
    /// A boolean, rendered through the oracle's "yes"/"no" tokens.
    Bool(bool),
    /// Absence of a value, rendered through the oracle's "n/a" token.
    Unit,
    /// A timestamp, rendered by the date/time renderer.
    Datetime(DatetimeValue),
    /// A sequence whose first element is a join separator and whose
    /// remaining elements are joined by it.
    Array(Vec<Value>),
    /// A literal template plus optional substitution arguments.
    FormattedText {
        /// The template, used as-is with no translation lookup.
        text: String,
        /// The substitution arguments, if any.
        args: Option<Formatter>,
    },
    /// A plain translation call.
    GetText {
        /// The call's identifiers.
        gettext: ValueGetText,
        /// The substitution arguments, if any.
        args: Option<Formatter>,
    },
    /// A pluralizing translation call.
    NGetText {
        /// The call's identifiers.
        ngettext: ValueNGetText,
        /// The substitution arguments, if any.
        args: Option<Formatter>,
    },
    /// A translation call with a context.
    PGetText {
        /// The call's identifiers.
        pgettext: ValuePGetText,
        /// The substitution arguments, if any.
        args: Option<Formatter>,
    },
    /// A translation call against a domain.
    DGetText {
        /// The call's identifiers.
        dgettext: ValueDGetText,
        /// The substitution arguments, if any.
        args: Option<Formatter>,
    },
    /// A pluralizing translation call against a domain.
    DNGetText {
        /// The call's identifiers.
        dngettext: ValueDNGetText,
        /// The substitution arguments, if any.
        args: Option<Formatter>,
    },
    /// A pluralizing translation call with a context.
    NPGetText {
        /// The call's identifiers.
        npgettext: ValueNPGetText,
        /// The substitution arguments, if any.
        args: Option<Formatter>,
    },
    /// A pluralizing translation call against a domain under a chosen
    /// locale category.
    DCNGetText {
        /// The call's identifiers.
        dcngettext: ValueDCNGetText,
        /// The substitution arguments, if any.
        args: Option<Formatter>,
    },
}

/// The argument specification attached to a node: either an ordered
/// sequence or a keyword mapping, never both.
pub enum Formatter {
    /// Keyword arguments: named values, keys unique.
    KeywordArgs(Vec<(String, Value)>),
    /// Positional arguments: an ordered sequence of values.
    PositionalArgs(Vec<Value>),
}

impl Value {
    /// Every identifier the node would hand to the translation oracle
    /// or the date/time renderer is free of NUL characters, down the
    /// whole tree. The oracle's C API cannot carry NUL.
    pub open spec fn wf(self) -> bool
        decreases self,
    {
        match self {
            Value::Text(_) => true,
            Value::Integer(_) => true,
            Value::Float(_) => true,
            Value::Bool(_) => true,
            Value::Unit => true,
            Value::Datetime(d) => no_nul(d.strftime@),
            Value::Array(xs) => forall|i: int| 0 <= i < xs@.len() ==> (#[trigger] xs@[i]).wf(),
            Value::FormattedText { text: _, args } => wf_args(args),
            Value::GetText { gettext, args } => no_nul(gettext.0@) && wf_args(args),
            Value::NGetText { ngettext, args } => {
                no_nul(ngettext.singular@) && no_nul(ngettext.plural@) && wf_args(args)
            },
            Value::PGetText { pgettext, args } => {
                no_nul(pgettext.ctx@) && no_nul(pgettext.msgid@) && wf_args(args)
            },
            Value::DGetText { dgettext, args } => {
                no_nul(dgettext.domain@) && no_nul(dgettext.msgid@) && wf_args(args)
            },
            Value::DNGetText { dngettext, args } => {
                no_nul(dngettext.domain@) && no_nul(dngettext.singular@) && no_nul(
                    dngettext.plural@,
                ) && wf_args(args)
            },
            Value::NPGetText { npgettext, args } => {
                no_nul(npgettext.ctx@) && no_nul(npgettext.singular@) && no_nul(npgettext.plural@)
                    && wf_args(args)
            },
            Value::DCNGetText { dcngettext, args } => {
                no_nul(dcngettext.domain@) && no_nul(dcngettext.singular@) && no_nul(
                    dcngettext.plural@,
                ) && wf_args(args)
            },
        }
    }
}

/// Well-formedness of an optional argument specification: every value
/// it carries is well-formed.
pub open spec fn wf_args(args: Option<Formatter>) -> bool
    decreases args,
{
    match args {
        Option::None => true,
        Option::Some(Formatter::KeywordArgs(pairs)) => forall|i: int|
            0 <= i < pairs@.len() ==> (#[trigger] pairs@[i]).1.wf(),
        Option::Some(Formatter::PositionalArgs(xs)) => forall|i: int|
            0 <= i < xs@.len() ==> (#[trigger] xs@[i]).wf(),
    }
}

} // verus!
