//! The translation oracle and the date/time renderer: trusted wrappers
//! around the gettext family and strftime.
//!
//! Both services read process-wide locale, timezone and catalog state
//! that this library neither sets nor observes, so no contract here
//! names their results as functions of the arguments. Each wrapper
//! instead records, through an uninterpreted predicate, that its result
//! is an answer the service gave for exactly those identifiers; the
//! resolution engine's contracts are stated over those predicates and
//! hold for every answer the services can give.

use vstd::prelude::*;

use crate::value::{
    no_nul, DatetimeValue, LocaleCategory, ValueDCNGetText, ValueDGetText, ValueDNGetText,
    ValueGetText, ValueNGetText, ValueNPGetText, ValuePGetText,
};
use gettextrs::LocaleCategory as OracleCategory;

verus! {

/// `r` is an answer the translation oracle gave for the message
/// identifier `msgid`.
pub uninterp spec fn answers_gettext(msgid: Seq<char>, r: Seq<char>) -> bool;

/// `r` is an answer the translation oracle gave for the pluralizing
/// lookup of `singular`/`plural` with count `n`.
pub uninterp spec fn answers_ngettext(
    singular: Seq<char>,
    plural: Seq<char>,
    n: u32,
    r: Seq<char>,
) -> bool;

/// `r` is an answer the translation oracle gave for `msgid` under the
/// context `ctx`.
pub uninterp spec fn answers_pgettext(ctx: Seq<char>, msgid: Seq<char>, r: Seq<char>) -> bool;

/// `r` is an answer the translation oracle gave for `msgid` from the
/// domain `domain`.
pub uninterp spec fn answers_dgettext(domain: Seq<char>, msgid: Seq<char>, r: Seq<char>) -> bool;

/// `r` is an answer the translation oracle gave for the pluralizing
/// lookup of `singular`/`plural` with count `n` from the domain
/// `domain`.
pub uninterp spec fn answers_dngettext(
    domain: Seq<char>,
    singular: Seq<char>,
    plural: Seq<char>,
    n: u32,
    r: Seq<char>,
) -> bool;

/// `r` is an answer the translation oracle gave for the pluralizing
/// lookup of `singular`/`plural` with count `n` under the context
/// `ctx`.
pub uninterp spec fn answers_npgettext(
    ctx: Seq<char>,
    singular: Seq<char>,
    plural: Seq<char>,
    n: u32,
    r: Seq<char>,
) -> bool;

/// `r` is an answer the translation oracle gave for the pluralizing
/// lookup of `singular`/`plural` with count `n` from the domain
/// `domain`, governed by the locale facet `category`.
pub uninterp spec fn answers_dcngettext(
    domain: Seq<char>,
    singular: Seq<char>,
    plural: Seq<char>,
    n: u32,
    category: LocaleCategory,
    r: Seq<char>,
) -> bool;

/// `r` is a rendering the date/time renderer gave for the pattern
/// `pattern` at `epoch` seconds since the Unix epoch.
pub uninterp spec fn answers_strftime(pattern: Seq<char>, epoch: int, r: Seq<char>) -> bool;

impl ValueGetText {
    /// Relies on gettextrs::gettext: looks the message identifier up in
    /// the active catalog, returning it verbatim when untranslated.
    /// Panics if an identifier holds a NUL character (excluded by the
    /// precondition) or if the catalog's text is not UTF-8.
    #[verifier::external_body]
    pub fn to_string(&self) -> (r: String)
        requires
            no_nul(self.0@),
        ensures
            answers_gettext(self.0@, r@),
    {
        gettextrs::gettext(self.0.as_str())
    }
}

impl ValueNGetText {
    /// Relies on gettextrs::ngettext: the pluralizing lookup, selecting
    /// between singular and plural by the count and the locale's plural
    /// rule, returning the identifiers verbatim when untranslated.
    /// Panics if an identifier holds a NUL character (excluded by the
    /// precondition) or if the catalog's text is not UTF-8.
    #[verifier::external_body]
    pub fn to_string(&self) -> (r: String)
        requires
            no_nul(self.singular@),
            no_nul(self.plural@),
        ensures
            answers_ngettext(self.singular@, self.plural@, self.n, r@),
    {
        gettextrs::ngettext(self.singular.as_str(), self.plural.as_str(), self.n)
    }
}

impl ValuePGetText {
    /// Relies on gettextrs::pgettext: the lookup disambiguated by a
    /// context string, returning the identifier verbatim when
    /// untranslated. Panics if an identifier holds a NUL character
    /// (excluded by the precondition) or if the catalog's text is not
    /// UTF-8.
    #[verifier::external_body]
    pub fn to_string(&self) -> (r: String)
        requires
            no_nul(self.ctx@),
            no_nul(self.msgid@),
        ensures
            answers_pgettext(self.ctx@, self.msgid@, r@),
    {
        gettextrs::pgettext(self.ctx.as_str(), self.msgid.as_str())
    }
}

impl ValueDGetText {
    /// Relies on gettextrs::dgettext: the lookup against a specific
    /// domain, returning the identifier verbatim when untranslated.
    /// Panics if an identifier holds a NUL character (excluded by the
    /// precondition) or if the catalog's text is not UTF-8.
    #[verifier::external_body]
    pub fn to_string(&self) -> (r: String)
        requires
            no_nul(self.domain@),
            no_nul(self.msgid@),
        ensures
            answers_dgettext(self.domain@, self.msgid@, r@),
    {
        gettextrs::dgettext(self.domain.as_str(), self.msgid.as_str())
    }
}

impl ValueDNGetText {
    /// Relies on gettextrs::dngettext: the pluralizing lookup against a
    /// specific domain, returning the identifiers verbatim when
    /// untranslated. Panics if an identifier holds a NUL character
    /// (excluded by the precondition) or if the catalog's text is not
    /// UTF-8.
    #[verifier::external_body]
    pub fn to_string(&self) -> (r: String)
        requires
            no_nul(self.domain@),
            no_nul(self.singular@),
            no_nul(self.plural@),
        ensures
            answers_dngettext(self.domain@, self.singular@, self.plural@, self.n, r@),
    {
        gettextrs::dngettext(self.domain.as_str(), self.singular.as_str(), self.plural.as_str(), self.n)
    }
}

impl ValueNPGetText {
    /// Relies on gettextrs::npgettext: the pluralizing lookup
    /// disambiguated by a context string, returning the identifiers
    /// verbatim when untranslated. Panics if an identifier holds a NUL
    /// character (excluded by the precondition) or if the catalog's
    /// text is not UTF-8.
    #[verifier::external_body]
    pub fn to_string(&self) -> (r: String)
        requires
            no_nul(self.ctx@),
            no_nul(self.singular@),
            no_nul(self.plural@),
        ensures
            answers_npgettext(self.ctx@, self.singular@, self.plural@, self.n, r@),
    {
        gettextrs::npgettext(self.ctx.as_str(), self.singular.as_str(), self.plural.as_str(), self.n)
    }
}

impl ValueDCNGetText {
    /// Relies on gettextrs::dcngettext: the pluralizing lookup against
    /// a specific domain under a chosen locale category, returning the
    /// identifiers verbatim when untranslated. Each locale facet is
    /// mapped by an explicit exhaustive match onto the oracle's own
    /// category enumeration. Panics if an identifier holds a NUL
    /// character (excluded by the precondition) or if the catalog's
    /// text is not UTF-8.
    #[verifier::external_body]
    pub fn to_string(&self) -> (r: String)
        requires
            no_nul(self.domain@),
            no_nul(self.singular@),
            no_nul(self.plural@),
        ensures
            answers_dcngettext(
                self.domain@,
                self.singular@,
                self.plural@,
                self.n,
                self.category,
                r@,
            ),
    {
        let c = match self.category {
            LocaleCategory::LcCType => OracleCategory::LcCType, LocaleCategory::LcNumeric => OracleCategory::LcNumeric,
            LocaleCategory::LcTime => OracleCategory::LcTime,
            LocaleCategory::LcCollate => OracleCategory::LcCollate,
            LocaleCategory::LcMonetary => OracleCategory::LcMonetary,
            LocaleCategory::LcMessages => OracleCategory::LcMessages,
            LocaleCategory::LcAll => OracleCategory::LcAll,
            LocaleCategory::LcPaper => OracleCategory::LcPaper,
            LocaleCategory::LcName => OracleCategory::LcName,
            LocaleCategory::LcAddress => OracleCategory::LcAddress,
            LocaleCategory::LcTelephone => OracleCategory::LcTelephone,
            LocaleCategory::LcMeasurement => OracleCategory::LcMeasurement,
            LocaleCategory::LcIdentification => OracleCategory::LcIdentification,
        };
        gettextrs::dcngettext(self.domain.as_str(), self.singular.as_str(), self.plural.as_str(), self.n, c)
    }
}

impl DatetimeValue {
    /// Relies on libc_strftime::strftime_local: renders the timestamp
    /// under the process's ambient locale and timezone. Panics if the
    /// pattern holds a NUL character (excluded by the precondition).
    #[verifier::external_body]
    pub fn to_string(&self) -> (r: String)
        requires
            no_nul(self.strftime@),
        ensures
            answers_strftime(self.strftime@, self.epoch as int, r@),
    {
        libc_strftime::strftime_local(self.strftime.as_str(), self.epoch)
    }
}

} // verus!
