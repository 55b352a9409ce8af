//! The placeholder formatter: trusted wrappers around dynfmt's
//! Python-style template substitution.
//!
//! Substitution is a pure function of the template and the argument
//! lookup, so its results are given names (`kw_format`, `pos_format`)
//! that the resolution engine's contracts are stated over.

use vstd::prelude::*;

use crate::strmap::StrMap;
use dynfmt::Format;
use dynfmt::PythonFormat;
use std::collections::HashMap;

verus! {

/// The template holds no `%` character, so it cannot hold a
/// substitution directive.
pub open spec fn no_directives(t: Seq<char>) -> bool {
    forall|i: int| 0 <= i < t.len() ==> t[i] != '%'
}

/// What dynfmt's Python-style substitution returns for a template and
/// a keyed argument lookup: the substituted string, or the formatter's
/// diagnostic text.
pub uninterp spec fn kw_format(
    template: Seq<char>,
    args: Map<Seq<char>, Seq<char>>,
) -> Result<Seq<char>, Seq<char>>;

/// What dynfmt's Python-style substitution returns for a template and
/// an ordered sequence of positional arguments: the substituted
/// string, or the formatter's diagnostic text.
pub uninterp spec fn pos_format(
    template: Seq<char>,
    args: Seq<Seq<char>>,
) -> Result<Seq<char>, Seq<char>>;

/// The sequence of views of a sequence of strings.
pub open spec fn strs_view(v: Seq<String>) -> Seq<Seq<char>> {
    v.map_values(|s: String| s@)
}

/// Relies on dynfmt's PythonFormat::format with a keyed lookup: it
/// substitutes `%(key)s`-style (and `%s`-style) directives in the
/// template against the mapping, returning the template unchanged when
/// it holds no directive, and a diagnostic error for an unresolved
/// reference or malformed directive.
#[verifier::external_body]
pub(crate) fn py_format_kw(template: &str, args: &StrMap) -> (r: Result<String, String>)
    ensures
        (match r {
            Ok(rs) => kw_format(template@, args@) == Result::<Seq<char>, Seq<char>>::Ok(rs@),
            Err(re) => kw_format(template@, args@) == Result::<Seq<char>, Seq<char>>::Err(re@),
        }),
        no_directives(template@) ==> (match r {
            Ok(rs) => rs@ == template@,
            Err(_) => false,
        }),
{
    let map: HashMap<String, String> = args.pairs.iter().cloned().collect();
    match PythonFormat.format(template, &map) {
        Ok(s) => Ok(s.to_string()),
        Err(e) => Err(format!("{}", e)),
    }
}

/// Relies on dynfmt's PythonFormat::format with an indexed lookup: it
/// substitutes `%s`-style directives in the template against the
/// sequence, in order, returning the template unchanged when it holds
/// no directive, and a diagnostic error for an out-of-range reference
/// or malformed directive.
#[verifier::external_body]
pub(crate) fn py_format_pos(template: &str, args: &Vec<String>) -> (r: Result<String, String>)
    ensures
        (match r {
            Ok(rs) => pos_format(template@, strs_view(args@)) == Result::<Seq<char>, Seq<char>>::Ok(rs@),
            Err(re) => pos_format(template@, strs_view(args@)) == Result::<Seq<char>, Seq<char>>::Err(re@),
        }),
        no_directives(template@) ==> (match r {
            Ok(rs) => rs@ == template@,
            Err(_) => false,
        }),
{
    match PythonFormat.format(template, args.as_slice()) {
        Ok(s) => Ok(s.to_string()),
        Err(e) => Err(format!("{}", e)),
    }
}

} // verus!
