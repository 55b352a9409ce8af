//! The resolution engine's mathematical model.
//!
//! The translation oracle and the date/time renderer answer from
//! ambient locale and catalog state, so one node can have more than
//! one possible resolution. The model makes the oracle's part
//! explicit: a ghost *trace* records, node by node, the answers the
//! services gave, and `outcome` is a deterministic function of the
//! node, the base mapping and the trace — `None` where the trace is
//! not a genuine record (its answers are not the services', or its
//! shape does not follow the run), and `Some(r)` where it certifies
//! the resolution `r`. A node *resolves to* `r` exactly when some
//! genuine trace certifies `r`; the placeholder substitution step is
//! the function named by `kw_format` and `pos_format`, and everything
//! else is determined.

use vstd::prelude::*;

use crate::digits::{dec_rep, int_dec_rep};
use crate::fmt::{kw_format, pos_format};
use crate::oracle::{
    answers_dcngettext, answers_dgettext, answers_dngettext, answers_gettext, answers_ngettext,
    answers_npgettext, answers_pgettext, answers_strftime,
};
use crate::strmap::overlay;
use crate::value::{Formatter, Value};
use crate::ErrView;

verus! {

/// The oracle token a boolean is rendered through.
pub open spec fn bool_token(b: bool) -> Seq<char> {
    if b {
        "yes"@
    } else {
        "no"@
    }
}

/// The oracle token an absent value is rendered through.
pub open spec fn unit_token() -> Seq<char> {
    "n/a"@
}

/// The key under which a pluralizing call's count is injected into
/// keyword lookups.
pub open spec fn count_key() -> Seq<char> {
    "n"@
}

/// A substitution outcome, lifted into a resolution outcome: a
/// formatter diagnostic becomes the format error.
pub open spec fn lift_fmt(x: Result<Seq<char>, Seq<char>>) -> Result<Seq<char>, ErrView> {
    match x {
        Result::Ok(s) => Result::Ok(s),
        Result::Err(d) => Result::Err(ErrView::FormatError(d)),
    }
}

/// The strings joined by a separator: empty for no strings, otherwise
/// the strings in order with the separator between neighbours.
pub open spec fn join_with(ss: Seq<Seq<char>>, sep: Seq<char>) -> Seq<char>
    decreases ss.len(),
{
    if ss.len() == 0 {
        Seq::empty()
    } else if ss.len() == 1 {
        ss[0]
    } else {
        ss[0] + sep + join_with(ss.subrange(1, ss.len() as int), sep)
    }
}

/// The local mapping built by inserting, in order, each pair's key
/// bound to the corresponding resolved string; a later pair overrides
/// an earlier one with the same key.
pub open spec fn inserted(
    acc: Map<Seq<char>, Seq<char>>,
    s: Seq<(String, Value)>,
    ws: Seq<Seq<char>>,
) -> Map<Seq<char>, Seq<char>>
    decreases s.len(),
{
    if s.len() == 0 || ws.len() == 0 {
        acc
    } else {
        inserted(
            acc.insert(s[0].0@, ws[0]),
            s.subrange(1, s.len() as int),
            ws.subrange(1, ws.len() as int),
        )
    }
}

/// A record of one resolution run: what the translation oracle and the
/// date/time renderer answered, node by node.
pub enum Trace {
    /// A leaf that consults no service.
    Atom,
    /// The service's answer, for a leaf that consults one.
    Token(Seq<char>),
    /// The records of an array's elements, or of a template node's
    /// argument values, in order. A failing run's record stops at the
    /// failing value.
    List(Seq<Trace>),
    /// The record of a translation call: the oracle's answer and the
    /// records of the argument values.
    Call {
        /// The localized template the oracle answered.
        template: Seq<char>,
        /// The records of the argument values, in order.
        children: Seq<Trace>,
    },
}

/// The resolution the trace `tr` certifies for node `v` under the base
/// mapping: `None` where `tr` is not a genuine record of a run on `v`.
pub open spec fn outcome(v: Value, base: Map<Seq<char>, Seq<char>>, tr: Trace) -> Option<
    Result<Seq<char>, ErrView>,
>
    decreases v, 2int,
{
    match v {
        Value::Text(x) => if tr == Trace::Atom {
            Option::Some(Result::Ok(x@))
        } else {
            Option::None
        },
        Value::Integer(x) => if tr == Trace::Atom {
            Option::Some(Result::Ok(int_dec_rep(x as int)))
        } else {
            Option::None
        },
        Value::Float(x) => if tr == Trace::Atom {
            Option::Some(Result::Ok(x@))
        } else {
            Option::None
        },
        Value::Bool(b) => if tr matches Trace::Token(t) && answers_gettext(bool_token(b), t) {
            Option::Some(Result::Ok(tr->Token_0))
        } else {
            Option::None
        },
        Value::Unit => if tr matches Trace::Token(t) && answers_gettext(unit_token(), t) {
            Option::Some(Result::Ok(tr->Token_0))
        } else {
            Option::None
        },
        Value::Datetime(d) => if tr matches Trace::Token(t) && answers_strftime(
            d.strftime@,
            d.epoch as int,
            t,
        ) {
            Option::Some(Result::Ok(tr->Token_0))
        } else {
            Option::None
        },
        Value::Array(xs) => match tr {
            Trace::List(ts) => if xs@.len() == 0 {
                if ts.len() == 0 {
                    Option::Some(Result::Err(ErrView::MissingJoinSeparator))
                } else {
                    Option::None
                }
            } else {
                match outcome_list_vec(xs, base, ts) {
                    Option::None => Option::None,
                    Option::Some(Result::Err(e)) => Option::Some(Result::Err(e)),
                    Option::Some(Result::Ok(ss)) => Option::Some(
                        Result::Ok(join_with(ss.subrange(1, ss.len() as int), ss[0])),
                    ),
                }
            },
            _ => Option::None,
        },
        Value::FormattedText { text, args } => match tr {
            Trace::List(ts) => outcome_args(args, text@, Map::empty(), base, ts),
            _ => Option::None,
        },
        Value::GetText { gettext, args } => match tr {
            Trace::Call { template, children } => if answers_gettext(gettext.0@, template) {
                outcome_args(args, template, Map::empty(), base, children)
            } else {
                Option::None
            },
            _ => Option::None,
        },
        Value::NGetText { ngettext, args } => match tr {
            Trace::Call { template, children } => if answers_ngettext(
                ngettext.singular@,
                ngettext.plural@,
                ngettext.n,
                template,
            ) {
                outcome_args(
                    args,
                    template,
                    Map::empty().insert(count_key(), dec_rep(ngettext.n as nat)),
                    base,
                    children,
                )
            } else {
                Option::None
            },
            _ => Option::None,
        },
        Value::PGetText { pgettext, args } => match tr {
            Trace::Call { template, children } => if answers_pgettext(
                pgettext.ctx@,
                pgettext.msgid@,
                template,
            ) {
                outcome_args(args, template, Map::empty(), base, children)
            } else {
                Option::None
            },
            _ => Option::None,
        },
        Value::DGetText { dgettext, args } => match tr {
            Trace::Call { template, children } => if answers_dgettext(
                dgettext.domain@,
                dgettext.msgid@,
                template,
            ) {
                outcome_args(args, template, Map::empty(), base, children)
            } else {
                Option::None
            },
            _ => Option::None,
        },
        Value::DNGetText { dngettext, args } => match tr {
            Trace::Call { template, children } => if answers_dngettext(
                dngettext.domain@,
                dngettext.singular@,
                dngettext.plural@,
                dngettext.n,
                template,
            ) {
                outcome_args(
                    args,
                    template,
                    Map::empty().insert(count_key(), dec_rep(dngettext.n as nat)),
                    base,
                    children,
                )
            } else {
                Option::None
            },
            _ => Option::None,
        },
        Value::NPGetText { npgettext, args } => match tr {
            Trace::Call { template, children } => if answers_npgettext(
                npgettext.ctx@,
                npgettext.singular@,
                npgettext.plural@,
                npgettext.n,
                template,
            ) {
                outcome_args(
                    args,
                    template,
                    Map::empty().insert(count_key(), dec_rep(npgettext.n as nat)),
                    base,
                    children,
                )
            } else {
                Option::None
            },
            _ => Option::None,
        },
        Value::DCNGetText { dcngettext, args } => match tr {
            Trace::Call { template, children } => if answers_dcngettext(
                dcngettext.domain@,
                dcngettext.singular@,
                dcngettext.plural@,
                dcngettext.n,
                dcngettext.category,
                template,
            ) {
                outcome_args(
                    args,
                    template,
                    Map::empty().insert(count_key(), dec_rep(dcngettext.n as nat)),
                    base,
                    children,
                )
            } else {
                Option::None
            },
            _ => Option::None,
        },
    }
}

/// The substitution outcome the traces certify for a template and its
/// optional argument specification. `seed` is the local mapping's
/// initial contents (the implicit count for pluralizing calls).
pub open spec fn outcome_args(
    args: Option<Formatter>,
    template: Seq<char>,
    seed: Map<Seq<char>, Seq<char>>,
    base: Map<Seq<char>, Seq<char>>,
    ts: Seq<Trace>,
) -> Option<Result<Seq<char>, ErrView>>
    decreases args, 2int,
{
    match args {
        Option::None => if ts.len() == 0 {
            Option::Some(lift_fmt(kw_format(template, overlay(seed, base))))
        } else {
            Option::None
        },
        Option::Some(f) => outcome_formatter(f, template, seed, base, ts),
    }
}

/// The substitution outcome the traces certify for a template and a
/// present argument specification.
pub open spec fn outcome_formatter(
    f: Formatter,
    template: Seq<char>,
    seed: Map<Seq<char>, Seq<char>>,
    base: Map<Seq<char>, Seq<char>>,
    ts: Seq<Trace>,
) -> Option<Result<Seq<char>, ErrView>>
    decreases f, 2int,
{
    match f {
        Formatter::KeywordArgs(pairs) => match outcome_pairs_vec(pairs, base, ts) {
            Option::None => Option::None,
            Option::Some(Result::Err(e)) => Option::Some(Result::Err(e)),
            Option::Some(Result::Ok(ws)) => Option::Some(
                lift_fmt(kw_format(template, overlay(inserted(seed, pairs@, ws), base))),
            ),
        },
        Formatter::PositionalArgs(xs) => match outcome_list_vec(xs, base, ts) {
            Option::None => Option::None,
            Option::Some(Result::Err(e)) => Option::Some(Result::Err(e)),
            Option::Some(Result::Ok(ws)) => Option::Some(lift_fmt(pos_format(template, ws))),
        },
    }
}

/// `outcome_list`, taking the vector of values.
pub open spec fn outcome_list_vec(
    xs: Vec<Value>,
    base: Map<Seq<char>, Seq<char>>,
    ts: Seq<Trace>,
) -> Option<Result<Seq<Seq<char>>, ErrView>>
    decreases xs, 2int,
{
    outcome_list(xs@, base, ts)
}

/// The outcome the traces certify for a sequence of values, resolved
/// in order: the resolved strings, or the first failing value's error.
/// A genuine record stops exactly at the failing value.
pub open spec fn outcome_list(
    s: Seq<Value>,
    base: Map<Seq<char>, Seq<char>>,
    ts: Seq<Trace>,
) -> Option<Result<Seq<Seq<char>>, ErrView>>
    decreases s, 2int,
{
    if s.len() == 0 {
        if ts.len() == 0 {
            Option::Some(Result::Ok(Seq::<Seq<char>>::empty()))
        } else {
            Option::None
        }
    } else {
        if ts.len() == 0 {
            Option::None
        } else {
            match outcome(s[0], base, ts[0]) {
                Option::None => Option::None,
                Option::Some(Result::Err(e)) => if ts.len() == 1 {
                    Option::Some(Result::Err(e))
                } else {
                    Option::None
                },
                Option::Some(Result::Ok(x)) => match outcome_list(
                    s.subrange(1, s.len() as int),
                    base,
                    ts.subrange(1, ts.len() as int),
                ) {
                    Option::None => Option::None,
                    Option::Some(Result::Err(e)) => Option::Some(Result::Err(e)),
                    Option::Some(Result::Ok(rest)) => Option::Some(Result::Ok(seq![x] + rest)),
                },
            }
        }
    }
}

/// `outcome_pairs`, taking the vector of pairs.
pub open spec fn outcome_pairs_vec(
    pairs: Vec<(String, Value)>,
    base: Map<Seq<char>, Seq<char>>,
    ts: Seq<Trace>,
) -> Option<Result<Seq<Seq<char>>, ErrView>>
    decreases pairs, 2int,
{
    outcome_pairs(pairs@, base, ts)
}

/// The outcome the traces certify for the values of a sequence of
/// keyword pairs, resolved in order: the resolved strings, or the
/// first failing value's error. A genuine record stops exactly at the
/// failing value.
pub open spec fn outcome_pairs(
    s: Seq<(String, Value)>,
    base: Map<Seq<char>, Seq<char>>,
    ts: Seq<Trace>,
) -> Option<Result<Seq<Seq<char>>, ErrView>>
    decreases s, 2int,
{
    if s.len() == 0 {
        if ts.len() == 0 {
            Option::Some(Result::Ok(Seq::<Seq<char>>::empty()))
        } else {
            Option::None
        }
    } else {
        if ts.len() == 0 {
            Option::None
        } else {
            match outcome_pair(s[0], base, ts[0]) {
                Option::None => Option::None,
                Option::Some(Result::Err(e)) => if ts.len() == 1 {
                    Option::Some(Result::Err(e))
                } else {
                    Option::None
                },
                Option::Some(Result::Ok(x)) => match outcome_pairs(
                    s.subrange(1, s.len() as int),
                    base,
                    ts.subrange(1, ts.len() as int),
                ) {
                    Option::None => Option::None,
                    Option::Some(Result::Err(e)) => Option::Some(Result::Err(e)),
                    Option::Some(Result::Ok(rest)) => Option::Some(Result::Ok(seq![x] + rest)),
                },
            }
        }
    }
}

/// The outcome a trace certifies for one keyword pair's value.
pub open spec fn outcome_pair(
    p: (String, Value),
    base: Map<Seq<char>, Seq<char>>,
    tr: Trace,
) -> Option<Result<Seq<char>, ErrView>>
    decreases p, 2int,
{
    outcome(p.1, base, tr)
}

/// The trace is a genuine record of a run on `v` that produced `r`.
pub open spec fn certifies(
    v: Value,
    base: Map<Seq<char>, Seq<char>>,
    tr: Trace,
    r: Result<Seq<char>, ErrView>,
) -> bool {
    outcome(v, base, tr) == Option::Some(r)
}

/// Resolution of one node may produce `r`, given the base mapping:
/// some genuine record of the services' answers certifies `r`.
pub open spec fn resolves_to(
    v: Value,
    base: Map<Seq<char>, Seq<char>>,
    r: Result<Seq<char>, ErrView>,
) -> bool {
    exists|tr: Trace| #[trigger] certifies(v, base, tr, r)
}

/// The traces are a genuine record of runs on a template's optional
/// arguments that produced `r`.
pub open spec fn args_certify(
    args: Option<Formatter>,
    template: Seq<char>,
    seed: Map<Seq<char>, Seq<char>>,
    base: Map<Seq<char>, Seq<char>>,
    ts: Seq<Trace>,
    r: Result<Seq<char>, ErrView>,
) -> bool {
    outcome_args(args, template, seed, base, ts) == Option::Some(r)
}

/// Substitution of a template against an optional argument
/// specification may produce `r`: some genuine record certifies it.
pub open spec fn format_resolves(
    template: Seq<char>,
    args: Option<Formatter>,
    seed: Map<Seq<char>, Seq<char>>,
    base: Map<Seq<char>, Seq<char>>,
    r: Result<Seq<char>, ErrView>,
) -> bool {
    exists|ts: Seq<Trace>| #[trigger] args_certify(args, template, seed, base, ts, r)
}

/// Values resolved one after the other: the records and the resolved
/// strings concatenate, and a failure in the second part is the
/// whole's failure.
pub proof fn lemma_outcome_list_concat(
    s1: Seq<Value>,
    s2: Seq<Value>,
    base: Map<Seq<char>, Seq<char>>,
    ts1: Seq<Trace>,
    ts2: Seq<Trace>,
    ss1: Seq<Seq<char>>,
)
    requires
        outcome_list(s1, base, ts1) == Option::Some(Result::<Seq<Seq<char>>, ErrView>::Ok(ss1)),
    ensures
        outcome_list(s1 + s2, base, ts1 + ts2) == (match outcome_list(s2, base, ts2) {
            Option::None => Option::<Result<Seq<Seq<char>>, ErrView>>::None,
            Option::Some(Result::Ok(ss2)) => Option::Some(
                Result::<Seq<Seq<char>>, ErrView>::Ok(ss1 + ss2),
            ),
            Option::Some(Result::Err(e)) => Option::Some(
                Result::<Seq<Seq<char>>, ErrView>::Err(e),
            ),
        }),
    decreases s1.len(),
{
    if s1.len() == 0 {
        assert(ts1.len() == 0);
        assert(ss1 =~= Seq::<Seq<char>>::empty());
        assert(s1 + s2 =~= s2);
        assert(ts1 + ts2 =~= ts2);
        match outcome_list(s2, base, ts2) {
            Option::Some(Result::Ok(ss2)) => {
                assert(ss1 + ss2 =~= ss2);
            },
            _ => {},
        }
    } else {
        assert(ts1.len() > 0);
        let o0 = outcome(s1[0], base, ts1[0]);
        match o0 {
            Option::Some(Result::Ok(x)) => {
                let rest = ss1.subrange(1, ss1.len() as int);
                match outcome_list(
                    s1.subrange(1, s1.len() as int),
                    base,
                    ts1.subrange(1, ts1.len() as int),
                ) {
                    Option::Some(Result::Ok(r0)) => {
                        assert(ss1 == seq![x] + r0);
                        assert(ss1.len() == 1 + r0.len());
                        assert(rest =~= r0);
                        assert(ss1[0] == x);
                    },
                    _ => {
                        assert(false);
                    },
                }
                lemma_outcome_list_concat(
                    s1.subrange(1, s1.len() as int),
                    s2,
                    base,
                    ts1.subrange(1, ts1.len() as int),
                    ts2,
                    rest,
                );
                assert((s1 + s2).subrange(1, (s1 + s2).len() as int) =~= s1.subrange(
                    1,
                    s1.len() as int,
                ) + s2);
                assert((ts1 + ts2).subrange(1, (ts1 + ts2).len() as int) =~= ts1.subrange(
                    1,
                    ts1.len() as int,
                ) + ts2);
                assert((s1 + s2)[0] == s1[0]);
                assert((ts1 + ts2)[0] == ts1[0]);
                match outcome_list(s2, base, ts2) {
                    Option::Some(Result::Ok(ss2)) => {
                        assert(seq![x] + (rest + ss2) =~= (seq![x] + rest) + ss2);
                        assert(seq![x] + rest =~= ss1);
                    },
                    _ => {},
                }
            },
            _ => {
                assert(false);
            },
        }
    }
}

/// One value's resolution, as the resolution of a one-element
/// sequence with its one-entry record.
pub proof fn lemma_outcome_list_one(x: Value, base: Map<Seq<char>, Seq<char>>, tr: Trace)
    ensures
        outcome_list(seq![x], base, seq![tr]) == (match outcome(x, base, tr) {
            Option::None => Option::<Result<Seq<Seq<char>>, ErrView>>::None,
            Option::Some(Result::Ok(v)) => Option::Some(
                Result::<Seq<Seq<char>>, ErrView>::Ok(seq![v]),
            ),
            Option::Some(Result::Err(e)) => Option::Some(
                Result::<Seq<Seq<char>>, ErrView>::Err(e),
            ),
        }),
{
    let s = seq![x];
    let ts = seq![tr];
    assert(s[0] == x);
    assert(ts[0] == tr);
    assert(s.subrange(1, s.len() as int) =~= Seq::<Value>::empty());
    assert(ts.subrange(1, ts.len() as int) =~= Seq::<Trace>::empty());
    assert(outcome_list(Seq::<Value>::empty(), base, Seq::<Trace>::empty()) == Option::Some(
        Result::<Seq<Seq<char>>, ErrView>::Ok(Seq::<Seq<char>>::empty()),
    ));
    match outcome(x, base, tr) {
        Option::Some(Result::Ok(v)) => {
            assert(seq![v] + Seq::<Seq<char>>::empty() =~= seq![v]);
        },
        _ => {},
    }
}

/// Keyword pairs' values resolved one after the other: the records and
/// the resolved strings concatenate, and a failure in the second part
/// is the whole's failure.
pub proof fn lemma_outcome_pairs_concat(
    s1: Seq<(String, Value)>,
    s2: Seq<(String, Value)>,
    base: Map<Seq<char>, Seq<char>>,
    ts1: Seq<Trace>,
    ts2: Seq<Trace>,
    ws1: Seq<Seq<char>>,
)
    requires
        outcome_pairs(s1, base, ts1) == Option::Some(Result::<Seq<Seq<char>>, ErrView>::Ok(ws1)),
    ensures
        outcome_pairs(s1 + s2, base, ts1 + ts2) == (match outcome_pairs(s2, base, ts2) {
            Option::None => Option::<Result<Seq<Seq<char>>, ErrView>>::None,
            Option::Some(Result::Ok(ws2)) => Option::Some(
                Result::<Seq<Seq<char>>, ErrView>::Ok(ws1 + ws2),
            ),
            Option::Some(Result::Err(e)) => Option::Some(
                Result::<Seq<Seq<char>>, ErrView>::Err(e),
            ),
        }),
    decreases s1.len(),
{
    if s1.len() == 0 {
        assert(ts1.len() == 0);
        assert(ws1 =~= Seq::<Seq<char>>::empty());
        assert(s1 + s2 =~= s2);
        assert(ts1 + ts2 =~= ts2);
        match outcome_pairs(s2, base, ts2) {
            Option::Some(Result::Ok(ws2)) => {
                assert(ws1 + ws2 =~= ws2);
            },
            _ => {},
        }
    } else {
        assert(ts1.len() > 0);
        let o0 = outcome_pair(s1[0], base, ts1[0]);
        match o0 {
            Option::Some(Result::Ok(x)) => {
                let rest = ws1.subrange(1, ws1.len() as int);
                match outcome_pairs(
                    s1.subrange(1, s1.len() as int),
                    base,
                    ts1.subrange(1, ts1.len() as int),
                ) {
                    Option::Some(Result::Ok(r0)) => {
                        assert(ws1 == seq![x] + r0);
                        assert(ws1.len() == 1 + r0.len());
                        assert(rest =~= r0);
                        assert(ws1[0] == x);
                    },
                    _ => {
                        assert(false);
                    },
                }
                lemma_outcome_pairs_concat(
                    s1.subrange(1, s1.len() as int),
                    s2,
                    base,
                    ts1.subrange(1, ts1.len() as int),
                    ts2,
                    rest,
                );
                assert((s1 + s2).subrange(1, (s1 + s2).len() as int) =~= s1.subrange(
                    1,
                    s1.len() as int,
                ) + s2);
                assert((ts1 + ts2).subrange(1, (ts1 + ts2).len() as int) =~= ts1.subrange(
                    1,
                    ts1.len() as int,
                ) + ts2);
                assert((s1 + s2)[0] == s1[0]);
                assert((ts1 + ts2)[0] == ts1[0]);
                match outcome_pairs(s2, base, ts2) {
                    Option::Some(Result::Ok(ws2)) => {
                        assert(seq![x] + (rest + ws2) =~= (seq![x] + rest) + ws2);
                        assert(seq![x] + rest =~= ws1);
                    },
                    _ => {},
                }
            },
            _ => {
                assert(false);
            },
        }
    }
}

/// One keyword pair's value resolution, as the resolution of a
/// one-element pair sequence with its one-entry record.
pub proof fn lemma_outcome_pairs_one(
    p: (String, Value),
    base: Map<Seq<char>, Seq<char>>,
    tr: Trace,
)
    ensures
        outcome_pairs(seq![p], base, seq![tr]) == (match outcome_pair(p, base, tr) {
            Option::None => Option::<Result<Seq<Seq<char>>, ErrView>>::None,
            Option::Some(Result::Ok(v)) => Option::Some(
                Result::<Seq<Seq<char>>, ErrView>::Ok(seq![v]),
            ),
            Option::Some(Result::Err(e)) => Option::Some(
                Result::<Seq<Seq<char>>, ErrView>::Err(e),
            ),
        }),
{
    let s = seq![p];
    let ts = seq![tr];
    assert(s[0] == p);
    assert(ts[0] == tr);
    assert(s.subrange(1, s.len() as int) =~= Seq::<(String, Value)>::empty());
    assert(ts.subrange(1, ts.len() as int) =~= Seq::<Trace>::empty());
    assert(outcome_pairs(Seq::<(String, Value)>::empty(), base, Seq::<Trace>::empty())
        == Option::Some(Result::<Seq<Seq<char>>, ErrView>::Ok(Seq::<Seq<char>>::empty())));
    match outcome_pair(p, base, tr) {
        Option::Some(Result::Ok(v)) => {
            assert(seq![v] + Seq::<Seq<char>>::empty() =~= seq![v]);
        },
        _ => {},
    }
}

/// Building the local mapping from appended pair and string sequences:
/// the second part's insertions land on the mapping the first part
/// built.
pub proof fn lemma_inserted_concat(
    acc: Map<Seq<char>, Seq<char>>,
    s1: Seq<(String, Value)>,
    s2: Seq<(String, Value)>,
    ws1: Seq<Seq<char>>,
    ws2: Seq<Seq<char>>,
)
    requires
        s1.len() == ws1.len(),
    ensures
        inserted(acc, s1 + s2, ws1 + ws2) == inserted(inserted(acc, s1, ws1), s2, ws2),
    decreases s1.len(),
{
    if s1.len() == 0 {
        assert(s1 + s2 =~= s2);
        assert(ws1 + ws2 =~= ws2);
    } else {
        assert((s1 + s2).subrange(1, (s1 + s2).len() as int) =~= s1.subrange(1, s1.len() as int)
            + s2);
        assert((ws1 + ws2).subrange(1, (ws1 + ws2).len() as int) =~= ws1.subrange(
            1,
            ws1.len() as int,
        ) + ws2);
        assert((s1 + s2)[0] == s1[0]);
        assert((ws1 + ws2)[0] == ws1[0]);
        lemma_inserted_concat(
            acc.insert(s1[0].0@, ws1[0]),
            s1.subrange(1, s1.len() as int),
            s2,
            ws1.subrange(1, ws1.len() as int),
            ws2,
        );
    }
}

/// Building the local mapping from one pair and its resolved string:
/// one insertion.
pub proof fn lemma_inserted_one(
    acc: Map<Seq<char>, Seq<char>>,
    p: (String, Value),
    w: Seq<char>,
)
    ensures
        inserted(acc, seq![p], seq![w]) == acc.insert(p.0@, w),
{
    assert(seq![p][0] == p);
    assert(seq![w][0] == w);
    assert(seq![p].subrange(1, 1) =~= Seq::<(String, Value)>::empty());
    assert(seq![w].subrange(1, 1) =~= Seq::<Seq<char>>::empty());
    assert(inserted(
        acc.insert(p.0@, w),
        Seq::<(String, Value)>::empty(),
        Seq::<Seq<char>>::empty(),
    ) == acc.insert(p.0@, w));
}

/// Joining after appending one string: the separator stands between
/// the old tail and the new string (none where there was no string).
pub proof fn lemma_join_push(ss: Seq<Seq<char>>, x: Seq<char>, sep: Seq<char>)
    ensures
        join_with(ss.push(x), sep) == (if ss.len() == 0 {
            x
        } else {
            join_with(ss, sep) + sep + x
        }),
    decreases ss.len(),
{
    if ss.len() == 0 {
        assert(ss.push(x)[0] == x);
    } else if ss.len() == 1 {
        assert(ss.push(x).subrange(1, 2) =~= seq![x]);
        assert(join_with(seq![x], sep) == x);
    } else {
        assert(ss.push(x).subrange(1, ss.len() as int + 1) =~= ss.subrange(
            1,
            ss.len() as int,
        ).push(x));
        lemma_join_push(ss.subrange(1, ss.len() as int), x, sep);
        assert(ss[0] + sep + (join_with(ss.subrange(1, ss.len() as int), sep) + sep + x) =~= (ss[0]
            + sep + join_with(ss.subrange(1, ss.len() as int), sep)) + sep + x);
    }
}

/// A genuine record in hand shows that the node may resolve to `r`.
pub proof fn lemma_resolves_to_intro(
    v: Value,
    base: Map<Seq<char>, Seq<char>>,
    tr: Trace,
    r: Result<Seq<char>, ErrView>,
)
    requires
        certifies(v, base, tr, r),
    ensures
        resolves_to(v, base, r),
{
}

/// A genuine record in hand shows that the substitution may produce
/// `r`.
pub proof fn lemma_format_resolves_intro(
    args: Option<Formatter>,
    template: Seq<char>,
    seed: Map<Seq<char>, Seq<char>>,
    base: Map<Seq<char>, Seq<char>>,
    ts: Seq<Trace>,
    r: Result<Seq<char>, ErrView>,
)
    requires
        args_certify(args, template, seed, base, ts, r),
    ensures
        format_resolves(template, args, seed, base, r),
{
}

} // verus!
