//! The resolution engine: the recursive walk that turns a message
//! tree and a base argument mapping into one final string.
//!
//! Each function carries, besides its result, a ghost record of the
//! answers the translation oracle and the date/time renderer gave
//! (`Trace`), and proves that the record certifies the result; the
//! public entry points conclude that the tree resolves to the result.

use vstd::prelude::*;
use vstd::string::StringExecFns;

use crate::digits::{dec_rep, i64_to_dec_string, u32_to_dec_string};
use crate::fmt::{no_directives, py_format_kw, py_format_pos, strs_view};
use crate::oracle::answers_gettext;
use crate::resolve::{
    bool_token, certifies, count_key, format_resolves, inserted, join_with, lemma_format_resolves_intro,
    lemma_inserted_concat, lemma_inserted_one, lemma_join_push, lemma_outcome_list_concat,
    lemma_outcome_list_one, lemma_outcome_pairs_concat, lemma_outcome_pairs_one,
    lemma_resolves_to_intro, outcome_args, outcome_formatter, outcome_list, outcome_pair,
    outcome_pairs, resolves_to, unit_token, Trace,
};
use crate::strmap::{overlay_map, StrMap};
use crate::value::{no_nul, wf_args, Formatter, Value, ValueGetText};
use crate::{res_view, Error, ErrView};

verus! {

/// Join all strings after the first, separated by the first.
fn join_rest(parts: &Vec<String>) -> (r: String)
    requires
        parts@.len() >= 1,
    ensures
        r@ == join_with(strs_view(parts@).subrange(1, parts@.len() as int), parts@[0]@),
{
    let mut out = String::new();
    let mut i: usize = 1;
    while i < parts.len()
        invariant
            1 <= i <= parts@.len(),
            out@ == join_with(strs_view(parts@).subrange(1, i as int), parts@[0]@),
        decreases parts@.len() - i,
    {
        if i > 1 {
            out.append(parts[0].as_str());
        }
        out.append(parts[i].as_str());
        proof {
            let ss = strs_view(parts@);
            assert(ss.subrange(1, i as int + 1) =~= ss.subrange(1, i as int).push(
                parts@[i as int]@,
            ));
            lemma_join_push(ss.subrange(1, i as int), parts@[i as int]@, parts@[0]@);
            if i == 1 {
                assert(ss.subrange(1, 1) =~= Seq::<Seq<char>>::empty());
                assert(Seq::<char>::empty() + parts@[1]@ =~= parts@[1]@);
            }
        }
        i = i + 1;
    }
    proof {
        if parts@.len() == 1 {
            assert(strs_view(parts@).subrange(1, 1) =~= Seq::<Seq<char>>::empty());
        }
    }
    out
}

/// Resolve every value of a sequence, in order, stopping at the first
/// failure.
fn resolve_list(xs: &Vec<Value>, base_map: &StrMap) -> (r: (
    Result<Vec<String>, Error>,
    Ghost<Seq<Trace>>,
))
    requires
        forall|j: int| 0 <= j < xs@.len() ==> (#[trigger] xs@[j]).wf(),
    ensures
        (match r.0 {
            Result::Ok(parts) => outcome_list(xs@, base_map@, r.1@) == Option::Some(
                Result::<Seq<Seq<char>>, ErrView>::Ok(strs_view(parts@)),
            ) && parts@.len() == xs@.len(),
            Result::Err(e) => outcome_list(xs@, base_map@, r.1@) == Option::Some(
                Result::<Seq<Seq<char>>, ErrView>::Err(e@),
            ),
        }),
    decreases *xs, 1int,
{
    let mut parts: Vec<String> = Vec::new();
    let ghost mut ts: Seq<Trace> = Seq::empty();
    let mut i: usize = 0;
    proof {
        assert(xs@.subrange(0, 0) =~= Seq::<Value>::empty());
        assert(strs_view(parts@) =~= Seq::<Seq<char>>::empty());
    }
    while i < xs.len()
        invariant
            i <= xs@.len(),
            forall|j: int| 0 <= j < xs@.len() ==> (#[trigger] xs@[j]).wf(),
            parts@.len() == i as int,
            ts.len() == i as int,
            outcome_list(xs@.subrange(0, i as int), base_map@, ts) == Option::Some(
                Result::<Seq<Seq<char>>, ErrView>::Ok(strs_view(parts@)),
            ),
        decreases xs@.len() - i,
    {
        let (res, tr) = resolve_value(&xs[i], base_map);
        match res {
            Result::Ok(s) => {
                let ghost sv = s@;
                let ghost old_parts = strs_view(parts@);
                proof {
                    lemma_outcome_list_one(xs@[i as int], base_map@, tr@);
                    lemma_outcome_list_concat(
                        xs@.subrange(0, i as int),
                        seq![xs@[i as int]],
                        base_map@,
                        ts,
                        seq![tr@],
                        old_parts,
                    );
                    assert(xs@.subrange(0, i as int) + seq![xs@[i as int]] =~= xs@.subrange(
                        0,
                        i as int + 1,
                    ));
                    assert(ts + seq![tr@] =~= ts.push(tr@));
                    assert(old_parts + seq![sv] =~= old_parts.push(sv));
                }
                parts.push(s);
                proof {
                    assert(strs_view(parts@) =~= old_parts.push(sv));
                    ts = ts.push(tr@);
                }
            },
            Result::Err(e) => {
                proof {
                    assert(xs@.subrange(i as int, xs@.len() as int)[0] == xs@[i as int]);
                    assert(seq![tr@][0] == tr@);
                    assert(outcome_list(
                        xs@.subrange(i as int, xs@.len() as int),
                        base_map@,
                        seq![tr@],
                    ) == Option::Some(Result::<Seq<Seq<char>>, ErrView>::Err(e@)));
                    lemma_outcome_list_concat(
                        xs@.subrange(0, i as int),
                        xs@.subrange(i as int, xs@.len() as int),
                        base_map@,
                        ts,
                        seq![tr@],
                        strs_view(parts@),
                    );
                    assert(xs@.subrange(0, i as int) + xs@.subrange(i as int, xs@.len() as int)
                        =~= xs@);
                    assert(ts + seq![tr@] =~= ts.push(tr@));
                    ts = ts.push(tr@);
                }
                return (Result::Err(e), Ghost(ts));
            },
        }
        i = i + 1;
    }
    proof {
        assert(xs@.subrange(0, xs@.len() as int) =~= xs@);
    }
    (Result::Ok(parts), Ghost(ts))
}

/// Resolve one keyword pair's value.
fn resolve_pair(p: &(String, Value), base_map: &StrMap) -> (r: (
    Result<String, Error>,
    Ghost<Trace>,
))
    requires
        p.1.wf(),
    ensures
        outcome_pair(*p, base_map@, r.1@) == Option::Some(res_view(r.0)),
    decreases *p, 1int,
{
    let (res, tr) = resolve_value(&p.1, base_map);
    (res, tr)
}

/// Resolve every keyword pair's value, in order, inserting each under
/// its key into the local mapping, stopping at the first failure.
fn resolve_pairs(pairs: &Vec<(String, Value)>, base_map: &StrMap, map: StrMap) -> (r: (
    Result<StrMap, Error>,
    Ghost<Seq<Trace>>,
    Ghost<Seq<Seq<char>>>,
))
    requires
        forall|j: int| 0 <= j < pairs@.len() ==> (#[trigger] pairs@[j]).1.wf(),
    ensures
        (match r.0 {
            Result::Ok(m) => outcome_pairs(pairs@, base_map@, r.1@) == Option::Some(
                Result::<Seq<Seq<char>>, ErrView>::Ok(r.2@),
            ) && m@ == inserted(map@, pairs@, r.2@),
            Result::Err(e) => outcome_pairs(pairs@, base_map@, r.1@) == Option::Some(
                Result::<Seq<Seq<char>>, ErrView>::Err(e@),
            ),
        }),
    decreases *pairs, 1int,
{
    let ghost map0 = map@;
    let mut m = map;
    let ghost mut ts: Seq<Trace> = Seq::empty();
    let ghost mut ws: Seq<Seq<char>> = Seq::empty();
    let mut i: usize = 0;
    proof {
        assert(pairs@.subrange(0, 0) =~= Seq::<(String, Value)>::empty());
    }
    while i < pairs.len()
        invariant
            i <= pairs@.len(),
            forall|j: int| 0 <= j < pairs@.len() ==> (#[trigger] pairs@[j]).1.wf(),
            ts.len() == i as int,
            ws.len() == i as int,
            outcome_pairs(pairs@.subrange(0, i as int), base_map@, ts) == Option::Some(
                Result::<Seq<Seq<char>>, ErrView>::Ok(ws),
            ),
            m@ == inserted(map0, pairs@.subrange(0, i as int), ws),
        decreases pairs@.len() - i,
    {
        let p = &pairs[i];
        let (res, tr) = resolve_pair(p, base_map);
        match res {
            Result::Ok(s) => {
                let ghost sv = s@;
                proof {
                    lemma_outcome_pairs_one(pairs@[i as int], base_map@, tr@);
                    lemma_outcome_pairs_concat(
                        pairs@.subrange(0, i as int),
                        seq![pairs@[i as int]],
                        base_map@,
                        ts,
                        seq![tr@],
                        ws,
                    );
                    assert(pairs@.subrange(0, i as int) + seq![pairs@[i as int]]
                        =~= pairs@.subrange(0, i as int + 1));
                    assert(ts + seq![tr@] =~= ts.push(tr@));
                    assert(ws + seq![sv] =~= ws.push(sv));
                    lemma_inserted_concat(
                        map0,
                        pairs@.subrange(0, i as int),
                        seq![pairs@[i as int]],
                        ws,
                        seq![sv],
                    );
                    lemma_inserted_one(
                        inserted(map0, pairs@.subrange(0, i as int), ws),
                        pairs@[i as int],
                        sv,
                    );
                }
                m.insert(p.0.clone(), s);
                proof {
                    ts = ts.push(tr@);
                    ws = ws.push(sv);
                }
            },
            Result::Err(e) => {
                proof {
                    assert(pairs@.subrange(i as int, pairs@.len() as int)[0]
                        == pairs@[i as int]);
                    assert(seq![tr@][0] == tr@);
                    assert(outcome_pairs(
                        pairs@.subrange(i as int, pairs@.len() as int),
                        base_map@,
                        seq![tr@],
                    ) == Option::Some(Result::<Seq<Seq<char>>, ErrView>::Err(e@)));
                    lemma_outcome_pairs_concat(
                        pairs@.subrange(0, i as int),
                        pairs@.subrange(i as int, pairs@.len() as int),
                        base_map@,
                        ts,
                        seq![tr@],
                        ws,
                    );
                    assert(pairs@.subrange(0, i as int) + pairs@.subrange(
                        i as int,
                        pairs@.len() as int,
                    ) =~= pairs@);
                    assert(ts + seq![tr@] =~= ts.push(tr@));
                    ts = ts.push(tr@);
                }
                return (Result::Err(e), Ghost(ts), Ghost(ws));
            },
        }
        i = i + 1;
    }
    proof {
        assert(pairs@.subrange(0, pairs@.len() as int) =~= pairs@);
    }
    (Result::Ok(m), Ghost(ts), Ghost(ws))
}

/// Substitute a template against a present argument specification.
fn apply_formatter(template: &str, f: &Formatter, map: StrMap, base_map: &StrMap) -> (r: (
    Result<String, Error>,
    Ghost<Seq<Trace>>,
))
    requires
        wf_args(Option::Some(*f)),
    ensures
        outcome_formatter(*f, template@, map@, base_map@, r.1@) == Option::Some(res_view(r.0)),
    decreases *f, 1int,
{
    let ghost seed = map@;
    match f {
        Formatter::KeywordArgs(pairs) => {
            let (res, ts, ws) = resolve_pairs(pairs, base_map, map);
            match res {
                Result::Ok(m) => {
                    let merged = overlay_map(&m, base_map);
                    match py_format_kw(template, &merged) {
                        Result::Ok(s) => (Result::Ok(s), ts),
                        Result::Err(d) => (Result::Err(Error::FormatError(d)), ts),
                    }
                },
                Result::Err(e) => (Result::Err(e), ts),
            }
        },
        Formatter::PositionalArgs(xs) => {
            let (res, ts) = resolve_list(xs, base_map);
            match res {
                Result::Ok(parts) => {
                    match py_format_pos(template, &parts) {
                        Result::Ok(s) => (Result::Ok(s), ts),
                        Result::Err(d) => (Result::Err(Error::FormatError(d)), ts),
                    }
                },
                Result::Err(e) => (Result::Err(e), ts),
            }
        },
    }
}

/// Substitute a template against an optional argument specification:
/// with none, the base mapping (under the seeded local mapping) is
/// still consulted.
fn apply_format(template: &str, formatter: &Option<Formatter>, map: StrMap, base_map: &StrMap) -> (r:
    (Result<String, Error>, Ghost<Seq<Trace>>))
    requires
        wf_args(*formatter),
    ensures
        outcome_args(*formatter, template@, map@, base_map@, r.1@) == Option::Some(res_view(r.0)),
        ((*formatter is None) && no_directives(template@)) ==> (match r.0 {
            Result::Ok(s) => s@ == template@,
            Result::Err(_) => false,
        }),
    decreases *formatter, 2int,
{
    match formatter {
        Option::None => {
            let merged = overlay_map(&map, base_map);
            match py_format_kw(template, &merged) {
                Result::Ok(s) => (Result::Ok(s), Ghost(Seq::empty())),
                Result::Err(d) => (Result::Err(Error::FormatError(d)), Ghost(Seq::empty())),
            }
        },
        Option::Some(f) => apply_formatter(template, f, map, base_map),
    }
}

/// Resolve one node, handing back the result and the ghost record of
/// the services' answers that certifies it.
fn resolve_value(v: &Value, base_map: &StrMap) -> (r: (Result<String, Error>, Ghost<Trace>))
    requires
        v.wf(),
    ensures
        certifies(*v, base_map@, r.1@, res_view(r.0)),
        (match *v {
            Value::FormattedText { text, args } => (args is None && no_directives(text@)) ==> (
            match r.0 {
                Result::Ok(s) => s@ == text@,
                Result::Err(_) => false,
            }),
            _ => true,
        }),
    decreases *v, 2int,
{
    match v {
        Value::Text(x) => (Result::Ok(x.clone()), Ghost(Trace::Atom)),
        Value::Integer(x) => (Result::Ok(i64_to_dec_string(*x)), Ghost(Trace::Atom)),
        Value::Float(x) => (Result::Ok(x.clone()), Ghost(Trace::Atom)),
        Value::Bool(b) => {
            let token: &str = if *b {
                "yes"
            } else {
                "no"
            };
            proof {
                reveal_strlit("yes");
                reveal_strlit("no");
                assert(no_nul("yes"@));
                assert(no_nul("no"@));
                assert(token@ == bool_token(*b));
            }
            let g = ValueGetText(token.to_owned());
            let s = g.to_string();
            let ghost tr = Trace::Token(s@);
            proof {
                assert(answers_gettext(bool_token(*b), s@));
            }
            (Result::Ok(s), Ghost(tr))
        },
        Value::Unit => {
            proof {
                reveal_strlit("n/a");
                assert(no_nul("n/a"@));
            }
            let g = ValueGetText("n/a".to_owned());
            let s = g.to_string();
            proof {
                assert(g.0@ == unit_token());
            }
            (Result::Ok(s), Ghost(Trace::Token(s@)))
        },
        Value::Datetime(d) => {
            let s = d.to_string();
            (Result::Ok(s), Ghost(Trace::Token(s@)))
        },
        Value::Array(xs) => {
            if xs.len() == 0 {
                (
                    Result::Err(Error::MissingJoinSeparator),
                    Ghost(Trace::List(Seq::empty())),
                )
            } else {
                let (res, ts) = resolve_list(xs, base_map);
                match res {
                    Result::Ok(parts) => {
                        let joined = join_rest(&parts);
                        proof {
                            let ss = strs_view(parts@);
                            assert(ss.len() == parts@.len());
                            assert(ss[0] == parts@[0]@);
                        }
                        (Result::Ok(joined), Ghost(Trace::List(ts@)))
                    },
                    Result::Err(e) => (Result::Err(e), Ghost(Trace::List(ts@))),
                }
            }
        },
        Value::FormattedText { text, args } => {
            let (res, ts) = apply_format(text.as_str(), args, StrMap::new(), base_map);
            (res, Ghost(Trace::List(ts@)))
        },
        Value::GetText { gettext, args } => {
            let template = gettext.to_string();
            let (res, ts) = apply_format(template.as_str(), args, StrMap::new(), base_map);
            (res, Ghost(Trace::Call { template: template@, children: ts@ }))
        },
        Value::NGetText { ngettext, args } => {
            let mut map = StrMap::new();
            map.insert("n".to_owned(), u32_to_dec_string(ngettext.n));
            proof {
                assert(map@ =~= Map::<Seq<char>, Seq<char>>::empty().insert(
                    count_key(),
                    dec_rep(ngettext.n as nat),
                ));
            }
            let template = ngettext.to_string();
            let (res, ts) = apply_format(template.as_str(), args, map, base_map);
            (res, Ghost(Trace::Call { template: template@, children: ts@ }))
        },
        Value::PGetText { pgettext, args } => {
            let template = pgettext.to_string();
            let (res, ts) = apply_format(template.as_str(), args, StrMap::new(), base_map);
            (res, Ghost(Trace::Call { template: template@, children: ts@ }))
        },
        Value::DGetText { dgettext, args } => {
            let template = dgettext.to_string();
            let (res, ts) = apply_format(template.as_str(), args, StrMap::new(), base_map);
            (res, Ghost(Trace::Call { template: template@, children: ts@ }))
        },
        Value::DNGetText { dngettext, args } => {
            let mut map = StrMap::new();
            map.insert("n".to_owned(), u32_to_dec_string(dngettext.n));
            proof {
                assert(map@ =~= Map::<Seq<char>, Seq<char>>::empty().insert(
                    count_key(),
                    dec_rep(dngettext.n as nat),
                ));
            }
            let template = dngettext.to_string();
            let (res, ts) = apply_format(template.as_str(), args, map, base_map);
            (res, Ghost(Trace::Call { template: template@, children: ts@ }))
        },
        Value::NPGetText { npgettext, args } => {
            let mut map = StrMap::new();
            map.insert("n".to_owned(), u32_to_dec_string(npgettext.n));
            proof {
                assert(map@ =~= Map::<Seq<char>, Seq<char>>::empty().insert(
                    count_key(),
                    dec_rep(npgettext.n as nat),
                ));
            }
            let template = npgettext.to_string();
            let (res, ts) = apply_format(template.as_str(), args, map, base_map);
            (res, Ghost(Trace::Call { template: template@, children: ts@ }))
        },
        Value::DCNGetText { dcngettext, args } => {
            let mut map = StrMap::new();
            map.insert("n".to_owned(), u32_to_dec_string(dcngettext.n));
            proof {
                assert(map@ =~= Map::<Seq<char>, Seq<char>>::empty().insert(
                    count_key(),
                    dec_rep(dcngettext.n as nat),
                ));
            }
            let template = dcngettext.to_string();
            let (res, ts) = apply_format(template.as_str(), args, map, base_map);
            (res, Ghost(Trace::Call { template: template@, children: ts@ }))
        },
    }
}

impl Value {
    /// Resolve this node against the base argument mapping: the final
    /// string, or the first error met. A template with no `%` and no
    /// arguments comes back unchanged.
    pub fn try_into_string(&self, base_map: &StrMap) -> (r: Result<String, Error>)
        requires
            self.wf(),
        ensures
            resolves_to(*self, base_map@, res_view(r)),
            (match *self {
                Value::FormattedText { text, args } => (args is None && no_directives(text@))
                    ==> (match r {
                    Result::Ok(s) => s@ == text@,
                    Result::Err(_) => false,
                }),
                _ => true,
            }),
    {
        let (res, tr) = resolve_value(self, base_map);
        proof {
            lemma_resolves_to_intro(*self, base_map@, tr@, res_view(res));
        }
        res
    }

    /// Substitute a template against an optional argument
    /// specification, the local mapping `map` seeded and the base
    /// mapping as fallback. A template with no `%` and no arguments
    /// comes back unchanged.
    pub fn format(message: &str, formatter: &Option<Formatter>, map: StrMap, base_map: &StrMap) -> (r:
        Result<String, Error>)
        requires
            wf_args(*formatter),
        ensures
            format_resolves(message@, *formatter, map@, base_map@, res_view(r)),
            ((*formatter is None) && no_directives(message@)) ==> (match r {
                Result::Ok(s) => s@ == message@,
                Result::Err(_) => false,
            }),
    {
        let ghost seed = map@;
        let (res, ts) = apply_format(message, formatter, map, base_map);
        proof {
            lemma_format_resolves_intro(*formatter, message@, seed, base_map@, ts@, res_view(res));
        }
        res
    }
}

} // verus!
