//! General properties of the resolution engine, stated over the
//! public model and proved once for all inputs.

use vstd::prelude::*;

use crate::digits::dec_rep;
use crate::fmt::kw_format;
use crate::oracle::{answers_gettext, answers_ngettext};
use crate::resolve::{
    bool_token, certifies, count_key, inserted, join_with, lemma_resolves_to_intro, lift_fmt, outcome,
    outcome_args, outcome_list, resolves_to, unit_token, Trace,
};
use crate::strmap::overlay;
use crate::value::{Value, ValueNGetText};
use crate::ErrView;

verus! {

/// A sequence of independently resolvable values can be resolved
/// jointly: some one record certifies all the resolved strings at
/// once.
proof fn lemma_list_resolution(
    s: Seq<Value>,
    base: Map<Seq<char>, Seq<char>>,
    ss: Seq<Seq<char>>,
) -> (ts: Seq<Trace>)
    requires
        ss.len() == s.len(),
        forall|i: int|
            0 <= i < s.len() ==> #[trigger] resolves_to(s[i], base, Result::Ok(ss[i])),
    ensures
        outcome_list(s, base, ts) == Option::Some(Result::<Seq<Seq<char>>, ErrView>::Ok(ss)),
    decreases s.len(),
{
    if s.len() == 0 {
        let ts = Seq::<Trace>::empty();
        assert(ss =~= Seq::<Seq<char>>::empty());
        ts
    } else {
        assert(resolves_to(s[0], base, Result::Ok(ss[0])));
        let tr0 = choose|tr: Trace| #[trigger] certifies(s[0], base, tr, Result::Ok(ss[0]));
        assert(forall|i: int|
            0 <= i < s.subrange(1, s.len() as int).len() ==> #[trigger] resolves_to(
                s.subrange(1, s.len() as int)[i],
                base,
                Result::Ok(ss.subrange(1, ss.len() as int)[i]),
            ));
        let rest = lemma_list_resolution(
            s.subrange(1, s.len() as int),
            base,
            ss.subrange(1, ss.len() as int),
        );
        let ts = seq![tr0] + rest;
        assert(ts[0] == tr0);
        assert(ts.subrange(1, ts.len() as int) =~= rest);
        assert(s[0] == s[0]);
        assert(seq![ss[0]] + ss.subrange(1, ss.len() as int) =~= ss);
        ts
    }
}

/// Join law for arrays: where the first element (the separator) and
/// every remaining element may each resolve to a string, the array may
/// resolve to the remaining strings joined by the separator — the
/// second string, then the separator, then the third string, and so on.
pub proof fn lemma_array_concatenation(
    xs: Vec<Value>,
    base: Map<Seq<char>, Seq<char>>,
    ss: Seq<Seq<char>>,
)
    requires
        xs@.len() > 0,
        ss.len() == xs@.len(),
        forall|i: int|
            0 <= i < xs@.len() ==> #[trigger] resolves_to(xs@[i], base, Result::Ok(ss[i])),
    ensures
        resolves_to(
            Value::Array(xs),
            base,
            Result::Ok(join_with(ss.subrange(1, ss.len() as int), ss[0])),
        ),
{
    let ts = lemma_list_resolution(xs@, base, ss);
    let tr = Trace::List(ts);
    assert(certifies(
        Value::Array(xs),
        base,
        tr,
        Result::Ok(join_with(ss.subrange(1, ss.len() as int), ss[0])),
    ));
    lemma_resolves_to_intro(
        Value::Array(xs),
        base,
        tr,
        Result::Ok(join_with(ss.subrange(1, ss.len() as int), ss[0])),
    );
}

/// Pointwise reading of a joint record: every element resolves to its
/// string.
proof fn lemma_list_resolution_elements(
    s: Seq<Value>,
    base: Map<Seq<char>, Seq<char>>,
    ts: Seq<Trace>,
    ss: Seq<Seq<char>>,
)
    requires
        outcome_list(s, base, ts) == Option::Some(Result::<Seq<Seq<char>>, ErrView>::Ok(ss)),
    ensures
        ss.len() == s.len(),
        forall|i: int|
            0 <= i < s.len() ==> #[trigger] resolves_to(s[i], base, Result::Ok(ss[i])),
    decreases s.len(),
{
    if s.len() == 0 {
        assert(ss =~= Seq::<Seq<char>>::empty());
    } else {
        assert(ts.len() > 0);
        match outcome(s[0], base, ts[0]) {
            Option::Some(Result::Ok(x)) => {
                match outcome_list(
                    s.subrange(1, s.len() as int),
                    base,
                    ts.subrange(1, ts.len() as int),
                ) {
                    Option::Some(Result::Ok(rest)) => {
                        assert(ss == seq![x] + rest);
                        assert(ss[0] == x);
                        assert(ss.subrange(1, ss.len() as int) =~= rest);
                        assert(certifies(s[0], base, ts[0], Result::Ok(ss[0])));
                        lemma_resolves_to_intro(s[0], base, ts[0], Result::Ok(ss[0]));
                        lemma_list_resolution_elements(
                            s.subrange(1, s.len() as int),
                            base,
                            ts.subrange(1, ts.len() as int),
                            rest,
                        );
                        assert forall|i: int| 0 <= i < s.len() implies #[trigger] resolves_to(
                            s[i],
                            base,
                            Result::Ok(ss[i]),
                        ) by {
                            if i > 0 {
                                assert(s.subrange(1, s.len() as int)[i - 1] == s[i]);
                                assert(rest[i - 1] == ss[i]);
                            }
                        }
                    },
                    _ => {
                        assert(false);
                    },
                }
            },
            _ => {
                assert(false);
            },
        }
    }
}

/// Join law for arrays, read back: every successful resolution of a
/// non-empty array is the join, by the first element's string, of the
/// remaining elements' strings, each element resolving to its string.
pub proof fn lemma_array_decomposition(
    xs: Vec<Value>,
    base: Map<Seq<char>, Seq<char>>,
    r: Seq<char>,
)
    requires
        xs@.len() > 0,
        resolves_to(Value::Array(xs), base, Result::Ok(r)),
    ensures
        exists|ss: Seq<Seq<char>>|
            #[trigger] join_with(ss.subrange(1, ss.len() as int), ss[0]) == r && ss.len()
                == xs@.len() && (forall|i: int|
                0 <= i < xs@.len() ==> #[trigger] resolves_to(xs@[i], base, Result::Ok(ss[i]))),
{
    let tr = choose|tr: Trace| #[trigger] certifies(Value::Array(xs), base, tr, Result::Ok(r));
    assert(outcome(Value::Array(xs), base, tr) == Option::Some(
        Result::<Seq<char>, ErrView>::Ok(r),
    ));
    match tr {
        Trace::List(ts) => {
            match outcome_list(xs@, base, ts) {
                Option::Some(Result::Ok(ss)) => {
                    lemma_list_resolution_elements(xs@, base, ts, ss);
                    assert(join_with(ss.subrange(1, ss.len() as int), ss[0]) == r);
                },
                _ => {
                    assert(false);
                },
            }
        },
        _ => {
            assert(false);
        },
    }
}

/// Empty-array law: an array with no elements always fails with the
/// missing-separator error — that error is a possible resolution, and
/// no other outcome is.
pub proof fn lemma_array_empty(
    xs: Vec<Value>,
    base: Map<Seq<char>, Seq<char>>,
    r: Result<Seq<char>, ErrView>,
)
    requires
        xs@.len() == 0,
    ensures
        resolves_to(Value::Array(xs), base, Result::Err(ErrView::MissingJoinSeparator)),
        resolves_to(Value::Array(xs), base, r) ==> r == Result::<Seq<char>, ErrView>::Err(
            ErrView::MissingJoinSeparator,
        ),
{
    let tr = Trace::List(Seq::<Trace>::empty());
    assert(certifies(
        Value::Array(xs),
        base,
        tr,
        Result::Err(ErrView::MissingJoinSeparator),
    ));
    lemma_resolves_to_intro(
        Value::Array(xs),
        base,
        tr,
        Result::Err(ErrView::MissingJoinSeparator),
    );
    if resolves_to(Value::Array(xs), base, r) {
        let witness = choose|tr2: Trace| #[trigger] certifies(Value::Array(xs), base, tr2, r);
        assert(outcome(Value::Array(xs), base, witness) == Option::Some(r));
    }
}

/// Count-injection law: a pluralizing call with no explicit arguments
/// still substitutes against a keyword lookup that binds the count
/// key to the count's decimal numeral (the base mapping cannot
/// override it).
pub proof fn lemma_plural_count_injected(
    g: ValueNGetText,
    base: Map<Seq<char>, Seq<char>>,
    r: Result<Seq<char>, ErrView>,
)
    requires
        resolves_to(Value::NGetText { ngettext: g, args: Option::None }, base, r),
    ensures
        exists|t: Seq<char>|
            #[trigger] answers_ngettext(g.singular@, g.plural@, g.n, t) && r == lift_fmt(
                kw_format(
                    t,
                    overlay(
                        Map::<Seq<char>, Seq<char>>::empty().insert(
                            count_key(),
                            dec_rep(g.n as nat),
                        ),
                        base,
                    ),
                ),
            ),
        overlay(
            Map::<Seq<char>, Seq<char>>::empty().insert(count_key(), dec_rep(g.n as nat)),
            base,
        ).contains_key(count_key()),
        overlay(
            Map::<Seq<char>, Seq<char>>::empty().insert(count_key(), dec_rep(g.n as nat)),
            base,
        )[count_key()] == dec_rep(g.n as nat),
{
    let v = Value::NGetText { ngettext: g, args: Option::None };
    let tr = choose|tr: Trace| #[trigger] certifies(v, base, tr, r);
    assert(outcome(v, base, tr) == Option::Some(r));
    match tr {
        Trace::Call { template, children } => {
            assert(answers_ngettext(g.singular@, g.plural@, g.n, template));
            assert(children.len() == 0);
            assert(r == lift_fmt(
                kw_format(
                    template,
                    overlay(
                        Map::<Seq<char>, Seq<char>>::empty().insert(
                            count_key(),
                            dec_rep(g.n as nat),
                        ),
                        base,
                    ),
                ),
            ));
        },
        _ => {
            assert(false);
        },
    }
}

/// Token law for booleans: every resolution of a boolean is an oracle
/// answer for the "yes" or "no" token — never a raw literal of the
/// language — and every such answer is a possible resolution.
pub proof fn lemma_bool_renders_token(
    b: bool,
    base: Map<Seq<char>, Seq<char>>,
    r: Result<Seq<char>, ErrView>,
    t: Seq<char>,
)
    requires
        resolves_to(Value::Bool(b), base, r),
        answers_gettext(bool_token(b), t),
    ensures
        exists|u: Seq<char>|
            #[trigger] answers_gettext(bool_token(b), u) && r == Result::<Seq<char>, ErrView>::Ok(
                u,
            ),
        resolves_to(Value::Bool(b), base, Result::Ok(t)),
{
    let tr = choose|tr: Trace| #[trigger] certifies(Value::Bool(b), base, tr, r);
    assert(outcome(Value::Bool(b), base, tr) == Option::Some(r));
    match tr {
        Trace::Token(u) => {
            assert(answers_gettext(bool_token(b), u) && r == Result::<Seq<char>, ErrView>::Ok(u));
        },
        _ => {
            assert(false);
        },
    }
    assert(certifies(Value::Bool(b), base, Trace::Token(t), Result::Ok(t)));
    lemma_resolves_to_intro(Value::Bool(b), base, Trace::Token(t), Result::Ok(t));
}

/// Token law for the absent value: every resolution of `Unit` is an
/// oracle answer for the "n/a" token, and every such answer is a
/// possible resolution.
pub proof fn lemma_unit_renders_token(
    base: Map<Seq<char>, Seq<char>>,
    r: Result<Seq<char>, ErrView>,
    t: Seq<char>,
)
    requires
        resolves_to(Value::Unit, base, r),
        answers_gettext(unit_token(), t),
    ensures
        exists|u: Seq<char>|
            #[trigger] answers_gettext(unit_token(), u) && r == Result::<Seq<char>, ErrView>::Ok(
                u,
            ),
        resolves_to(Value::Unit, base, Result::Ok(t)),
{
    let tr = choose|tr: Trace| #[trigger] certifies(Value::Unit, base, tr, r);
    assert(outcome(Value::Unit, base, tr) == Option::Some(r));
    match tr {
        Trace::Token(u) => {
            assert(answers_gettext(unit_token(), u) && r == Result::<Seq<char>, ErrView>::Ok(u));
        },
        _ => {
            assert(false);
        },
    }
    assert(certifies(Value::Unit, base, Trace::Token(t), Result::Ok(t)));
    lemma_resolves_to_intro(Value::Unit, base, Trace::Token(t), Result::Ok(t));
}

/// A key bound by no pair keeps its standing in the built local
/// mapping.
proof fn lemma_inserted_preserves(
    acc: Map<Seq<char>, Seq<char>>,
    s: Seq<(String, Value)>,
    ws: Seq<Seq<char>>,
    k: Seq<char>,
)
    requires
        forall|j: int| 0 <= j < s.len() ==> (#[trigger] s[j]).0@ != k,
    ensures
        inserted(acc, s, ws).contains_key(k) == acc.contains_key(k),
        acc.contains_key(k) ==> inserted(acc, s, ws)[k] == acc[k],
    decreases s.len(),
{
    if s.len() == 0 || ws.len() == 0 {
    } else {
        assert(forall|j: int|
            0 <= j < s.subrange(1, s.len() as int).len() ==> (#[trigger] s.subrange(
                1,
                s.len() as int,
            )[j]).0@ != k);
        lemma_inserted_preserves(
            acc.insert(s[0].0@, ws[0]),
            s.subrange(1, s.len() as int),
            ws.subrange(1, ws.len() as int),
            k,
        );
    }
}

/// The latest pair binding a key decides that key in the built local
/// mapping.
proof fn lemma_inserted_binds(
    acc: Map<Seq<char>, Seq<char>>,
    s: Seq<(String, Value)>,
    ws: Seq<Seq<char>>,
    i: int,
)
    requires
        s.len() == ws.len(),
        0 <= i < s.len(),
        forall|j: int| i < j < s.len() ==> (#[trigger] s[j]).0@ != s[i].0@,
    ensures
        inserted(acc, s, ws).contains_key(s[i].0@),
        inserted(acc, s, ws)[s[i].0@] == ws[i],
    decreases s.len(),
{
    if i == 0 {
        assert(forall|j: int|
            0 <= j < s.subrange(1, s.len() as int).len() ==> (#[trigger] s.subrange(
                1,
                s.len() as int,
            )[j]).0@ != s[0].0@);
        lemma_inserted_preserves(
            acc.insert(s[0].0@, ws[0]),
            s.subrange(1, s.len() as int),
            ws.subrange(1, ws.len() as int),
            s[0].0@,
        );
    } else {
        assert(s.subrange(1, s.len() as int)[i - 1] == s[i]);
        assert(ws.subrange(1, ws.len() as int)[i - 1] == ws[i]);
        assert(forall|j: int|
            i - 1 < j < s.subrange(1, s.len() as int).len() ==> (#[trigger] s.subrange(
                1,
                s.len() as int,
            )[j]).0@ != s.subrange(1, s.len() as int)[i - 1].0@);
        lemma_inserted_binds(
            acc.insert(s[0].0@, ws[0]),
            s.subrange(1, s.len() as int),
            ws.subrange(1, ws.len() as int),
            i - 1,
        );
    }
}

/// Overlay precedence at the substitution step: the lookup surface a
/// keyword-arguments node hands to the placeholder formatter is the
/// overlay of the node-local mapping over the base mapping; the latest
/// node-local binding of a key decides that key, whatever the base
/// mapping says of it.
pub proof fn lemma_keyword_binding_wins(
    s: Seq<(String, Value)>,
    ws: Seq<Seq<char>>,
    base: Map<Seq<char>, Seq<char>>,
    i: int,
)
    requires
        s.len() == ws.len(),
        0 <= i < s.len(),
        forall|j: int| i < j < s.len() ==> (#[trigger] s[j]).0@ != s[i].0@,
    ensures
        overlay(inserted(Map::empty(), s, ws), base).contains_key(s[i].0@),
        overlay(inserted(Map::empty(), s, ws), base)[s[i].0@] == ws[i],
{
    lemma_inserted_binds(Map::empty(), s, ws, i);
    crate::strmap::lemma_overlay_local_wins(inserted(Map::empty(), s, ws), base, s[i].0@);
}

} // verus!
