//! Edge cases, error variants and exact values beyond the basic
//! scenarios.

use serde_gettext::digits::{i64_to_dec_string, u32_to_dec_string, u64_to_dec_string};
use serde_gettext::strmap::StrMap;
use serde_gettext::value::{DatetimeValue, Formatter, Value, ValueGetText, ValueNGetText};
use serde_gettext::{Error, SerdeGetText};

fn text(s: &str) -> Value {
    Value::Text(s.to_string())
}

fn resolve(value: Value) -> Result<String, Error> {
    SerdeGetText::new(value).try_into_string()
}

#[test]
fn scalars_joined_by_separator() {
    let v = Value::Array(vec![
        text(", "),
        Value::Bool(true),
        Value::Float(format!("{}", 3.14_f64)),
        Value::Unit,
    ]);
    assert_eq!(resolve(v).unwrap(), "yes, 3.14, n/a");
}

#[test]
fn array_of_one_element_is_empty() {
    let v = Value::Array(vec![text(", ")]);
    assert_eq!(resolve(v).unwrap(), "");
}

#[test]
fn empty_array_is_an_error() {
    let v = Value::Array(vec![]);
    let err = resolve(v).unwrap_err();
    assert!(err.is_missing_join_separator());
}

#[test]
fn empty_array_error_propagates_from_args() {
    let v = Value::GetText {
        gettext: ValueGetText("%(values)s".to_string()),
        args: Some(Formatter::KeywordArgs(vec![(
            "values".to_string(),
            Value::Array(vec![]),
        )])),
    };
    let err = resolve(v).unwrap_err();
    assert!(err.is_missing_join_separator());
}

#[test]
fn missing_key_is_a_format_error() {
    let v = Value::FormattedText {
        text: "Hello %(name)s!".to_string(),
        args: None,
    };
    let err = resolve(v).unwrap_err();
    assert!(err.diagnostic().is_some());
}

#[test]
fn missing_positional_is_a_format_error() {
    let v = Value::FormattedText {
        text: "Hello %s and %s!".to_string(),
        args: Some(Formatter::PositionalArgs(vec![text("Grace")])),
    };
    let err = resolve(v).unwrap_err();
    assert!(err.diagnostic().is_some());
}

#[test]
fn template_without_directives_passes_through() {
    let v = Value::FormattedText {
        text: "No placeholders here.".to_string(),
        args: None,
    };
    let mut message = SerdeGetText::new(v);
    message.args.insert("unused".to_string(), "value".to_string());
    assert_eq!(message.try_into_string().unwrap(), "No placeholders here.");
}

#[test]
fn bools_render_via_tokens_not_literals() {
    assert_eq!(resolve(Value::Bool(true)).unwrap(), "yes");
    assert_eq!(resolve(Value::Bool(false)).unwrap(), "no");
    assert_eq!(resolve(Value::Unit).unwrap(), "n/a");
}

#[test]
fn integer_rendering_is_decimal() {
    assert_eq!(resolve(Value::Integer(0)).unwrap(), "0");
    assert_eq!(resolve(Value::Integer(-7)).unwrap(), "-7");
    assert_eq!(resolve(Value::Integer(i64::MAX)).unwrap(), "9223372036854775807");
    assert_eq!(resolve(Value::Integer(i64::MIN)).unwrap(), "-9223372036854775808");
}

#[test]
fn decimal_numerals_match_std() {
    assert_eq!(u64_to_dec_string(0), "0");
    assert_eq!(u64_to_dec_string(10), "10");
    assert_eq!(u64_to_dec_string(u64::MAX), u64::MAX.to_string());
    assert_eq!(u32_to_dec_string(4096), "4096");
    assert_eq!(i64_to_dec_string(-1), "-1");
    assert_eq!(i64_to_dec_string(1565854615), "1565854615");
}

#[test]
fn datetime_renders_through_strftime() {
    // 2019-08-15 in every timezone the process can be in.
    let v = Value::Datetime(DatetimeValue {
        strftime: "year %Y".to_string(),
        epoch: 1565854615,
    });
    assert_eq!(resolve(v).unwrap(), "year 2019");
}

#[test]
fn plural_count_overridden_by_explicit_key() {
    let v = Value::NGetText {
        ngettext: ValueNGetText {
            singular: "%(n)s element".to_string(),
            plural: "%(n)s elements".to_string(),
            n: 2,
        },
        args: Some(Formatter::KeywordArgs(vec![(
            "n".to_string(),
            text("two"),
        )])),
    };
    assert_eq!(resolve(v).unwrap(), "two elements");
}

#[test]
fn positional_plural_does_not_see_count() {
    let v = Value::NGetText {
        ngettext: ValueNGetText {
            singular: "%(n)s element".to_string(),
            plural: "%(n)s elements".to_string(),
            n: 2,
        },
        args: Some(Formatter::PositionalArgs(vec![text("ignored")])),
    };
    assert!(resolve(v).is_err());
}

#[test]
fn str_map_last_insert_wins() {
    let mut m = StrMap::new();
    m.insert("k".to_string(), "old".to_string());
    m.insert("k".to_string(), "new".to_string());
    assert_eq!(m.get(&"k".to_string()).unwrap().as_str(), "new");
    assert!(m.get(&"missing".to_string()).is_none());
}

#[test]
fn format_consults_base_for_missing_keys() {
    let mut base = StrMap::new();
    base.insert("name".to_string(), "Grace".to_string());
    let r = Value::format("Hello %(name)s!", &None, StrMap::new(), &base);
    assert_eq!(r.unwrap(), "Hello Grace!");
}

#[test]
fn nested_plural_inside_array() {
    let v = Value::Array(vec![
        text("; "),
        Value::NGetText {
            ngettext: ValueNGetText {
                singular: "%(n)s element".to_string(),
                plural: "%(n)s elements".to_string(),
                n: 1,
            },
            args: None,
        },
        Value::NGetText {
            ngettext: ValueNGetText {
                singular: "%(n)s element".to_string(),
                plural: "%(n)s elements".to_string(),
                n: 5,
            },
            args: None,
        },
    ]);
    assert_eq!(resolve(v).unwrap(), "1 element; 5 elements");
}
