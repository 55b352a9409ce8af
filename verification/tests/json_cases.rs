//! Resolution scenarios for message trees as a JSON producer would
//! build them.

use serde_gettext::strmap::StrMap;
use serde_gettext::value::{
    Formatter, LocaleCategory, Value, ValueDCNGetText, ValueGetText, ValueNGetText,
};
use serde_gettext::SerdeGetText;

fn text(s: &str) -> Value {
    Value::Text(s.to_string())
}

fn kwargs(pairs: Vec<(&str, Value)>) -> Option<Formatter> {
    Some(Formatter::KeywordArgs(
        pairs.into_iter().map(|(k, v)| (k.to_string(), v)).collect(),
    ))
}

fn resolve(value: Value) -> Result<String, serde_gettext::Error> {
    SerdeGetText::new(value).try_into_string()
}

#[test]
fn json_not_translated_text() {
    let v = Value::FormattedText {
        text: "Hello!".to_string(),
        args: None,
    };
    assert_eq!(resolve(v).unwrap(), "Hello!");
}

#[test]
fn json_not_translated_text_with_args() {
    let v = Value::FormattedText {
        text: "Hello %s!".to_string(),
        args: Some(Formatter::PositionalArgs(vec![text("Grace")])),
    };
    assert_eq!(resolve(v).unwrap(), "Hello Grace!");
}

#[test]
fn json_not_translated_text_with_kwargs() {
    let v = Value::FormattedText {
        text: "Hello %(name)s!".to_string(),
        args: kwargs(vec![("name", text("Grace"))]),
    };
    assert_eq!(resolve(v).unwrap(), "Hello Grace!");
}

#[test]
fn json_gettext() {
    let v = Value::GetText {
        gettext: ValueGetText("Hello!".to_string()),
        args: None,
    };
    assert_eq!(resolve(v).unwrap(), "Hello!");
}

#[test]
fn json_gettext_with_args() {
    let v = Value::GetText {
        gettext: ValueGetText("Hello %(name)s!".to_string()),
        args: kwargs(vec![("name", text("Grace"))]),
    };
    assert_eq!(resolve(v).unwrap(), "Hello Grace!");
}

#[test]
fn json_gettext_with_args_integer() {
    let v = Value::GetText {
        gettext: ValueGetText("The answer is: %(answer)s".to_string()),
        args: kwargs(vec![("answer", Value::Integer(42))]),
    };
    assert_eq!(resolve(v).unwrap(), "The answer is: 42");
}

#[test]
fn json_gettext_with_args_float() {
    let v = Value::GetText {
        gettext: ValueGetText("Pi is: %(pi)s".to_string()),
        args: kwargs(vec![("pi", Value::Float(format!("{}", 3.14_f64)))]),
    };
    assert_eq!(resolve(v).unwrap(), "Pi is: 3.14");
}

#[test]
fn json_gettext_with_args_bool() {
    let v = Value::GetText {
        gettext: ValueGetText("The answer is: %(answer)s".to_string()),
        args: kwargs(vec![("answer", Value::Bool(true))]),
    };
    assert_eq!(resolve(v).unwrap(), "The answer is: yes");
}

#[test]
fn json_gettext_with_args_null() {
    let v = Value::GetText {
        gettext: ValueGetText("The answer is: %(answer)s".to_string()),
        args: kwargs(vec![("answer", Value::Unit)]),
    };
    assert_eq!(resolve(v).unwrap(), "The answer is: n/a");
}

#[test]
fn json_gettext_with_args_array() {
    let v = Value::GetText {
        gettext: ValueGetText("%(greetings)s".to_string()),
        args: kwargs(vec![(
            "greetings",
            Value::Array(vec![text(", "), text("Hello"), text("World!")]),
        )]),
    };
    assert_eq!(resolve(v).unwrap(), "Hello, World!");
}

#[test]
fn json_gettext_with_args_i18n() {
    let v = Value::GetText {
        gettext: ValueGetText("%(greetings)s".to_string()),
        args: kwargs(vec![(
            "greetings",
            Value::GetText {
                gettext: ValueGetText("Hello!".to_string()),
                args: None,
            },
        )]),
    };
    assert_eq!(resolve(v).unwrap(), "Hello!");
}

#[test]
fn json_gettext_with_args_recursive() {
    let v = Value::GetText {
        gettext: ValueGetText("%(greetings)s".to_string()),
        args: kwargs(vec![(
            "greetings",
            Value::GetText {
                gettext: ValueGetText("Hello %(name)s!".to_string()),
                args: kwargs(vec![("name", text("Grace"))]),
            },
        )]),
    };
    assert_eq!(resolve(v).unwrap(), "Hello Grace!");
}

#[test]
fn ngettext_singular_without_args() {
    let v = Value::NGetText {
        ngettext: ValueNGetText {
            singular: "%(n)s element".to_string(),
            plural: "%(n)s elements".to_string(),
            n: 1,
        },
        args: None,
    };
    assert_eq!(resolve(v).unwrap(), "1 element");
}

#[test]
fn json_ngettext_plural_with_args() {
    let v = Value::NGetText {
        ngettext: ValueNGetText {
            singular: "%(n)s element (success: %(success)s)".to_string(),
            plural: "%(n)s elements (success: %(success)s)".to_string(),
            n: 2,
        },
        args: kwargs(vec![("success", Value::Bool(true))]),
    };
    assert_eq!(resolve(v).unwrap(), "2 elements (success: yes)");
}

#[test]
fn dcngettext() {
    let v = Value::DCNGetText {
        dcngettext: ValueDCNGetText {
            domain: "some_domain".to_string(),
            singular: "%(n)s element".to_string(),
            plural: "%(n)s elements".to_string(),
            n: 2,
            category: LocaleCategory::LcMeasurement,
        },
        args: None,
    };
    assert_eq!(resolve(v).unwrap(), "2 elements");
}

#[test]
fn json_base_args() {
    let v = Value::FormattedText {
        text: "Hello %(name)s!".to_string(),
        args: None,
    };
    let mut message = SerdeGetText::new(v);
    message.args.insert("name".to_string(), "Grace".to_string());
    assert_eq!(message.try_into_string().unwrap(), "Hello Grace!");
}

#[test]
fn base_args_union_order() {
    let v = Value::FormattedText {
        text: "Hello %(name)s!".to_string(),
        args: kwargs(vec![("name", text("Marie"))]),
    };
    let mut message = SerdeGetText::new(v);
    message.args.insert("name".to_string(), "Grace".to_string());
    assert_eq!(message.try_into_string().unwrap(), "Hello Marie!");
}

#[test]
fn union_map_prefers_local() {
    let mut local = StrMap::new();
    local.insert("name".to_string(), "Marie".to_string());
    let mut base = StrMap::new();
    base.insert("name".to_string(), "Grace".to_string());
    base.insert("city".to_string(), "Paris".to_string());
    let union = serde_gettext::strmap::UnionMap::new(local, base);
    assert_eq!(union.get_key(&"name".to_string()).unwrap().as_str(), "Marie");
    assert_eq!(union.get_key(&"city".to_string()).unwrap().as_str(), "Paris");
    assert!(union.get_key(&"country".to_string()).is_none());
    let merged = union.merged();
    assert_eq!(merged.get(&"name".to_string()).unwrap().as_str(), "Marie");
    assert_eq!(merged.get(&"city".to_string()).unwrap().as_str(), "Paris");
}
