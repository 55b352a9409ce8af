//! Resolution scenarios for message trees as a YAML producer would
//! build them.

use serde_gettext::value::{Formatter, Value, ValueGetText, ValueNGetText};
use serde_gettext::SerdeGetText;

fn text(s: &str) -> Value {
    Value::Text(s.to_string())
}

fn kwargs(pairs: Vec<(&str, Value)>) -> Option<Formatter> {
    Some(Formatter::KeywordArgs(
        pairs.into_iter().map(|(k, v)| (k.to_string(), v)).collect(),
    ))
}

fn resolve(value: Value) -> Result<String, serde_gettext::Error> {
    SerdeGetText::new(value).try_into_string()
}

#[test]
fn yaml_not_translated_text() {
    let v = Value::FormattedText {
        text: "Hello!".to_string(),
        args: None,
    };
    assert_eq!(resolve(v).unwrap(), "Hello!");
}

#[test]
fn yaml_not_translated_text_with_args() {
    let v = Value::FormattedText {
        text: "Hello %s!".to_string(),
        args: Some(Formatter::PositionalArgs(vec![text("Grace")])),
    };
    assert_eq!(resolve(v).unwrap(), "Hello Grace!");
}

#[test]
fn yaml_not_translated_text_with_kwargs() {
    let v = Value::FormattedText {
        text: "Hello %(name)s!".to_string(),
        args: kwargs(vec![("name", text("Grace"))]),
    };
    assert_eq!(resolve(v).unwrap(), "Hello Grace!");
}

#[test]
fn yaml_gettext() {
    let v = Value::GetText {
        gettext: ValueGetText("Hello!".to_string()),
        args: None,
    };
    assert_eq!(resolve(v).unwrap(), "Hello!");
}

#[test]
fn yaml_gettext_with_args() {
    let v = Value::GetText {
        gettext: ValueGetText("Hello %(name)s!".to_string()),
        args: kwargs(vec![("name", text("Grace"))]),
    };
    assert_eq!(resolve(v).unwrap(), "Hello Grace!");
}

#[test]
fn yaml_gettext_with_args_integer() {
    let v = Value::GetText {
        gettext: ValueGetText("The answer is: %(answer)s".to_string()),
        args: kwargs(vec![("answer", Value::Integer(42))]),
    };
    assert_eq!(resolve(v).unwrap(), "The answer is: 42");
}

#[test]
fn yaml_gettext_with_args_float() {
    let v = Value::GetText {
        gettext: ValueGetText("Pi is: %(pi)s".to_string()),
        args: kwargs(vec![("pi", Value::Float(format!("{}", 3.14_f64)))]),
    };
    assert_eq!(resolve(v).unwrap(), "Pi is: 3.14");
}

#[test]
fn yaml_gettext_with_args_bool() {
    let v = Value::GetText {
        gettext: ValueGetText("The answer is: %(answer)s".to_string()),
        args: kwargs(vec![("answer", Value::Bool(true))]),
    };
    assert_eq!(resolve(v).unwrap(), "The answer is: yes");
}

#[test]
fn yaml_gettext_with_args_null() {
    let v = Value::GetText {
        gettext: ValueGetText("The answer is: %(answer)s".to_string()),
        args: kwargs(vec![("answer", Value::Unit)]),
    };
    assert_eq!(resolve(v).unwrap(), "The answer is: n/a");
}

#[test]
fn yaml_gettext_with_args_array() {
    let v = Value::GetText {
        gettext: ValueGetText("%(greetings)s".to_string()),
        args: kwargs(vec![(
            "greetings",
            Value::Array(vec![text(", "), text("Hello"), text("World!")]),
        )]),
    };
    assert_eq!(resolve(v).unwrap(), "Hello, World!");
}

#[test]
fn yaml_gettext_with_args_i18n() {
    let v = Value::GetText {
        gettext: ValueGetText("%(greetings)s".to_string()),
        args: kwargs(vec![(
            "greetings",
            Value::GetText {
                gettext: ValueGetText("Hello!".to_string()),
                args: None,
            },
        )]),
    };
    assert_eq!(resolve(v).unwrap(), "Hello!");
}

#[test]
fn yaml_gettext_with_args_recursive() {
    let v = Value::GetText {
        gettext: ValueGetText("%(greetings)s".to_string()),
        args: kwargs(vec![(
            "greetings",
            Value::GetText {
                gettext: ValueGetText("Hello %(name)s!".to_string()),
                args: kwargs(vec![("name", text("Grace"))]),
            },
        )]),
    };
    assert_eq!(resolve(v).unwrap(), "Hello Grace!");
}

#[test]
fn ngettext_singular_with_args() {
    let v = Value::NGetText {
        ngettext: ValueNGetText {
            singular: "%(n)s element".to_string(),
            plural: "%(n)s elements".to_string(),
            n: 1,
        },
        args: None,
    };
    assert_eq!(resolve(v).unwrap(), "1 element");
}

#[test]
fn yaml_ngettext_plural_with_args() {
    let v = Value::NGetText {
        ngettext: ValueNGetText {
            singular: "%(n)s element".to_string(),
            plural: "%(n)s elements".to_string(),
            n: 2,
        },
        args: None,
    };
    assert_eq!(resolve(v).unwrap(), "2 elements");
}

#[test]
fn yaml_base_args() {
    let v = Value::FormattedText {
        text: "Hello %(name)s!".to_string(),
        args: None,
    };
    let mut message = SerdeGetText::new(v);
    message.args.insert("name".to_string(), "Grace".to_string());
    assert_eq!(
        message.try_into_string().expect("could not translate"),
        "Hello Grace!"
    );
}
