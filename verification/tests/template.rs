use sams::config::Value;
use sams::context::AnswerMap;
use sams::template::{find_fault, is_plain, render_template_str, TemplateError};
use sams::text::chars_of;

fn answers(entries: Vec<(&str, Value)>) -> AnswerMap {
    let mut map = AnswerMap::new();
    for (name, value) in entries {
        map.insert(name.to_string(), value);
    }
    map
}

#[test]
fn a_placeholder_renders_to_the_text_of_its_answer() {
    let values = vec![
        Value::Integer(0),
        Value::Integer(-5),
        Value::Integer(i64::MAX),
        Value::Integer(i64::MIN),
        Value::Float("1.5".to_string()),
        Value::Float("-inf".to_string()),
        Value::String("v".to_string()),
        Value::String("".to_string()),
        Value::String("<a href=\"/x\">&'é</a>".to_string()),
        Value::String("{{x}}".to_string()),
    ];
    for value in values {
        let shown = value.to_text();
        let map = answers(vec![("x", value)]);
        assert_eq!(render_template_str("{{x}}", &map), Ok(shown.clone()));
        assert_eq!(render_template_str("{{ x }}", &map), Ok(shown.clone()));
        assert_eq!(render_template_str("{{\tx\n}}", &map), Ok(shown));
    }
}

#[test]
fn values_show_as_text() {
    assert_eq!(Value::Integer(18).to_text(), "18");
    assert_eq!(Value::Integer(-3).to_text(), "-3");
    assert_eq!(Value::Float("2.5".to_string()).to_text(), "2.5");
    assert_eq!(Value::String("hello".to_string()).to_text(), "hello");
}

#[test]
fn text_and_placeholders() {
    let map = answers(vec![
        ("key", Value::String("testvalue".to_string())),
        ("n", Value::Integer(3)),
    ]);
    assert_eq!(render_template_str("key={{ key }}", &map), Ok("key=testvalue".to_string()));
    assert_eq!(render_template_str("key", &map), Ok("key".to_string()));
    assert_eq!(render_template_str("", &map), Ok("".to_string()));
    assert_eq!(
        render_template_str("{{key}}{{n}} and {{ n }}{ {x} } }} {", &map),
        Ok("testvalue3 and 3{ {x} } }} {".to_string())
    );
    assert_eq!(render_template_str("a{b}c", &map), Ok("a{b}c".to_string()));
}

#[test]
fn rendering_is_one_pass() {
    let map = answers(vec![
        ("a", Value::String("{{b}}".to_string())),
        ("b", Value::String("deep".to_string())),
    ]);
    assert_eq!(render_template_str("{{a}}", &map), Ok("{{b}}".to_string()));
}

#[test]
fn an_unanswered_name_is_an_error() {
    let map = answers(vec![("x", Value::Integer(1))]);
    assert_eq!(
        render_template_str("{{x}} {{ missing }} {{other}}", &map),
        Err(TemplateError::Undefined { name: "missing".to_string() })
    );
    assert_eq!(
        render_template_str("{{y}}", &AnswerMap::new()),
        Err(TemplateError::Undefined { name: "y".to_string() })
    );
    assert_eq!(
        TemplateError::Undefined { name: "y".to_string() }.message(),
        "Variable not found in context: y"
    );
}

#[test]
fn rendering_twice_gives_the_same() {
    let map = answers(vec![("x", Value::String("v".to_string())), ("n", Value::Integer(-9))]);
    for template in [
        "{{x}}", "a {{ n }} b {{x}}", "plain", "{{nope}}", "{% if n %}yes{% endif %}",
        "{{ get_env(name=\"HOME\") }}", "{{ now() }}",
    ] {
        assert_eq!(render_template_str(template, &map), render_template_str(template, &map));
    }
}

#[test]
fn plain_templates() {
    for template in ["", "text", "{{x}}", "{{ x_1 }}", "a{b", "}}", "{{ _y }}{{Z}}", "%} #} {"] {
        assert!(is_plain(&chars_of(template)), "{:?}", template);
        assert_eq!(find_fault(&chars_of(template)), None);
    }
    for template in [
        "{% if x %}{% endif %}", "{# note #}", "{{ x | upper }}", "{{ invalid syntax }}", "{{}}",
        "{{ x", "{{ 1x }}", "{{-x}}", "{{ x.y }}", "{{x}", "text {%",
    ] {
        assert!(!is_plain(&chars_of(template)), "{:?}", template);
    }
}

#[test]
fn what_is_no_placeholder_is_refused_with_its_place() {
    let map = answers(vec![("x", Value::String("v".to_string())), ("n", Value::Integer(2))]);
    for (template, at) in [
        ("{% if n == 2 %}{{ x }}{% endif %}", 0),
        ("{{ x }}{{ n + 1 }}", 7),
        ("é{{x}} {# gone #} {{ y | upper }}", 7),
        ("{{ invalid syntax }}", 0),
        ("ab{{ 99999999999999999999999999999999.0 }}", 2),
        ("{{ range(end=5, step_by=0) }}", 0),
        ("{{x}}{{", 5),
        ("{{x}} {{missing}} {%", 18),
    ] {
        assert_eq!(render_template_str(template, &map), Err(TemplateError::Syntax { at }));
        assert_eq!(find_fault(&chars_of(template)), Some(at));
    }
    assert_eq!(
        TemplateError::Syntax { at: 0 }.message(),
        "Unsupported template syntax at character 0"
    );
    assert_eq!(
        TemplateError::Syntax { at: 1234 }.message(),
        "Unsupported template syntax at character 1234"
    );
}

#[test]
fn a_value_goes_in_as_it_is() {
    let map = answers(vec![
        ("x", Value::String("<a href=\"/x\">&'</a>".to_string())),
        ("n", Value::Integer(-7)),
        ("f", Value::Float("2.50".to_string())),
    ]);
    assert_eq!(
        render_template_str("{{ x }} {{ n }} {{ f }}", &map),
        Ok("<a href=\"/x\">&'</a> -7 2.50".to_string())
    );
}

#[test]
fn a_name_is_looked_up_whatever_the_word() {
    let map = answers(vec![
        ("true", Value::String("yes".to_string())),
        ("loop", Value::Integer(1)),
    ]);
    assert_eq!(render_template_str("{{ true }} {{ loop }}", &map), Ok("yes 1".to_string()));
    assert_eq!(
        render_template_str("{{ false }}", &map),
        Err(TemplateError::Undefined { name: "false".to_string() })
    );
}
