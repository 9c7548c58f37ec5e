use glob_walk::route::defines::{
    define_text, define_value, defines, same_name, split, DefineValue, OptionEnvMap,
};

fn env(list: &[(&str, Option<&str>)]) -> OptionEnvMap {
    OptionEnvMap(list.iter().map(|(k, v)| (k.to_string(), v.map(|v| v.to_string()))).collect())
}

fn show(value: &DefineValue) -> String {
    format!("{:?}", value)
}

#[test]
fn names_are_split_at_dots() {
    assert_eq!(split("process.env.NODE_ENV", '.'), vec!["process", "env", "NODE_ENV"]);
    assert_eq!(split("plain", '.'), vec!["plain"]);
    assert_eq!(split("", '.'), vec![""]);
    assert_eq!(split("a..b", '.'), vec!["a", "", "b"]);
    assert_eq!(split(".a.", '.'), vec!["", "a", ""]);
    assert_eq!(split("a/b", '/'), vec!["a", "b"]);
    let with_std: Vec<&str> = ".a..b.".split('.').collect();
    assert_eq!(split(".a..b.", '.'), with_std);
}

#[test]
fn names_are_compared_by_their_segments() {
    let a = vec!["x".to_string(), "y".to_string()];
    assert!(same_name(&a, &vec!["x".to_string(), "y".to_string()]));
    assert!(!same_name(&a, &vec!["x".to_string()]));
    assert!(!same_name(&a, &vec!["x".to_string(), "z".to_string()]));
    assert!(same_name(&Vec::new(), &Vec::new()));
}

#[test]
fn text_stands_for_json_or_for_an_expression() {
    let text = "1".to_string();
    assert_eq!(show(&define_text(&text, true)), show(&DefineValue::Json("1".to_string())));
    assert_eq!(show(&define_text(&text, false)), show(&DefineValue::Evaluate("1".to_string())));
}

#[test]
fn value_is_json_where_it_parses() {
    assert_eq!(show(&define_value(&None)), show(&DefineValue::Undefined));
    assert_eq!(
        show(&define_value(&Some("\"production\"".to_string()))),
        show(&DefineValue::Json("\"production\"".to_string()))
    );
    assert_eq!(show(&define_value(&Some("true".to_string()))), show(&DefineValue::Json("true".to_string())));
    assert_eq!(
        show(&define_value(&Some("{\"a\": [1, null]}".to_string()))),
        show(&DefineValue::Json("{\"a\": [1, null]}".to_string()))
    );
    assert_eq!(
        show(&define_value(&Some("process.cwd()".to_string()))),
        show(&DefineValue::Evaluate("process.cwd()".to_string()))
    );
    assert_eq!(show(&define_value(&Some(String::new()))), show(&DefineValue::Evaluate(String::new())));
    assert_eq!(
        show(&define_value(&Some("undefined".to_string()))),
        show(&DefineValue::Evaluate("undefined".to_string()))
    );
}

#[test]
fn definitions_keep_the_order_and_the_first_of_each_name() {
    let list = defines(&env(&[
        ("process.env.A", Some("\"x\"")),
        ("B", Some("a + b")),
        ("C", None),
        ("process.env.A", Some("2")),
        ("D", Some("1")),
        ("B", None),
    ]));
    assert_eq!(list.len(), 4);
    assert_eq!(list[0].name, vec!["process", "env", "A"]);
    assert_eq!(show(&list[0].value), show(&DefineValue::Json("\"x\"".to_string())));
    assert_eq!(list[1].name, vec!["B"]);
    assert_eq!(show(&list[1].value), show(&DefineValue::Evaluate("a + b".to_string())));
    assert_eq!(list[2].name, vec!["C"]);
    assert_eq!(show(&list[2].value), show(&DefineValue::Undefined));
    assert_eq!(list[3].name, vec!["D"]);
    assert_eq!(show(&list[3].value), show(&DefineValue::Json("1".to_string())));
    assert!(defines(&OptionEnvMap(Vec::new())).is_empty());
}
