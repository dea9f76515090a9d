use node_selector::eval::{evaluate_select_expression, Node};
use node_selector::expr::{MethodName, SelectExpression, SelectionCriteria};

fn create_test_nodes() -> Vec<Node> {
    vec![
        Node {
            unique_id: "model.test.bronze_1".to_string(),
            fqn: vec!["test".to_string(), "bronze_1".to_string()],
            tags: vec!["production".to_string()],
            resource_type: "model".to_string(),
            path: "models/test_exclude/bronze/bronze_1.sql".to_string(),
            package_name: "test".to_string(),
        },
        Node {
            unique_id: "model.test.bronze_2".to_string(),
            fqn: vec!["test".to_string(), "bronze_2".to_string()],
            tags: vec!["production".to_string()],
            resource_type: "model".to_string(),
            path: "models/test_exclude/bronze/bronze_2.sql".to_string(),
            package_name: "test".to_string(),
        },
        Node {
            unique_id: "model.test.bronze_3".to_string(),
            fqn: vec!["test".to_string(), "bronze_3".to_string()],
            tags: vec!["production".to_string(), "deprecated".to_string()],
            resource_type: "model".to_string(),
            path: "models/test_exclude/bronze/bronze_3.sql".to_string(),
            package_name: "test".to_string(),
        },
    ]
}

fn contains(result: &[String], id: &str) -> bool {
    result.iter().any(|s| s == id)
}

#[test]
fn test_issue_1279_exclude_matches_nothing() {
    let nodes = create_test_nodes();

    // Intersection of a path pattern and an exclude whose pattern has a typo.
    let expr = SelectExpression::And(vec![
        SelectExpression::Atom(SelectionCriteria::new(
            MethodName::Path,
            vec![],
            "models/test_exclude/bronze/bronze_*".to_string(),
            false,
            None,
            None,
            None,
            None,
        )),
        SelectExpression::Exclude(Box::new(SelectExpression::Atom(SelectionCriteria::new(
            MethodName::Path,
            vec![],
            "models/test_exclude/bronse/no_such_*".to_string(),
            false,
            None,
            None,
            None,
            None,
        )))),
    ]);

    let result = evaluate_select_expression(&expr, &nodes);

    // The exclude matches nothing, so nothing is excluded.
    assert_eq!(result.len(), 3);
    assert!(contains(&result, "model.test.bronze_1"));
    assert!(contains(&result, "model.test.bronze_2"));
    assert!(contains(&result, "model.test.bronze_3"));
}

#[test]
fn test_exclude_matches_some_nodes() {
    let nodes = create_test_nodes();

    // Exclude nodes with the "deprecated" tag.
    let expr = SelectExpression::And(vec![
        SelectExpression::Atom(SelectionCriteria::new(
            MethodName::Tag,
            vec![],
            "production".to_string(),
            false,
            None,
            None,
            None,
            None,
        )),
        SelectExpression::Exclude(Box::new(SelectExpression::Atom(SelectionCriteria::new(
            MethodName::Tag,
            vec![],
            "deprecated".to_string(),
            false,
            None,
            None,
            None,
            None,
        )))),
    ]);

    let result = evaluate_select_expression(&expr, &nodes);

    assert_eq!(result.len(), 2);
    assert!(contains(&result, "model.test.bronze_1"));
    assert!(contains(&result, "model.test.bronze_2"));
    assert!(!contains(&result, "model.test.bronze_3"));
}

#[test]
fn test_exclude_matches_all_nodes() {
    let nodes = create_test_nodes();

    // Exclude everything the include matches.
    let expr = SelectExpression::And(vec![
        SelectExpression::Atom(SelectionCriteria::new(
            MethodName::Path,
            vec![],
            "models/test_exclude/bronze/*".to_string(),
            false,
            None,
            None,
            None,
            None,
        )),
        SelectExpression::Exclude(Box::new(SelectExpression::Atom(SelectionCriteria::new(
            MethodName::Path,
            vec![],
            "models/test_exclude/bronze/*".to_string(),
            false,
            None,
            None,
            None,
            None,
        )))),
    ]);

    let result = evaluate_select_expression(&expr, &nodes);

    assert_eq!(result.len(), 0);
}
