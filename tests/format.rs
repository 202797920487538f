use tfplan::classify::get_action;
use tfplan::model::{AttrValue, Attribute, Change, ResourceChange, Snapshot, TerraformPlan};
use tfplan::render::{format_plan, format_resource_change, format_value};
use tfplan::summary::{format_summary, ActionCounts};

fn s(t: &str) -> AttrValue {
    AttrValue::Str(t.to_string())
}

fn snap(pairs: Vec<(&str, AttrValue)>) -> Snapshot {
    Snapshot {
        attributes: pairs
            .into_iter()
            .map(|(k, v)| Attribute { key: k.to_string(), value: v })
            .collect(),
    }
}

fn resource(address: &str, actions: &[&str], before: Option<Snapshot>, after: Option<Snapshot>) -> ResourceChange {
    ResourceChange {
        address: address.to_string(),
        change: Change {
            actions: actions.iter().map(|a| a.to_string()).collect(),
            before,
            after,
        },
    }
}

fn create_test_plan() -> TerraformPlan {
    TerraformPlan {
        resource_changes: vec![
            resource(
                "aws_instance.web",
                &["create"],
                None,
                Some(snap(vec![("ami", s("ami-12345678")), ("instance_type", s("t3.micro"))])),
            ),
            resource(
                "aws_s3_bucket.data",
                &["update"],
                Some(snap(vec![("encryption", AttrValue::Null), ("versioning", AttrValue::Bool(false))])),
                Some(snap(vec![("encryption", s("AES256")), ("versioning", AttrValue::Bool(true))])),
            ),
        ],
    }
}

#[test]
fn test_get_action() {
    assert_eq!(get_action(&["create".to_string()]), "create");
    assert_eq!(get_action(&["update".to_string()]), "update");
    assert_eq!(get_action(&["delete".to_string()]), "delete");
    assert_eq!(get_action(&["delete".to_string(), "create".to_string()]), "replace");
    assert_eq!(get_action(&["unknown".to_string()]), "unknown");
}

#[test]
fn test_format_value() {
    assert_eq!(format_value(&s("test")), "\"test\"");
    assert_eq!(format_value(&AttrValue::Number("42".to_string())), "42");
    assert_eq!(format_value(&AttrValue::Bool(true)), "true");
    assert_eq!(format_value(&AttrValue::Null), "null");
}

#[test]
fn test_format_plan_collapsed() {
    let plan = create_test_plan();
    let output = format_plan(&plan, true);

    assert!(output.contains("▶ + aws_instance.web will be create"));
    assert!(output.contains("▶ ~ aws_s3_bucket.data will be update"));
    assert!(output.contains("Plan: 1 to add, 1 to change, 0 to destroy"));
    assert!(!output.contains("ami:"));
}

#[test]
fn test_format_plan_expanded() {
    let plan = create_test_plan();
    let output = format_plan(&plan, false);

    assert!(output.contains("▼ + aws_instance.web will be create"));
    assert!(output.contains("ami: \"ami-12345678\""));
    assert!(output.contains("encryption: null => \"AES256\""));
    assert!(output.contains("versioning: false => true"));
}

#[test]
fn test_empty_plan() {
    let plan = TerraformPlan { resource_changes: vec![] };
    let output = format_plan(&plan, false);

    assert!(output.contains("No changes. Your infrastructure matches the configuration"));
}

#[test]
fn test_format_summary() {
    let counts = ActionCounts { create: 2, update: 1, replace: 0, delete: 1 };

    let summary = format_summary(&counts);
    assert!(summary.contains("Plan: 2 to add, 1 to change, 1 to destroy"));
}

#[test]
fn test_format_resource_change_create() {
    let change = resource("aws_instance.test", &["create"], None, Some(snap(vec![("ami", s("ami-123"))])));

    let output = format_resource_change(&change, false);
    assert!(output.contains("▼ + aws_instance.test will be create"));
    assert!(output.contains("ami: \"ami-123\""));
}

#[test]
fn test_format_resource_change_update() {
    let change = resource(
        "aws_instance.test",
        &["update"],
        Some(snap(vec![("size", s("small"))])),
        Some(snap(vec![("size", s("large"))])),
    );

    let output = format_resource_change(&change, false);
    assert!(output.contains("▼ ~ aws_instance.test will be update"));
    assert!(output.contains("size: \"small\" => \"large\""));
}

#[test]
fn test_format_resource_change_delete() {
    let change = resource("aws_instance.test", &["delete"], Some(snap(vec![("ami", s("ami-123"))])), None);

    let output = format_resource_change(&change, false);
    assert!(output.contains("▼ - aws_instance.test will be delete"));
}

#[test]
fn test_format_resource_change_replace() {
    let change = resource(
        "aws_instance.test",
        &["delete", "create"],
        Some(snap(vec![("ami", s("ami-old"))])),
        Some(snap(vec![("ami", s("ami-new"))])),
    );

    let output = format_resource_change(&change, false);
    assert!(output.contains("▼ -/+ aws_instance.test will be replace"));
    assert!(output.contains("ami: \"ami-old\" => \"ami-new\""));
}

#[test]
fn exact_text_of_a_plan() {
    let plan = create_test_plan();
    let expected = "▼ + aws_instance.web will be create\n        ami: \"ami-12345678\"\n        instance_type: \"t3.micro\"\n\n▼ ~ aws_s3_bucket.data will be update\n        encryption: null => \"AES256\"\n        versioning: false => true\n\nPlan: 1 to add, 1 to change, 0 to destroy.\n";
    assert_eq!(format_plan(&plan, false), expected);
}

#[test]
fn rendering_twice_is_identical() {
    let plan = create_test_plan();
    assert_eq!(format_plan(&plan, true), format_plan(&plan, true));
    assert_eq!(format_plan(&plan, false), format_plan(&plan, false));
}

#[test]
fn removed_key_renders_as_null() {
    let change = resource(
        "aws_instance.test",
        &["update"],
        Some(snap(vec![("a", s("x")), ("gone", AttrValue::Number("7".to_string()))])),
        Some(snap(vec![("a", s("x"))])),
    );
    let output = format_resource_change(&change, false);
    assert_eq!(output, "▼ ~ aws_instance.test will be update\n        gone: 7 => null\n\n");
}

#[test]
fn unknown_kind_renders_marker_and_is_not_counted() {
    let plan = TerraformPlan {
        resource_changes: vec![resource("null_resource.x", &["create", "delete"], None, Some(snap(vec![("a", s("b"))])))],
    };
    let output = format_plan(&plan, false);
    assert!(output.contains("▼ ? null_resource.x will be unknown\n\n"));
    assert!(output.contains("No changes. Your infrastructure matches the configuration.\n"));
}

#[test]
fn summary_counts_replacements_as_changes() {
    let counts = ActionCounts { create: 0, update: 3, replace: 9, delete: 120 };
    assert_eq!(format_summary(&counts), "Plan: 0 to add, 12 to change, 120 to destroy.\n");
    let none = ActionCounts { create: 0, update: 0, replace: 0, delete: 0 };
    assert_eq!(format_summary(&none), "No changes. Your infrastructure matches the configuration.\n");
}

#[test]
fn composite_value_renders_its_text() {
    assert_eq!(format_value(&AttrValue::Composite("{\"a\":1}".to_string())), "{\"a\":1}");
    assert_eq!(format_value(&AttrValue::Bool(false)), "false");
}

#[test]
fn html_escape_replaces_special_characters() {
    assert_eq!(tfplan::render::html_escape("a<b>&\"c'd"), "a&lt;b&gt;&amp;&quot;c&#x27;d");
    assert_eq!(tfplan::render::html_escape("plain ünïcode"), "plain ünïcode");
    assert_eq!(tfplan::render::html_escape(""), "");
}
