use tfplan::classify::{classify, ActionKind};
use tfplan::diff::{diff, DiffKind, DiffRecord};
use tfplan::model::{AttrValue, Attribute, Change, ResourceChange, Snapshot, TerraformPlan};
use tfplan::plan::{build_model, build_models, model_kinds};
use tfplan::render::render_interactive;
use tfplan::session::{next_command, parse_command, Command, InteractiveSession};
use tfplan::summary::{summarize, PlanSummary};

fn s(t: &str) -> AttrValue {
    AttrValue::Str(t.to_string())
}

fn snap(pairs: Vec<(&str, AttrValue)>) -> Snapshot {
    Snapshot {
        attributes: pairs
            .into_iter()
            .map(|(k, v)| Attribute { key: k.to_string(), value: v })
            .collect(),
    }
}

fn tags(t: &[&str]) -> Vec<String> {
    t.iter().map(|a| a.to_string()).collect()
}

fn text(v: &Option<AttrValue>) -> String {
    match v {
        None => "-".to_string(),
        Some(AttrValue::Null) => "null".to_string(),
        Some(AttrValue::Bool(b)) => b.to_string(),
        Some(AttrValue::Number(t)) | Some(AttrValue::Composite(t)) => t.clone(),
        Some(AttrValue::Str(t)) => format!("'{}'", t),
    }
}

fn describe(records: &[DiffRecord]) -> Vec<String> {
    records
        .iter()
        .map(|r| format!("{:?} {} {} {}", r.kind, r.key, text(&r.before), text(&r.after)))
        .collect()
}

#[test]
fn classify_shapes() {
    assert_eq!(classify(&tags(&["create"])), ActionKind::Create);
    assert_eq!(classify(&tags(&["update"])), ActionKind::Update);
    assert_eq!(classify(&tags(&["delete"])), ActionKind::Delete);
    assert_eq!(classify(&tags(&["delete", "create"])), ActionKind::Replace);
    assert_eq!(classify(&tags(&["create", "delete"])), ActionKind::Unknown);
    assert_eq!(classify(&tags(&[])), ActionKind::Unknown);
    assert_eq!(classify(&tags(&["create", "create"])), ActionKind::Unknown);
    assert_eq!(classify(&tags(&["Create"])), ActionKind::Unknown);
    assert_eq!(classify(&tags(&["no-op"])), ActionKind::Unknown);
}

#[test]
fn scenario_create() {
    let after = Some(snap(vec![("ami", s("ami-12345678")), ("instance_type", s("t3.micro"))]));
    let kind = classify(&tags(&["create"]));
    assert_eq!(kind, ActionKind::Create);
    let records = diff(&None, &after, kind);
    assert_eq!(describe(&records), vec!["Added ami - 'ami-12345678'", "Added instance_type - 't3.micro'"]);
    assert_eq!(summarize(&[kind]), PlanSummary::Changes { add: 1, change: 0, destroy: 0 });
}

#[test]
fn scenario_update() {
    let before = Some(snap(vec![("encryption", AttrValue::Null), ("versioning", AttrValue::Bool(false))]));
    let after = Some(snap(vec![("encryption", s("AES256")), ("versioning", AttrValue::Bool(true))]));
    let kind = classify(&tags(&["update"]));
    assert_eq!(kind, ActionKind::Update);
    let records = diff(&before, &after, kind);
    assert_eq!(describe(&records), vec!["Changed encryption null 'AES256'", "Changed versioning false true"]);
}

#[test]
fn scenario_replace() {
    let before = Some(snap(vec![("ami", s("ami-old"))]));
    let after = Some(snap(vec![("ami", s("ami-new"))]));
    let kind = classify(&tags(&["delete", "create"]));
    assert_eq!(kind, ActionKind::Replace);
    let records = diff(&before, &after, kind);
    assert_eq!(describe(&records), vec!["Changed ami 'ami-old' 'ami-new'"]);
}

#[test]
fn scenario_empty_plan() {
    let plan = TerraformPlan { resource_changes: vec![] };
    let models = build_models(&plan);
    assert_eq!(summarize(&model_kinds(&models)), PlanSummary::NoChanges);
}

#[test]
fn equal_snapshots_give_no_records() {
    for k in [ActionKind::Update, ActionKind::Replace] {
        let before = Some(snap(vec![("a", s("x")), ("b", AttrValue::Number("1".to_string())), ("c", AttrValue::Null)]));
        let after = Some(snap(vec![("a", s("x")), ("b", AttrValue::Number("1".to_string())), ("c", AttrValue::Null)]));
        assert!(diff(&before, &after, k).is_empty());
    }
}

#[test]
fn added_changed_and_removed_keys() {
    let before = Some(snap(vec![("a", s("1")), ("b", s("same")), ("d", AttrValue::Bool(true))]));
    let after = Some(snap(vec![("a", s("2")), ("b", s("same")), ("c", AttrValue::Number("3".to_string()))]));
    let records = diff(&before, &after, ActionKind::Update);
    assert_eq!(describe(&records), vec!["Changed a '1' '2'", "Added c - 3", "Removed d true -"]);
    assert_eq!(records[2].kind, DiffKind::Removed);
}

#[test]
fn value_types_differ() {
    let before = Some(snap(vec![("n", AttrValue::Number("1".to_string()))]));
    let after = Some(snap(vec![("n", s("1"))]));
    assert_eq!(describe(&diff(&before, &after, ActionKind::Update)), vec!["Changed n 1 '1'"]);
}

#[test]
fn degenerate_and_silent_kinds() {
    let some = Some(snap(vec![("a", s("x"))]));
    assert!(diff(&None, &some, ActionKind::Update).is_empty());
    assert!(diff(&some, &None, ActionKind::Replace).is_empty());
    assert!(diff(&some, &some, ActionKind::Delete).is_empty());
    assert!(diff(&None, &some, ActionKind::Unknown).is_empty());
    assert!(diff(&some, &None, ActionKind::Create).is_empty());
    let other = Some(snap(vec![("b", s("y"))]));
    assert_eq!(describe(&diff(&some, &other, ActionKind::Create)), vec!["Added b - 'y'"]);
}

#[test]
fn summary_excludes_unknown() {
    let kinds = [
        ActionKind::Create,
        ActionKind::Create,
        ActionKind::Update,
        ActionKind::Replace,
        ActionKind::Delete,
        ActionKind::Unknown,
    ];
    assert_eq!(summarize(&kinds), PlanSummary::Changes { add: 2, change: 2, destroy: 1 });
    assert_eq!(summarize(&[ActionKind::Unknown]), PlanSummary::NoChanges);
}

#[test]
fn model_of_a_resource() {
    let c = ResourceChange {
        address: "aws_instance.a".to_string(),
        change: Change { actions: tags(&["delete"]), before: Some(snap(vec![("a", s("x"))])), after: None },
    };
    let m = build_model(&c);
    assert_eq!(m.address, "aws_instance.a");
    assert_eq!(m.kind, ActionKind::Delete);
    assert!(m.records.is_empty());
}

#[test]
fn commands_are_parsed() {
    assert_eq!(parse_command("q", 3), Command::Quit);
    assert_eq!(parse_command("a", 3), Command::ExpandAll);
    assert_eq!(parse_command("c", 3), Command::CollapseAll);
    assert_eq!(parse_command("2", 3), Command::Toggle(2));
    assert_eq!(parse_command("+1", 3), Command::Toggle(1));
    assert_eq!(parse_command("3", 3), Command::Ignore);
    assert_eq!(parse_command("-1", 3), Command::Ignore);
    assert_eq!(parse_command("Q", 3), Command::Ignore);
    assert_eq!(parse_command("", 3), Command::Ignore);
    assert_eq!(parse_command("x", 3), Command::Ignore);
}

#[test]
fn lines_are_trimmed_and_end_of_input_quits() {
    assert_eq!(next_command(Some("  1 \n"), 2), Command::Toggle(1));
    assert_eq!(next_command(Some("q\n"), 2), Command::Quit);
    assert_eq!(next_command(Some("\ta\r\n"), 2), Command::ExpandAll);
    assert_eq!(next_command(Some("\n"), 2), Command::Ignore);
    assert_eq!(next_command(None, 2), Command::Quit);
}

#[test]
fn session_state_machine() {
    let mut session = InteractiveSession::new(3);
    assert_eq!(session.len(), 3);
    assert!((0..3).all(|i| !session.is_expanded(i)));
    session.apply(Command::ExpandAll);
    assert!((0..3).all(|i| session.is_expanded(i)));
    session.apply(Command::CollapseAll);
    assert!((0..3).all(|i| !session.is_expanded(i)));
    session.apply(Command::Toggle(1));
    assert!(session.is_expanded(1) && !session.is_expanded(0) && !session.is_expanded(2));
    session.apply(Command::Toggle(1));
    assert!(!session.is_expanded(1));
    session.apply(Command::Toggle(7));
    session.apply(Command::Ignore);
    assert!((0..3).all(|i| !session.is_expanded(i)));
    session.apply(Command::Toggle(0));
    assert!(session.running());
    session.apply(Command::Quit);
    assert!(!session.running());
    assert!(session.is_expanded(0));
}

#[test]
fn interactive_view_prefixes_indices() {
    let plan = TerraformPlan {
        resource_changes: vec![
            ResourceChange {
                address: "a.one".to_string(),
                change: Change { actions: tags(&["create"]), before: None, after: Some(snap(vec![("k", s("v"))])) },
            },
            ResourceChange {
                address: "a.two".to_string(),
                change: Change { actions: tags(&["delete"]), before: None, after: None },
            },
        ],
    };
    let models = build_models(&plan);
    let mut session = InteractiveSession::new(2);
    assert_eq!(render_interactive(&models, &session), "[0] ▶ + a.one will be create\n\n[1] ▶ - a.two will be delete\n\n");
    session.apply(Command::Toggle(0));
    assert_eq!(
        render_interactive(&models, &session),
        "[0] ▼ + a.one will be create\n        k: \"v\"\n\n[1] ▶ - a.two will be delete\n\n"
    );
}
