use node_manager::deployments::{
    deployment_to_json, deployments_text, extract_manifest_field, find_deployment,
    generate_deployment_id, read_deployments, remove_deployment, upsert_deployment,
    write_deployments, Deployment,
};
use node_manager::effects::Effect;

fn deployment(id: &str, name: &str, manifest: &str) -> Deployment {
    Deployment {
        id: id.to_string(),
        app_name: name.to_string(),
        app_version: "0.1.0".to_string(),
        app_id: "a::b::c".to_string(),
        status: "running".to_string(),
        deployed_at: "2024-01-01T00:00:00Z".to_string(),
        last_error: String::new(),
        manifest: manifest.to_string(),
    }
}

#[test]
fn one_deployment_as_json() {
    assert_eq!(
        deployment_to_json(&deployment("0a", "my\"app", "{}")),
        r#"{"id":"0a","app_name":"my\"app","app_version":"0.1.0","app_id":"a::b::c","status":"running","deployed_at":"2024-01-01T00:00:00Z","last_error":"","manifest":{}}"#
    );
}

#[test]
fn deployments_there_and_back() {
    let list = vec![
        deployment("01", "one", r#"{"app":{"name":"one","version":"0.1.0"}}"#),
        deployment("02", "app_version", r#"{"id":"not this","manifest":{"status":"x"}}"#),
        deployment("03", "brace { } text", "{}"),
    ];
    let text = deployments_text(&list);
    assert!(text.starts_with("[{\"id\":\"01\"") && text.ends_with("}]"));
    assert_eq!(read_deployments(&text), list);
    assert_eq!(deployments_text(&Vec::new()), "[]");
    assert!(read_deployments("[]").is_empty());
    assert!(read_deployments("").is_empty());
}

#[test]
fn reading_loose_text() {
    let list = read_deployments("\n [ {\"id\" : \"x\"} , {\"status\":\"error\",\"manifest\":5} ] \n");
    assert_eq!(list.len(), 2);
    assert_eq!(list[0].id, "x");
    assert_eq!(list[0].manifest, "{}");
    assert_eq!(list[1].status, "error");
    assert_eq!(read_deployments("{\"id\":\"bare\"}")[0].id, "bare");
    assert!(read_deployments("}{").is_empty());
    assert_eq!(read_deployments("}{{\"id\":\"y\"}")[0].id, "y");
}

#[test]
fn manifests_in_objects() {
    assert_eq!(extract_manifest_field(r#"{"manifest": {"a":{}} }"#), r#"{"a":{}}"#);
    assert_eq!(extract_manifest_field(r#"{"manifest":[1]}"#), "{}");
    assert_eq!(extract_manifest_field(r#"{"manifest":{"#), "{}");
    assert_eq!(extract_manifest_field("{}"), "{}");
}

#[test]
fn a_manifest_comes_back_whatever_the_strings_hold() {
    let manifest = r#"{"app":{"name":"x"},"manifest":{"a":{}}}"#;
    for text in [r#"","manifest":{"bad":1},"#, r#"manifest":"#, "\\", "\"", "manifest", "}{", ""] {
        let mut d = deployment(text, text, manifest);
        d.app_version = text.to_string();
        d.last_error = text.to_string();
        assert_eq!(extract_manifest_field(&deployment_to_json(&d)), manifest);
    }
    let mut odd = deployment("01", r#"say "manifest":{"#, manifest);
    odd.last_error = "}".to_string();
    let back = read_deployments(&deployments_text(&vec![odd, deployment("02", "two", "{}")]));
    assert_eq!(back.len(), 2);
    assert_eq!(back[0].manifest, manifest);
    assert_eq!(back[1].manifest, "{}");
}

#[test]
fn changing_the_list() {
    let mut list = vec![deployment("01", "one", "{}"), deployment("02", "two", "{}")];
    let done = upsert_deployment(&mut list, deployment("02", "changed", "{}"));
    assert_eq!(list.len(), 2);
    assert_eq!(list[1].app_name, "changed");
    assert_eq!(done, write_deployments(&list));
    let _ = upsert_deployment(&mut list, deployment("03", "three", "{}"));
    assert_eq!(list[2].app_name, "three");
    assert_eq!(find_deployment(&list, "03"), Some(2));
    assert_eq!(find_deployment(&list, "04"), None);
    let done = remove_deployment(&mut list, "01");
    assert_eq!(list.len(), 2);
    assert_eq!(list[0].id, "02");
    assert_eq!(
        done[1],
        Effect::Write("/etc/node-manager/deployments.json".to_string(), deployments_text(&list))
    );
    let _ = remove_deployment(&mut list, "none");
    assert_eq!(list.len(), 2);
    assert_eq!(generate_deployment_id(&[0xff; 16]), "ff".repeat(16));
}
