use tesela::tools::{OntologyTool, ToolApprovalPolicy, ToolSideEffect};

#[test]
fn ontology_tool_names_round_trip_through_constant_time_lookup() {
    for tool in OntologyTool::all().iter().copied() {
        assert_eq!(OntologyTool::from_name(tool.name()), Some(tool));
    }
}

#[test]
fn unknown_ontology_tool_name_is_rejected() {
    assert_eq!(OntologyTool::from_name("tesela.unknown"), None);
}

#[test]
fn ontology_tool_schemas_declare_no_host_scope() {
    for tool in OntologyTool::all().iter().copied() {
        let properties = tool.input_properties();
        for reserved in ["scenario_id", "world_id", "locale_id", "tenant_id"] {
            assert!(
                !properties.contains(&reserved),
                "{} must not declare host scope {reserved}",
                tool.name()
            );
            assert!(!tool.prompt_hint().contains(reserved));
        }
    }
}

#[test]
fn tool_names_are_the_provider_visible_names() {
    assert_eq!(OntologyTool::Spec.name(), "tesela.spec");
    assert_eq!(OntologyTool::ObjectSetCompose.name(), "tesela.object_set.compose");
    assert_eq!(OntologyTool::ActionDescribe.name(), "tesela.action.describe");
    assert_eq!(OntologyTool::from_name("tesela.traverse"), Some(OntologyTool::Traverse));
    assert_eq!(OntologyTool::from_name("tesela.spec "), None);
    assert_eq!(OntologyTool::from_name(""), None);
}

#[test]
fn tool_documentation_and_policy() {
    assert_eq!(OntologyTool::Get.title(), "Get Object");
    assert_eq!(
        OntologyTool::Aggregate.description(),
        "Aggregate records by count, sum, avg, min, or max."
    );
    assert_eq!(
        OntologyTool::ActionsList.prompt_hint(),
        "Use before proposing ontology actions."
    );
    for tool in OntologyTool::all() {
        assert_eq!(tool.approval(), ToolApprovalPolicy::Never);
        assert_eq!(tool.side_effect(), ToolSideEffect::ReadOnly);
    }
    assert_eq!(OntologyTool::all().len(), 10);
}

#[test]
fn tool_input_properties_follow_the_argument_shapes() {
    assert!(OntologyTool::Spec.input_properties().is_empty());
    assert_eq!(OntologyTool::Search.input_properties(), vec!["object_type", "limit"]);
    assert_eq!(
        OntologyTool::Traverse.input_properties(),
        vec!["link", "source_id", "limit"]
    );
}

#[test]
fn tool_definition_carries_the_schema() {
    let schema = serde_json::Value::from("schema");
    let def = OntologyTool::Search.definition(schema.clone());
    assert_eq!(def.name, "tesela.search");
    assert_eq!(def.title, "Search Objects");
    assert_eq!(def.input_schema, schema);
    assert_eq!(def.tool, OntologyTool::Search);
}
