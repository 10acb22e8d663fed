use tesela::builders::action::ActionBuilder;
use tesela::builders::agent::AgentBuilder;
use tesela::builders::datasource::DatasourceBuilder;
use tesela::builders::link::LinkBuilder;
use tesela::builders::operations::{
    aggregate_view, capability_grant, event_type, measure, spatial_extent, time_bucket,
    ArtifactTypeBuilder, JobTypeBuilder,
};
use tesela::builders::property::PropertyBuilder;
use tesela::builders::role::RoleBuilder;
use tesela::ir::{AggregateFunction, DataType, LinkCardinality, Operation};

#[test]
fn test_action_builder() {
    let action = ActionBuilder::new("create_user")
        .description("Create a new user.")
        .risk_level("low")
        .build();
    assert_eq!(action.api_name.as_str(), "create_user");
    assert_eq!(action.risk_level.as_deref(), Some("low"));
}

#[test]
fn test_agent_builder() {
    let agent = AgentBuilder::new("my_agent")
        .model("large-model-4-6")
        .instructions("You are helpful.")
        .allow_tool("search_user")
        .build();
    assert_eq!(agent.allowed_tools.len(), 1);
}

#[test]
fn test_link_builder() {
    let link = LinkBuilder::new("user_orders", "user", "order")
        .display("User Orders")
        .cardinality(LinkCardinality::OneToMany)
        .mapping("id", "user_id")
        .build();
    assert_eq!(link.api_name.as_str(), "user_orders");
    assert_eq!(link.mappings.len(), 1);
    assert_eq!(link.cardinality, LinkCardinality::OneToMany);
    assert_eq!(link.mappings[0].to_property.as_str(), "user_id");
}

#[test]
fn action_builder_defaults_to_callback_handler() {
    let action = ActionBuilder::new("sync").build();
    assert_eq!(action.handler.kind, "callback");
    assert!(action.handler.target.is_none());
    assert!(action.handler.config.is_none());
    let action = ActionBuilder::new("sync")
        .handler("http", Some("https://example".to_string()))
        .handler_config("retries", serde_json::Value::from(3))
        .handler_config("retries", serde_json::Value::from(5))
        .metadata("owner", serde_json::Value::from("ops"))
        .build();
    assert_eq!(action.handler.kind, "http");
    let config = action.handler.config.expect("config");
    assert_eq!(config.len(), 1);
    assert_eq!(config.get("retries"), Some(&serde_json::Value::from(5)));
    assert_eq!(action.metadata.expect("metadata").get("owner"), Some(&serde_json::Value::from("ops")));
}

#[test]
fn agent_builder_limits_and_budget() {
    let agent = AgentBuilder::new("a").token_budget(100).build();
    let limits = agent.limits.expect("limits");
    assert_eq!(limits.token_budget, Some(100));
    assert_eq!(limits.max_tokens, None);
    let agent = AgentBuilder::new("a").limits(3, 400, 60).token_budget(100).build();
    let limits = agent.limits.expect("limits");
    assert_eq!(limits.max_tool_calls, Some(3));
    assert_eq!(limits.max_tokens, Some(400));
    assert_eq!(limits.timeout_seconds, Some(60));
    assert_eq!(limits.token_budget, Some(100));
    let agent = AgentBuilder::new("a")
        .requires_approval()
        .memory_with(true, "ns", "user")
        .context_source("docs", "object_set", Some("docs_set"))
        .capability("search")
        .build();
    assert_eq!(agent.requires_approval, Some(true));
    let memory = agent.memory.expect("memory");
    assert_eq!(memory.namespace.as_deref(), Some("ns"));
    assert_eq!(agent.context_sources[0].reference.as_deref(), Some("docs_set"));
    assert_eq!(agent.capabilities, vec!["search".to_string()]);
}

#[test]
fn property_builder_maps_flags() {
    let p = PropertyBuilder::new("id", DataType::String).required(true).build();
    assert_eq!(p.nullable, Some(false));
    assert_eq!(p.unique, None);
    let p = PropertyBuilder::new("name", DataType::String).build();
    assert_eq!(p.nullable, None);
    let p = PropertyBuilder::new("email", DataType::String)
        .unique(true)
        .indexed(true)
        .tag("pii")
        .quality("email_format", "regex")
        .computed("cel", "a + b")
        .build();
    assert_eq!(p.unique, Some(true));
    assert_eq!(p.indexed, Some(true));
    assert_eq!(p.tags, vec!["pii".to_string()]);
    assert_eq!(p.quality[0].kind, "regex");
    assert_eq!(p.computed.expect("computed").language, "cel");
}

#[test]
fn datasource_and_role_builders() {
    let ds = DatasourceBuilder::new("memory", "memory")
        .config("path", serde_json::Value::from("/tmp"))
        .secret("password", serde_json::Value::from("ref"))
        .build();
    assert_eq!(ds.adapter_type, "memory");
    assert_eq!(ds.config.expect("config").len(), 1);
    let role = RoleBuilder::new("admin").display("Admin").inherits("viewer").build();
    assert_eq!(role.inherits.len(), 1);
    assert_eq!(role.inherits[0].as_str(), "viewer");
}

#[test]
fn operation_builders() {
    let artifact = ArtifactTypeBuilder::new("report", "s3")
        .path_template("reports/{id}")
        .state("draft")
        .build();
    assert_eq!(artifact.store.as_str(), "s3");
    assert_eq!(artifact.path_template, "reports/{id}");
    assert_eq!(artifact.lifecycle, vec!["draft".to_string()]);
    let job = JobTypeBuilder::new("import", "worker")
        .states(vec!["queued".to_string(), "done".to_string()])
        .start_event("import_started")
        .build();
    assert_eq!(job.states.len(), 2);
    assert!(job.display.is_none());
    assert_eq!(job.start_event.expect("event").as_str(), "import_started");
    let event = event_type("created", "bus", "topic.created");
    assert_eq!(event.topic, "topic.created");
    let grant = capability_grant("read_all", "object_type", vec![Operation::Read]);
    assert_eq!(grant.operations, vec![Operation::Read]);
    let m = measure(AggregateFunction::Sum, "total", Some("amount"));
    assert_eq!(m.property.as_ref().expect("property").as_str(), "amount");
    assert!(!m.distinct);
    let view = aggregate_view("totals", "order", vec![m]);
    assert!(view.require_pushdown);
    assert_eq!(view.measures.len(), 1);
    let bucket = time_bucket("created_at", "1d");
    assert_eq!(bucket.interval, "1d");
    let extent = spatial_extent("location", "bbox");
    assert_eq!(extent.output, "bbox");
}

#[test]
fn custom_tools_are_appended() {
    let agent = AgentBuilder::new("helper").custom_tool("lookup").custom_tool("notify").build();
    let names: Vec<&str> = agent.custom_tools.iter().map(|t| t.as_str()).collect();
    assert_eq!(names, vec!["lookup", "notify"]);
}

#[test]
fn action_metadata_order_does_not_matter() {
    let a = ActionBuilder::new("welcome")
        .metadata("owner", serde_json::Value::from("crm"))
        .metadata("tier", serde_json::Value::from(2))
        .build();
    let b = ActionBuilder::new("welcome")
        .metadata("tier", serde_json::Value::from(2))
        .metadata("owner", serde_json::Value::from("crm"))
        .build();
    assert_eq!(a.metadata.as_ref().unwrap().entries(), b.metadata.as_ref().unwrap().entries());
    let c = ActionBuilder::new("welcome")
        .metadata("tier", serde_json::Value::from(1))
        .metadata("tier", serde_json::Value::from(2))
        .build();
    assert_eq!(c.metadata.as_ref().unwrap().get("tier"), Some(&serde_json::Value::from(2)));
}
