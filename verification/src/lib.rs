//! Ontology primitives, definition builders and runtime decision logic.

pub mod primitives;
pub mod tools;
pub mod workflow;
pub mod context;
pub mod text;
pub mod ir;
pub mod builders;
pub mod secrets;
pub mod store;
pub mod runtime;
pub mod pipeline;
pub mod pipeline_run;
pub mod transform;
pub mod search;
pub mod condition;
pub mod agent_tools;
pub mod agents;
pub mod agent_loop;
pub mod upload_mapping;
pub mod versioning;
pub mod evals;
pub mod records;
pub mod ports;
pub mod lineage;
pub mod jobs;
pub mod computed;
pub mod interceptors;
pub mod encrypt;
pub mod mutation;
pub mod audit;
pub mod events;
pub mod http;
pub mod memory_store;
