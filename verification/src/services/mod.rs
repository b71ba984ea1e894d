pub mod agent_orchestrator_service;
pub mod content_extractor;
pub mod orchestrator_steps;
pub mod page_structure;
pub mod model_service;
pub mod quiz_attempt_service;
pub mod quiz_service;
pub mod step_executor;
pub mod summary_document_service;
pub mod user_service;
