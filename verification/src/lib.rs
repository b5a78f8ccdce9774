//! Orchestration logic of the `cargo vibe` tool family: parsing of companion-tool
//! reports into findings, aggregation, command planning and the guided fix loop.
pub mod text;
pub mod finding;
pub mod risk_report;
pub mod tool_json;
pub mod report;
pub mod orchestrator;
pub mod commands;
