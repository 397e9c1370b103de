pub mod error;

pub mod text;
pub mod circuit_breaker;
pub mod assoc;
pub mod sys;
pub mod config;
pub mod agent_manager;
pub mod shortcuts;
pub mod pattern;
pub mod workspace;
pub mod project_handler;
pub mod router;
pub mod providers;
pub mod memory;
pub mod messages;
pub mod workspace_events;
pub mod whitelist;
pub mod task_tracker;
pub mod launcher;
pub mod chat;
pub mod panels;
pub mod sessions;
pub mod openclaw;
pub mod chat_format;
pub mod logging;
pub mod onboarding;
pub mod redaction;
pub mod views;
