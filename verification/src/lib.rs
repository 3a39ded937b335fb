//! Core of a service that lets scripted AI characters speak on a schedule:
//! the ChatML transcript codec, the per-step prompt assembly, the decisions
//! of a multi-step workflow run, and the registry of cron-timed jobs.

pub mod ai_services;
pub mod chatml;
pub mod job_scheduler;
pub mod llm_prompt;
pub mod models;
pub mod text;
pub mod utils;
pub mod workflow;
