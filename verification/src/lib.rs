//! The verified core of Ralph, a looping harness for hands-off agent workflows.

pub mod acp;
pub mod agent;
pub mod claude;
pub mod cli;
pub mod commands;
pub mod config;
pub mod dag;
pub mod feature;
pub mod feature_prompts;
pub mod init;
pub mod interrupt;
pub mod journal;
pub mod knowledge;
pub mod order;
pub mod output;
pub mod project;
pub mod review;
pub mod run_loop;
pub mod sandbox;
pub mod seqs;
pub mod strategy;
pub mod text;
