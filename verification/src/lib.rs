//! Conversation runtime rules of the Mahayana command line and its embedded shells.

pub mod agent;
pub mod agent_laws;
pub mod cli;
pub mod cli_stream;
pub mod codex_backend;
pub mod codex_config;
pub mod codex_tools;
pub mod codex_turns;
pub mod command_laws;
pub mod json;
pub mod json_text;
pub mod mcp_server;
pub mod miniapp;
pub mod miniapp_html;
pub mod model;
pub mod model_reply;
pub mod official;
pub mod order;
pub mod path;
pub mod path_join;
pub mod plugin_dev;
pub mod plugin_laws;
pub mod plugin_name;
pub mod plugin_plan;
pub mod plugin_template;
pub mod product;
pub mod product_client;
pub mod product_laws;
pub mod product_replies;
pub mod product_requests;
pub mod product_values;
pub mod responses_agent;
pub mod text;
pub mod text_laws;
pub mod text_map;
pub mod turn_laws;
pub mod url_text;
pub mod web;
pub mod web_laws;
