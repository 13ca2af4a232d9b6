//! The decision logic of a self-hosted actions runner.
pub mod action_command;
pub mod action_result;
pub mod artifact_plugins;
pub mod broker_message_listener;
pub mod checks;
pub mod clock;
pub mod codec;
pub mod command_settings;
pub mod config_manager;
pub mod config_store;
pub mod constants;
pub mod credential_data;
pub mod credential_provider;
pub mod encoding_util;
pub mod error_throttler;
pub mod exceptions;
pub mod file_container_server;
pub mod host_context;
pub mod http_client_factory;
pub mod job_dispatcher;
pub mod job_notification;
pub mod logging;
pub mod message_listener;
pub mod message_loop;
pub mod node_util;
pub mod number;
pub mod oauth;
pub mod pipelines_server;
pub mod plugin_host;
pub mod polling;
pub mod process_channel;
pub mod prompt_manager;
pub mod rsa_key_manager;
pub mod runner;
pub mod runner_config_updater;
pub mod runner_service;
pub mod secret_masker;
pub mod self_updater;
pub mod service_control_manager;
pub mod session_retry;
pub mod string_map;
pub mod task_result_util;
pub mod terminal;
pub mod text;
pub mod tracing;
pub mod url_parts;
pub mod validators;
pub mod var_util;
pub mod worker_run;
