//! Command-line logic for serial-port and XBee work.
pub mod args;
pub mod bytes;
pub mod command_line;
pub mod commands;
pub mod config;
pub mod config_file;
pub mod config_load;
pub mod control;
pub mod control_laws;
pub mod control_prompt;
pub mod control_questions;
pub mod control_settings;
pub mod dashboard;
pub mod display;
pub mod display_laws;
pub mod file_laws;
pub mod flags;
pub mod format;
pub mod help;
pub mod help_text;
pub mod input_laws;
pub mod io;
pub mod io_command;
pub mod io_prompt;
pub mod io_questions;
pub mod io_settings;
pub mod json;
pub mod json_laws;
pub mod key_laws;
pub mod log_laws;
pub mod menu;
pub mod menu_laws;
pub mod merge;
pub mod mock_state;
pub mod module_laws;
pub mod monitor;
pub mod observe;
pub mod options_laws;
pub mod output_plan;
pub mod outputs;
pub mod packet;
pub mod packet_laws;
pub mod paths;
pub mod pipeline;
pub mod pipeline_config;
pub mod ports;
pub mod program_laws;
pub mod prompt_laws;
pub mod replay;
pub mod report_laws;
pub mod results;
pub mod round_trip;
pub mod route;
pub mod route_laws;
pub mod route_pipeline;
pub mod rtt;
pub mod rtt_laws;
pub mod rtt_report;
pub mod rtt_round;
pub mod rtt_run;
pub mod rtt_session;
pub mod rtt_wire;
pub mod run_laws;
pub mod runtime;
pub mod send;
pub mod send_prompt;
pub mod send_run;
pub mod send_settings;
pub mod session;
pub mod settings;
pub mod settings_laws;
pub mod state_laws;
pub mod states;
pub mod table;
pub mod text;
pub mod text_laws;
pub mod ufv2;
pub mod update;
pub mod version;
pub mod watch_laws;
pub mod xbee_mock;
pub mod xbee_mock_driver;
pub mod xbee_mock_laws;
pub mod xbee_mock_plan;
pub mod xbee_talk;
