//! The decision core of a voice front end for a desktop agent.

pub mod action;
pub mod activation;
pub mod agent_events;
pub mod agent_loop;
pub mod attempt;
pub mod audio;
pub mod budget;
pub mod client;
pub mod daemon;
pub mod evidence;
pub mod failure;
pub mod follow;
pub mod goal;
pub mod headless;
pub mod hud;
pub mod inbox;
pub mod island;
pub mod json;
pub mod json_text;
pub mod launch;
pub mod memory;
pub mod paths;
pub mod plan;
pub mod poll;
pub mod progress;
pub mod response;
pub mod scene;
pub mod seconds;
pub mod spacing;
pub mod speech;
pub mod step;
pub mod text;
pub mod time;
pub mod trace;
pub mod transcript;
pub mod turn;
pub mod ui_state;
