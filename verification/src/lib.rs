//! Verified decision and parsing logic of the EVA ICS services and tools.
pub mod api;
pub mod apilog;
pub mod bulk;
pub mod call_parser;
pub mod cleaner;
pub mod cloud;
pub mod data;
pub mod decimal;
pub mod deploy;
pub mod dump;
pub mod expiration;
pub mod extract;
pub mod filewriter;
pub mod hmi_methods;
pub mod hex;
pub mod history;
pub mod i18n;
pub mod intl;
pub mod launcher;
pub mod mailer;
pub mod manifest;
pub mod modbus;
pub mod nodes;
pub mod paths;
pub mod pipeline;
pub mod pvt;
pub mod repl_calls;
pub mod serve;
pub mod streams;
pub mod target;
pub mod text;
pub mod token;
pub mod tracing;
pub mod urls;
pub mod web;
pub mod websockets;
