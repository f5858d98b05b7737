//! The logic of the node manager, the server that sets up and manages a Holo node.
//!
//! The library decides and the program around it acts. A request comes in as
//! text; what has to be known from outside (the content of a file, the output of
//! a command, the time, random bytes, a digest) comes in as an argument; what is
//! to be done comes out as a list of [`effects::Effect`] and the answer as a
//! [`http::Reply`]. Where an answer depends on something that has to be done
//! first, the work is split into steps: a function names the step, the program
//! carries it out, and another function takes the result.
//!
//! - Text: [`text`], [`split`], [`number`], [`escape`], [`json`], [`url`]
//! - Requests and answers: [`request`], [`http`], [`routes`]
//! - Who may do what: [`auth`], [`seed`], [`sessions`]
//! - What the node remembers: [`store`], [`state`], [`ssh`], [`deployments`]
//! - What it runs: [`config`], [`images`], [`quadlet`], [`happs`], [`update`]
//! - What requests lead to: [`handlers`], [`happ_handlers`]
//! - Pages: [`pages`], [`manage_page`]
//!
//! The contracts speak of text as sequences of characters. Functions named
//! `law_...` state what holds of several functions together, and modules named
//! `..._laws` hold such functions alone: [`number_laws`] of numbers and times,
//! [`request_laws`] of what is read from requests, [`answer_laws`], [`list_laws`] and
//! [`page_laws`] of what is answered, [`deployment_laws`] and [`happ_laws`] of
//! applications, [`release_laws`] of releases and images, [`unit_laws`] and
//! [`service_laws`] of the containers, [`handler_laws`] and [`setting_laws`] of setting
//! up and managing the node.
pub mod answer_laws;
pub mod auth;
pub mod calendar;
pub mod config;
pub mod deployment_laws;
pub mod deployments;
pub mod effects;
pub mod escape;
pub mod handler_laws;
pub mod handlers;
pub mod happ_handlers;
pub mod happ_laws;
pub mod happs;
pub mod http;
pub mod images;
pub mod json;
pub mod list_laws;
pub mod manage_page;
pub mod number;
pub mod number_laws;
pub mod page_laws;
pub mod pages;
pub mod quadlet;
pub mod release_laws;
pub mod request;
pub mod request_laws;
pub mod routes;
pub mod seed;
pub mod service_laws;
pub mod sessions;
pub mod setting_laws;
pub mod split;
pub mod ssh;
pub mod state;
pub mod store;
pub mod text;
pub mod unit_laws;
pub mod update;
pub mod url;
