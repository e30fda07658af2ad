//! The logic of Papr, an RSS reader with a command line for agents: what its
//! commands say, how it keeps in step with sync servers, refreshes feeds,
//! reads and writes subscription lists, turns HTML into text and batches, and
//! what it asks of language models, translation services and note services.
//!
//! What the library needs of the world it takes as plain values and asks for
//! as plain values: a request is a [`net::Request`], its outcome a
//! [`net::Reply`], and work that alternates with a database or a network is a
//! run, with an `action` that says what is needed next and an `answer` that
//! takes what came of it.

pub mod ai;
pub mod assistant;
pub mod chunk;
pub mod cli;
pub mod commands;
pub mod course;
pub mod desktop;
pub mod error;
pub mod export;
pub mod greader;
pub mod json;
pub mod manage;
pub mod markup;
pub mod models;
pub mod net;
pub mod opml;
pub mod sanitize;
pub mod scheduler;
pub mod subscribe;
pub mod sync;
pub mod text;
pub mod toon;
pub mod translate;
pub mod translate_api;
pub mod translate_llm;
