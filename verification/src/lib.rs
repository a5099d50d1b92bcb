//! Queueing, scheduling and publication rules of a service that watches YouTube channels,
//! prepares their videos with translated subtitles and submits them to Bilibili.
#![allow(unused_imports)]

pub mod admin;
pub mod batching;
pub mod bilibili;
pub mod candidates;
pub mod captions;
pub mod cc;
pub mod channels;
pub mod check;
pub mod clock;
pub mod config;
pub mod course;
pub mod discovery;
pub mod fault;
pub mod gate;
pub mod hold;
pub mod jobs;
pub mod json;
pub mod ledger;
pub mod limits;
pub mod markup;
pub mod model;
pub mod order;
pub mod pi;
pub mod poll;
pub mod prepare;
pub mod prune;
pub mod publication;
pub mod queue;
pub mod recovery;
pub mod reply;
pub mod retry;
pub mod rows;
pub mod schedule;
pub mod schema;
pub mod segment;
pub mod settings;
pub mod store;
pub mod submit;
pub mod subtitle;
pub mod text;
pub mod translate;
pub mod uploads;
pub mod wording;
pub mod youtube;
