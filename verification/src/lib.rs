//! Lecture catalogue of a university: degree programs, lecture records scraped
//! from listing and detail pages, and a repository that keeps several data
//! sources in step.
//!
//! The library neither fetches pages nor touches files or databases. It
//! decides what is fetched, read and written, and what the answers mean; the
//! caller does the fetching, reading and writing.

pub mod cache;
pub mod cli;
pub mod client;
pub mod config;
pub mod cooperative;
pub mod database;
pub mod datasource;
pub mod entities;
pub mod json;
pub mod markup;
pub mod repository;
pub mod scrape;
pub mod service;
pub mod sources;
pub mod store;
pub mod text;

pub use crate::client::LectureClient;
pub use crate::config::Config;
pub use crate::entities::Degree;
pub use crate::entities::Degrees;
pub use crate::entities::Lecture;
pub use crate::entities::StaticDegree;
