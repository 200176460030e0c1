pub mod content;
pub mod crawlers;
pub mod fetchers;
pub mod links;
pub mod markup;
pub mod orchestrator;
pub mod serialize;
pub mod text;
pub mod types;
