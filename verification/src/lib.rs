pub mod cache;
pub mod conversations;
pub mod diff;
pub mod edit;
pub mod history;
pub mod locate;
pub mod models;
pub mod parser;
pub mod render;
pub mod report;
pub mod rpc;
pub mod settings;
pub mod state;
pub mod stream;
pub mod text;
pub mod types;
