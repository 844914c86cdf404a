mod text;
mod seqs;
pub mod translate;
pub mod protocol;
pub mod model;
pub mod sdk;
pub mod platform;
pub mod zlplugin;
pub mod candidates;
pub mod pipeline;
pub mod host_api;
