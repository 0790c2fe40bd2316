//! Verified core of Codex Tools.

pub mod account_laws;
pub mod accounts;
pub mod activation;
pub mod answer_laws;
pub mod byte_stream;
pub mod capability;
pub mod change_laws;
pub mod chat_request;
pub mod closing_laws;
pub mod codex_document;
pub mod codex_files;
pub mod codex_preview;
pub mod completion;
pub mod config_manager;
pub mod content;
pub mod cutting;
pub mod document_laws;
pub mod events;
pub mod exchange;
pub mod headers;
pub mod ids;
pub mod json;
pub mod maintenance;
pub mod message_laws;
pub mod models;
pub mod one_chunk;
pub mod order;
pub mod piece_laws;
pub mod providers;
pub mod proxy;
pub mod proxy_laws;
pub mod pump;
pub mod quota;
pub mod quota_laws;
pub mod quota_rounds;
pub mod reasoning;
pub mod reasoning_laws;
pub mod request;
pub mod request_laws;
pub mod response;
pub mod round_laws;
pub mod rounds;
pub mod sessions;
pub mod spoken_stream;
pub mod sse;
pub mod stream;
pub mod stream_end;
pub mod stream_items;
pub mod stream_laws;
pub mod stream_sums;
pub mod support;
pub mod switching;
pub mod text;
pub mod text_laws;
pub mod told_answer;
pub mod toml;
pub mod usage;
pub mod whole_stream;
