pub mod text;
pub mod utf16;
pub mod word_chars;
pub mod authorization;
pub mod convert;
pub mod element;
pub mod entities;
pub mod error;
pub mod event;
pub mod file_id;
pub mod infos;
pub mod markup;
pub mod markup_roundtrip;
pub mod message_receive;
pub mod message_send;
pub mod publisher;
pub mod settings;
pub mod telegram;
pub mod types;
pub mod upload;
