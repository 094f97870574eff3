//! Chat-command interpretation for a streaming bot: splitting chat lines into
//! tokens and resolving the first token against a catalog of known commands,
//! tolerating small typos; with the bot's own small rules beside it (viewer
//! ranks, spam in first messages, pacing of spoken messages).

pub mod commands;
pub mod distance;
pub mod moderation;
pub mod quotes;
pub mod ranks;
pub mod resolver;
pub mod speech;
pub mod tokenizer;
