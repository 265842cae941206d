//! Telegram bot configuration.
use vstd::prelude::*;

use crate::text::concat4;

verus! {

/// Where notifications go.
#[derive(Clone, Debug)]
pub struct TelegramConfig {
    pub token: String,
    pub chat_id: i64,
    pub thread_id: Option<i64>,
}

impl TelegramConfig {
    /// The Bot API address of `method`: `https://api.telegram.org/bot<token>/<method>`.
    pub fn url(&self, method: &str) -> (r: String)
        ensures
            r@ == "https://api.telegram.org/bot"@ + self.token@ + "/"@ + method@,
    {
        concat4("https://api.telegram.org/bot", self.token.as_str(), "/", method)
    }
}

} // verus!
