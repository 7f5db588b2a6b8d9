//! Requests to the completion endpoint: the messages to send and the fixed
//! sampling settings.

use vstd::prelude::*;
use crate::history::History;
use crate::message::{Message, Role, message_of};

verus! {

/// Sampling settings of a request. Fractional settings are held in
/// hundredths: a temperature of 0.7 is 70.
#[derive(Clone, Copy, Debug, PartialEq, Eq, Structural)]
pub struct SamplingConfig {
    pub max_tokens: u32,
    pub temperature_percent: u32,
    pub top_p_percent: u32,
    pub frequency_penalty_percent: i32,
    pub presence_penalty_percent: i32,
}

impl SamplingConfig {
    /// The settings every request uses: temperature 0.7, top-p 1.0, no
    /// penalties, and the given budget of output tokens.
    pub fn standard(max_tokens: u32) -> (r: SamplingConfig)
        ensures
            r == (SamplingConfig {
                max_tokens,
                temperature_percent: 70,
                top_p_percent: 100,
                frequency_penalty_percent: 0,
                presence_penalty_percent: 0,
            }),
    {
        SamplingConfig {
            max_tokens,
            temperature_percent: 70,
            top_p_percent: 100,
            frequency_penalty_percent: 0,
            presence_penalty_percent: 0,
        }
    }
}

/// One request: the conversation so far with the new prompt last, and the
/// sampling settings.
pub struct Request {
    pub messages: Vec<Message>,
    pub config: SamplingConfig,
}

/// The request for a new prompt: every message of the history, in order,
/// then the prompt as a user message. An empty history gives a request of
/// the prompt alone.
pub fn build_request(history: &History, prompt: &str, config: SamplingConfig) -> (r: Request)
    ensures
        r.messages@.map_values(|m: Message| m@) == history@.push(message_of(Role::User, prompt@)),
        r.config == config,
{
    Request { messages: history.request_messages(prompt), config }
}

} // verus!
