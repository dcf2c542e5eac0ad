//! What the gateway's entry points compute: process-wide counters, the
//! status snapshot, and the OpenAI-shaped responses built around an answer
//! or an error. The HTTP routing around these lives outside the library.

use vstd::prelude::*;
use crate::config::AppConfig;
use crate::openai_types::{ChatCompletionResponse, Choice, MessageResponse, Usage};

verus! {

/// The configured budgets, as the status page reports them.
pub struct RateLimits {
    pub max_requests_per_minute: u32,
    pub max_tokens_per_minute: u32,
}

/// The running totals, as the status page reports them.
pub struct SystemStats {
    pub total_requests: u64,
    pub total_tokens: u64,
    pub active_ips: usize,
}

/// One status snapshot.
pub struct SystemStatus {
    pub version: String,
    pub uptime_seconds: u64,
    pub server_port: u16,
    pub rate_limits: RateLimits,
    pub stats: SystemStats,
}

/// The process-wide request and token totals.
pub struct SystemCounters {
    pub total_requests: u64,
    pub total_tokens: u64,
}

impl SystemCounters {
    /// Counters at process start: both totals zero.
    pub fn new() -> (c: Self)
        ensures
            c.total_requests == 0,
            c.total_tokens == 0,
    {
        SystemCounters { total_requests: 0, total_tokens: 0 }
    }

    /// Counts one more request; the total saturates rather than wrap.
    pub fn increment_request_count(&mut self)
        ensures
            final(self).total_requests == if old(self).total_requests < u64::MAX {
                old(self).total_requests + 1
            } else {
                u64::MAX as int
            },
            final(self).total_tokens == old(self).total_tokens,
    {
        if self.total_requests < u64::MAX {
            self.total_requests = self.total_requests + 1;
        }
    }

    /// Adds a request's tokens to the total; the total saturates rather
    /// than wrap.
    pub fn add_tokens(&mut self, tokens: u64)
        ensures
            final(self).total_tokens == if old(self).total_tokens + tokens <= u64::MAX {
                old(self).total_tokens + tokens
            } else {
                u64::MAX as int
            },
            final(self).total_requests == old(self).total_requests,
    {
        if tokens <= u64::MAX - self.total_tokens {
            self.total_tokens = self.total_tokens + tokens;
        } else {
            self.total_tokens = u64::MAX;
        }
    }
}

/// The status snapshot for the configured budgets, the given totals and the
/// given uptime.
pub fn get_status(
    config: &AppConfig,
    counters: &SystemCounters,
    uptime_seconds: u64,
    active_ips: usize,
    version: String,
) -> (s: SystemStatus)
    ensures
        s.version == version,
        s.uptime_seconds == uptime_seconds,
        s.server_port == config.server_port,
        s.rate_limits.max_requests_per_minute == config.max_requests_per_minute,
        s.rate_limits.max_tokens_per_minute == config.max_tokens_per_minute,
        s.stats.total_requests == counters.total_requests,
        s.stats.total_tokens == counters.total_tokens,
        s.stats.active_ips == active_ips,
{
    SystemStatus {
        version,
        uptime_seconds,
        server_port: config.server_port,
        rate_limits: RateLimits {
            max_requests_per_minute: config.max_requests_per_minute,
            max_tokens_per_minute: config.max_tokens_per_minute,
        },
        stats: SystemStats {
            total_requests: counters.total_requests,
            total_tokens: counters.total_tokens,
            active_ips,
        },
    }
}

/// A completion id in the `chatcmpl-` namespace around a fresh UUID.
pub fn completion_id(uuid: String) -> (r: String)
    ensures
        r@ == "chatcmpl-"@ + uuid@,
{
    let mut r = String::from_str("chatcmpl-");
    r.append(uuid.as_str());
    r
}

/// The OpenAI-shaped response around a successful answer: one choice with
/// the assistant's content, finish reason "stop", and the token accounting.
pub fn build_success_response(
    id: String,
    created: i64,
    content: String,
    prompt_tokens: i64,
    completion_tokens: i64,
) -> (r: ChatCompletionResponse)
    requires
        0 <= prompt_tokens,
        0 <= completion_tokens,
        prompt_tokens + completion_tokens <= i64::MAX,
    ensures
        r.id == id,
        r.object@ == "chat.completion"@,
        r.created == created,
        r.choices@.len() == 1,
        r.choices@[0].index == 0,
        r.choices@[0].message.role@ == "assistant"@,
        r.choices@[0].message.content == content,
        r.choices@[0].finish_reason@ == "stop"@,
        r.usage matches Some(u) && u.prompt_tokens == prompt_tokens && u.completion_tokens
            == completion_tokens && u.total_tokens == prompt_tokens + completion_tokens,
{
    let mut choices: Vec<Choice> = Vec::new();
    choices.push(
        Choice {
            index: 0,
            message: MessageResponse {
                role: String::from_str("assistant"),
                content,
            },
            finish_reason: String::from_str("stop"),
        },
    );
    ChatCompletionResponse {
        id,
        object: String::from_str("chat.completion"),
        created,
        choices,
        usage: Some(
            Usage {
                prompt_tokens,
                completion_tokens,
                total_tokens: prompt_tokens + completion_tokens,
            },
        ),
    }
}

/// The tolerant response around a failed upstream call: one choice whose
/// content wraps the error detail, finish reason "error", and no usage.
pub fn build_error_response(id: String, created: i64, error_detail: String) -> (r:
    ChatCompletionResponse)
    ensures
        r.id == id,
        r.object@ == "chat.completion"@,
        r.created == created,
        r.choices@.len() == 1,
        r.choices@[0].index == 0,
        r.choices@[0].message.role@ == "assistant"@,
        r.choices@[0].message.content@ == "Error: "@ + error_detail@,
        r.choices@[0].finish_reason@ == "error"@,
        r.usage is None,
{
    let mut content = String::from_str("Error: ");
    content.append(error_detail.as_str());
    let mut choices: Vec<Choice> = Vec::new();
    choices.push(
        Choice {
            index: 0,
            message: MessageResponse {
                role: String::from_str("assistant"),
                content,
            },
            finish_reason: String::from_str("error"),
        },
    );
    ChatCompletionResponse {
        id,
        object: String::from_str("chat.completion"),
        created,
        choices,
        usage: None,
    }
}

/// Relies on std::time::SystemTime::now and duration_since: the Unix
/// timestamp in whole seconds, never negative; a clock before the epoch
/// reads as zero.
#[verifier::external_body]
pub fn current_timestamp() -> (t: i64)
    ensures
        0 <= t,
{
    match std::time::SystemTime::now().duration_since(std::time::UNIX_EPOCH) {
        Ok(d) => i64::try_from(d.as_secs()).unwrap_or(i64::MAX),
        Err(_) => 0,
    }
}

} // verus!
