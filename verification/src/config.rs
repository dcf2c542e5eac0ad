//! The configuration bundle and the parsing of its numeric knobs.
//!
//! Reading the process environment stays outside the library; the raw texts
//! are handed in, and the defaulting and decimal parsing are verified here.

use vstd::prelude::*;

verus! {

/// The gateway's configuration: the two credentials, the server port, and
/// the two per-minute budgets.
#[derive(Clone)]
pub struct AppConfig {
    pub chatgpt_session_token: String,
    pub chatgpt_authorization: String,
    pub server_port: u16,
    pub max_requests_per_minute: u32,
    pub max_tokens_per_minute: u32,
}

/// Text that is one or more decimal digits and nothing else.
pub open spec fn is_digits(s: Seq<char>) -> bool {
    s.len() > 0 && forall|i: int| 0 <= i < s.len() ==> '0' <= #[trigger] s[i] <= '9'
}

/// The number the decimal digits of `s` write.
pub open spec fn digits_value(s: Seq<char>) -> int
    decreases s.len(),
{
    if s.len() == 0 {
        0
    } else {
        digits_value(s.drop_last()) * 10 + (s.last() as int - '0' as int)
    }
}

/// What a numeric configuration text means: its decimal value when it is all
/// digits and fits the type, and otherwise the given default.
pub open spec fn parsed_u32_or(s: Seq<char>, default: u32) -> u32 {
    if is_digits(s) && digits_value(s) <= u32::MAX {
        digits_value(s) as u32
    } else {
        default
    }
}

/// As `parsed_u32_or`, against the range of a port number.
pub open spec fn parsed_u16_or(s: Seq<char>, default: u16) -> u16 {
    if is_digits(s) && digits_value(s) <= u16::MAX {
        digits_value(s) as u16
    } else {
        default
    }
}

proof fn lemma_digits_value_nonneg(s: Seq<char>)
    requires
        forall|i: int| 0 <= i < s.len() ==> '0' <= #[trigger] s[i] <= '9',
    ensures
        0 <= digits_value(s),
    decreases s.len(),
{
    if s.len() > 0 {
        lemma_digits_value_nonneg(s.drop_last());
    }
}

proof fn lemma_digits_value_monotone(s: Seq<char>, i: int)
    requires
        forall|k: int| 0 <= k < s.len() ==> '0' <= #[trigger] s[k] <= '9',
        0 <= i <= s.len(),
    ensures
        digits_value(s.take(i)) <= digits_value(s),
    decreases s.len() - i,
{
    if i == s.len() {
        assert(s.take(i) =~= s);
    } else {
        assert(s.take(i + 1).drop_last() =~= s.take(i));
        lemma_digits_value_nonneg(s.take(i));
        lemma_digits_value_monotone(s, i + 1);
    }
}

/// The value of an all-digits text, or `default` when the text is empty,
/// holds any other character, or exceeds the type's range.
pub fn parse_u32_or(s: &str, default: u32) -> (r: u32)
    ensures
        r == parsed_u32_or(s@, default),
{
    let n = s.unicode_len();
    if n == 0 {
        return default;
    }
    let mut val: u64 = 0;
    let mut i: usize = 0;
    while i < n
        invariant
            i <= n,
            n == s@.len(),
            0 < n,
            forall|k: int| 0 <= k < i ==> '0' <= #[trigger] s@[k] <= '9',
            val == digits_value(s@.take(i as int)),
            val <= u32::MAX,
        decreases n - i,
    {
        let c = s.get_char(i);
        if c < '0' || c > '9' {
            return default;
        }
        let d = (c as u32) - ('0' as u32);
        proof {
            assert(s@.take(i + 1 as int).drop_last() =~= s@.take(i as int));
            assert(s@.take(i + 1 as int).last() == c);
        }
        val = val * 10 + (d as u64);
        if val > (u32::MAX as u64) {
            proof {
                if is_digits(s@) {
                    lemma_digits_value_monotone(s@, i + 1 as int);
                }
            }
            return default;
        }
        i = i + 1;
    }
    proof {
        assert(s@.take(n as int) =~= s@);
    }
    val as u32
}

/// As `parse_u32_or`, against the range of a port number.
pub fn parse_u16_or(s: &str, default: u16) -> (r: u16)
    ensures
        r == parsed_u16_or(s@, default),
{
    let n = s.unicode_len();
    if n == 0 {
        return default;
    }
    let mut val: u64 = 0;
    let mut i: usize = 0;
    while i < n
        invariant
            i <= n,
            n == s@.len(),
            0 < n,
            forall|k: int| 0 <= k < i ==> '0' <= #[trigger] s@[k] <= '9',
            val == digits_value(s@.take(i as int)),
            val <= u16::MAX,
        decreases n - i,
    {
        let c = s.get_char(i);
        if c < '0' || c > '9' {
            return default;
        }
        let d = (c as u32) - ('0' as u32);
        proof {
            assert(s@.take(i + 1 as int).drop_last() =~= s@.take(i as int));
            assert(s@.take(i + 1 as int).last() == c);
        }
        val = val * 10 + (d as u64);
        if val > (u16::MAX as u64) {
            proof {
                if is_digits(s@) {
                    lemma_digits_value_monotone(s@, i + 1 as int);
                }
            }
            return default;
        }
        i = i + 1;
    }
    proof {
        assert(s@.take(n as int) =~= s@);
    }
    val as u16
}

impl AppConfig {
    /// Builds the configuration from the raw environment texts. The port
    /// defaults to 3000, the request budget to 60 per minute, and the token
    /// budget to 40000 per minute, also when the given text does not parse.
    pub fn from_parts(
        chatgpt_session_token: String,
        chatgpt_authorization: String,
        server_port: Option<String>,
        max_requests_per_minute: Option<String>,
        max_tokens_per_minute: Option<String>,
    ) -> (c: AppConfig)
        ensures
            c.chatgpt_session_token == chatgpt_session_token,
            c.chatgpt_authorization == chatgpt_authorization,
            c.server_port == match server_port {
                Some(s) => parsed_u16_or(s@, 3000),
                None => 3000,
            },
            c.max_requests_per_minute == match max_requests_per_minute {
                Some(s) => parsed_u32_or(s@, 60),
                None => 60,
            },
            c.max_tokens_per_minute == match max_tokens_per_minute {
                Some(s) => parsed_u32_or(s@, 40000),
                None => 40000,
            },
    {
        let port: u16 = match &server_port {
            Some(s) => parse_u16_or(s.as_str(), 3000),
            None => 3000,
        };
        let reqs: u32 = match &max_requests_per_minute {
            Some(s) => parse_u32_or(s.as_str(), 60),
            None => 60,
        };
        let toks: u32 = match &max_tokens_per_minute {
            Some(s) => parse_u32_or(s.as_str(), 40000),
            None => 40000,
        };
        AppConfig {
            chatgpt_session_token,
            chatgpt_authorization,
            server_port: port,
            max_requests_per_minute: reqs,
            max_tokens_per_minute: toks,
        }
    }
}

} // verus!
