//! The crude character-count token estimator: roughly one token per four
//! characters, plus a small fixed overhead per message and per request.

use vstd::prelude::*;
use crate::openai_types::{ChatCompletionRequest, Message};

verus! {

/// The estimate a list of messages contributes: four tokens of metadata per
/// message plus a quarter of its character count.
pub open spec fn messages_estimate(msgs: Seq<Message>) -> int
    decreases msgs.len(),
{
    if msgs.len() == 0 {
        0
    } else {
        messages_estimate(msgs.drop_last()) + 4 + msgs.last().content@.len() as int / 4
    }
}

/// The estimate of a whole request: its messages plus eight tokens of
/// request metadata.
pub open spec fn request_estimate(req: ChatCompletionRequest) -> int {
    8 + messages_estimate(req.messages@)
}

proof fn lemma_messages_estimate_monotone(msgs: Seq<Message>, i: int)
    requires
        0 <= i <= msgs.len(),
    ensures
        messages_estimate(msgs.take(i)) <= messages_estimate(msgs),
        0 <= messages_estimate(msgs.take(i)),
    decreases msgs.len() - i,
{
    if i == msgs.len() {
        assert(msgs.take(i) =~= msgs);
        lemma_messages_estimate_nonneg(msgs);
    } else {
        assert(msgs.take(i + 1).drop_last() =~= msgs.take(i));
        lemma_messages_estimate_monotone(msgs, i + 1);
        lemma_messages_estimate_nonneg(msgs.take(i));
    }
}

proof fn lemma_messages_estimate_nonneg(msgs: Seq<Message>)
    ensures
        0 <= messages_estimate(msgs),
    decreases msgs.len(),
{
    if msgs.len() > 0 {
        lemma_messages_estimate_nonneg(msgs.drop_last());
    }
}

/// Estimates the tokens a request will cost upstream.
pub fn estimate_token_count(req: &ChatCompletionRequest) -> (tokens: i64)
    requires
        request_estimate(*req) <= i64::MAX,
    ensures
        tokens == request_estimate(*req),
{
    let mut tokens: i64 = 8;
    let mut i: usize = 0;
    while i < req.messages.len()
        invariant
            i <= req.messages@.len(),
            tokens == 8 + messages_estimate(req.messages@.take(i as int)),
            request_estimate(*req) <= i64::MAX,
        decreases req.messages@.len() - i,
    {
        proof {
            assert(req.messages@.take(i + 1 as int).drop_last() =~= req.messages@.take(i as int));
            assert(req.messages@.take(i + 1 as int).last() == req.messages@[i as int]);
            lemma_messages_estimate_monotone(req.messages@, i + 1 as int);
            lemma_messages_estimate_monotone(req.messages@, i as int);
        }
        let n = req.messages[i].content.as_str().unicode_len();
        proof {
            assert(n as int / 4 <= n as int) by (nonlinear_arith);
        }
        let quarter = (n / 4) as i64;
        tokens = tokens + 4 + quarter;
        i = i + 1;
    }
    proof {
        assert(req.messages@.take(req.messages@.len() as int) =~= req.messages@);
    }
    tokens
}

/// Estimates the tokens of a piece of answer text: one per four characters.
pub fn estimate_token_count_str(text: &str) -> (tokens: i64)
    ensures
        tokens == text@.len() as int / 4,
{
    let n = text.unicode_len();
    proof {
        assert(n as int / 4 <= n as int) by (nonlinear_arith);
    }
    (n / 4) as i64
}

} // verus!
