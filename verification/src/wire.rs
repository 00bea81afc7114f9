//! The wire codec of each envelope: JSON objects with a fixed field order,
//! printed and parsed character by character.
//!
//! For every envelope `X` there are a printed form `spec_enc_x`, a strict
//! reader `sp_obj_x` (returning the leftover input, so objects can nest), an
//! executable `encode_x` / `decode_x` pair tied exactly to those spec
//! functions, and two laws: decoding an encoded envelope yields it back, and
//! any text that decodes is the encoding of its value.

use vstd::prelude::*;

use crate::codec::{
    enc_opt_str_field, enc_str_arr_field, enc_str_field, enc_u32_arr_field, enc_u32_field,
    enc_u64_field, enc_opt_u32_arr_field, lemma_key_opt_str_complete, lemma_key_opt_str_sound,
    lemma_key_opt_u32_arr_complete, lemma_key_opt_u32_arr_sound, lemma_key_str_arr_complete,
    lemma_key_str_arr_sound, lemma_key_str_complete, lemma_key_str_sound,
    lemma_key_u32_arr_complete, lemma_key_u32_arr_sound, lemma_key_u32_complete,
    lemma_key_u32_sound, lemma_key_u64_complete, lemma_key_u64_sound, pf_opt_str, pf_opt_u32_arr,
    pf_str, pf_str_arr, pf_u32, pf_u32_arr, pf_u64, push_opt_str_field, push_opt_u32_arr_field,
    push_str_arr_field, push_str_field, push_u32_arr_field, push_u32_field, push_u64_field,
    sp_key_opt_str, sp_key_opt_u32_arr, sp_key_str, sp_key_str_arr, sp_key_u32, sp_key_u32_arr,
    sp_key_u64,
};
use crate::envelopes::{
    embeddings_view, items_view, GenerateTextTask, GenerateTextTaskView, GeneratedTextMessage, GeneratedTextMessageView,
    PerceiveUrlTask, PerceiveUrlTaskView, QdrantPointPayload, QdrantPointPayloadView,
    QueryEmbeddingResult, QueryEmbeddingResultView, QueryForEmbeddingTask,
    QueryForEmbeddingTaskView, RawTextMessage, RawTextMessageView, SemanticSearchApiRequest,
    SemanticSearchApiRequestView, SemanticSearchNatsTask, SemanticSearchNatsTaskView,
    SemanticSearchApiResponse, SemanticSearchApiResponseView, SemanticSearchNatsResult,
    SemanticSearchNatsResultView, SemanticSearchResultItem, SemanticSearchResultItemView,
    SentenceEmbedding, SentenceEmbeddingView, TextWithEmbeddingsMessage,
    TextWithEmbeddingsMessageView, TokenizedTextMessage, TokenizedTextMessageView,
};
use crate::json::{
    is_digit, lemma_sp_lit_complete, lemma_sp_lit_sound, p_lit, push_escaped, push_lit, push_u64,
    sp_lit,
};


verus! {

/// The one-character literals the object frames end with.
proof fn lemma_quote_lit()
    ensures
        "\""@ == seq!['"'],
{
    reveal_strlit("\"");
    assert("\""@ =~= seq!['"']);
}

proof fn lemma_rbrace_lit()
    ensures
        "}"@ == seq!['}'],
        !is_digit("}"@[0]),
{
    reveal_strlit("}");
    assert("}"@ =~= seq!['}']);
}

// ---------------------------------------------------------------------------
// PerceiveUrlTask
// ---------------------------------------------------------------------------

pub open spec fn spec_enc_perceive_url_task(v: PerceiveUrlTaskView) -> Seq<char> {
    enc_str_field("{\"url\":\""@, v.url) + "}"@
}

pub open spec fn sp_obj_perceive_url_task(s: Seq<char>) -> Option<(PerceiveUrlTaskView, Seq<char>)> {
    match sp_key_str(s, "{\"url\":\""@) {
        None => None,
        Some((url, r)) => match sp_lit(r, "}"@) {
            None => None,
            Some(r2) => Some((PerceiveUrlTaskView { url }, r2)),
        },
    }
}

pub open spec fn spec_dec_perceive_url_task(s: Seq<char>) -> Option<PerceiveUrlTaskView> {
    match sp_obj_perceive_url_task(s) {
        None => None,
        Some((v, r)) => if r.len() == 0 {
            Some(v)
        } else {
            None
        },
    }
}

pub proof fn lemma_obj_perceive_url_task_complete(v: PerceiveUrlTaskView, rest: Seq<char>)
    ensures
        sp_obj_perceive_url_task(spec_enc_perceive_url_task(v) + rest) == Some((v, rest)),
{
    let k1 = "{\"url\":\""@;
    let t1 = "}"@ + rest;
    assert(spec_enc_perceive_url_task(v) + rest =~= enc_str_field(k1, v.url) + t1);
    lemma_key_str_complete(k1, v.url, t1);
    lemma_sp_lit_complete("}"@, rest);
}

pub proof fn lemma_obj_perceive_url_task_sound(s: Seq<char>)
    ensures
        sp_obj_perceive_url_task(s) matches Some((v, r)) ==> s == spec_enc_perceive_url_task(v)
            + r,
{
    let k1 = "{\"url\":\""@;
    if sp_obj_perceive_url_task(s) is Some {
        let (v, r) = sp_obj_perceive_url_task(s)->Some_0;
        lemma_key_str_sound(s, k1);
        let (url, r1) = sp_key_str(s, k1)->Some_0;
        lemma_sp_lit_sound(r1, "}"@);
        assert(s =~= enc_str_field(k1, url) + ("}"@ + r));
        assert(spec_enc_perceive_url_task(v) + r =~= enc_str_field(k1, url) + ("}"@ + r));
    }
}

/// Law: decoding an encoded envelope yields it back.
pub proof fn lemma_perceive_url_task_round_trip(v: PerceiveUrlTaskView)
    ensures
        spec_dec_perceive_url_task(spec_enc_perceive_url_task(v)) == Some(v),
{
    lemma_obj_perceive_url_task_complete(v, Seq::empty());
    assert(spec_enc_perceive_url_task(v) + Seq::<char>::empty() =~= spec_enc_perceive_url_task(v));
}

/// Law: any text that decodes is the encoding of its decoded value.
pub proof fn lemma_perceive_url_task_decode_sound(s: Seq<char>)
    ensures
        spec_dec_perceive_url_task(s) matches Some(v) ==> s == spec_enc_perceive_url_task(v),
{
    if spec_dec_perceive_url_task(s) is Some {
        lemma_obj_perceive_url_task_sound(s);
        let (v, r) = sp_obj_perceive_url_task(s)->Some_0;
        assert(spec_enc_perceive_url_task(v) + r =~= spec_enc_perceive_url_task(v));
    }
}

pub fn encode_perceive_url_task(x: &PerceiveUrlTask) -> (out: Vec<char>)
    ensures
        out@ == spec_enc_perceive_url_task(x@),
{
    let mut out: Vec<char> = Vec::new();
    push_lit(&mut out, "{\"url\":\"");
    push_escaped(&mut out, x.url.as_str());
    push_lit(&mut out, "\"");
    push_lit(&mut out, "}");
    proof {
        lemma_quote_lit();
        assert(out@ =~= spec_enc_perceive_url_task(x@));
    }
    out
}

pub(crate) fn p_obj_perceive_url_task(s: &Vec<char>, i: usize) -> (r: Option<
    (PerceiveUrlTask, usize),
>)
    requires
        i <= s@.len(),
    ensures
        r matches Some((m, j)) ==> i <= j <= s@.len() && sp_obj_perceive_url_task(
            s@.skip(i as int),
        ) == Some((m@, s@.skip(j as int))),
        r is None ==> sp_obj_perceive_url_task(s@.skip(i as int)) is None,
{
    let (url, j1) = match pf_str(s, i, "{\"url\":\"") {
        None => {
            return None;
        },
        Some(x) => x,
    };
    let j2 = match p_lit(s, j1, "}") {
        None => {
            return None;
        },
        Some(x) => x,
    };
    Some((PerceiveUrlTask { url }, j2))
}

pub fn decode_perceive_url_task(s: &Vec<char>) -> (r: Option<PerceiveUrlTask>)
    ensures
        r matches Some(m) ==> spec_dec_perceive_url_task(s@) == Some(m@),
        r is None ==> spec_dec_perceive_url_task(s@) is None,
{
    proof {
        assert(s@.skip(0) =~= s@);
    }
    match p_obj_perceive_url_task(s, 0) {
        None => None,
        Some((m, j)) => if j == s.len() {
            Some(m)
        } else {
            None
        },
    }
}

// ---------------------------------------------------------------------------
// RawTextMessage
// ---------------------------------------------------------------------------

pub open spec fn spec_enc_raw_text_message(v: RawTextMessageView) -> Seq<char> {
    enc_str_field("{\"id\":\""@, v.id) + enc_str_field(",\"source_url\":\""@, v.source_url)
        + enc_str_field(",\"raw_text\":\""@, v.raw_text) + enc_u64_field(
        ",\"timestamp_ms\":"@,
        v.timestamp_ms,
    ) + "}"@
}

pub open spec fn sp_obj_raw_text_message(s: Seq<char>) -> Option<(RawTextMessageView, Seq<char>)> {
    match sp_key_str(s, "{\"id\":\""@) {
        None => None,
        Some((id, r)) => match sp_key_str(r, ",\"source_url\":\""@) {
            None => None,
            Some((source_url, r)) => match sp_key_str(r, ",\"raw_text\":\""@) {
                None => None,
                Some((raw_text, r)) => match sp_key_u64(r, ",\"timestamp_ms\":"@) {
                    None => None,
                    Some((timestamp_ms, r)) => match sp_lit(r, "}"@) {
                        None => None,
                        Some(r2) => Some(
                            (RawTextMessageView { id, source_url, raw_text, timestamp_ms }, r2),
                        ),
                    },
                },
            },
        },
    }
}

pub open spec fn spec_dec_raw_text_message(s: Seq<char>) -> Option<RawTextMessageView> {
    match sp_obj_raw_text_message(s) {
        None => None,
        Some((v, r)) => if r.len() == 0 {
            Some(v)
        } else {
            None
        },
    }
}

pub proof fn lemma_obj_raw_text_message_complete(v: RawTextMessageView, rest: Seq<char>)
    ensures
        sp_obj_raw_text_message(spec_enc_raw_text_message(v) + rest) == Some((v, rest)),
{
    let k1 = "{\"id\":\""@;
    let k2 = ",\"source_url\":\""@;
    let k3 = ",\"raw_text\":\""@;
    let k4 = ",\"timestamp_ms\":"@;
    let t4 = "}"@ + rest;
    let t3 = enc_u64_field(k4, v.timestamp_ms) + t4;
    let t2 = enc_str_field(k3, v.raw_text) + t3;
    let t1 = enc_str_field(k2, v.source_url) + t2;
    assert(spec_enc_raw_text_message(v) + rest =~= enc_str_field(k1, v.id) + t1);
    lemma_key_str_complete(k1, v.id, t1);
    lemma_key_str_complete(k2, v.source_url, t2);
    lemma_key_str_complete(k3, v.raw_text, t3);
    lemma_rbrace_lit();
    assert(t4[0] == '}');
    lemma_key_u64_complete(k4, v.timestamp_ms, t4);
    lemma_sp_lit_complete("}"@, rest);
}

pub proof fn lemma_obj_raw_text_message_sound(s: Seq<char>)
    ensures
        sp_obj_raw_text_message(s) matches Some((v, r)) ==> s == spec_enc_raw_text_message(v) + r,
{
    let k1 = "{\"id\":\""@;
    let k2 = ",\"source_url\":\""@;
    let k3 = ",\"raw_text\":\""@;
    let k4 = ",\"timestamp_ms\":"@;
    if sp_obj_raw_text_message(s) is Some {
        let (v, r) = sp_obj_raw_text_message(s)->Some_0;
        lemma_key_str_sound(s, k1);
        let (id, r1) = sp_key_str(s, k1)->Some_0;
        lemma_key_str_sound(r1, k2);
        let (source_url, r2) = sp_key_str(r1, k2)->Some_0;
        lemma_key_str_sound(r2, k3);
        let (raw_text, r3) = sp_key_str(r2, k3)->Some_0;
        lemma_key_u64_sound(r3, k4);
        let (timestamp_ms, r4) = sp_key_u64(r3, k4)->Some_0;
        lemma_sp_lit_sound(r4, "}"@);
        assert(s =~= enc_str_field(k1, id) + (enc_str_field(k2, source_url) + (enc_str_field(
            k3,
            raw_text,
        ) + (enc_u64_field(k4, timestamp_ms) + ("}"@ + r)))));
        assert(spec_enc_raw_text_message(v) + r =~= enc_str_field(k1, id) + (enc_str_field(
            k2,
            source_url,
        ) + (enc_str_field(k3, raw_text) + (enc_u64_field(k4, timestamp_ms) + ("}"@ + r)))));
    }
}

/// Law: decoding an encoded envelope yields it back.
pub proof fn lemma_raw_text_message_round_trip(v: RawTextMessageView)
    ensures
        spec_dec_raw_text_message(spec_enc_raw_text_message(v)) == Some(v),
{
    lemma_obj_raw_text_message_complete(v, Seq::empty());
    assert(spec_enc_raw_text_message(v) + Seq::<char>::empty() =~= spec_enc_raw_text_message(v));
}

/// Law: any text that decodes is the encoding of its decoded value.
pub proof fn lemma_raw_text_message_decode_sound(s: Seq<char>)
    ensures
        spec_dec_raw_text_message(s) matches Some(v) ==> s == spec_enc_raw_text_message(v),
{
    if spec_dec_raw_text_message(s) is Some {
        lemma_obj_raw_text_message_sound(s);
        let (v, r) = sp_obj_raw_text_message(s)->Some_0;
        assert(spec_enc_raw_text_message(v) + r =~= spec_enc_raw_text_message(v));
    }
}

pub fn encode_raw_text_message(x: &RawTextMessage) -> (out: Vec<char>)
    ensures
        out@ == spec_enc_raw_text_message(x@),
{
    let mut out: Vec<char> = Vec::new();
    push_lit(&mut out, "{\"id\":\"");
    push_escaped(&mut out, x.id.as_str());
    push_lit(&mut out, "\"");
    push_lit(&mut out, ",\"source_url\":\"");
    push_escaped(&mut out, x.source_url.as_str());
    push_lit(&mut out, "\"");
    push_lit(&mut out, ",\"raw_text\":\"");
    push_escaped(&mut out, x.raw_text.as_str());
    push_lit(&mut out, "\"");
    push_lit(&mut out, ",\"timestamp_ms\":");
    push_u64(&mut out, x.timestamp_ms);
    push_lit(&mut out, "}");
    proof {
        lemma_quote_lit();
        assert(out@ =~= spec_enc_raw_text_message(x@));
    }
    out
}

pub(crate) fn p_obj_raw_text_message(s: &Vec<char>, i: usize) -> (r: Option<
    (RawTextMessage, usize),
>)
    requires
        i <= s@.len(),
    ensures
        r matches Some((m, j)) ==> i <= j <= s@.len() && sp_obj_raw_text_message(
            s@.skip(i as int),
        ) == Some((m@, s@.skip(j as int))),
        r is None ==> sp_obj_raw_text_message(s@.skip(i as int)) is None,
{
    let (id, j1) = match pf_str(s, i, "{\"id\":\"") {
        None => {
            return None;
        },
        Some(x) => x,
    };
    let (source_url, j2) = match pf_str(s, j1, ",\"source_url\":\"") {
        None => {
            return None;
        },
        Some(x) => x,
    };
    let (raw_text, j3) = match pf_str(s, j2, ",\"raw_text\":\"") {
        None => {
            return None;
        },
        Some(x) => x,
    };
    let (timestamp_ms, j4) = match pf_u64(s, j3, ",\"timestamp_ms\":") {
        None => {
            return None;
        },
        Some(x) => x,
    };
    let j5 = match p_lit(s, j4, "}") {
        None => {
            return None;
        },
        Some(x) => x,
    };
    Some((RawTextMessage { id, source_url, raw_text, timestamp_ms }, j5))
}

pub fn decode_raw_text_message(s: &Vec<char>) -> (r: Option<RawTextMessage>)
    ensures
        r matches Some(m) ==> spec_dec_raw_text_message(s@) == Some(m@),
        r is None ==> spec_dec_raw_text_message(s@) is None,
{
    proof {
        assert(s@.skip(0) =~= s@);
    }
    match p_obj_raw_text_message(s, 0) {
        None => None,
        Some((m, j)) => if j == s.len() {
            Some(m)
        } else {
            None
        },
    }
}

// ---------------------------------------------------------------------------
// GeneratedTextMessage
// ---------------------------------------------------------------------------

pub open spec fn spec_enc_generated_text_message(v: GeneratedTextMessageView) -> Seq<char> {
    enc_str_field("{\"original_task_id\":\""@, v.original_task_id) + enc_str_field(",\"generated_text\":\""@, v.generated_text) + enc_u64_field(",\"timestamp_ms\":"@, v.timestamp_ms) + "}"@
}

pub open spec fn sp_obj_generated_text_message(s: Seq<char>) -> Option<(GeneratedTextMessageView, Seq<char>)> {
    match sp_key_str(s, "{\"original_task_id\":\""@) {
        None => None,
        Some((original_task_id, r)) => {
            match sp_key_str(r, ",\"generated_text\":\""@) {
                None => None,
                Some((generated_text, r)) => {
                    match sp_key_u64(r, ",\"timestamp_ms\":"@) {
                        None => None,
                        Some((timestamp_ms, r)) => {
                            match sp_lit(r, "}"@) {
                                None => None,
                                Some(r2) => Some((GeneratedTextMessageView { original_task_id, generated_text, timestamp_ms }, r2)),
                            }
                        },
                    }
                },
            }
        },
    }
}

pub open spec fn spec_dec_generated_text_message(s: Seq<char>) -> Option<GeneratedTextMessageView> {
    match sp_obj_generated_text_message(s) {
        None => None,
        Some((v, r)) => if r.len() == 0 {
            Some(v)
        } else {
            None
        },
    }
}

pub proof fn lemma_obj_generated_text_message_complete(v: GeneratedTextMessageView, rest: Seq<char>)
    ensures
        sp_obj_generated_text_message(spec_enc_generated_text_message(v) + rest) == Some((v, rest)),
{
    let k1 = "{\"original_task_id\":\""@;
    let k2 = ",\"generated_text\":\""@;
    let k3 = ",\"timestamp_ms\":"@;
    let t3 = "}"@ + rest;
    let t2 = enc_u64_field(k3, v.timestamp_ms) + t3;
    let t1 = enc_str_field(k2, v.generated_text) + t2;
    assert(spec_enc_generated_text_message(v) + rest =~= enc_str_field(k1, v.original_task_id) + t1);
    lemma_key_str_complete(k1, v.original_task_id, t1);
    lemma_key_str_complete(k2, v.generated_text, t2);
    lemma_rbrace_lit();
    assert(t3[0] == '}');
    assert(!is_digit(t3[0]));
    lemma_key_u64_complete(k3, v.timestamp_ms, t3);
    lemma_sp_lit_complete("}"@, rest);
}

pub proof fn lemma_obj_generated_text_message_sound(s: Seq<char>)
    ensures
        sp_obj_generated_text_message(s) matches Some((v, r)) ==> s == spec_enc_generated_text_message(v) + r,
{
    let k1 = "{\"original_task_id\":\""@;
    let k2 = ",\"generated_text\":\""@;
    let k3 = ",\"timestamp_ms\":"@;
    if sp_obj_generated_text_message(s) is Some {
        let (v, r) = sp_obj_generated_text_message(s)->Some_0;
        lemma_key_str_sound(s, k1);
        let (original_task_id, r1) = sp_key_str(s, k1)->Some_0;
        lemma_key_str_sound(r1, k2);
        let (generated_text, r2) = sp_key_str(r1, k2)->Some_0;
        lemma_key_u64_sound(r2, k3);
        let (timestamp_ms, r3) = sp_key_u64(r2, k3)->Some_0;
        lemma_sp_lit_sound(r3, "}"@);
        assert(s =~= enc_str_field(k1, original_task_id) + (enc_str_field(k2, generated_text) + (enc_u64_field(k3, timestamp_ms) + ("}"@ + r))));
        assert(spec_enc_generated_text_message(v) + r =~= enc_str_field(k1, original_task_id) + (enc_str_field(k2, generated_text) + (enc_u64_field(k3, timestamp_ms) + ("}"@ + r))));
    }
}

/// Law: decoding an encoded envelope yields it back.
pub proof fn lemma_generated_text_message_round_trip(v: GeneratedTextMessageView)
    ensures
        spec_dec_generated_text_message(spec_enc_generated_text_message(v)) == Some(v),
{
    lemma_obj_generated_text_message_complete(v, Seq::empty());
    assert(spec_enc_generated_text_message(v) + Seq::<char>::empty() =~= spec_enc_generated_text_message(v));
}

/// Law: any text that decodes is the encoding of its decoded value.
pub proof fn lemma_generated_text_message_decode_sound(s: Seq<char>)
    ensures
        spec_dec_generated_text_message(s) matches Some(v) ==> s == spec_enc_generated_text_message(v),
{
    if spec_dec_generated_text_message(s) is Some {
        lemma_obj_generated_text_message_sound(s);
        let (v, r) = sp_obj_generated_text_message(s)->Some_0;
        assert(spec_enc_generated_text_message(v) + r =~= spec_enc_generated_text_message(v));
    }
}

pub fn encode_generated_text_message(x: &GeneratedTextMessage) -> (out: Vec<char>)
    ensures
        out@ == spec_enc_generated_text_message(x@),
{
    let mut out: Vec<char> = Vec::new();
    push_str_field(&mut out, "{\"original_task_id\":\"", x.original_task_id.as_str());
    push_str_field(&mut out, ",\"generated_text\":\"", x.generated_text.as_str());
    push_u64_field(&mut out, ",\"timestamp_ms\":", x.timestamp_ms);
    push_lit(&mut out, "}");
    proof {
        assert(out@ =~= spec_enc_generated_text_message(x@));
    }
    out
}

pub(crate) fn p_obj_generated_text_message(s: &Vec<char>, i: usize) -> (r: Option<(GeneratedTextMessage, usize)>)
    requires
        i <= s@.len(),
    ensures
        r matches Some((m, j)) ==> i <= j <= s@.len() && sp_obj_generated_text_message(
            s@.skip(i as int),
        ) == Some((m@, s@.skip(j as int))),
        r is None ==> sp_obj_generated_text_message(s@.skip(i as int)) is None,
{
    let (original_task_id, j1) = match pf_str(s, i, "{\"original_task_id\":\"") {
        None => {
            return None;
        },
        Some(x) => x,
    };
    let (generated_text, j2) = match pf_str(s, j1, ",\"generated_text\":\"") {
        None => {
            return None;
        },
        Some(x) => x,
    };
    let (timestamp_ms, j3) = match pf_u64(s, j2, ",\"timestamp_ms\":") {
        None => {
            return None;
        },
        Some(x) => x,
    };
    let j4 = match p_lit(s, j3, "}") {
        None => {
            return None;
        },
        Some(x) => x,
    };
    Some((GeneratedTextMessage { original_task_id, generated_text, timestamp_ms }, j4))
}

pub fn decode_generated_text_message(s: &Vec<char>) -> (r: Option<GeneratedTextMessage>)
    ensures
        r matches Some(m) ==> spec_dec_generated_text_message(s@) == Some(m@),
        r is None ==> spec_dec_generated_text_message(s@) is None,
{
    proof {
        assert(s@.skip(0) =~= s@);
    }
    match p_obj_generated_text_message(s, 0) {
        None => None,
        Some((m, j)) => if j == s.len() {
            Some(m)
        } else {
            None
        },
    }
}

// ---------------------------------------------------------------------------
// TokenizedTextMessage
// ---------------------------------------------------------------------------

pub open spec fn spec_enc_tokenized_text_message(v: TokenizedTextMessageView) -> Seq<char> {
    enc_str_field("{\"original_id\":\""@, v.original_id) + enc_str_field(",\"source_url\":\""@, v.source_url) + enc_str_arr_field(",\"tokens\":"@, v.tokens) + enc_str_arr_field(",\"sentences\":"@, v.sentences) + enc_u64_field(",\"timestamp_ms\":"@, v.timestamp_ms) + "}"@
}

pub open spec fn sp_obj_tokenized_text_message(s: Seq<char>) -> Option<(TokenizedTextMessageView, Seq<char>)> {
    match sp_key_str(s, "{\"original_id\":\""@) {
        None => None,
        Some((original_id, r)) => {
            match sp_key_str(r, ",\"source_url\":\""@) {
                None => None,
                Some((source_url, r)) => {
                    match sp_key_str_arr(r, ",\"tokens\":"@) {
                        None => None,
                        Some((tokens, r)) => {
                            match sp_key_str_arr(r, ",\"sentences\":"@) {
                                None => None,
                                Some((sentences, r)) => {
                                    match sp_key_u64(r, ",\"timestamp_ms\":"@) {
                                        None => None,
                                        Some((timestamp_ms, r)) => {
                                            match sp_lit(r, "}"@) {
                                                None => None,
                                                Some(r2) => Some((TokenizedTextMessageView { original_id, source_url, tokens, sentences, timestamp_ms }, r2)),
                                            }
                                        },
                                    }
                                },
                            }
                        },
                    }
                },
            }
        },
    }
}

pub open spec fn spec_dec_tokenized_text_message(s: Seq<char>) -> Option<TokenizedTextMessageView> {
    match sp_obj_tokenized_text_message(s) {
        None => None,
        Some((v, r)) => if r.len() == 0 {
            Some(v)
        } else {
            None
        },
    }
}

pub proof fn lemma_obj_tokenized_text_message_complete(v: TokenizedTextMessageView, rest: Seq<char>)
    ensures
        sp_obj_tokenized_text_message(spec_enc_tokenized_text_message(v) + rest) == Some((v, rest)),
{
    let k1 = "{\"original_id\":\""@;
    let k2 = ",\"source_url\":\""@;
    let k3 = ",\"tokens\":"@;
    let k4 = ",\"sentences\":"@;
    let k5 = ",\"timestamp_ms\":"@;
    let t5 = "}"@ + rest;
    let t4 = enc_u64_field(k5, v.timestamp_ms) + t5;
    let t3 = enc_str_arr_field(k4, v.sentences) + t4;
    let t2 = enc_str_arr_field(k3, v.tokens) + t3;
    let t1 = enc_str_field(k2, v.source_url) + t2;
    assert(spec_enc_tokenized_text_message(v) + rest =~= enc_str_field(k1, v.original_id) + t1);
    lemma_key_str_complete(k1, v.original_id, t1);
    lemma_key_str_complete(k2, v.source_url, t2);
    lemma_key_str_arr_complete(k3, v.tokens, t3);
    lemma_key_str_arr_complete(k4, v.sentences, t4);
    lemma_rbrace_lit();
    assert(t5[0] == '}');
    assert(!is_digit(t5[0]));
    lemma_key_u64_complete(k5, v.timestamp_ms, t5);
    lemma_sp_lit_complete("}"@, rest);
}

pub proof fn lemma_obj_tokenized_text_message_sound(s: Seq<char>)
    ensures
        sp_obj_tokenized_text_message(s) matches Some((v, r)) ==> s == spec_enc_tokenized_text_message(v) + r,
{
    let k1 = "{\"original_id\":\""@;
    let k2 = ",\"source_url\":\""@;
    let k3 = ",\"tokens\":"@;
    let k4 = ",\"sentences\":"@;
    let k5 = ",\"timestamp_ms\":"@;
    if sp_obj_tokenized_text_message(s) is Some {
        let (v, r) = sp_obj_tokenized_text_message(s)->Some_0;
        lemma_key_str_sound(s, k1);
        let (original_id, r1) = sp_key_str(s, k1)->Some_0;
        lemma_key_str_sound(r1, k2);
        let (source_url, r2) = sp_key_str(r1, k2)->Some_0;
        lemma_key_str_arr_sound(r2, k3);
        let (tokens, r3) = sp_key_str_arr(r2, k3)->Some_0;
        lemma_key_str_arr_sound(r3, k4);
        let (sentences, r4) = sp_key_str_arr(r3, k4)->Some_0;
        lemma_key_u64_sound(r4, k5);
        let (timestamp_ms, r5) = sp_key_u64(r4, k5)->Some_0;
        lemma_sp_lit_sound(r5, "}"@);
        assert(s =~= enc_str_field(k1, original_id) + (enc_str_field(k2, source_url) + (enc_str_arr_field(k3, tokens) + (enc_str_arr_field(k4, sentences) + (enc_u64_field(k5, timestamp_ms) + ("}"@ + r))))));
        assert(spec_enc_tokenized_text_message(v) + r =~= enc_str_field(k1, original_id) + (enc_str_field(k2, source_url) + (enc_str_arr_field(k3, tokens) + (enc_str_arr_field(k4, sentences) + (enc_u64_field(k5, timestamp_ms) + ("}"@ + r))))));
    }
}

/// Law: decoding an encoded envelope yields it back.
pub proof fn lemma_tokenized_text_message_round_trip(v: TokenizedTextMessageView)
    ensures
        spec_dec_tokenized_text_message(spec_enc_tokenized_text_message(v)) == Some(v),
{
    lemma_obj_tokenized_text_message_complete(v, Seq::empty());
    assert(spec_enc_tokenized_text_message(v) + Seq::<char>::empty() =~= spec_enc_tokenized_text_message(v));
}

/// Law: any text that decodes is the encoding of its decoded value.
pub proof fn lemma_tokenized_text_message_decode_sound(s: Seq<char>)
    ensures
        spec_dec_tokenized_text_message(s) matches Some(v) ==> s == spec_enc_tokenized_text_message(v),
{
    if spec_dec_tokenized_text_message(s) is Some {
        lemma_obj_tokenized_text_message_sound(s);
        let (v, r) = sp_obj_tokenized_text_message(s)->Some_0;
        assert(spec_enc_tokenized_text_message(v) + r =~= spec_enc_tokenized_text_message(v));
    }
}

pub fn encode_tokenized_text_message(x: &TokenizedTextMessage) -> (out: Vec<char>)
    ensures
        out@ == spec_enc_tokenized_text_message(x@),
{
    let mut out: Vec<char> = Vec::new();
    push_str_field(&mut out, "{\"original_id\":\"", x.original_id.as_str());
    push_str_field(&mut out, ",\"source_url\":\"", x.source_url.as_str());
    push_str_arr_field(&mut out, ",\"tokens\":", &x.tokens);
    push_str_arr_field(&mut out, ",\"sentences\":", &x.sentences);
    push_u64_field(&mut out, ",\"timestamp_ms\":", x.timestamp_ms);
    push_lit(&mut out, "}");
    proof {
        assert(out@ =~= spec_enc_tokenized_text_message(x@));
    }
    out
}

pub(crate) fn p_obj_tokenized_text_message(s: &Vec<char>, i: usize) -> (r: Option<(TokenizedTextMessage, usize)>)
    requires
        i <= s@.len(),
    ensures
        r matches Some((m, j)) ==> i <= j <= s@.len() && sp_obj_tokenized_text_message(
            s@.skip(i as int),
        ) == Some((m@, s@.skip(j as int))),
        r is None ==> sp_obj_tokenized_text_message(s@.skip(i as int)) is None,
{
    let (original_id, j1) = match pf_str(s, i, "{\"original_id\":\"") {
        None => {
            return None;
        },
        Some(x) => x,
    };
    let (source_url, j2) = match pf_str(s, j1, ",\"source_url\":\"") {
        None => {
            return None;
        },
        Some(x) => x,
    };
    let (tokens, j3) = match pf_str_arr(s, j2, ",\"tokens\":") {
        None => {
            return None;
        },
        Some(x) => x,
    };
    let (sentences, j4) = match pf_str_arr(s, j3, ",\"sentences\":") {
        None => {
            return None;
        },
        Some(x) => x,
    };
    let (timestamp_ms, j5) = match pf_u64(s, j4, ",\"timestamp_ms\":") {
        None => {
            return None;
        },
        Some(x) => x,
    };
    let j6 = match p_lit(s, j5, "}") {
        None => {
            return None;
        },
        Some(x) => x,
    };
    Some((TokenizedTextMessage { original_id, source_url, tokens, sentences, timestamp_ms }, j6))
}

pub fn decode_tokenized_text_message(s: &Vec<char>) -> (r: Option<TokenizedTextMessage>)
    ensures
        r matches Some(m) ==> spec_dec_tokenized_text_message(s@) == Some(m@),
        r is None ==> spec_dec_tokenized_text_message(s@) is None,
{
    proof {
        assert(s@.skip(0) =~= s@);
    }
    match p_obj_tokenized_text_message(s, 0) {
        None => None,
        Some((m, j)) => if j == s.len() {
            Some(m)
        } else {
            None
        },
    }
}

// ---------------------------------------------------------------------------
// GenerateTextTask
// ---------------------------------------------------------------------------

pub open spec fn spec_enc_generate_text_task(v: GenerateTextTaskView) -> Seq<char> {
    enc_str_field("{\"task_id\":\""@, v.task_id) + enc_opt_str_field(",\"prompt\":"@, v.prompt) + enc_u32_field(",\"max_length\":"@, v.max_length) + "}"@
}

pub open spec fn sp_obj_generate_text_task(s: Seq<char>) -> Option<(GenerateTextTaskView, Seq<char>)> {
    match sp_key_str(s, "{\"task_id\":\""@) {
        None => None,
        Some((task_id, r)) => {
            match sp_key_opt_str(r, ",\"prompt\":"@) {
                None => None,
                Some((prompt, r)) => {
                    match sp_key_u32(r, ",\"max_length\":"@) {
                        None => None,
                        Some((max_length, r)) => {
                            match sp_lit(r, "}"@) {
                                None => None,
                                Some(r2) => Some((GenerateTextTaskView { task_id, prompt, max_length }, r2)),
                            }
                        },
                    }
                },
            }
        },
    }
}

pub open spec fn spec_dec_generate_text_task(s: Seq<char>) -> Option<GenerateTextTaskView> {
    match sp_obj_generate_text_task(s) {
        None => None,
        Some((v, r)) => if r.len() == 0 {
            Some(v)
        } else {
            None
        },
    }
}

pub proof fn lemma_obj_generate_text_task_complete(v: GenerateTextTaskView, rest: Seq<char>)
    ensures
        sp_obj_generate_text_task(spec_enc_generate_text_task(v) + rest) == Some((v, rest)),
{
    let k1 = "{\"task_id\":\""@;
    let k2 = ",\"prompt\":"@;
    let k3 = ",\"max_length\":"@;
    let t3 = "}"@ + rest;
    let t2 = enc_u32_field(k3, v.max_length) + t3;
    let t1 = enc_opt_str_field(k2, v.prompt) + t2;
    assert(spec_enc_generate_text_task(v) + rest =~= enc_str_field(k1, v.task_id) + t1);
    lemma_key_str_complete(k1, v.task_id, t1);
    lemma_key_opt_str_complete(k2, v.prompt, t2);
    lemma_rbrace_lit();
    assert(t3[0] == '}');
    assert(!is_digit(t3[0]));
    lemma_key_u32_complete(k3, v.max_length, t3);
    lemma_sp_lit_complete("}"@, rest);
}

pub proof fn lemma_obj_generate_text_task_sound(s: Seq<char>)
    ensures
        sp_obj_generate_text_task(s) matches Some((v, r)) ==> s == spec_enc_generate_text_task(v) + r,
{
    let k1 = "{\"task_id\":\""@;
    let k2 = ",\"prompt\":"@;
    let k3 = ",\"max_length\":"@;
    if sp_obj_generate_text_task(s) is Some {
        let (v, r) = sp_obj_generate_text_task(s)->Some_0;
        lemma_key_str_sound(s, k1);
        let (task_id, r1) = sp_key_str(s, k1)->Some_0;
        lemma_key_opt_str_sound(r1, k2);
        let (prompt, r2) = sp_key_opt_str(r1, k2)->Some_0;
        lemma_key_u32_sound(r2, k3);
        let (max_length, r3) = sp_key_u32(r2, k3)->Some_0;
        lemma_sp_lit_sound(r3, "}"@);
        assert(s =~= enc_str_field(k1, task_id) + (enc_opt_str_field(k2, prompt) + (enc_u32_field(k3, max_length) + ("}"@ + r))));
        assert(spec_enc_generate_text_task(v) + r =~= enc_str_field(k1, task_id) + (enc_opt_str_field(k2, prompt) + (enc_u32_field(k3, max_length) + ("}"@ + r))));
    }
}

/// Law: decoding an encoded envelope yields it back.
pub proof fn lemma_generate_text_task_round_trip(v: GenerateTextTaskView)
    ensures
        spec_dec_generate_text_task(spec_enc_generate_text_task(v)) == Some(v),
{
    lemma_obj_generate_text_task_complete(v, Seq::empty());
    assert(spec_enc_generate_text_task(v) + Seq::<char>::empty() =~= spec_enc_generate_text_task(v));
}

/// Law: any text that decodes is the encoding of its decoded value.
pub proof fn lemma_generate_text_task_decode_sound(s: Seq<char>)
    ensures
        spec_dec_generate_text_task(s) matches Some(v) ==> s == spec_enc_generate_text_task(v),
{
    if spec_dec_generate_text_task(s) is Some {
        lemma_obj_generate_text_task_sound(s);
        let (v, r) = sp_obj_generate_text_task(s)->Some_0;
        assert(spec_enc_generate_text_task(v) + r =~= spec_enc_generate_text_task(v));
    }
}

pub fn encode_generate_text_task(x: &GenerateTextTask) -> (out: Vec<char>)
    ensures
        out@ == spec_enc_generate_text_task(x@),
{
    let mut out: Vec<char> = Vec::new();
    push_str_field(&mut out, "{\"task_id\":\"", x.task_id.as_str());
    push_opt_str_field(&mut out, ",\"prompt\":", &x.prompt);
    push_u32_field(&mut out, ",\"max_length\":", x.max_length);
    push_lit(&mut out, "}");
    proof {
        assert(out@ =~= spec_enc_generate_text_task(x@));
    }
    out
}

pub(crate) fn p_obj_generate_text_task(s: &Vec<char>, i: usize) -> (r: Option<(GenerateTextTask, usize)>)
    requires
        i <= s@.len(),
    ensures
        r matches Some((m, j)) ==> i <= j <= s@.len() && sp_obj_generate_text_task(
            s@.skip(i as int),
        ) == Some((m@, s@.skip(j as int))),
        r is None ==> sp_obj_generate_text_task(s@.skip(i as int)) is None,
{
    let (task_id, j1) = match pf_str(s, i, "{\"task_id\":\"") {
        None => {
            return None;
        },
        Some(x) => x,
    };
    let (prompt, j2) = match pf_opt_str(s, j1, ",\"prompt\":") {
        None => {
            return None;
        },
        Some(x) => x,
    };
    let (max_length, j3) = match pf_u32(s, j2, ",\"max_length\":") {
        None => {
            return None;
        },
        Some(x) => x,
    };
    let j4 = match p_lit(s, j3, "}") {
        None => {
            return None;
        },
        Some(x) => x,
    };
    Some((GenerateTextTask { task_id, prompt, max_length }, j4))
}

pub fn decode_generate_text_task(s: &Vec<char>) -> (r: Option<GenerateTextTask>)
    ensures
        r matches Some(m) ==> spec_dec_generate_text_task(s@) == Some(m@),
        r is None ==> spec_dec_generate_text_task(s@) is None,
{
    proof {
        assert(s@.skip(0) =~= s@);
    }
    match p_obj_generate_text_task(s, 0) {
        None => None,
        Some((m, j)) => if j == s.len() {
            Some(m)
        } else {
            None
        },
    }
}

// ---------------------------------------------------------------------------
// SemanticSearchApiRequest
// ---------------------------------------------------------------------------

pub open spec fn spec_enc_semantic_search_api_request(v: SemanticSearchApiRequestView) -> Seq<char> {
    enc_str_field("{\"query_text\":\""@, v.query_text) + enc_u32_field(",\"top_k\":"@, v.top_k) + "}"@
}

pub open spec fn sp_obj_semantic_search_api_request(s: Seq<char>) -> Option<(SemanticSearchApiRequestView, Seq<char>)> {
    match sp_key_str(s, "{\"query_text\":\""@) {
        None => None,
        Some((query_text, r)) => {
            match sp_key_u32(r, ",\"top_k\":"@) {
                None => None,
                Some((top_k, r)) => {
                    match sp_lit(r, "}"@) {
                        None => None,
                        Some(r2) => Some((SemanticSearchApiRequestView { query_text, top_k }, r2)),
                    }
                },
            }
        },
    }
}

pub open spec fn spec_dec_semantic_search_api_request(s: Seq<char>) -> Option<SemanticSearchApiRequestView> {
    match sp_obj_semantic_search_api_request(s) {
        None => None,
        Some((v, r)) => if r.len() == 0 {
            Some(v)
        } else {
            None
        },
    }
}

pub proof fn lemma_obj_semantic_search_api_request_complete(v: SemanticSearchApiRequestView, rest: Seq<char>)
    ensures
        sp_obj_semantic_search_api_request(spec_enc_semantic_search_api_request(v) + rest) == Some((v, rest)),
{
    let k1 = "{\"query_text\":\""@;
    let k2 = ",\"top_k\":"@;
    let t2 = "}"@ + rest;
    let t1 = enc_u32_field(k2, v.top_k) + t2;
    assert(spec_enc_semantic_search_api_request(v) + rest =~= enc_str_field(k1, v.query_text) + t1);
    lemma_key_str_complete(k1, v.query_text, t1);
    lemma_rbrace_lit();
    assert(t2[0] == '}');
    assert(!is_digit(t2[0]));
    lemma_key_u32_complete(k2, v.top_k, t2);
    lemma_sp_lit_complete("}"@, rest);
}

pub proof fn lemma_obj_semantic_search_api_request_sound(s: Seq<char>)
    ensures
        sp_obj_semantic_search_api_request(s) matches Some((v, r)) ==> s == spec_enc_semantic_search_api_request(v) + r,
{
    let k1 = "{\"query_text\":\""@;
    let k2 = ",\"top_k\":"@;
    if sp_obj_semantic_search_api_request(s) is Some {
        let (v, r) = sp_obj_semantic_search_api_request(s)->Some_0;
        lemma_key_str_sound(s, k1);
        let (query_text, r1) = sp_key_str(s, k1)->Some_0;
        lemma_key_u32_sound(r1, k2);
        let (top_k, r2) = sp_key_u32(r1, k2)->Some_0;
        lemma_sp_lit_sound(r2, "}"@);
        assert(s =~= enc_str_field(k1, query_text) + (enc_u32_field(k2, top_k) + ("}"@ + r)));
        assert(spec_enc_semantic_search_api_request(v) + r =~= enc_str_field(k1, query_text) + (enc_u32_field(k2, top_k) + ("}"@ + r)));
    }
}

/// Law: decoding an encoded envelope yields it back.
pub proof fn lemma_semantic_search_api_request_round_trip(v: SemanticSearchApiRequestView)
    ensures
        spec_dec_semantic_search_api_request(spec_enc_semantic_search_api_request(v)) == Some(v),
{
    lemma_obj_semantic_search_api_request_complete(v, Seq::empty());
    assert(spec_enc_semantic_search_api_request(v) + Seq::<char>::empty() =~= spec_enc_semantic_search_api_request(v));
}

/// Law: any text that decodes is the encoding of its decoded value.
pub proof fn lemma_semantic_search_api_request_decode_sound(s: Seq<char>)
    ensures
        spec_dec_semantic_search_api_request(s) matches Some(v) ==> s == spec_enc_semantic_search_api_request(v),
{
    if spec_dec_semantic_search_api_request(s) is Some {
        lemma_obj_semantic_search_api_request_sound(s);
        let (v, r) = sp_obj_semantic_search_api_request(s)->Some_0;
        assert(spec_enc_semantic_search_api_request(v) + r =~= spec_enc_semantic_search_api_request(v));
    }
}

pub fn encode_semantic_search_api_request(x: &SemanticSearchApiRequest) -> (out: Vec<char>)
    ensures
        out@ == spec_enc_semantic_search_api_request(x@),
{
    let mut out: Vec<char> = Vec::new();
    push_str_field(&mut out, "{\"query_text\":\"", x.query_text.as_str());
    push_u32_field(&mut out, ",\"top_k\":", x.top_k);
    push_lit(&mut out, "}");
    proof {
        assert(out@ =~= spec_enc_semantic_search_api_request(x@));
    }
    out
}

pub(crate) fn p_obj_semantic_search_api_request(s: &Vec<char>, i: usize) -> (r: Option<(SemanticSearchApiRequest, usize)>)
    requires
        i <= s@.len(),
    ensures
        r matches Some((m, j)) ==> i <= j <= s@.len() && sp_obj_semantic_search_api_request(
            s@.skip(i as int),
        ) == Some((m@, s@.skip(j as int))),
        r is None ==> sp_obj_semantic_search_api_request(s@.skip(i as int)) is None,
{
    let (query_text, j1) = match pf_str(s, i, "{\"query_text\":\"") {
        None => {
            return None;
        },
        Some(x) => x,
    };
    let (top_k, j2) = match pf_u32(s, j1, ",\"top_k\":") {
        None => {
            return None;
        },
        Some(x) => x,
    };
    let j3 = match p_lit(s, j2, "}") {
        None => {
            return None;
        },
        Some(x) => x,
    };
    Some((SemanticSearchApiRequest { query_text, top_k }, j3))
}

pub fn decode_semantic_search_api_request(s: &Vec<char>) -> (r: Option<SemanticSearchApiRequest>)
    ensures
        r matches Some(m) ==> spec_dec_semantic_search_api_request(s@) == Some(m@),
        r is None ==> spec_dec_semantic_search_api_request(s@) is None,
{
    proof {
        assert(s@.skip(0) =~= s@);
    }
    match p_obj_semantic_search_api_request(s, 0) {
        None => None,
        Some((m, j)) => if j == s.len() {
            Some(m)
        } else {
            None
        },
    }
}

// ---------------------------------------------------------------------------
// QueryForEmbeddingTask
// ---------------------------------------------------------------------------

pub open spec fn spec_enc_query_for_embedding_task(v: QueryForEmbeddingTaskView) -> Seq<char> {
    enc_str_field("{\"request_id\":\""@, v.request_id) + enc_str_field(",\"text_to_embed\":\""@, v.text_to_embed) + "}"@
}

pub open spec fn sp_obj_query_for_embedding_task(s: Seq<char>) -> Option<(QueryForEmbeddingTaskView, Seq<char>)> {
    match sp_key_str(s, "{\"request_id\":\""@) {
        None => None,
        Some((request_id, r)) => {
            match sp_key_str(r, ",\"text_to_embed\":\""@) {
                None => None,
                Some((text_to_embed, r)) => {
                    match sp_lit(r, "}"@) {
                        None => None,
                        Some(r2) => Some((QueryForEmbeddingTaskView { request_id, text_to_embed }, r2)),
                    }
                },
            }
        },
    }
}

pub open spec fn spec_dec_query_for_embedding_task(s: Seq<char>) -> Option<QueryForEmbeddingTaskView> {
    match sp_obj_query_for_embedding_task(s) {
        None => None,
        Some((v, r)) => if r.len() == 0 {
            Some(v)
        } else {
            None
        },
    }
}

pub proof fn lemma_obj_query_for_embedding_task_complete(v: QueryForEmbeddingTaskView, rest: Seq<char>)
    ensures
        sp_obj_query_for_embedding_task(spec_enc_query_for_embedding_task(v) + rest) == Some((v, rest)),
{
    let k1 = "{\"request_id\":\""@;
    let k2 = ",\"text_to_embed\":\""@;
    let t2 = "}"@ + rest;
    let t1 = enc_str_field(k2, v.text_to_embed) + t2;
    assert(spec_enc_query_for_embedding_task(v) + rest =~= enc_str_field(k1, v.request_id) + t1);
    lemma_key_str_complete(k1, v.request_id, t1);
    lemma_key_str_complete(k2, v.text_to_embed, t2);
    lemma_sp_lit_complete("}"@, rest);
}

pub proof fn lemma_obj_query_for_embedding_task_sound(s: Seq<char>)
    ensures
        sp_obj_query_for_embedding_task(s) matches Some((v, r)) ==> s == spec_enc_query_for_embedding_task(v) + r,
{
    let k1 = "{\"request_id\":\""@;
    let k2 = ",\"text_to_embed\":\""@;
    if sp_obj_query_for_embedding_task(s) is Some {
        let (v, r) = sp_obj_query_for_embedding_task(s)->Some_0;
        lemma_key_str_sound(s, k1);
        let (request_id, r1) = sp_key_str(s, k1)->Some_0;
        lemma_key_str_sound(r1, k2);
        let (text_to_embed, r2) = sp_key_str(r1, k2)->Some_0;
        lemma_sp_lit_sound(r2, "}"@);
        assert(s =~= enc_str_field(k1, request_id) + (enc_str_field(k2, text_to_embed) + ("}"@ + r)));
        assert(spec_enc_query_for_embedding_task(v) + r =~= enc_str_field(k1, request_id) + (enc_str_field(k2, text_to_embed) + ("}"@ + r)));
    }
}

/// Law: decoding an encoded envelope yields it back.
pub proof fn lemma_query_for_embedding_task_round_trip(v: QueryForEmbeddingTaskView)
    ensures
        spec_dec_query_for_embedding_task(spec_enc_query_for_embedding_task(v)) == Some(v),
{
    lemma_obj_query_for_embedding_task_complete(v, Seq::empty());
    assert(spec_enc_query_for_embedding_task(v) + Seq::<char>::empty() =~= spec_enc_query_for_embedding_task(v));
}

/// Law: any text that decodes is the encoding of its decoded value.
pub proof fn lemma_query_for_embedding_task_decode_sound(s: Seq<char>)
    ensures
        spec_dec_query_for_embedding_task(s) matches Some(v) ==> s == spec_enc_query_for_embedding_task(v),
{
    if spec_dec_query_for_embedding_task(s) is Some {
        lemma_obj_query_for_embedding_task_sound(s);
        let (v, r) = sp_obj_query_for_embedding_task(s)->Some_0;
        assert(spec_enc_query_for_embedding_task(v) + r =~= spec_enc_query_for_embedding_task(v));
    }
}

pub fn encode_query_for_embedding_task(x: &QueryForEmbeddingTask) -> (out: Vec<char>)
    ensures
        out@ == spec_enc_query_for_embedding_task(x@),
{
    let mut out: Vec<char> = Vec::new();
    push_str_field(&mut out, "{\"request_id\":\"", x.request_id.as_str());
    push_str_field(&mut out, ",\"text_to_embed\":\"", x.text_to_embed.as_str());
    push_lit(&mut out, "}");
    proof {
        assert(out@ =~= spec_enc_query_for_embedding_task(x@));
    }
    out
}

pub(crate) fn p_obj_query_for_embedding_task(s: &Vec<char>, i: usize) -> (r: Option<(QueryForEmbeddingTask, usize)>)
    requires
        i <= s@.len(),
    ensures
        r matches Some((m, j)) ==> i <= j <= s@.len() && sp_obj_query_for_embedding_task(
            s@.skip(i as int),
        ) == Some((m@, s@.skip(j as int))),
        r is None ==> sp_obj_query_for_embedding_task(s@.skip(i as int)) is None,
{
    let (request_id, j1) = match pf_str(s, i, "{\"request_id\":\"") {
        None => {
            return None;
        },
        Some(x) => x,
    };
    let (text_to_embed, j2) = match pf_str(s, j1, ",\"text_to_embed\":\"") {
        None => {
            return None;
        },
        Some(x) => x,
    };
    let j3 = match p_lit(s, j2, "}") {
        None => {
            return None;
        },
        Some(x) => x,
    };
    Some((QueryForEmbeddingTask { request_id, text_to_embed }, j3))
}

pub fn decode_query_for_embedding_task(s: &Vec<char>) -> (r: Option<QueryForEmbeddingTask>)
    ensures
        r matches Some(m) ==> spec_dec_query_for_embedding_task(s@) == Some(m@),
        r is None ==> spec_dec_query_for_embedding_task(s@) is None,
{
    proof {
        assert(s@.skip(0) =~= s@);
    }
    match p_obj_query_for_embedding_task(s, 0) {
        None => None,
        Some((m, j)) => if j == s.len() {
            Some(m)
        } else {
            None
        },
    }
}

// ---------------------------------------------------------------------------
// QueryEmbeddingResult
// ---------------------------------------------------------------------------

pub open spec fn spec_enc_query_embedding_result(v: QueryEmbeddingResultView) -> Seq<char> {
    enc_str_field("{\"request_id\":\""@, v.request_id) + enc_opt_u32_arr_field(",\"embedding\":"@, v.embedding) + enc_opt_str_field(",\"model_name\":"@, v.model_name) + enc_opt_str_field(",\"error_message\":"@, v.error_message) + "}"@
}

pub open spec fn sp_obj_query_embedding_result(s: Seq<char>) -> Option<(QueryEmbeddingResultView, Seq<char>)> {
    match sp_key_str(s, "{\"request_id\":\""@) {
        None => None,
        Some((request_id, r)) => {
            match sp_key_opt_u32_arr(r, ",\"embedding\":"@) {
                None => None,
                Some((embedding, r)) => {
                    match sp_key_opt_str(r, ",\"model_name\":"@) {
                        None => None,
                        Some((model_name, r)) => {
                            match sp_key_opt_str(r, ",\"error_message\":"@) {
                                None => None,
                                Some((error_message, r)) => {
                                    match sp_lit(r, "}"@) {
                                        None => None,
                                        Some(r2) => Some((QueryEmbeddingResultView { request_id, embedding, model_name, error_message }, r2)),
                                    }
                                },
                            }
                        },
                    }
                },
            }
        },
    }
}

pub open spec fn spec_dec_query_embedding_result(s: Seq<char>) -> Option<QueryEmbeddingResultView> {
    match sp_obj_query_embedding_result(s) {
        None => None,
        Some((v, r)) => if r.len() == 0 {
            Some(v)
        } else {
            None
        },
    }
}

pub proof fn lemma_obj_query_embedding_result_complete(v: QueryEmbeddingResultView, rest: Seq<char>)
    ensures
        sp_obj_query_embedding_result(spec_enc_query_embedding_result(v) + rest) == Some((v, rest)),
{
    let k1 = "{\"request_id\":\""@;
    let k2 = ",\"embedding\":"@;
    let k3 = ",\"model_name\":"@;
    let k4 = ",\"error_message\":"@;
    let t4 = "}"@ + rest;
    let t3 = enc_opt_str_field(k4, v.error_message) + t4;
    let t2 = enc_opt_str_field(k3, v.model_name) + t3;
    let t1 = enc_opt_u32_arr_field(k2, v.embedding) + t2;
    assert(spec_enc_query_embedding_result(v) + rest =~= enc_str_field(k1, v.request_id) + t1);
    lemma_key_str_complete(k1, v.request_id, t1);
    reveal_strlit(",\"model_name\":");
    assert(t2[0] == k3[0]);
    assert(!is_digit(t2[0]));
    lemma_key_opt_u32_arr_complete(k2, v.embedding, t2);
    lemma_key_opt_str_complete(k3, v.model_name, t3);
    lemma_key_opt_str_complete(k4, v.error_message, t4);
    lemma_sp_lit_complete("}"@, rest);
}

#[verifier::rlimit(50)]
pub proof fn lemma_obj_query_embedding_result_sound(s: Seq<char>)
    ensures
        sp_obj_query_embedding_result(s) matches Some((v, r)) ==> s == spec_enc_query_embedding_result(v) + r,
{
    let k1 = "{\"request_id\":\""@;
    let k2 = ",\"embedding\":"@;
    let k3 = ",\"model_name\":"@;
    let k4 = ",\"error_message\":"@;
    if sp_obj_query_embedding_result(s) is Some {
        let (v, r) = sp_obj_query_embedding_result(s)->Some_0;
        lemma_key_str_sound(s, k1);
        let (request_id, r1) = sp_key_str(s, k1)->Some_0;
        lemma_key_opt_u32_arr_sound(r1, k2);
        let (embedding, r2) = sp_key_opt_u32_arr(r1, k2)->Some_0;
        lemma_key_opt_str_sound(r2, k3);
        let (model_name, r3) = sp_key_opt_str(r2, k3)->Some_0;
        lemma_key_opt_str_sound(r3, k4);
        let (error_message, r4) = sp_key_opt_str(r3, k4)->Some_0;
        lemma_sp_lit_sound(r4, "}"@);
        assert(s =~= enc_str_field(k1, request_id) + (enc_opt_u32_arr_field(k2, embedding) + (enc_opt_str_field(k3, model_name) + (enc_opt_str_field(k4, error_message) + ("}"@ + r)))));
        assert(spec_enc_query_embedding_result(v) + r =~= enc_str_field(k1, request_id) + (enc_opt_u32_arr_field(k2, embedding) + (enc_opt_str_field(k3, model_name) + (enc_opt_str_field(k4, error_message) + ("}"@ + r)))));
    }
}

/// Law: decoding an encoded envelope yields it back.
pub proof fn lemma_query_embedding_result_round_trip(v: QueryEmbeddingResultView)
    ensures
        spec_dec_query_embedding_result(spec_enc_query_embedding_result(v)) == Some(v),
{
    lemma_obj_query_embedding_result_complete(v, Seq::empty());
    assert(spec_enc_query_embedding_result(v) + Seq::<char>::empty() =~= spec_enc_query_embedding_result(v));
}

/// Law: any text that decodes is the encoding of its decoded value.
pub proof fn lemma_query_embedding_result_decode_sound(s: Seq<char>)
    ensures
        spec_dec_query_embedding_result(s) matches Some(v) ==> s == spec_enc_query_embedding_result(v),
{
    if spec_dec_query_embedding_result(s) is Some {
        lemma_obj_query_embedding_result_sound(s);
        let (v, r) = sp_obj_query_embedding_result(s)->Some_0;
        assert(spec_enc_query_embedding_result(v) + r =~= spec_enc_query_embedding_result(v));
    }
}

pub fn encode_query_embedding_result(x: &QueryEmbeddingResult) -> (out: Vec<char>)
    ensures
        out@ == spec_enc_query_embedding_result(x@),
{
    let mut out: Vec<char> = Vec::new();
    push_str_field(&mut out, "{\"request_id\":\"", x.request_id.as_str());
    push_opt_u32_arr_field(&mut out, ",\"embedding\":", &x.embedding);
    push_opt_str_field(&mut out, ",\"model_name\":", &x.model_name);
    push_opt_str_field(&mut out, ",\"error_message\":", &x.error_message);
    push_lit(&mut out, "}");
    proof {
        assert(out@ =~= spec_enc_query_embedding_result(x@));
    }
    out
}

pub(crate) fn p_obj_query_embedding_result(s: &Vec<char>, i: usize) -> (r: Option<(QueryEmbeddingResult, usize)>)
    requires
        i <= s@.len(),
    ensures
        r matches Some((m, j)) ==> i <= j <= s@.len() && sp_obj_query_embedding_result(
            s@.skip(i as int),
        ) == Some((m@, s@.skip(j as int))),
        r is None ==> sp_obj_query_embedding_result(s@.skip(i as int)) is None,
{
    let (request_id, j1) = match pf_str(s, i, "{\"request_id\":\"") {
        None => {
            return None;
        },
        Some(x) => x,
    };
    let (embedding, j2) = match pf_opt_u32_arr(s, j1, ",\"embedding\":") {
        None => {
            return None;
        },
        Some(x) => x,
    };
    let (model_name, j3) = match pf_opt_str(s, j2, ",\"model_name\":") {
        None => {
            return None;
        },
        Some(x) => x,
    };
    let (error_message, j4) = match pf_opt_str(s, j3, ",\"error_message\":") {
        None => {
            return None;
        },
        Some(x) => x,
    };
    let j5 = match p_lit(s, j4, "}") {
        None => {
            return None;
        },
        Some(x) => x,
    };
    Some((QueryEmbeddingResult { request_id, embedding, model_name, error_message }, j5))
}

pub fn decode_query_embedding_result(s: &Vec<char>) -> (r: Option<QueryEmbeddingResult>)
    ensures
        r matches Some(m) ==> spec_dec_query_embedding_result(s@) == Some(m@),
        r is None ==> spec_dec_query_embedding_result(s@) is None,
{
    proof {
        assert(s@.skip(0) =~= s@);
    }
    match p_obj_query_embedding_result(s, 0) {
        None => None,
        Some((m, j)) => if j == s.len() {
            Some(m)
        } else {
            None
        },
    }
}

// ---------------------------------------------------------------------------
// QdrantPointPayload
// ---------------------------------------------------------------------------

pub open spec fn spec_enc_qdrant_point_payload(v: QdrantPointPayloadView) -> Seq<char> {
    enc_str_field("{\"original_document_id\":\""@, v.original_document_id) + enc_str_field(",\"source_url\":\""@, v.source_url) + enc_str_field(",\"sentence_text\":\""@, v.sentence_text) + enc_u32_field(",\"sentence_order\":"@, v.sentence_order) + enc_str_field(",\"model_name\":\""@, v.model_name) + enc_u64_field(",\"processed_at_ms\":"@, v.processed_at_ms) + "}"@
}

pub open spec fn sp_obj_qdrant_point_payload(s: Seq<char>) -> Option<(QdrantPointPayloadView, Seq<char>)> {
    match sp_key_str(s, "{\"original_document_id\":\""@) {
        None => None,
        Some((original_document_id, r)) => {
            match sp_key_str(r, ",\"source_url\":\""@) {
                None => None,
                Some((source_url, r)) => {
                    match sp_key_str(r, ",\"sentence_text\":\""@) {
                        None => None,
                        Some((sentence_text, r)) => {
                            match sp_key_u32(r, ",\"sentence_order\":"@) {
                                None => None,
                                Some((sentence_order, r)) => {
                                    match sp_key_str(r, ",\"model_name\":\""@) {
                                        None => None,
                                        Some((model_name, r)) => {
                                            match sp_key_u64(r, ",\"processed_at_ms\":"@) {
                                                None => None,
                                                Some((processed_at_ms, r)) => {
                                                    match sp_lit(r, "}"@) {
                                                        None => None,
                                                        Some(r2) => Some((QdrantPointPayloadView { original_document_id, source_url, sentence_text, sentence_order, model_name, processed_at_ms }, r2)),
                                                    }
                                                },
                                            }
                                        },
                                    }
                                },
                            }
                        },
                    }
                },
            }
        },
    }
}

pub open spec fn spec_dec_qdrant_point_payload(s: Seq<char>) -> Option<QdrantPointPayloadView> {
    match sp_obj_qdrant_point_payload(s) {
        None => None,
        Some((v, r)) => if r.len() == 0 {
            Some(v)
        } else {
            None
        },
    }
}

pub proof fn lemma_obj_qdrant_point_payload_complete(v: QdrantPointPayloadView, rest: Seq<char>)
    ensures
        sp_obj_qdrant_point_payload(spec_enc_qdrant_point_payload(v) + rest) == Some((v, rest)),
{
    let k1 = "{\"original_document_id\":\""@;
    let k2 = ",\"source_url\":\""@;
    let k3 = ",\"sentence_text\":\""@;
    let k4 = ",\"sentence_order\":"@;
    let k5 = ",\"model_name\":\""@;
    let k6 = ",\"processed_at_ms\":"@;
    let t6 = "}"@ + rest;
    let t5 = enc_u64_field(k6, v.processed_at_ms) + t6;
    let t4 = enc_str_field(k5, v.model_name) + t5;
    let t3 = enc_u32_field(k4, v.sentence_order) + t4;
    let t2 = enc_str_field(k3, v.sentence_text) + t3;
    let t1 = enc_str_field(k2, v.source_url) + t2;
    assert(spec_enc_qdrant_point_payload(v) + rest =~= enc_str_field(k1, v.original_document_id) + t1);
    lemma_key_str_complete(k1, v.original_document_id, t1);
    lemma_key_str_complete(k2, v.source_url, t2);
    lemma_key_str_complete(k3, v.sentence_text, t3);
    reveal_strlit(",\"model_name\":\"");
    assert(t4[0] == k5[0]);
    assert(!is_digit(t4[0]));
    lemma_key_u32_complete(k4, v.sentence_order, t4);
    lemma_key_str_complete(k5, v.model_name, t5);
    lemma_rbrace_lit();
    assert(t6[0] == '}');
    assert(!is_digit(t6[0]));
    lemma_key_u64_complete(k6, v.processed_at_ms, t6);
    lemma_sp_lit_complete("}"@, rest);
}

pub proof fn lemma_obj_qdrant_point_payload_sound(s: Seq<char>)
    ensures
        sp_obj_qdrant_point_payload(s) matches Some((v, r)) ==> s == spec_enc_qdrant_point_payload(v) + r,
{
    let k1 = "{\"original_document_id\":\""@;
    let k2 = ",\"source_url\":\""@;
    let k3 = ",\"sentence_text\":\""@;
    let k4 = ",\"sentence_order\":"@;
    let k5 = ",\"model_name\":\""@;
    let k6 = ",\"processed_at_ms\":"@;
    if sp_obj_qdrant_point_payload(s) is Some {
        let (v, r) = sp_obj_qdrant_point_payload(s)->Some_0;
        lemma_key_str_sound(s, k1);
        let (original_document_id, r1) = sp_key_str(s, k1)->Some_0;
        lemma_key_str_sound(r1, k2);
        let (source_url, r2) = sp_key_str(r1, k2)->Some_0;
        lemma_key_str_sound(r2, k3);
        let (sentence_text, r3) = sp_key_str(r2, k3)->Some_0;
        lemma_key_u32_sound(r3, k4);
        let (sentence_order, r4) = sp_key_u32(r3, k4)->Some_0;
        lemma_key_str_sound(r4, k5);
        let (model_name, r5) = sp_key_str(r4, k5)->Some_0;
        lemma_key_u64_sound(r5, k6);
        let (processed_at_ms, r6) = sp_key_u64(r5, k6)->Some_0;
        lemma_sp_lit_sound(r6, "}"@);
        assert(s =~= enc_str_field(k1, original_document_id) + (enc_str_field(k2, source_url) + (enc_str_field(k3, sentence_text) + (enc_u32_field(k4, sentence_order) + (enc_str_field(k5, model_name) + (enc_u64_field(k6, processed_at_ms) + ("}"@ + r)))))));
        assert(spec_enc_qdrant_point_payload(v) + r =~= enc_str_field(k1, original_document_id) + (enc_str_field(k2, source_url) + (enc_str_field(k3, sentence_text) + (enc_u32_field(k4, sentence_order) + (enc_str_field(k5, model_name) + (enc_u64_field(k6, processed_at_ms) + ("}"@ + r)))))));
    }
}

/// Law: decoding an encoded envelope yields it back.
pub proof fn lemma_qdrant_point_payload_round_trip(v: QdrantPointPayloadView)
    ensures
        spec_dec_qdrant_point_payload(spec_enc_qdrant_point_payload(v)) == Some(v),
{
    lemma_obj_qdrant_point_payload_complete(v, Seq::empty());
    assert(spec_enc_qdrant_point_payload(v) + Seq::<char>::empty() =~= spec_enc_qdrant_point_payload(v));
}

/// Law: any text that decodes is the encoding of its decoded value.
pub proof fn lemma_qdrant_point_payload_decode_sound(s: Seq<char>)
    ensures
        spec_dec_qdrant_point_payload(s) matches Some(v) ==> s == spec_enc_qdrant_point_payload(v),
{
    if spec_dec_qdrant_point_payload(s) is Some {
        lemma_obj_qdrant_point_payload_sound(s);
        let (v, r) = sp_obj_qdrant_point_payload(s)->Some_0;
        assert(spec_enc_qdrant_point_payload(v) + r =~= spec_enc_qdrant_point_payload(v));
    }
}

pub fn encode_qdrant_point_payload(x: &QdrantPointPayload) -> (out: Vec<char>)
    ensures
        out@ == spec_enc_qdrant_point_payload(x@),
{
    let mut out: Vec<char> = Vec::new();
    push_str_field(&mut out, "{\"original_document_id\":\"", x.original_document_id.as_str());
    push_str_field(&mut out, ",\"source_url\":\"", x.source_url.as_str());
    push_str_field(&mut out, ",\"sentence_text\":\"", x.sentence_text.as_str());
    push_u32_field(&mut out, ",\"sentence_order\":", x.sentence_order);
    push_str_field(&mut out, ",\"model_name\":\"", x.model_name.as_str());
    push_u64_field(&mut out, ",\"processed_at_ms\":", x.processed_at_ms);
    push_lit(&mut out, "}");
    proof {
        assert(out@ =~= spec_enc_qdrant_point_payload(x@));
    }
    out
}

pub(crate) fn p_obj_qdrant_point_payload(s: &Vec<char>, i: usize) -> (r: Option<(QdrantPointPayload, usize)>)
    requires
        i <= s@.len(),
    ensures
        r matches Some((m, j)) ==> i <= j <= s@.len() && sp_obj_qdrant_point_payload(
            s@.skip(i as int),
        ) == Some((m@, s@.skip(j as int))),
        r is None ==> sp_obj_qdrant_point_payload(s@.skip(i as int)) is None,
{
    let (original_document_id, j1) = match pf_str(s, i, "{\"original_document_id\":\"") {
        None => {
            return None;
        },
        Some(x) => x,
    };
    let (source_url, j2) = match pf_str(s, j1, ",\"source_url\":\"") {
        None => {
            return None;
        },
        Some(x) => x,
    };
    let (sentence_text, j3) = match pf_str(s, j2, ",\"sentence_text\":\"") {
        None => {
            return None;
        },
        Some(x) => x,
    };
    let (sentence_order, j4) = match pf_u32(s, j3, ",\"sentence_order\":") {
        None => {
            return None;
        },
        Some(x) => x,
    };
    let (model_name, j5) = match pf_str(s, j4, ",\"model_name\":\"") {
        None => {
            return None;
        },
        Some(x) => x,
    };
    let (processed_at_ms, j6) = match pf_u64(s, j5, ",\"processed_at_ms\":") {
        None => {
            return None;
        },
        Some(x) => x,
    };
    let j7 = match p_lit(s, j6, "}") {
        None => {
            return None;
        },
        Some(x) => x,
    };
    Some((QdrantPointPayload { original_document_id, source_url, sentence_text, sentence_order, model_name, processed_at_ms }, j7))
}

pub fn decode_qdrant_point_payload(s: &Vec<char>) -> (r: Option<QdrantPointPayload>)
    ensures
        r matches Some(m) ==> spec_dec_qdrant_point_payload(s@) == Some(m@),
        r is None ==> spec_dec_qdrant_point_payload(s@) is None,
{
    proof {
        assert(s@.skip(0) =~= s@);
    }
    match p_obj_qdrant_point_payload(s, 0) {
        None => None,
        Some((m, j)) => if j == s.len() {
            Some(m)
        } else {
            None
        },
    }
}

// ---------------------------------------------------------------------------
// SemanticSearchNatsTask
// ---------------------------------------------------------------------------

pub open spec fn spec_enc_semantic_search_nats_task(v: SemanticSearchNatsTaskView) -> Seq<char> {
    enc_str_field("{\"request_id\":\""@, v.request_id) + enc_u32_arr_field(",\"query_embedding\":"@, v.query_embedding) + enc_u32_field(",\"top_k\":"@, v.top_k) + "}"@
}

pub open spec fn sp_obj_semantic_search_nats_task(s: Seq<char>) -> Option<(SemanticSearchNatsTaskView, Seq<char>)> {
    match sp_key_str(s, "{\"request_id\":\""@) {
        None => None,
        Some((request_id, r)) => {
            match sp_key_u32_arr(r, ",\"query_embedding\":"@) {
                None => None,
                Some((query_embedding, r)) => {
                    match sp_key_u32(r, ",\"top_k\":"@) {
                        None => None,
                        Some((top_k, r)) => {
                            match sp_lit(r, "}"@) {
                                None => None,
                                Some(r2) => Some((SemanticSearchNatsTaskView { request_id, query_embedding, top_k }, r2)),
                            }
                        },
                    }
                },
            }
        },
    }
}

pub open spec fn spec_dec_semantic_search_nats_task(s: Seq<char>) -> Option<SemanticSearchNatsTaskView> {
    match sp_obj_semantic_search_nats_task(s) {
        None => None,
        Some((v, r)) => if r.len() == 0 {
            Some(v)
        } else {
            None
        },
    }
}

pub proof fn lemma_obj_semantic_search_nats_task_complete(v: SemanticSearchNatsTaskView, rest: Seq<char>)
    ensures
        sp_obj_semantic_search_nats_task(spec_enc_semantic_search_nats_task(v) + rest) == Some((v, rest)),
{
    let k1 = "{\"request_id\":\""@;
    let k2 = ",\"query_embedding\":"@;
    let k3 = ",\"top_k\":"@;
    let t3 = "}"@ + rest;
    let t2 = enc_u32_field(k3, v.top_k) + t3;
    let t1 = enc_u32_arr_field(k2, v.query_embedding) + t2;
    assert(spec_enc_semantic_search_nats_task(v) + rest =~= enc_str_field(k1, v.request_id) + t1);
    lemma_key_str_complete(k1, v.request_id, t1);
    reveal_strlit(",\"top_k\":");
    assert(t2[0] == k3[0]);
    assert(!is_digit(t2[0]));
    lemma_key_u32_arr_complete(k2, v.query_embedding, t2);
    lemma_rbrace_lit();
    assert(t3[0] == '}');
    assert(!is_digit(t3[0]));
    lemma_key_u32_complete(k3, v.top_k, t3);
    lemma_sp_lit_complete("}"@, rest);
}

pub proof fn lemma_obj_semantic_search_nats_task_sound(s: Seq<char>)
    ensures
        sp_obj_semantic_search_nats_task(s) matches Some((v, r)) ==> s == spec_enc_semantic_search_nats_task(v) + r,
{
    let k1 = "{\"request_id\":\""@;
    let k2 = ",\"query_embedding\":"@;
    let k3 = ",\"top_k\":"@;
    if sp_obj_semantic_search_nats_task(s) is Some {
        let (v, r) = sp_obj_semantic_search_nats_task(s)->Some_0;
        lemma_key_str_sound(s, k1);
        let (request_id, r1) = sp_key_str(s, k1)->Some_0;
        lemma_key_u32_arr_sound(r1, k2);
        let (query_embedding, r2) = sp_key_u32_arr(r1, k2)->Some_0;
        lemma_key_u32_sound(r2, k3);
        let (top_k, r3) = sp_key_u32(r2, k3)->Some_0;
        lemma_sp_lit_sound(r3, "}"@);
        assert(s =~= enc_str_field(k1, request_id) + (enc_u32_arr_field(k2, query_embedding) + (enc_u32_field(k3, top_k) + ("}"@ + r))));
        assert(spec_enc_semantic_search_nats_task(v) + r =~= enc_str_field(k1, request_id) + (enc_u32_arr_field(k2, query_embedding) + (enc_u32_field(k3, top_k) + ("}"@ + r))));
    }
}

/// Law: decoding an encoded envelope yields it back.
pub proof fn lemma_semantic_search_nats_task_round_trip(v: SemanticSearchNatsTaskView)
    ensures
        spec_dec_semantic_search_nats_task(spec_enc_semantic_search_nats_task(v)) == Some(v),
{
    lemma_obj_semantic_search_nats_task_complete(v, Seq::empty());
    assert(spec_enc_semantic_search_nats_task(v) + Seq::<char>::empty() =~= spec_enc_semantic_search_nats_task(v));
}

/// Law: any text that decodes is the encoding of its decoded value.
pub proof fn lemma_semantic_search_nats_task_decode_sound(s: Seq<char>)
    ensures
        spec_dec_semantic_search_nats_task(s) matches Some(v) ==> s == spec_enc_semantic_search_nats_task(v),
{
    if spec_dec_semantic_search_nats_task(s) is Some {
        lemma_obj_semantic_search_nats_task_sound(s);
        let (v, r) = sp_obj_semantic_search_nats_task(s)->Some_0;
        assert(spec_enc_semantic_search_nats_task(v) + r =~= spec_enc_semantic_search_nats_task(v));
    }
}

pub fn encode_semantic_search_nats_task(x: &SemanticSearchNatsTask) -> (out: Vec<char>)
    ensures
        out@ == spec_enc_semantic_search_nats_task(x@),
{
    let mut out: Vec<char> = Vec::new();
    push_str_field(&mut out, "{\"request_id\":\"", x.request_id.as_str());
    push_u32_arr_field(&mut out, ",\"query_embedding\":", &x.query_embedding);
    push_u32_field(&mut out, ",\"top_k\":", x.top_k);
    push_lit(&mut out, "}");
    proof {
        assert(out@ =~= spec_enc_semantic_search_nats_task(x@));
    }
    out
}

pub(crate) fn p_obj_semantic_search_nats_task(s: &Vec<char>, i: usize) -> (r: Option<(SemanticSearchNatsTask, usize)>)
    requires
        i <= s@.len(),
    ensures
        r matches Some((m, j)) ==> i <= j <= s@.len() && sp_obj_semantic_search_nats_task(
            s@.skip(i as int),
        ) == Some((m@, s@.skip(j as int))),
        r is None ==> sp_obj_semantic_search_nats_task(s@.skip(i as int)) is None,
{
    let (request_id, j1) = match pf_str(s, i, "{\"request_id\":\"") {
        None => {
            return None;
        },
        Some(x) => x,
    };
    let (query_embedding, j2) = match pf_u32_arr(s, j1, ",\"query_embedding\":") {
        None => {
            return None;
        },
        Some(x) => x,
    };
    let (top_k, j3) = match pf_u32(s, j2, ",\"top_k\":") {
        None => {
            return None;
        },
        Some(x) => x,
    };
    let j4 = match p_lit(s, j3, "}") {
        None => {
            return None;
        },
        Some(x) => x,
    };
    Some((SemanticSearchNatsTask { request_id, query_embedding, top_k }, j4))
}

pub fn decode_semantic_search_nats_task(s: &Vec<char>) -> (r: Option<SemanticSearchNatsTask>)
    ensures
        r matches Some(m) ==> spec_dec_semantic_search_nats_task(s@) == Some(m@),
        r is None ==> spec_dec_semantic_search_nats_task(s@) is None,
{
    proof {
        assert(s@.skip(0) =~= s@);
    }
    match p_obj_semantic_search_nats_task(s, 0) {
        None => None,
        Some((m, j)) => if j == s.len() {
            Some(m)
        } else {
            None
        },
    }
}

// ---------------------------------------------------------------------------
// SentenceEmbedding
// ---------------------------------------------------------------------------

pub open spec fn spec_enc_sentence_embedding(v: SentenceEmbeddingView) -> Seq<char> {
    enc_str_field("{\"sentence_text\":\""@, v.sentence_text) + enc_u32_arr_field(",\"embedding\":"@, v.embedding) + "}"@
}

pub open spec fn sp_obj_sentence_embedding(s: Seq<char>) -> Option<(SentenceEmbeddingView, Seq<char>)> {
    match sp_key_str(s, "{\"sentence_text\":\""@) {
        None => None,
        Some((sentence_text, r)) => {
            match sp_key_u32_arr(r, ",\"embedding\":"@) {
                None => None,
                Some((embedding, r)) => {
                    match sp_lit(r, "}"@) {
                        None => None,
                        Some(r2) => Some((SentenceEmbeddingView { sentence_text, embedding }, r2)),
                    }
                },
            }
        },
    }
}

pub open spec fn spec_dec_sentence_embedding(s: Seq<char>) -> Option<SentenceEmbeddingView> {
    match sp_obj_sentence_embedding(s) {
        None => None,
        Some((v, r)) => if r.len() == 0 {
            Some(v)
        } else {
            None
        },
    }
}

pub proof fn lemma_obj_sentence_embedding_complete(v: SentenceEmbeddingView, rest: Seq<char>)
    ensures
        sp_obj_sentence_embedding(spec_enc_sentence_embedding(v) + rest) == Some((v, rest)),
{
    let k1 = "{\"sentence_text\":\""@;
    let k2 = ",\"embedding\":"@;
    let t2 = "}"@ + rest;
    let t1 = enc_u32_arr_field(k2, v.embedding) + t2;
    assert(spec_enc_sentence_embedding(v) + rest =~= enc_str_field(k1, v.sentence_text) + t1);
    lemma_key_str_complete(k1, v.sentence_text, t1);
    lemma_rbrace_lit();
    assert(t2[0] == '}');
    assert(!is_digit(t2[0]));
    lemma_key_u32_arr_complete(k2, v.embedding, t2);
    lemma_sp_lit_complete("}"@, rest);
}

pub proof fn lemma_obj_sentence_embedding_sound(s: Seq<char>)
    ensures
        sp_obj_sentence_embedding(s) matches Some((v, r)) ==> s == spec_enc_sentence_embedding(v) + r,
{
    let k1 = "{\"sentence_text\":\""@;
    let k2 = ",\"embedding\":"@;
    if sp_obj_sentence_embedding(s) is Some {
        let (v, r) = sp_obj_sentence_embedding(s)->Some_0;
        lemma_key_str_sound(s, k1);
        let (sentence_text, r1) = sp_key_str(s, k1)->Some_0;
        lemma_key_u32_arr_sound(r1, k2);
        let (embedding, r2) = sp_key_u32_arr(r1, k2)->Some_0;
        lemma_sp_lit_sound(r2, "}"@);
        assert(s =~= enc_str_field(k1, sentence_text) + (enc_u32_arr_field(k2, embedding) + ("}"@ + r)));
        assert(spec_enc_sentence_embedding(v) + r =~= enc_str_field(k1, sentence_text) + (enc_u32_arr_field(k2, embedding) + ("}"@ + r)));
    }
}

/// Law: decoding an encoded envelope yields it back.
pub proof fn lemma_sentence_embedding_round_trip(v: SentenceEmbeddingView)
    ensures
        spec_dec_sentence_embedding(spec_enc_sentence_embedding(v)) == Some(v),
{
    lemma_obj_sentence_embedding_complete(v, Seq::empty());
    assert(spec_enc_sentence_embedding(v) + Seq::<char>::empty() =~= spec_enc_sentence_embedding(v));
}

/// Law: any text that decodes is the encoding of its decoded value.
pub proof fn lemma_sentence_embedding_decode_sound(s: Seq<char>)
    ensures
        spec_dec_sentence_embedding(s) matches Some(v) ==> s == spec_enc_sentence_embedding(v),
{
    if spec_dec_sentence_embedding(s) is Some {
        lemma_obj_sentence_embedding_sound(s);
        let (v, r) = sp_obj_sentence_embedding(s)->Some_0;
        assert(spec_enc_sentence_embedding(v) + r =~= spec_enc_sentence_embedding(v));
    }
}

pub fn encode_sentence_embedding(x: &SentenceEmbedding) -> (out: Vec<char>)
    ensures
        out@ == spec_enc_sentence_embedding(x@),
{
    let mut out: Vec<char> = Vec::new();
    push_str_field(&mut out, "{\"sentence_text\":\"", x.sentence_text.as_str());
    push_u32_arr_field(&mut out, ",\"embedding\":", &x.embedding);
    push_lit(&mut out, "}");
    proof {
        assert(out@ =~= spec_enc_sentence_embedding(x@));
    }
    out
}

pub(crate) fn p_obj_sentence_embedding(s: &Vec<char>, i: usize) -> (r: Option<(SentenceEmbedding, usize)>)
    requires
        i <= s@.len(),
    ensures
        r matches Some((m, j)) ==> i <= j <= s@.len() && sp_obj_sentence_embedding(
            s@.skip(i as int),
        ) == Some((m@, s@.skip(j as int))),
        r is None ==> sp_obj_sentence_embedding(s@.skip(i as int)) is None,
{
    let (sentence_text, j1) = match pf_str(s, i, "{\"sentence_text\":\"") {
        None => {
            return None;
        },
        Some(x) => x,
    };
    let (embedding, j2) = match pf_u32_arr(s, j1, ",\"embedding\":") {
        None => {
            return None;
        },
        Some(x) => x,
    };
    let j3 = match p_lit(s, j2, "}") {
        None => {
            return None;
        },
        Some(x) => x,
    };
    Some((SentenceEmbedding { sentence_text, embedding }, j3))
}

pub fn decode_sentence_embedding(s: &Vec<char>) -> (r: Option<SentenceEmbedding>)
    ensures
        r matches Some(m) ==> spec_dec_sentence_embedding(s@) == Some(m@),
        r is None ==> spec_dec_sentence_embedding(s@) is None,
{
    proof {
        assert(s@.skip(0) =~= s@);
    }
    match p_obj_sentence_embedding(s, 0) {
        None => None,
        Some((m, j)) => if j == s.len() {
            Some(m)
        } else {
            None
        },
    }
}


// ---------------------------------------------------------------------------
// Arrays of embedded objects
// ---------------------------------------------------------------------------

/// A successful object parse consumes at least the closing brace.
pub proof fn lemma_obj_sentence_embedding_shrinks(s: Seq<char>)
    ensures
        sp_obj_sentence_embedding(s) matches Some((v, r)) ==> r.len() < s.len(),
{
    if sp_obj_sentence_embedding(s) is Some {
        lemma_obj_sentence_embedding_sound(s);
        let (v, r) = sp_obj_sentence_embedding(s)->Some_0;
        lemma_rbrace_lit();
        assert(spec_enc_sentence_embedding(v).len() >= 1);
    }
}

pub open spec fn enc_emb_arr_rest(vs: Seq<SentenceEmbeddingView>) -> Seq<char>
    decreases vs.len(),
{
    if vs.len() == 0 {
        seq![']']
    } else {
        seq![','] + spec_enc_sentence_embedding(vs[0]) + enc_emb_arr_rest(vs.skip(1))
    }
}

pub open spec fn enc_emb_arr(vs: Seq<SentenceEmbeddingView>) -> Seq<char> {
    if vs.len() == 0 {
        seq!['[', ']']
    } else {
        seq!['['] + spec_enc_sentence_embedding(vs[0]) + enc_emb_arr_rest(vs.skip(1))
    }
}

pub open spec fn sp_emb_arr_rest(s: Seq<char>) -> Option<(Seq<SentenceEmbeddingView>, Seq<char>)>
    decreases s.len(),
    via sp_emb_arr_rest_dec
{
    if s.len() == 0 {
        None
    } else if s[0] == ']' {
        Some((Seq::empty(), s.skip(1)))
    } else if s[0] == ',' {
        match sp_obj_sentence_embedding(s.skip(1)) {
            None => None,
            Some((v, r)) => match sp_emb_arr_rest(r) {
                None => None,
                Some((vs, r2)) => Some((seq![v] + vs, r2)),
            },
        }
    } else {
        None
    }
}

#[via_fn]
proof fn sp_emb_arr_rest_dec(s: Seq<char>) {
    if s.len() > 0 && s[0] == ',' {
        lemma_obj_sentence_embedding_shrinks(s.skip(1));
    }
}

pub open spec fn sp_emb_arr(s: Seq<char>) -> Option<(Seq<SentenceEmbeddingView>, Seq<char>)> {
    if s.len() >= 2 && s[0] == '[' && s[1] == ']' {
        Some((Seq::empty(), s.skip(2)))
    } else if s.len() >= 1 && s[0] == '[' {
        match sp_obj_sentence_embedding(s.skip(1)) {
            None => None,
            Some((v, r)) => match sp_emb_arr_rest(r) {
                None => None,
                Some((vs, r2)) => Some((seq![v] + vs, r2)),
            },
        }
    } else {
        None
    }
}

#[verifier::rlimit(80)]
pub proof fn lemma_emb_arr_rest_complete(vs: Seq<SentenceEmbeddingView>, rest: Seq<char>)
    ensures
        sp_emb_arr_rest(enc_emb_arr_rest(vs) + rest) == Some((vs, rest)),
    decreases vs.len(),
{
    let s = enc_emb_arr_rest(vs) + rest;
    if vs.len() == 0 {
        assert(s =~= seq![']'] + rest);
        assert(s[0] == ']');
        assert(s.skip(1) =~= rest);
        assert(Seq::<SentenceEmbeddingView>::empty() =~= vs);
    } else {
        lemma_emb_arr_rest_complete(vs.skip(1), rest);
        assert(s[0] == ',');
        assert(s.skip(1) =~= spec_enc_sentence_embedding(vs[0]) + (enc_emb_arr_rest(vs.skip(1))
            + rest));
        lemma_obj_sentence_embedding_complete(vs[0], enc_emb_arr_rest(vs.skip(1)) + rest);
        assert(seq![vs[0]] + vs.skip(1) =~= vs);
    }
}

#[verifier::rlimit(80)]
pub proof fn lemma_emb_arr_complete(vs: Seq<SentenceEmbeddingView>, rest: Seq<char>)
    ensures
        sp_emb_arr(enc_emb_arr(vs) + rest) == Some((vs, rest)),
{
    let s = enc_emb_arr(vs) + rest;
    if vs.len() == 0 {
        assert(s[0] == '[' && s[1] == ']');
        assert(s.skip(2) =~= rest);
        assert(Seq::<SentenceEmbeddingView>::empty() =~= vs);
    } else {
        assert(s[0] == '[');
        assert(s.skip(1) =~= spec_enc_sentence_embedding(vs[0]) + (enc_emb_arr_rest(vs.skip(1))
            + rest));
        lemma_obj_sentence_embedding_complete(vs[0], enc_emb_arr_rest(vs.skip(1)) + rest);
        lemma_emb_arr_rest_complete(vs.skip(1), rest);
        assert(seq![vs[0]] + vs.skip(1) =~= vs);
        reveal_strlit("{\"sentence_text\":\"");
        assert(s[1] == '{');
    }
}

#[verifier::rlimit(80)]
pub proof fn lemma_emb_arr_rest_sound(s: Seq<char>)
    ensures
        sp_emb_arr_rest(s) matches Some((vs, r)) ==> s == enc_emb_arr_rest(vs) + r,
    decreases s.len(),
{
    if sp_emb_arr_rest(s) is Some {
        let (vs, r) = sp_emb_arr_rest(s)->Some_0;
        if s[0] == ']' {
            assert(vs =~= Seq::<SentenceEmbeddingView>::empty());
            assert(s =~= seq![']'] + s.skip(1));
        } else {
            let (v, r1) = sp_obj_sentence_embedding(s.skip(1))->Some_0;
            lemma_obj_sentence_embedding_sound(s.skip(1));
            lemma_obj_sentence_embedding_shrinks(s.skip(1));
            lemma_emb_arr_rest_sound(r1);
            let (vs2, r2) = sp_emb_arr_rest(r1)->Some_0;
            assert(vs[0] == v);
            assert(vs.skip(1) =~= vs2);
            assert(s =~= seq![s[0]] + s.skip(1));
            assert(s =~= seq![','] + spec_enc_sentence_embedding(v) + (enc_emb_arr_rest(vs2) + r));
            assert(enc_emb_arr_rest(vs) + r =~= seq![','] + spec_enc_sentence_embedding(v) + (
            enc_emb_arr_rest(vs2) + r));
        }
    }
}

#[verifier::rlimit(80)]
pub proof fn lemma_emb_arr_sound(s: Seq<char>)
    ensures
        sp_emb_arr(s) matches Some((vs, r)) ==> s == enc_emb_arr(vs) + r,
{
    if sp_emb_arr(s) is Some {
        let (vs, r) = sp_emb_arr(s)->Some_0;
        if s.len() >= 2 && s[0] == '[' && s[1] == ']' {
            assert(vs =~= Seq::<SentenceEmbeddingView>::empty());
            assert(s =~= seq!['[', ']'] + s.skip(2));
        } else {
            let (v, r1) = sp_obj_sentence_embedding(s.skip(1))->Some_0;
            lemma_obj_sentence_embedding_sound(s.skip(1));
            lemma_emb_arr_rest_sound(r1);
            let (vs2, r2) = sp_emb_arr_rest(r1)->Some_0;
            assert(vs[0] == v);
            assert(vs.skip(1) =~= vs2);
            assert(s =~= seq![s[0]] + s.skip(1));
            assert(s =~= seq!['['] + spec_enc_sentence_embedding(v) + (enc_emb_arr_rest(vs2) + r));
            assert(enc_emb_arr(vs) + r =~= seq!['['] + spec_enc_sentence_embedding(v) + (
            enc_emb_arr_rest(vs2) + r));
        }
    }
}

pub open spec fn enc_emb_arr_field(k: Seq<char>, vs: Seq<SentenceEmbeddingView>) -> Seq<char> {
    k + enc_emb_arr(vs)
}

pub open spec fn sp_key_emb_arr(s: Seq<char>, k: Seq<char>) -> Option<
    (Seq<SentenceEmbeddingView>, Seq<char>),
> {
    match sp_lit(s, k) {
        None => None,
        Some(r) => sp_emb_arr(r),
    }
}

pub proof fn lemma_key_emb_arr_complete(
    k: Seq<char>,
    vs: Seq<SentenceEmbeddingView>,
    rest: Seq<char>,
)
    ensures
        sp_key_emb_arr(enc_emb_arr_field(k, vs) + rest, k) == Some((vs, rest)),
{
    let tail = enc_emb_arr(vs) + rest;
    assert(enc_emb_arr_field(k, vs) + rest =~= k + tail);
    lemma_sp_lit_complete(k, tail);
    lemma_emb_arr_complete(vs, rest);
}

pub proof fn lemma_key_emb_arr_sound(s: Seq<char>, k: Seq<char>)
    ensures
        sp_key_emb_arr(s, k) matches Some((vs, r)) ==> s == enc_emb_arr_field(k, vs) + r,
{
    if sp_key_emb_arr(s, k) is Some {
        let (vs, r) = sp_key_emb_arr(s, k)->Some_0;
        lemma_sp_lit_sound(s, k);
        let r1 = sp_lit(s, k)->Some_0;
        lemma_emb_arr_sound(r1);
        assert(s =~= (k + enc_emb_arr(vs)) + r);
        assert(enc_emb_arr_field(k, vs) + r =~= (k + enc_emb_arr(vs)) + r);
    }
}

/// Append a whole array of sentence embeddings.
fn push_emb_arr(out: &mut Vec<char>, vs: &Vec<SentenceEmbedding>)
    ensures
        final(out)@ == old(out)@ + enc_emb_arr(embeddings_view(vs@)),
{
    let ghost vw = embeddings_view(vs@);
    if vs.len() == 0 {
        push_lit(out, "[]");
        proof {
            reveal_strlit("[]");
            assert("[]"@ =~= seq!['[', ']']);
            assert(out@ =~= old(out)@ + enc_emb_arr(vw));
        }
        return ;
    }
    push_lit(out, "[");
    let first = encode_sentence_embedding(&vs[0]);
    push_chars(out, &first);
    let mut k: usize = 1;
    proof {
        reveal_strlit("[");
        assert("["@ =~= seq!['[']);
        assert(vw[0] == vs@[0]@);
        assert(out@ + enc_emb_arr_rest(vw.skip(1)) =~= old(out)@ + enc_emb_arr(vw));
    }
    while k < vs.len()
        invariant
            1 <= k <= vs@.len(),
            vw == embeddings_view(vs@),
            out@ + enc_emb_arr_rest(vw.skip(k as int)) == old(out)@ + enc_emb_arr(vw),
        decreases vs@.len() - k,
    {
        push_lit(out, ",");
        let piece = encode_sentence_embedding(&vs[k]);
        push_chars(out, &piece);
        proof {
            reveal_strlit(",");
            assert(","@ =~= seq![',']);
            let tailk = vw.skip(k as int);
            assert(tailk[0] == vw[k as int]);
            assert(vw[k as int] == vs@[k as int]@);
            assert(tailk.skip(1) =~= vw.skip(k + 1));
            assert(out@ + enc_emb_arr_rest(vw.skip(k + 1)) =~= old(out)@ + enc_emb_arr(vw));
        }
        k += 1;
    }
    push_lit(out, "]");
    proof {
        reveal_strlit("]");
        assert("]"@ =~= seq![']']);
        assert(vw.skip(k as int) =~= Seq::<SentenceEmbeddingView>::empty());
        assert(enc_emb_arr_rest(vw.skip(k as int)) == seq![']']);
        assert(out@ =~= old(out)@ + enc_emb_arr(vw));
    }
}

/// Parse a whole array of sentence embeddings (starting at the `[`).
fn p_emb_arr(s: &Vec<char>, i: usize) -> (r: Option<(Vec<SentenceEmbedding>, usize)>)
    requires
        i <= s@.len(),
    ensures
        r matches Some((v, j)) ==> i <= j <= s@.len() && sp_emb_arr(s@.skip(i as int)) == Some(
            (embeddings_view(v@), s@.skip(j as int)),
        ),
        r is None ==> sp_emb_arr(s@.skip(i as int)) is None,
{
    if s.len() - i >= 2 && s[i] == '[' && s[i + 1] == ']' {
        let out: Vec<SentenceEmbedding> = Vec::new();
        proof {
            assert(s@.skip(i as int)[0] == '[');
            assert(s@.skip(i as int)[1] == ']');
            assert(s@.skip(i as int).skip(2) =~= s@.skip(i + 2));
            assert(embeddings_view(out@) =~= Seq::<SentenceEmbeddingView>::empty());
        }
        return Some((out, i + 2));
    }
    if i < s.len() && s[i] == '[' {
        proof {
            assert(s@.skip(i as int)[0] == '[');
            assert(s@.skip(i as int).skip(1) =~= s@.skip(i + 1));
            if s@.skip(i as int).len() >= 2 {
                assert(s@.skip(i as int)[1] == s@[i + 1]);
            }
        }
        let first = match p_obj_sentence_embedding(s, i + 1) {
            None => {
                return None;
            },
            Some(f) => f,
        };
        let (e0, j0) = first;
        let mut out: Vec<SentenceEmbedding> = Vec::new();
        out.push(e0);
        let mut cur: usize = j0;
        proof {
            assert(embeddings_view(out@) =~= seq![e0@]);
        }
        loop
            invariant
                i <= cur <= s@.len(),
                sp_emb_arr(s@.skip(i as int)) == (match sp_emb_arr_rest(s@.skip(cur as int)) {
                    None => None::<(Seq<SentenceEmbeddingView>, Seq<char>)>,
                    Some((vs, r2)) => Some((embeddings_view(out@) + vs, r2)),
                }),
            decreases s@.len() - cur,
        {
            if cur >= s.len() {
                proof {
                    assert(s@.skip(cur as int).len() == 0);
                }
                return None;
            }
            let c = s[cur];
            proof {
                assert(s@.skip(cur as int)[0] == c);
            }
            if c == ']' {
                proof {
                    assert(s@.skip(cur as int).skip(1) =~= s@.skip(cur + 1));
                    assert(embeddings_view(out@) + Seq::<SentenceEmbeddingView>::empty()
                        =~= embeddings_view(out@));
                }
                return Some((out, cur + 1));
            } else if c == ',' {
                proof {
                    assert(s@.skip(cur as int).skip(1) =~= s@.skip(cur + 1));
                }
                match p_obj_sentence_embedding(s, cur + 1) {
                    None => {
                        return None;
                    },
                    Some((e, j2)) => {
                        let ghost pre = embeddings_view(out@);
                        out.push(e);
                        proof {
                            assert(embeddings_view(out@) =~= pre + seq![e@]);
                            assert forall|vs: Seq<SentenceEmbeddingView>| true implies (pre + seq![
                                e@,
                            ]) + vs =~= pre + (seq![e@] + vs) by {}
                        }
                        cur = j2;
                    },
                }
            } else {
                return None;
            }
        }
    }
    proof {
        if s@.skip(i as int).len() >= 1 {
            assert(s@.skip(i as int)[0] == s@[i as int]);
        }
    }
    None
}

/// Append the characters of an already encoded piece.
fn push_chars(out: &mut Vec<char>, piece: &Vec<char>)
    ensures
        final(out)@ == old(out)@ + piece@,
{
    let mut k: usize = 0;
    while k < piece.len()
        invariant
            k <= piece@.len(),
            out@ == old(out)@ + piece@.take(k as int),
        decreases piece@.len() - k,
    {
        out.push(piece[k]);
        k += 1;
        proof {
            assert(out@ =~= old(out)@ + piece@.take(k as int));
        }
    }
    proof {
        assert(piece@.take(piece@.len() as int) =~= piece@);
    }
}


// ---------------------------------------------------------------------------
// SemanticSearchResultItem
// ---------------------------------------------------------------------------

pub open spec fn spec_enc_semantic_search_result_item(v: SemanticSearchResultItemView) -> Seq<
    char,
> {
    enc_str_field("{\"qdrant_point_id\":\""@, v.qdrant_point_id) + enc_u32_field(
        ",\"score\":"@,
        v.score,
    ) + ",\"payload\":"@ + spec_enc_qdrant_point_payload(v.payload) + "}"@
}

pub open spec fn sp_obj_semantic_search_result_item(s: Seq<char>) -> Option<
    (SemanticSearchResultItemView, Seq<char>),
> {
    match sp_key_str(s, "{\"qdrant_point_id\":\""@) {
        None => None,
        Some((qdrant_point_id, r)) => {
            match sp_key_u32(r, ",\"score\":"@) {
                None => None,
                Some((score, r)) => {
                    match sp_lit(r, ",\"payload\":"@) {
                        None => None,
                        Some(r) => {
                            match sp_obj_qdrant_point_payload(r) {
                                None => None,
                                Some((payload, r)) => {
                                    match sp_lit(r, "}"@) {
                                        None => None,
                                        Some(r2) => Some(
                                            (
                                                SemanticSearchResultItemView {
                                                    qdrant_point_id,
                                                    score,
                                                    payload,
                                                },
                                                r2,
                                            ),
                                        ),
                                    }
                                },
                            }
                        },
                    }
                },
            }
        },
    }
}

pub open spec fn spec_dec_semantic_search_result_item(s: Seq<char>) -> Option<
    SemanticSearchResultItemView,
> {
    match sp_obj_semantic_search_result_item(s) {
        None => None,
        Some((v, r)) => if r.len() == 0 {
            Some(v)
        } else {
            None
        },
    }
}

pub proof fn lemma_obj_semantic_search_result_item_complete(
    v: SemanticSearchResultItemView,
    rest: Seq<char>,
)
    ensures
        sp_obj_semantic_search_result_item(spec_enc_semantic_search_result_item(v) + rest) == Some(
            (v, rest),
        ),
{
    let k1 = "{\"qdrant_point_id\":\""@;
    let k2 = ",\"score\":"@;
    let k3 = ",\"payload\":"@;
    let t4 = "}"@ + rest;
    let t3 = spec_enc_qdrant_point_payload(v.payload) + t4;
    let t2 = k3 + t3;
    let t1 = enc_u32_field(k2, v.score) + t2;
    assert(spec_enc_semantic_search_result_item(v) + rest =~= enc_str_field(k1, v.qdrant_point_id)
        + t1);
    lemma_key_str_complete(k1, v.qdrant_point_id, t1);
    reveal_strlit(",\"payload\":");
    assert(t2[0] == k3[0]);
    assert(!is_digit(t2[0]));
    lemma_key_u32_complete(k2, v.score, t2);
    lemma_sp_lit_complete(k3, t3);
    lemma_obj_qdrant_point_payload_complete(v.payload, t4);
    lemma_sp_lit_complete("}"@, rest);
}

pub proof fn lemma_obj_semantic_search_result_item_sound(s: Seq<char>)
    ensures
        sp_obj_semantic_search_result_item(s) matches Some((v, r)) ==> s
            == spec_enc_semantic_search_result_item(v) + r,
{
    let k1 = "{\"qdrant_point_id\":\""@;
    let k2 = ",\"score\":"@;
    let k3 = ",\"payload\":"@;
    if sp_obj_semantic_search_result_item(s) is Some {
        let (v, r) = sp_obj_semantic_search_result_item(s)->Some_0;
        lemma_key_str_sound(s, k1);
        let (qdrant_point_id, r1) = sp_key_str(s, k1)->Some_0;
        lemma_key_u32_sound(r1, k2);
        let (score, r2) = sp_key_u32(r1, k2)->Some_0;
        lemma_sp_lit_sound(r2, k3);
        let r3 = sp_lit(r2, k3)->Some_0;
        lemma_obj_qdrant_point_payload_sound(r3);
        let (payload, r4) = sp_obj_qdrant_point_payload(r3)->Some_0;
        lemma_sp_lit_sound(r4, "}"@);
        assert(s =~= enc_str_field(k1, qdrant_point_id) + (enc_u32_field(k2, score) + (k3 + (
        spec_enc_qdrant_point_payload(payload) + ("}"@ + r)))));
        assert(spec_enc_semantic_search_result_item(v) + r =~= enc_str_field(k1, qdrant_point_id)
            + (enc_u32_field(k2, score) + (k3 + (spec_enc_qdrant_point_payload(payload) + ("}"@
            + r)))));
    }
}

/// Law: decoding an encoded envelope yields it back.
pub proof fn lemma_semantic_search_result_item_round_trip(v: SemanticSearchResultItemView)
    ensures
        spec_dec_semantic_search_result_item(spec_enc_semantic_search_result_item(v)) == Some(v),
{
    lemma_obj_semantic_search_result_item_complete(v, Seq::empty());
    assert(spec_enc_semantic_search_result_item(v) + Seq::<char>::empty()
        =~= spec_enc_semantic_search_result_item(v));
}

/// Law: any text that decodes is the encoding of its decoded value.
pub proof fn lemma_semantic_search_result_item_decode_sound(s: Seq<char>)
    ensures
        spec_dec_semantic_search_result_item(s) matches Some(v) ==> s
            == spec_enc_semantic_search_result_item(v),
{
    if spec_dec_semantic_search_result_item(s) is Some {
        lemma_obj_semantic_search_result_item_sound(s);
        let (v, r) = sp_obj_semantic_search_result_item(s)->Some_0;
        assert(spec_enc_semantic_search_result_item(v) + r
            =~= spec_enc_semantic_search_result_item(v));
    }
}

pub fn encode_semantic_search_result_item(x: &SemanticSearchResultItem) -> (out: Vec<char>)
    ensures
        out@ == spec_enc_semantic_search_result_item(x@),
{
    let mut out: Vec<char> = Vec::new();
    push_str_field(&mut out, "{\"qdrant_point_id\":\"", x.qdrant_point_id.as_str());
    push_u32_field(&mut out, ",\"score\":", x.score);
    push_lit(&mut out, ",\"payload\":");
    let payload = encode_qdrant_point_payload(&x.payload);
    push_chars(&mut out, &payload);
    push_lit(&mut out, "}");
    proof {
        assert(out@ =~= spec_enc_semantic_search_result_item(x@));
    }
    out
}

pub(crate) fn p_obj_semantic_search_result_item(s: &Vec<char>, i: usize) -> (r: Option<
    (SemanticSearchResultItem, usize),
>)
    requires
        i <= s@.len(),
    ensures
        r matches Some((m, j)) ==> i <= j <= s@.len() && sp_obj_semantic_search_result_item(
            s@.skip(i as int),
        ) == Some((m@, s@.skip(j as int))),
        r is None ==> sp_obj_semantic_search_result_item(s@.skip(i as int)) is None,
{
    let (qdrant_point_id, j1) = match pf_str(s, i, "{\"qdrant_point_id\":\"") {
        None => {
            return None;
        },
        Some(x) => x,
    };
    let (score, j2) = match pf_u32(s, j1, ",\"score\":") {
        None => {
            return None;
        },
        Some(x) => x,
    };
    let j3 = match p_lit(s, j2, ",\"payload\":") {
        None => {
            return None;
        },
        Some(x) => x,
    };
    let (payload, j4) = match p_obj_qdrant_point_payload(s, j3) {
        None => {
            return None;
        },
        Some(x) => x,
    };
    let j5 = match p_lit(s, j4, "}") {
        None => {
            return None;
        },
        Some(x) => x,
    };
    Some((SemanticSearchResultItem { qdrant_point_id, score, payload }, j5))
}

pub fn decode_semantic_search_result_item(s: &Vec<char>) -> (r: Option<SemanticSearchResultItem>)
    ensures
        r matches Some(m) ==> spec_dec_semantic_search_result_item(s@) == Some(m@),
        r is None ==> spec_dec_semantic_search_result_item(s@) is None,
{
    proof {
        assert(s@.skip(0) =~= s@);
    }
    match p_obj_semantic_search_result_item(s, 0) {
        None => None,
        Some((m, j)) => if j == s.len() {
            Some(m)
        } else {
            None
        },
    }
}

// ---------------------------------------------------------------------------
// Arrays of ranked result items
// ---------------------------------------------------------------------------

/// A successful object parse consumes at least the closing brace.
pub proof fn lemma_obj_semantic_search_result_item_shrinks(s: Seq<char>)
    ensures
        sp_obj_semantic_search_result_item(s) matches Some((v, r)) ==> r.len() < s.len(),
{
    if sp_obj_semantic_search_result_item(s) is Some {
        lemma_obj_semantic_search_result_item_sound(s);
        let (v, r) = sp_obj_semantic_search_result_item(s)->Some_0;
        lemma_rbrace_lit();
        assert(spec_enc_semantic_search_result_item(v).len() >= 1);
    }
}

pub open spec fn enc_item_arr_rest(vs: Seq<SemanticSearchResultItemView>) -> Seq<char>
    decreases vs.len(),
{
    if vs.len() == 0 {
        seq![']']
    } else {
        seq![','] + spec_enc_semantic_search_result_item(vs[0]) + enc_item_arr_rest(vs.skip(1))
    }
}

pub open spec fn enc_item_arr(vs: Seq<SemanticSearchResultItemView>) -> Seq<char> {
    if vs.len() == 0 {
        seq!['[', ']']
    } else {
        seq!['['] + spec_enc_semantic_search_result_item(vs[0]) + enc_item_arr_rest(vs.skip(1))
    }
}

pub open spec fn sp_item_arr_rest(s: Seq<char>) -> Option<(Seq<SemanticSearchResultItemView>, Seq<char>)>
    decreases s.len(),
    via sp_item_arr_rest_dec
{
    if s.len() == 0 {
        None
    } else if s[0] == ']' {
        Some((Seq::empty(), s.skip(1)))
    } else if s[0] == ',' {
        match sp_obj_semantic_search_result_item(s.skip(1)) {
            None => None,
            Some((v, r)) => match sp_item_arr_rest(r) {
                None => None,
                Some((vs, r2)) => Some((seq![v] + vs, r2)),
            },
        }
    } else {
        None
    }
}

#[via_fn]
proof fn sp_item_arr_rest_dec(s: Seq<char>) {
    if s.len() > 0 && s[0] == ',' {
        lemma_obj_semantic_search_result_item_shrinks(s.skip(1));
    }
}

pub open spec fn sp_item_arr(s: Seq<char>) -> Option<(Seq<SemanticSearchResultItemView>, Seq<char>)> {
    if s.len() >= 2 && s[0] == '[' && s[1] == ']' {
        Some((Seq::empty(), s.skip(2)))
    } else if s.len() >= 1 && s[0] == '[' {
        match sp_obj_semantic_search_result_item(s.skip(1)) {
            None => None,
            Some((v, r)) => match sp_item_arr_rest(r) {
                None => None,
                Some((vs, r2)) => Some((seq![v] + vs, r2)),
            },
        }
    } else {
        None
    }
}

#[verifier::rlimit(80)]
pub proof fn lemma_item_arr_rest_complete(vs: Seq<SemanticSearchResultItemView>, rest: Seq<char>)
    ensures
        sp_item_arr_rest(enc_item_arr_rest(vs) + rest) == Some((vs, rest)),
    decreases vs.len(),
{
    let s = enc_item_arr_rest(vs) + rest;
    if vs.len() == 0 {
        assert(s =~= seq![']'] + rest);
        assert(s[0] == ']');
        assert(s.skip(1) =~= rest);
        assert(Seq::<SemanticSearchResultItemView>::empty() =~= vs);
    } else {
        lemma_item_arr_rest_complete(vs.skip(1), rest);
        assert(s[0] == ',');
        assert(s.skip(1) =~= spec_enc_semantic_search_result_item(vs[0]) + (enc_item_arr_rest(vs.skip(1))
            + rest));
        lemma_obj_semantic_search_result_item_complete(vs[0], enc_item_arr_rest(vs.skip(1)) + rest);
        assert(seq![vs[0]] + vs.skip(1) =~= vs);
    }
}

#[verifier::rlimit(80)]
pub proof fn lemma_item_arr_complete(vs: Seq<SemanticSearchResultItemView>, rest: Seq<char>)
    ensures
        sp_item_arr(enc_item_arr(vs) + rest) == Some((vs, rest)),
{
    let s = enc_item_arr(vs) + rest;
    if vs.len() == 0 {
        assert(s[0] == '[' && s[1] == ']');
        assert(s.skip(2) =~= rest);
        assert(Seq::<SemanticSearchResultItemView>::empty() =~= vs);
    } else {
        assert(s[0] == '[');
        assert(s.skip(1) =~= spec_enc_semantic_search_result_item(vs[0]) + (enc_item_arr_rest(vs.skip(1))
            + rest));
        lemma_obj_semantic_search_result_item_complete(vs[0], enc_item_arr_rest(vs.skip(1)) + rest);
        lemma_item_arr_rest_complete(vs.skip(1), rest);
        assert(seq![vs[0]] + vs.skip(1) =~= vs);
        reveal_strlit("{\"qdrant_point_id\":\"");
        assert(s[1] == '{');
    }
}

#[verifier::rlimit(80)]
pub proof fn lemma_item_arr_rest_sound(s: Seq<char>)
    ensures
        sp_item_arr_rest(s) matches Some((vs, r)) ==> s == enc_item_arr_rest(vs) + r,
    decreases s.len(),
{
    if sp_item_arr_rest(s) is Some {
        let (vs, r) = sp_item_arr_rest(s)->Some_0;
        if s[0] == ']' {
            assert(vs =~= Seq::<SemanticSearchResultItemView>::empty());
            assert(s =~= seq![']'] + s.skip(1));
        } else {
            let (v, r1) = sp_obj_semantic_search_result_item(s.skip(1))->Some_0;
            lemma_obj_semantic_search_result_item_sound(s.skip(1));
            lemma_obj_semantic_search_result_item_shrinks(s.skip(1));
            lemma_item_arr_rest_sound(r1);
            let (vs2, r2) = sp_item_arr_rest(r1)->Some_0;
            assert(vs[0] == v);
            assert(vs.skip(1) =~= vs2);
            assert(s =~= seq![s[0]] + s.skip(1));
            assert(s =~= seq![','] + spec_enc_semantic_search_result_item(v) + (enc_item_arr_rest(vs2) + r));
            assert(enc_item_arr_rest(vs) + r =~= seq![','] + spec_enc_semantic_search_result_item(v) + (
            enc_item_arr_rest(vs2) + r));
        }
    }
}

#[verifier::rlimit(80)]
pub proof fn lemma_item_arr_sound(s: Seq<char>)
    ensures
        sp_item_arr(s) matches Some((vs, r)) ==> s == enc_item_arr(vs) + r,
{
    if sp_item_arr(s) is Some {
        let (vs, r) = sp_item_arr(s)->Some_0;
        if s.len() >= 2 && s[0] == '[' && s[1] == ']' {
            assert(vs =~= Seq::<SemanticSearchResultItemView>::empty());
            assert(s =~= seq!['[', ']'] + s.skip(2));
        } else {
            let (v, r1) = sp_obj_semantic_search_result_item(s.skip(1))->Some_0;
            lemma_obj_semantic_search_result_item_sound(s.skip(1));
            lemma_item_arr_rest_sound(r1);
            let (vs2, r2) = sp_item_arr_rest(r1)->Some_0;
            assert(vs[0] == v);
            assert(vs.skip(1) =~= vs2);
            assert(s =~= seq![s[0]] + s.skip(1));
            assert(s =~= seq!['['] + spec_enc_semantic_search_result_item(v) + (enc_item_arr_rest(vs2) + r));
            assert(enc_item_arr(vs) + r =~= seq!['['] + spec_enc_semantic_search_result_item(v) + (
            enc_item_arr_rest(vs2) + r));
        }
    }
}

pub open spec fn enc_item_arr_field(k: Seq<char>, vs: Seq<SemanticSearchResultItemView>) -> Seq<char> {
    k + enc_item_arr(vs)
}

pub open spec fn sp_key_item_arr(s: Seq<char>, k: Seq<char>) -> Option<
    (Seq<SemanticSearchResultItemView>, Seq<char>),
> {
    match sp_lit(s, k) {
        None => None,
        Some(r) => sp_item_arr(r),
    }
}

#[verifier::rlimit(80)]
pub proof fn lemma_key_item_arr_complete(
    k: Seq<char>,
    vs: Seq<SemanticSearchResultItemView>,
    rest: Seq<char>,
)
    ensures
        sp_key_item_arr(enc_item_arr_field(k, vs) + rest, k) == Some((vs, rest)),
{
    let tail = enc_item_arr(vs) + rest;
    assert(enc_item_arr_field(k, vs) + rest =~= k + tail);
    lemma_sp_lit_complete(k, tail);
    lemma_item_arr_complete(vs, rest);
}

#[verifier::rlimit(80)]
pub proof fn lemma_key_item_arr_sound(s: Seq<char>, k: Seq<char>)
    ensures
        sp_key_item_arr(s, k) matches Some((vs, r)) ==> s == enc_item_arr_field(k, vs) + r,
{
    if sp_key_item_arr(s, k) is Some {
        let (vs, r) = sp_key_item_arr(s, k)->Some_0;
        lemma_sp_lit_sound(s, k);
        let r1 = sp_lit(s, k)->Some_0;
        lemma_item_arr_sound(r1);
        assert(s =~= (k + enc_item_arr(vs)) + r);
        assert(enc_item_arr_field(k, vs) + r =~= (k + enc_item_arr(vs)) + r);
    }
}

/// Append a whole array of ranked result items.
#[verifier::rlimit(100)]
fn push_item_arr(out: &mut Vec<char>, vs: &Vec<SemanticSearchResultItem>)
    ensures
        final(out)@ == old(out)@ + enc_item_arr(items_view(vs@)),
{
    let ghost vw = items_view(vs@);
    if vs.len() == 0 {
        push_lit(out, "[]");
        proof {
            reveal_strlit("[]");
            assert("[]"@ =~= seq!['[', ']']);
            assert(out@ =~= old(out)@ + enc_item_arr(vw));
        }
        return ;
    }
    push_lit(out, "[");
    let first = encode_semantic_search_result_item(&vs[0]);
    push_chars(out, &first);
    let mut k: usize = 1;
    proof {
        reveal_strlit("[");
        assert("["@ =~= seq!['[']);
        assert(vw[0] == vs@[0]@);
        assert(out@ + enc_item_arr_rest(vw.skip(1)) =~= old(out)@ + enc_item_arr(vw));
    }
    while k < vs.len()
        invariant
            1 <= k <= vs@.len(),
            vw == items_view(vs@),
            out@ + enc_item_arr_rest(vw.skip(k as int)) == old(out)@ + enc_item_arr(vw),
        decreases vs@.len() - k,
    {
        push_lit(out, ",");
        let piece = encode_semantic_search_result_item(&vs[k]);
        push_chars(out, &piece);
        proof {
            reveal_strlit(",");
            assert(","@ =~= seq![',']);
            let tailk = vw.skip(k as int);
            assert(tailk[0] == vw[k as int]);
            assert(vw[k as int] == vs@[k as int]@);
            assert(tailk.skip(1) =~= vw.skip(k + 1));
            assert(out@ + enc_item_arr_rest(vw.skip(k + 1)) =~= old(out)@ + enc_item_arr(vw));
        }
        k += 1;
    }
    push_lit(out, "]");
    proof {
        reveal_strlit("]");
        assert("]"@ =~= seq![']']);
        assert(vw.skip(k as int) =~= Seq::<SemanticSearchResultItemView>::empty());
        assert(enc_item_arr_rest(vw.skip(k as int)) == seq![']']);
        assert(out@ =~= old(out)@ + enc_item_arr(vw));
    }
}

/// Parse a whole array of ranked result items (starting at the `[`).
#[verifier::rlimit(100)]
fn p_item_arr(s: &Vec<char>, i: usize) -> (r: Option<(Vec<SemanticSearchResultItem>, usize)>)
    requires
        i <= s@.len(),
    ensures
        r matches Some((v, j)) ==> i <= j <= s@.len() && sp_item_arr(s@.skip(i as int)) == Some(
            (items_view(v@), s@.skip(j as int)),
        ),
        r is None ==> sp_item_arr(s@.skip(i as int)) is None,
{
    if s.len() - i >= 2 && s[i] == '[' && s[i + 1] == ']' {
        let out: Vec<SemanticSearchResultItem> = Vec::new();
        proof {
            assert(s@.skip(i as int)[0] == '[');
            assert(s@.skip(i as int)[1] == ']');
            assert(s@.skip(i as int).skip(2) =~= s@.skip(i + 2));
            assert(items_view(out@) =~= Seq::<SemanticSearchResultItemView>::empty());
        }
        return Some((out, i + 2));
    }
    if i < s.len() && s[i] == '[' {
        proof {
            assert(s@.skip(i as int)[0] == '[');
            assert(s@.skip(i as int).skip(1) =~= s@.skip(i + 1));
            if s@.skip(i as int).len() >= 2 {
                assert(s@.skip(i as int)[1] == s@[i + 1]);
            }
        }
        let first = match p_obj_semantic_search_result_item(s, i + 1) {
            None => {
                return None;
            },
            Some(f) => f,
        };
        let (e0, j0) = first;
        let mut out: Vec<SemanticSearchResultItem> = Vec::new();
        out.push(e0);
        let mut cur: usize = j0;
        proof {
            assert(items_view(out@) =~= seq![e0@]);
        }
        loop
            invariant
                i <= cur <= s@.len(),
                sp_item_arr(s@.skip(i as int)) == (match sp_item_arr_rest(s@.skip(cur as int)) {
                    None => None::<(Seq<SemanticSearchResultItemView>, Seq<char>)>,
                    Some((vs, r2)) => Some((items_view(out@) + vs, r2)),
                }),
            decreases s@.len() - cur,
        {
            if cur >= s.len() {
                proof {
                    assert(s@.skip(cur as int).len() == 0);
                }
                return None;
            }
            let c = s[cur];
            proof {
                assert(s@.skip(cur as int)[0] == c);
            }
            if c == ']' {
                proof {
                    assert(s@.skip(cur as int).skip(1) =~= s@.skip(cur + 1));
                    assert(items_view(out@) + Seq::<SemanticSearchResultItemView>::empty()
                        =~= items_view(out@));
                }
                return Some((out, cur + 1));
            } else if c == ',' {
                proof {
                    assert(s@.skip(cur as int).skip(1) =~= s@.skip(cur + 1));
                }
                match p_obj_semantic_search_result_item(s, cur + 1) {
                    None => {
                        return None;
                    },
                    Some((e, j2)) => {
                        let ghost pre = items_view(out@);
                        out.push(e);
                        proof {
                            assert(items_view(out@) =~= pre + seq![e@]);
                            assert forall|vs: Seq<SemanticSearchResultItemView>| true implies (pre + seq![
                                e@,
                            ]) + vs =~= pre + (seq![e@] + vs) by {}
                        }
                        cur = j2;
                    },
                }
            } else {
                return None;
            }
        }
    }
    proof {
        if s@.skip(i as int).len() >= 1 {
            assert(s@.skip(i as int)[0] == s@[i as int]);
        }
    }
    None
}



// ---------------------------------------------------------------------------
// TextWithEmbeddingsMessage
// ---------------------------------------------------------------------------

pub open spec fn spec_enc_text_with_embeddings_message(v: TextWithEmbeddingsMessageView) -> Seq<
    char,
> {
    enc_str_field("{\"original_id\":\""@, v.original_id) + enc_str_field(
        ",\"source_url\":\""@,
        v.source_url,
    ) + enc_emb_arr_field(",\"embeddings_data\":"@, v.embeddings_data) + enc_str_field(
        ",\"model_name\":\""@,
        v.model_name,
    ) + enc_u64_field(",\"timestamp_ms\":"@, v.timestamp_ms) + "}"@
}

pub open spec fn sp_obj_text_with_embeddings_message(s: Seq<char>) -> Option<
    (TextWithEmbeddingsMessageView, Seq<char>),
> {
    match sp_key_str(s, "{\"original_id\":\""@) {
        None => None,
        Some((original_id, r)) => {
            match sp_key_str(r, ",\"source_url\":\""@) {
                None => None,
                Some((source_url, r)) => {
                    match sp_key_emb_arr(r, ",\"embeddings_data\":"@) {
                        None => None,
                        Some((embeddings_data, r)) => {
                            match sp_key_str(r, ",\"model_name\":\""@) {
                                None => None,
                                Some((model_name, r)) => {
                                    match sp_key_u64(r, ",\"timestamp_ms\":"@) {
                                        None => None,
                                        Some((timestamp_ms, r)) => {
                                            match sp_lit(r, "}"@) {
                                                None => None,
                                                Some(r2) => Some(
                                                    (
                                                        TextWithEmbeddingsMessageView {
                                                            original_id,
                                                            source_url,
                                                            embeddings_data,
                                                            model_name,
                                                            timestamp_ms,
                                                        },
                                                        r2,
                                                    ),
                                                ),
                                            }
                                        },
                                    }
                                },
                            }
                        },
                    }
                },
            }
        },
    }
}

pub open spec fn spec_dec_text_with_embeddings_message(s: Seq<char>) -> Option<
    TextWithEmbeddingsMessageView,
> {
    match sp_obj_text_with_embeddings_message(s) {
        None => None,
        Some((v, r)) => if r.len() == 0 {
            Some(v)
        } else {
            None
        },
    }
}

pub proof fn lemma_obj_text_with_embeddings_message_complete(
    v: TextWithEmbeddingsMessageView,
    rest: Seq<char>,
)
    ensures
        sp_obj_text_with_embeddings_message(spec_enc_text_with_embeddings_message(v) + rest)
            == Some((v, rest)),
{
    let k1 = "{\"original_id\":\""@;
    let k2 = ",\"source_url\":\""@;
    let k3 = ",\"embeddings_data\":"@;
    let k4 = ",\"model_name\":\""@;
    let k5 = ",\"timestamp_ms\":"@;
    let t5 = "}"@ + rest;
    let t4 = enc_u64_field(k5, v.timestamp_ms) + t5;
    let t3 = enc_str_field(k4, v.model_name) + t4;
    let t2 = enc_emb_arr_field(k3, v.embeddings_data) + t3;
    let t1 = enc_str_field(k2, v.source_url) + t2;
    assert(spec_enc_text_with_embeddings_message(v) + rest =~= enc_str_field(k1, v.original_id)
        + t1);
    lemma_key_str_complete(k1, v.original_id, t1);
    lemma_key_str_complete(k2, v.source_url, t2);
    lemma_key_emb_arr_complete(k3, v.embeddings_data, t3);
    lemma_key_str_complete(k4, v.model_name, t4);
    lemma_rbrace_lit();
    assert(t5[0] == '}');
    lemma_key_u64_complete(k5, v.timestamp_ms, t5);
    lemma_sp_lit_complete("}"@, rest);
}

#[verifier::rlimit(50)]
pub proof fn lemma_obj_text_with_embeddings_message_sound(s: Seq<char>)
    ensures
        sp_obj_text_with_embeddings_message(s) matches Some((v, r)) ==> s
            == spec_enc_text_with_embeddings_message(v) + r,
{
    let k1 = "{\"original_id\":\""@;
    let k2 = ",\"source_url\":\""@;
    let k3 = ",\"embeddings_data\":"@;
    let k4 = ",\"model_name\":\""@;
    let k5 = ",\"timestamp_ms\":"@;
    if sp_obj_text_with_embeddings_message(s) is Some {
        let (v, r) = sp_obj_text_with_embeddings_message(s)->Some_0;
        lemma_key_str_sound(s, k1);
        let (original_id, r1) = sp_key_str(s, k1)->Some_0;
        lemma_key_str_sound(r1, k2);
        let (source_url, r2) = sp_key_str(r1, k2)->Some_0;
        lemma_key_emb_arr_sound(r2, k3);
        let (embeddings_data, r3) = sp_key_emb_arr(r2, k3)->Some_0;
        lemma_key_str_sound(r3, k4);
        let (model_name, r4) = sp_key_str(r3, k4)->Some_0;
        lemma_key_u64_sound(r4, k5);
        let (timestamp_ms, r5) = sp_key_u64(r4, k5)->Some_0;
        lemma_sp_lit_sound(r5, "}"@);
        assert(s =~= enc_str_field(k1, original_id) + (enc_str_field(k2, source_url) + (
        enc_emb_arr_field(k3, embeddings_data) + (enc_str_field(k4, model_name) + (enc_u64_field(
            k5,
            timestamp_ms,
        ) + ("}"@ + r))))));
        assert(spec_enc_text_with_embeddings_message(v) + r =~= enc_str_field(k1, original_id) + (
        enc_str_field(k2, source_url) + (enc_emb_arr_field(k3, embeddings_data) + (enc_str_field(
            k4,
            model_name,
        ) + (enc_u64_field(k5, timestamp_ms) + ("}"@ + r))))));
    }
}

/// Law: decoding an encoded envelope yields it back.
pub proof fn lemma_text_with_embeddings_message_round_trip(v: TextWithEmbeddingsMessageView)
    ensures
        spec_dec_text_with_embeddings_message(spec_enc_text_with_embeddings_message(v)) == Some(v),
{
    lemma_obj_text_with_embeddings_message_complete(v, Seq::empty());
    assert(spec_enc_text_with_embeddings_message(v) + Seq::<char>::empty()
        =~= spec_enc_text_with_embeddings_message(v));
}

/// Law: any text that decodes is the encoding of its decoded value.
pub proof fn lemma_text_with_embeddings_message_decode_sound(s: Seq<char>)
    ensures
        spec_dec_text_with_embeddings_message(s) matches Some(v) ==> s
            == spec_enc_text_with_embeddings_message(v),
{
    if spec_dec_text_with_embeddings_message(s) is Some {
        lemma_obj_text_with_embeddings_message_sound(s);
        let (v, r) = sp_obj_text_with_embeddings_message(s)->Some_0;
        assert(spec_enc_text_with_embeddings_message(v) + r
            =~= spec_enc_text_with_embeddings_message(v));
    }
}

pub fn encode_text_with_embeddings_message(x: &TextWithEmbeddingsMessage) -> (out: Vec<char>)
    ensures
        out@ == spec_enc_text_with_embeddings_message(x@),
{
    let mut out: Vec<char> = Vec::new();
    push_str_field(&mut out, "{\"original_id\":\"", x.original_id.as_str());
    push_str_field(&mut out, ",\"source_url\":\"", x.source_url.as_str());
    push_lit(&mut out, ",\"embeddings_data\":");
    push_emb_arr(&mut out, &x.embeddings_data);
    push_str_field(&mut out, ",\"model_name\":\"", x.model_name.as_str());
    push_u64_field(&mut out, ",\"timestamp_ms\":", x.timestamp_ms);
    push_lit(&mut out, "}");
    proof {
        assert(out@ =~= spec_enc_text_with_embeddings_message(x@));
    }
    out
}

pub(crate) fn p_obj_text_with_embeddings_message(s: &Vec<char>, i: usize) -> (r: Option<
    (TextWithEmbeddingsMessage, usize),
>)
    requires
        i <= s@.len(),
    ensures
        r matches Some((m, j)) ==> i <= j <= s@.len() && sp_obj_text_with_embeddings_message(
            s@.skip(i as int),
        ) == Some((m@, s@.skip(j as int))),
        r is None ==> sp_obj_text_with_embeddings_message(s@.skip(i as int)) is None,
{
    let (original_id, j1) = match pf_str(s, i, "{\"original_id\":\"") {
        None => {
            return None;
        },
        Some(x) => x,
    };
    let (source_url, j2) = match pf_str(s, j1, ",\"source_url\":\"") {
        None => {
            return None;
        },
        Some(x) => x,
    };
    let j3a = match p_lit(s, j2, ",\"embeddings_data\":") {
        None => {
            return None;
        },
        Some(x) => x,
    };
    let (embeddings_data, j3) = match p_emb_arr(s, j3a) {
        None => {
            return None;
        },
        Some(x) => x,
    };
    let (model_name, j4) = match pf_str(s, j3, ",\"model_name\":\"") {
        None => {
            return None;
        },
        Some(x) => x,
    };
    let (timestamp_ms, j5) = match pf_u64(s, j4, ",\"timestamp_ms\":") {
        None => {
            return None;
        },
        Some(x) => x,
    };
    let j6 = match p_lit(s, j5, "}") {
        None => {
            return None;
        },
        Some(x) => x,
    };
    Some(
        (
            TextWithEmbeddingsMessage {
                original_id,
                source_url,
                embeddings_data,
                model_name,
                timestamp_ms,
            },
            j6,
        ),
    )
}

pub fn decode_text_with_embeddings_message(s: &Vec<char>) -> (r: Option<TextWithEmbeddingsMessage>)
    ensures
        r matches Some(m) ==> spec_dec_text_with_embeddings_message(s@) == Some(m@),
        r is None ==> spec_dec_text_with_embeddings_message(s@) is None,
{
    proof {
        assert(s@.skip(0) =~= s@);
    }
    match p_obj_text_with_embeddings_message(s, 0) {
        None => None,
        Some((m, j)) => if j == s.len() {
            Some(m)
        } else {
            None
        },
    }
}


// ---------------------------------------------------------------------------
// SemanticSearchNatsResult
// ---------------------------------------------------------------------------

pub open spec fn spec_enc_semantic_search_nats_result(v: SemanticSearchNatsResultView) -> Seq<char> {
    enc_str_field("{\"request_id\":\""@, v.request_id) + enc_item_arr_field(",\"results\":"@, v.results)
        + enc_opt_str_field(",\"error_message\":"@, v.error_message) + "}"@
}

pub open spec fn sp_obj_semantic_search_nats_result(s: Seq<char>) -> Option<(SemanticSearchNatsResultView, Seq<char>)> {
    match sp_key_str(s, "{\"request_id\":\""@) {
        None => None,
        Some((request_id, r)) => {
            match sp_key_item_arr(r, ",\"results\":"@) {
                None => None,
                Some((results, r)) => {
                    match sp_key_opt_str(r, ",\"error_message\":"@) {
                        None => None,
                        Some((error_message, r)) => {
                            match sp_lit(r, "}"@) {
                                None => None,
                                Some(r2) => Some(
                                    (SemanticSearchNatsResultView { request_id, results, error_message }, r2),
                                ),
                            }
                        },
                    }
                },
            }
        },
    }
}

pub open spec fn spec_dec_semantic_search_nats_result(s: Seq<char>) -> Option<SemanticSearchNatsResultView> {
    match sp_obj_semantic_search_nats_result(s) {
        None => None,
        Some((v, r)) => if r.len() == 0 {
            Some(v)
        } else {
            None
        },
    }
}

pub proof fn lemma_obj_semantic_search_nats_result_complete(v: SemanticSearchNatsResultView, rest: Seq<char>)
    ensures
        sp_obj_semantic_search_nats_result(spec_enc_semantic_search_nats_result(v) + rest) == Some((v, rest)),
{
    let k1 = "{\"request_id\":\""@;
    let k2 = ",\"results\":"@;
    let k3 = ",\"error_message\":"@;
    let t3 = "}"@ + rest;
    let t2 = enc_opt_str_field(k3, v.error_message) + t3;
    let t1 = enc_item_arr_field(k2, v.results) + t2;
    assert(spec_enc_semantic_search_nats_result(v) + rest =~= enc_str_field(k1, v.request_id) + t1);
    lemma_key_str_complete(k1, v.request_id, t1);
    lemma_key_item_arr_complete(k2, v.results, t2);
    lemma_key_opt_str_complete(k3, v.error_message, t3);
    lemma_sp_lit_complete("}"@, rest);
}

#[verifier::rlimit(80)]
pub proof fn lemma_obj_semantic_search_nats_result_sound(s: Seq<char>)
    ensures
        sp_obj_semantic_search_nats_result(s) matches Some((v, r)) ==> s == spec_enc_semantic_search_nats_result(v) + r,
{
    let k1 = "{\"request_id\":\""@;
    let k2 = ",\"results\":"@;
    let k3 = ",\"error_message\":"@;
    if sp_obj_semantic_search_nats_result(s) is Some {
        let (v, r) = sp_obj_semantic_search_nats_result(s)->Some_0;
        lemma_key_str_sound(s, k1);
        let (request_id, r1) = sp_key_str(s, k1)->Some_0;
        lemma_key_item_arr_sound(r1, k2);
        let (results, r2) = sp_key_item_arr(r1, k2)->Some_0;
        lemma_key_opt_str_sound(r2, k3);
        let (error_message, r3) = sp_key_opt_str(r2, k3)->Some_0;
        lemma_sp_lit_sound(r3, "}"@);
        assert(s =~= enc_str_field(k1, request_id) + (enc_item_arr_field(k2, results) + (
        enc_opt_str_field(k3, error_message) + ("}"@ + r))));
        assert(spec_enc_semantic_search_nats_result(v) + r =~= enc_str_field(k1, request_id) + (enc_item_arr_field(
            k2,
            results,
        ) + (enc_opt_str_field(k3, error_message) + ("}"@ + r))));
    }
}

/// Law: decoding an encoded envelope yields it back.
pub proof fn lemma_semantic_search_nats_result_round_trip(v: SemanticSearchNatsResultView)
    ensures
        spec_dec_semantic_search_nats_result(spec_enc_semantic_search_nats_result(v)) == Some(v),
{
    lemma_obj_semantic_search_nats_result_complete(v, Seq::empty());
    assert(spec_enc_semantic_search_nats_result(v) + Seq::<char>::empty() =~= spec_enc_semantic_search_nats_result(v));
}

/// Law: any text that decodes is the encoding of its decoded value.
pub proof fn lemma_semantic_search_nats_result_decode_sound(s: Seq<char>)
    ensures
        spec_dec_semantic_search_nats_result(s) matches Some(v) ==> s == spec_enc_semantic_search_nats_result(v),
{
    if spec_dec_semantic_search_nats_result(s) is Some {
        lemma_obj_semantic_search_nats_result_sound(s);
        let (v, r) = sp_obj_semantic_search_nats_result(s)->Some_0;
        assert(spec_enc_semantic_search_nats_result(v) + r =~= spec_enc_semantic_search_nats_result(v));
    }
}

pub fn encode_semantic_search_nats_result(x: &SemanticSearchNatsResult) -> (out: Vec<char>)
    ensures
        out@ == spec_enc_semantic_search_nats_result(x@),
{
    let mut out: Vec<char> = Vec::new();
    push_str_field(&mut out, "{\"request_id\":\"", x.request_id.as_str());
    push_lit(&mut out, ",\"results\":");
    push_item_arr(&mut out, &x.results);
    push_opt_str_field(&mut out, ",\"error_message\":", &x.error_message);
    push_lit(&mut out, "}");
    proof {
        assert(out@ =~= spec_enc_semantic_search_nats_result(x@));
    }
    out
}

pub(crate) fn p_obj_semantic_search_nats_result(s: &Vec<char>, i: usize) -> (r: Option<(SemanticSearchNatsResult, usize)>)
    requires
        i <= s@.len(),
    ensures
        r matches Some((m, j)) ==> i <= j <= s@.len() && sp_obj_semantic_search_nats_result(s@.skip(i as int)) == Some(
            (m@, s@.skip(j as int)),
        ),
        r is None ==> sp_obj_semantic_search_nats_result(s@.skip(i as int)) is None,
{
    let (request_id, j1) = match pf_str(s, i, "{\"request_id\":\"") {
        None => {
            return None;
        },
        Some(x) => x,
    };
    let j2a = match p_lit(s, j1, ",\"results\":") {
        None => {
            return None;
        },
        Some(x) => x,
    };
    let (results, j2) = match p_item_arr(s, j2a) {
        None => {
            return None;
        },
        Some(x) => x,
    };
    let (error_message, j3) = match pf_opt_str(s, j2, ",\"error_message\":") {
        None => {
            return None;
        },
        Some(x) => x,
    };
    let j4 = match p_lit(s, j3, "}") {
        None => {
            return None;
        },
        Some(x) => x,
    };
    Some((SemanticSearchNatsResult { request_id, results, error_message }, j4))
}

pub fn decode_semantic_search_nats_result(s: &Vec<char>) -> (r: Option<SemanticSearchNatsResult>)
    ensures
        r matches Some(m) ==> spec_dec_semantic_search_nats_result(s@) == Some(m@),
        r is None ==> spec_dec_semantic_search_nats_result(s@) is None,
{
    proof {
        assert(s@.skip(0) =~= s@);
    }
    match p_obj_semantic_search_nats_result(s, 0) {
        None => None,
        Some((m, j)) => if j == s.len() {
            Some(m)
        } else {
            None
        },
    }
}

// ---------------------------------------------------------------------------
// SemanticSearchApiResponse
// ---------------------------------------------------------------------------

pub open spec fn spec_enc_semantic_search_api_response(v: SemanticSearchApiResponseView) -> Seq<char> {
    enc_str_field("{\"search_request_id\":\""@, v.search_request_id) + enc_item_arr_field(",\"results\":"@, v.results)
        + enc_opt_str_field(",\"error_message\":"@, v.error_message) + "}"@
}

pub open spec fn sp_obj_semantic_search_api_response(s: Seq<char>) -> Option<(SemanticSearchApiResponseView, Seq<char>)> {
    match sp_key_str(s, "{\"search_request_id\":\""@) {
        None => None,
        Some((search_request_id, r)) => {
            match sp_key_item_arr(r, ",\"results\":"@) {
                None => None,
                Some((results, r)) => {
                    match sp_key_opt_str(r, ",\"error_message\":"@) {
                        None => None,
                        Some((error_message, r)) => {
                            match sp_lit(r, "}"@) {
                                None => None,
                                Some(r2) => Some(
                                    (SemanticSearchApiResponseView { search_request_id, results, error_message }, r2),
                                ),
                            }
                        },
                    }
                },
            }
        },
    }
}

pub open spec fn spec_dec_semantic_search_api_response(s: Seq<char>) -> Option<SemanticSearchApiResponseView> {
    match sp_obj_semantic_search_api_response(s) {
        None => None,
        Some((v, r)) => if r.len() == 0 {
            Some(v)
        } else {
            None
        },
    }
}

pub proof fn lemma_obj_semantic_search_api_response_complete(v: SemanticSearchApiResponseView, rest: Seq<char>)
    ensures
        sp_obj_semantic_search_api_response(spec_enc_semantic_search_api_response(v) + rest) == Some((v, rest)),
{
    let k1 = "{\"search_request_id\":\""@;
    let k2 = ",\"results\":"@;
    let k3 = ",\"error_message\":"@;
    let t3 = "}"@ + rest;
    let t2 = enc_opt_str_field(k3, v.error_message) + t3;
    let t1 = enc_item_arr_field(k2, v.results) + t2;
    assert(spec_enc_semantic_search_api_response(v) + rest =~= enc_str_field(k1, v.search_request_id) + t1);
    lemma_key_str_complete(k1, v.search_request_id, t1);
    lemma_key_item_arr_complete(k2, v.results, t2);
    lemma_key_opt_str_complete(k3, v.error_message, t3);
    lemma_sp_lit_complete("}"@, rest);
}

#[verifier::rlimit(80)]
pub proof fn lemma_obj_semantic_search_api_response_sound(s: Seq<char>)
    ensures
        sp_obj_semantic_search_api_response(s) matches Some((v, r)) ==> s == spec_enc_semantic_search_api_response(v) + r,
{
    let k1 = "{\"search_request_id\":\""@;
    let k2 = ",\"results\":"@;
    let k3 = ",\"error_message\":"@;
    if sp_obj_semantic_search_api_response(s) is Some {
        let (v, r) = sp_obj_semantic_search_api_response(s)->Some_0;
        lemma_key_str_sound(s, k1);
        let (search_request_id, r1) = sp_key_str(s, k1)->Some_0;
        lemma_key_item_arr_sound(r1, k2);
        let (results, r2) = sp_key_item_arr(r1, k2)->Some_0;
        lemma_key_opt_str_sound(r2, k3);
        let (error_message, r3) = sp_key_opt_str(r2, k3)->Some_0;
        lemma_sp_lit_sound(r3, "}"@);
        assert(s =~= enc_str_field(k1, search_request_id) + (enc_item_arr_field(k2, results) + (
        enc_opt_str_field(k3, error_message) + ("}"@ + r))));
        assert(spec_enc_semantic_search_api_response(v) + r =~= enc_str_field(k1, search_request_id) + (enc_item_arr_field(
            k2,
            results,
        ) + (enc_opt_str_field(k3, error_message) + ("}"@ + r))));
    }
}

/// Law: decoding an encoded envelope yields it back.
pub proof fn lemma_semantic_search_api_response_round_trip(v: SemanticSearchApiResponseView)
    ensures
        spec_dec_semantic_search_api_response(spec_enc_semantic_search_api_response(v)) == Some(v),
{
    lemma_obj_semantic_search_api_response_complete(v, Seq::empty());
    assert(spec_enc_semantic_search_api_response(v) + Seq::<char>::empty() =~= spec_enc_semantic_search_api_response(v));
}

/// Law: any text that decodes is the encoding of its decoded value.
pub proof fn lemma_semantic_search_api_response_decode_sound(s: Seq<char>)
    ensures
        spec_dec_semantic_search_api_response(s) matches Some(v) ==> s == spec_enc_semantic_search_api_response(v),
{
    if spec_dec_semantic_search_api_response(s) is Some {
        lemma_obj_semantic_search_api_response_sound(s);
        let (v, r) = sp_obj_semantic_search_api_response(s)->Some_0;
        assert(spec_enc_semantic_search_api_response(v) + r =~= spec_enc_semantic_search_api_response(v));
    }
}

pub fn encode_semantic_search_api_response(x: &SemanticSearchApiResponse) -> (out: Vec<char>)
    ensures
        out@ == spec_enc_semantic_search_api_response(x@),
{
    let mut out: Vec<char> = Vec::new();
    push_str_field(&mut out, "{\"search_request_id\":\"", x.search_request_id.as_str());
    push_lit(&mut out, ",\"results\":");
    push_item_arr(&mut out, &x.results);
    push_opt_str_field(&mut out, ",\"error_message\":", &x.error_message);
    push_lit(&mut out, "}");
    proof {
        assert(out@ =~= spec_enc_semantic_search_api_response(x@));
    }
    out
}

pub(crate) fn p_obj_semantic_search_api_response(s: &Vec<char>, i: usize) -> (r: Option<(SemanticSearchApiResponse, usize)>)
    requires
        i <= s@.len(),
    ensures
        r matches Some((m, j)) ==> i <= j <= s@.len() && sp_obj_semantic_search_api_response(s@.skip(i as int)) == Some(
            (m@, s@.skip(j as int)),
        ),
        r is None ==> sp_obj_semantic_search_api_response(s@.skip(i as int)) is None,
{
    let (search_request_id, j1) = match pf_str(s, i, "{\"search_request_id\":\"") {
        None => {
            return None;
        },
        Some(x) => x,
    };
    let j2a = match p_lit(s, j1, ",\"results\":") {
        None => {
            return None;
        },
        Some(x) => x,
    };
    let (results, j2) = match p_item_arr(s, j2a) {
        None => {
            return None;
        },
        Some(x) => x,
    };
    let (error_message, j3) = match pf_opt_str(s, j2, ",\"error_message\":") {
        None => {
            return None;
        },
        Some(x) => x,
    };
    let j4 = match p_lit(s, j3, "}") {
        None => {
            return None;
        },
        Some(x) => x,
    };
    Some((SemanticSearchApiResponse { search_request_id, results, error_message }, j4))
}

pub fn decode_semantic_search_api_response(s: &Vec<char>) -> (r: Option<SemanticSearchApiResponse>)
    ensures
        r matches Some(m) ==> spec_dec_semantic_search_api_response(s@) == Some(m@),
        r is None ==> spec_dec_semantic_search_api_response(s@) is None,
{
    proof {
        assert(s@.skip(0) =~= s@);
    }
    match p_obj_semantic_search_api_response(s, 0) {
        None => None,
        Some((m, j)) => if j == s.len() {
            Some(m)
        } else {
            None
        },
    }
}

} // verus!
