//! The question put to the vision-language model for each camera frame.

use vstd::prelude::*;
use base64::Engine;

verus! {

/// The question asked about every frame.
pub const PROMPT: &'static str = "Is there a person *lying* in the bed? Respond one word: 'yes' or 'no'. This is *not* a trick question. Only say yes if he is clearly visible *and laying down.* **DO NOT say 'yes' if he is standing/sitting.**";

/// Most tokens the model may produce per reply when judging a frame.
pub const FRAME_MAX_TOKENS: usize = 30;

/// Replies asked of the model for each question.
pub const NUM_PARALLEL: usize = 5;

/// A chat completion request with one picture and one text.
pub struct CompletionRequest {
    /// Most tokens per reply.
    pub max_tokens: usize,
    /// Number of replies asked for.
    pub n: usize,
    /// The picture, as a `data:` URL of a base64-encoded JPEG.
    pub image_url: String,
    /// The text of the question.
    pub prompt: String,
}

/// The text in front of the base64 payload of a JPEG `data:` URL.
pub open spec fn jpeg_data_url_prefix() -> Seq<char> {
    "data:image/jpeg;base64,"@
}

/// The request that asks `text_prompt` about the JPEG whose base64 encoding
/// is `base64_image`, allowing `n_pred` tokens per reply.
pub fn completion_request(text_prompt: &str, base64_image: &str, n_pred: usize) -> (r: CompletionRequest)
    ensures
        r.max_tokens == n_pred,
        r.n == NUM_PARALLEL,
        r.image_url@ == jpeg_data_url_prefix() + base64_image@,
        r.prompt@ == text_prompt@,
{
    let mut image_url = String::from_str("data:image/jpeg;base64,");
    image_url.append(base64_image);
    CompletionRequest {
        max_tokens: n_pred,
        n: NUM_PARALLEL,
        image_url,
        prompt: String::from_str(text_prompt),
    }
}

/// The character of the standard base64 alphabet for a six-bit value:
/// `A`-`Z`, `a`-`z`, `0`-`9`, `+`, `/`.
pub open spec fn base64_digit(v: int) -> char {
    if v < 26 {
        (65 + v) as char
    } else if v < 52 {
        (97 + v - 26) as char
    } else if v < 62 {
        (48 + v - 52) as char
    } else if v == 62 {
        '+'
    } else {
        '/'
    }
}

/// Standard base64 with `=` padding (RFC 4648): each group of three bytes
/// becomes four characters; a last group of one or two bytes is padded.
pub open spec fn base64_standard(bytes: Seq<u8>) -> Seq<char>
    decreases bytes.len(),
{
    if bytes.len() == 0 {
        seq![]
    } else if bytes.len() == 1 {
        let b0 = bytes[0] as int;
        seq![base64_digit(b0 / 4), base64_digit((b0 % 4) * 16), '=', '=']
    } else if bytes.len() == 2 {
        let b0 = bytes[0] as int;
        let b1 = bytes[1] as int;
        seq![
            base64_digit(b0 / 4),
            base64_digit((b0 % 4) * 16 + b1 / 16),
            base64_digit((b1 % 16) * 4),
            '=',
        ]
    } else {
        let b0 = bytes[0] as int;
        let b1 = bytes[1] as int;
        let b2 = bytes[2] as int;
        seq![
            base64_digit(b0 / 4),
            base64_digit((b0 % 4) * 16 + b1 / 16),
            base64_digit((b1 % 16) * 4 + b2 / 64),
            base64_digit(b2 % 64),
        ] + base64_standard(bytes.skip(3))
    }
}

/// Length of the padded base64 encoding of `n` bytes.
pub open spec fn padded_base64_len(n: nat) -> nat {
    4 * ((n + 2) / 3)
}

/// `base64::engine::general_purpose::STANDARD.encode` (base64 0.22).
/// Claimed: the result is the standard, padded base64 encoding of the
/// bytes, as `base64_standard` spells it out (the engine uses the standard
/// alphabet and `PAD`).  The call panics when the encoded length
/// (`encoded_len`: four characters per started group of three bytes) does
/// not fit in `usize`, which `requires` leaves out.
#[verifier::external_body]
fn encode_base64(bytes: &[u8]) -> (encoded: String)
    requires
        padded_base64_len(bytes@.len()) <= usize::MAX,
    ensures
        encoded@ == base64_standard(bytes@),
{
    base64::engine::general_purpose::STANDARD.encode(bytes)
}

/// The question asked about one camera frame (JPEG bytes): the fixed
/// prompt, the frame as a base64 `data:` URL, and at most
/// `FRAME_MAX_TOKENS` tokens per reply.
pub fn frame_request(frame: &[u8]) -> (r: CompletionRequest)
    requires
        padded_base64_len(frame@.len()) <= usize::MAX,
    ensures
        r.max_tokens == FRAME_MAX_TOKENS,
        r.n == NUM_PARALLEL,
        r.image_url@ == jpeg_data_url_prefix() + base64_standard(frame@),
        r.prompt@ == PROMPT@,
{
    let encoded = encode_base64(frame);
    completion_request(PROMPT, encoded.as_str(), FRAME_MAX_TOKENS)
}

} // verus!

verus! {

/// The question asked about one camera frame, or `None` when the frame is
/// too long for its base64 encoding's length to fit in `usize` (where the
/// encoder would panic).
pub fn checked_frame_request(frame: &[u8]) -> (r: Option<CompletionRequest>)
    ensures
        match r {
            Some(req) => {
                &&& padded_base64_len(frame@.len()) <= usize::MAX
                &&& req.max_tokens == FRAME_MAX_TOKENS
                &&& req.n == NUM_PARALLEL
                &&& req.image_url@ == jpeg_data_url_prefix() + base64_standard(frame@)
                &&& req.prompt@ == PROMPT@
            },
            None => padded_base64_len(frame@.len()) > usize::MAX,
        },
{
    let n = frame.len();
    let groups: usize = n / 3 + if n % 3 == 0 { 0 } else { 1 };
    let quarter: usize = usize::MAX / 4;
    proof {
        let ni = n as int;
        assert((ni + 2) / 3 == groups) by (nonlinear_arith)
            requires
                groups == ni / 3 + if ni % 3 == 0 { 0int } else { 1int },
                ni >= 0,
        ;
    }
    if groups > quarter {
        proof {
            let g = groups as int;
            let q = quarter as int;
            let m = usize::MAX as int;
            assert(4 * g > m) by (nonlinear_arith)
                requires
                    g > q,
                    q == m / 4,
                    m >= 0,
            ;
        }
        return None;
    }
    proof {
        let g = groups as int;
        let q = quarter as int;
        let m = usize::MAX as int;
        assert(4 * g <= m) by (nonlinear_arith)
            requires
                g <= q,
                q == m / 4,
                m >= 0,
        ;
    }
    Some(frame_request(frame))
}

} // verus!

verus! {

/// A frame's base64 text has four characters per started group of three
/// bytes.
pub proof fn lemma_base64_length(bytes: Seq<u8>)
    ensures
        base64_standard(bytes).len() == padded_base64_len(bytes.len()),
    decreases bytes.len(),
{
    if bytes.len() >= 3 {
        lemma_base64_length(bytes.skip(3));
        assert(bytes.skip(3).len() == bytes.len() - 3);
    }
}

} // verus!
