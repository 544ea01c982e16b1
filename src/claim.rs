//! What a search binds into its token, and what feedback may do with it.
use vstd::prelude::*;

verus! {

/// How long a claim stays valid after it is issued: 24 hours, in seconds.
pub const VALIDITY_SECS: i64 = 86400;

/// The model whose embeddings the index holds.
pub const MODEL_NAME: &'static str = "CLIP";

/// The provenance of one search result. Times are seconds since the Unix
/// epoch; the score is kept as the bits of its `f32`.
#[derive(Debug, PartialEq, Eq)]
pub struct Claim {
    pub image_name: String,
    pub text: String,
    pub model_name: String,
    pub score_bits: u32,
    pub issued_at: i64,
    pub expires_at: i64,
}

/// `c` was issued at `now` and expires one validity window later.
pub open spec fn issued_at_time(c: Claim, now: int) -> bool {
    c.issued_at == now && c.expires_at == now + VALIDITY_SECS
}

/// A claim is accepted strictly before it expires.
pub open spec fn accepts(c: Claim, now: int) -> bool {
    now < c.expires_at
}

/// The best match that the index returned for a query.
pub struct Hit {
    /// The `image_name` of the point's payload, if it holds a string there.
    pub image_name: Option<String>,
    /// The bits of the `f32` similarity score.
    pub score_bits: u32,
}

#[derive(Debug, Clone, Copy, PartialEq, Eq, Structural)]
pub enum SearchError {
    /// The index returned no point.
    NoMatch,
    /// The best point has no image name in its payload.
    MissingImageName,
    /// The expiry time cannot be represented.
    ClockOutOfRange,
}

/// Binds a query and its best match into a claim issued at `now`.
pub fn mint_claim(image_name: String, text: String, model_name: String, score_bits: u32, now: i64) -> (r: Option<Claim>)
    ensures
        r is Some <==> now <= i64::MAX - VALIDITY_SECS,
        r matches Some(c) ==> {
            &&& c.image_name == image_name
            &&& c.text == text
            &&& c.model_name == model_name
            &&& c.score_bits == score_bits
            &&& issued_at_time(c, now as int)
        },
{
    if now > i64::MAX - VALIDITY_SECS {
        return None;
    }
    Some(Claim { image_name, text, model_name, score_bits, issued_at: now, expires_at: now + VALIDITY_SECS })
}

/// The claim for the best match of `text`, or why there is none.
pub fn search_claim(text: String, top: Option<Hit>, now: i64) -> (r: Result<Claim, SearchError>)
    ensures
        match top {
            None => r == Err::<Claim, SearchError>(SearchError::NoMatch),
            Some(h) => match h.image_name {
                None => r == Err::<Claim, SearchError>(SearchError::MissingImageName),
                Some(n) => if now <= i64::MAX - VALIDITY_SECS {
                    r matches Ok(c) && c.image_name == n && c.text == text && c.model_name@ == MODEL_NAME@
                        && c.score_bits == h.score_bits && issued_at_time(c, now as int)
                } else {
                    r == Err::<Claim, SearchError>(SearchError::ClockOutOfRange)
                },
            },
        },
{
    match top {
        None => Err(SearchError::NoMatch),
        Some(h) => match h.image_name {
            None => Err(SearchError::MissingImageName),
            Some(n) => match mint_claim(n, text, MODEL_NAME.to_owned(), h.score_bits, now) {
                Some(c) => Ok(c),
                None => Err(SearchError::ClockOutOfRange),
            },
        },
    }
}

/// Whether `claim` is still valid at `now`.
pub fn is_live(claim: &Claim, now: i64) -> (r: bool)
    ensures
        r == accepts(*claim, now as int),
{
    now < claim.expires_at
}

/// A feedback row, as handed to storage.
#[derive(Debug, PartialEq, Eq)]
pub struct FeedbackRecord {
    pub text: String,
    pub image_name: String,
    pub model: String,
    pub user_feedback: i32,
}

/// What to do with a feedback submission.
#[derive(Debug, PartialEq, Eq)]
pub enum FeedbackDecision {
    /// The token did not verify, did not hold a claim, or has expired.
    Unauthorized,
    /// Store this record.
    Store(FeedbackRecord),
}

/// The record that feedback with `rating` on claim `c` stores.
pub open spec fn record_for(c: Claim, rating: i32) -> FeedbackRecord {
    FeedbackRecord { text: c.text, image_name: c.image_name, model: c.model_name, user_feedback: rating }
}

/// Decides on feedback whose token yielded `claim` (`None` when it did not
/// verify or held no claim).
pub fn feedback_decision(claim: Option<Claim>, now: i64, rating: i32) -> (r: FeedbackDecision)
    ensures
        match claim {
            Some(c) => if accepts(c, now as int) {
                r == FeedbackDecision::Store(record_for(c, rating))
            } else {
                r == FeedbackDecision::Unauthorized
            },
            None => r == FeedbackDecision::Unauthorized,
        },
{
    match claim {
        Some(c) => {
            if is_live(&c, now) {
                FeedbackDecision::Store(
                    FeedbackRecord { text: c.text, image_name: c.image_name, model: c.model_name, user_feedback: rating },
                )
            } else {
                FeedbackDecision::Unauthorized
            }
        },
        None => FeedbackDecision::Unauthorized,
    }
}

/// A claim is accepted from its issue until one validity window later, and
/// refused from then on.
pub proof fn claim_expires_after_window(c: Claim, issued: int, now: int)
    requires
        issued_at_time(c, issued),
    ensures
        issued <= now < issued + VALIDITY_SECS ==> accepts(c, now),
        now >= issued + VALIDITY_SECS ==> !accepts(c, now),
{
}

} // verus!
