use image_search::claim::{
    feedback_decision, is_live, mint_claim, search_claim, Claim, FeedbackDecision, FeedbackRecord, Hit,
    SearchError, MODEL_NAME, VALIDITY_SECS,
};
use image_search::token::{decode_token, encode_token};

const SECRET: &[u8] = b"jwt_secret";

fn to_payload(c: &Claim) -> Vec<u8> {
    let mut m = serde_json::Map::new();
    m.insert("exp".to_string(), serde_json::Value::from(c.expires_at));
    m.insert("iat".to_string(), serde_json::Value::from(c.issued_at));
    m.insert("image_name".to_string(), serde_json::Value::from(c.image_name.clone()));
    m.insert("text".to_string(), serde_json::Value::from(c.text.clone()));
    m.insert("model_name".to_string(), serde_json::Value::from(c.model_name.clone()));
    m.insert("score".to_string(), serde_json::Value::from(f32::from_bits(c.score_bits)));
    serde_json::to_vec(&serde_json::Value::Object(m)).unwrap()
}

fn from_payload(p: &[u8]) -> Option<Claim> {
    let v: serde_json::Value = serde_json::from_slice(p).ok()?;
    Some(Claim {
        image_name: v.get("image_name")?.as_str()?.to_string(),
        text: v.get("text")?.as_str()?.to_string(),
        model_name: v.get("model_name")?.as_str()?.to_string(),
        score_bits: (v.get("score")?.as_f64()? as f32).to_bits(),
        issued_at: v.get("iat")?.as_i64()?,
        expires_at: v.get("exp")?.as_i64()?,
    })
}

#[test]
fn mint_sets_window_of_one_day() {
    let c = mint_claim("cat.jpg".into(), "a cat".into(), "CLIP".into(), 7, 1_000).unwrap();
    assert_eq!(c.issued_at, 1_000);
    assert_eq!(c.expires_at, 1_000 + 86_400);
    assert_eq!(VALIDITY_SECS, 86_400);
    assert_eq!(c.image_name, "cat.jpg");
    assert_eq!(c.text, "a cat");
    assert_eq!(c.score_bits, 7);
}

#[test]
fn mint_refuses_unrepresentable_expiry() {
    assert!(mint_claim("a".into(), "b".into(), "c".into(), 0, i64::MAX - 86_399).is_none());
    assert!(mint_claim("a".into(), "b".into(), "c".into(), 0, i64::MAX - 86_400).is_some());
}

#[test]
fn claim_is_live_strictly_before_expiry() {
    let c = mint_claim("a".into(), "b".into(), "c".into(), 0, 100).unwrap();
    assert!(is_live(&c, 100));
    assert!(is_live(&c, 100 + 86_399));
    assert!(!is_live(&c, 100 + 86_400));
}

#[test]
fn search_without_match_is_error() {
    assert_eq!(search_claim("q".into(), None, 0), Err(SearchError::NoMatch));
}

#[test]
fn search_match_without_name_is_error() {
    let hit = Hit { image_name: None, score_bits: 0 };
    assert_eq!(search_claim("q".into(), Some(hit), 0), Err(SearchError::MissingImageName));
}

#[test]
fn search_at_end_of_time_is_error() {
    let hit = Hit { image_name: Some("a.jpg".into()), score_bits: 0 };
    assert_eq!(search_claim("q".into(), Some(hit), i64::MAX), Err(SearchError::ClockOutOfRange));
}

#[test]
fn search_binds_query_and_match() {
    let hit = Hit { image_name: Some("car.jpg".into()), score_bits: 0.75f32.to_bits() };
    let c = search_claim("a red car".into(), Some(hit), 50).unwrap();
    assert_eq!(c.image_name, "car.jpg");
    assert_eq!(c.text, "a red car");
    assert_eq!(c.model_name, MODEL_NAME);
    assert_eq!(f32::from_bits(c.score_bits), 0.75);
    assert_eq!((c.issued_at, c.expires_at), (50, 50 + 86_400));
}

#[test]
fn feedback_without_claim_is_unauthorized() {
    assert_eq!(feedback_decision(None, 0, 5), FeedbackDecision::Unauthorized);
}

#[test]
fn search_then_feedback_stores_bound_names() {
    let now = 1_700_000_000;
    let hit = Hit { image_name: Some("car.jpg".into()), score_bits: 0.5f32.to_bits() };
    let c = search_claim("a red car".into(), Some(hit), now).unwrap();
    let token = encode_token(SECRET, &to_payload(&c));
    let back = decode_token(SECRET, &token).and_then(|p| from_payload(&p));
    assert_eq!(back.as_ref(), Some(&c));
    let d = feedback_decision(back, now + 60, 5);
    assert_eq!(
        d,
        FeedbackDecision::Store(FeedbackRecord {
            text: "a red car".into(),
            image_name: "car.jpg".into(),
            model: "CLIP".into(),
            user_feedback: 5,
        })
    );
}

#[test]
fn expired_token_feedback_is_unauthorized() {
    let issued = 1_000;
    let c = mint_claim("car.jpg".into(), "a red car".into(), "CLIP".into(), 0, issued).unwrap();
    let token = encode_token(SECRET, &to_payload(&c));
    let back = decode_token(SECRET, &token).and_then(|p| from_payload(&p));
    assert!(back.is_some());
    assert_eq!(feedback_decision(back, issued + 86_400, 5), FeedbackDecision::Unauthorized);
    assert_eq!(feedback_decision(Some(c), issued + 90_000, 5), FeedbackDecision::Unauthorized);
}
