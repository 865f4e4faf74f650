//! Data flywheel: corrections from the playground, the human review queue
//! or API feedback, captured as labelled examples for the versioned
//! evaluation set.

use vstd::prelude::*;

verus! {

/// A lowercase hexadecimal digit.
pub open spec fn is_lower_hex(c: char) -> bool {
    ('0' <= c && c <= '9') || ('a' <= c && c <= 'f')
}

/// The hyphenated lowercase text form of a version-4 (random) UUID:
/// 32 hexadecimal digits in groups of 8-4-4-4-12, the version digit `4`
/// opening the third group and one of `8 9 a b` opening the fourth.
pub open spec fn is_uuid_v4_text(s: Seq<char>) -> bool {
    &&& s.len() == 36
    &&& forall|i: int|
        0 <= i < 36 ==> if i == 8 || i == 13 || i == 18 || i == 23 {
            #[trigger] s[i] == '-'
        } else {
            is_lower_hex(s[i])
        }
    &&& s[14] == '4'
    &&& (s[19] == '8' || s[19] == '9' || s[19] == 'a' || s[19] == 'b')
}

/// A fresh random identifier (`uuid::Uuid::new_v4().to_string()`). Which
/// identifier comes out is left to chance; what holds of every outcome is
/// its text form.
#[verifier::external_body]
fn new_correction_id() -> (id: String)
    ensures
        is_uuid_v4_text(id@),
{
    uuid::Uuid::new_v4().to_string()
}

/// The current time in milliseconds since the Unix epoch
/// (`chrono::Utc::now().timestamp_millis()`). It depends on the clock, so
/// nothing is stated of it.
#[verifier::external_body]
fn now_unix_millis() -> (ms: i64) {
    chrono::Utc::now().timestamp_millis()
}

/// A correction captured for ingestion into the evaluation set. The state
/// and the ground truth are JSON texts.
pub struct LabeledCorrection {
    pub id: String,
    pub template_id: String,
    pub state_content: String,
    pub question_id: String,
    pub ground_truth: String,
    /// `playground_user`, `human_escalation` or `api_feedback`.
    pub corrected_by: String,
    /// Milliseconds since the Unix epoch.
    pub created_at_ms: i64,
}

/// Captures a human or API correction as a labelled example under a fresh
/// identifier, stamped with the current time.
pub fn record_correction(
    template_id: &str,
    state_content: String,
    question_id: &str,
    ground_truth: String,
    source: &str,
) -> (c: LabeledCorrection)
    ensures
        is_uuid_v4_text(c.id@),
        c.template_id@ == template_id@,
        c.state_content@ == state_content@,
        c.question_id@ == question_id@,
        c.ground_truth@ == ground_truth@,
        c.corrected_by@ == source@,
{
    LabeledCorrection {
        id: new_correction_id(),
        template_id: String::from_str(template_id),
        state_content,
        question_id: String::from_str(question_id),
        ground_truth,
        corrected_by: String::from_str(source),
        created_at_ms: now_unix_millis(),
    }
}

} // verus!
