//! Passphrases: how strong they are, and how they are asked for.
use crate::text;
use crate::text::{decimal, texts};
use vstd::prelude::*;
use vstd::utf8::encode_utf8;

verus! {

/// Least length of a passphrase in bytes.
pub const MIN_LENGTH: usize = 12;

/// Least score of a passphrase.
pub const MIN_SCORE: u8 = 3;

/// How often a passphrase may be tried.
pub const MAX_ATTEMPTS: u8 = 3;

/// How strong a passphrase is.
pub struct StrengthResult {
    /// From 0, very weak, to 4.
    pub score: u8,
    /// What the user is told.
    pub feedback: Vec<String>,
    pub is_acceptable: bool,
}

/// What an estimate says of a passphrase.
pub struct Estimate {
    /// From 0 to 4.
    pub score: u8,
    pub warning: Option<String>,
    pub suggestions: Vec<String>,
}

/// How many characters the estimator reads of a passphrase.
pub const MOST_READ: usize = 100;

/// How many characters the estimator is shown at once: as many as leave the
/// factorial of their number in a `usize`.
pub open spec fn most_shown() -> nat {
    if usize::MAX > 0xffff_ffff {
        20
    } else {
        12
    }
}

/// How many stretches of a passphrase the estimator is shown.
pub open spec fn stretches(passphrase: Seq<char>) -> nat {
    if passphrase.len() <= most_shown() {
        1
    } else if passphrase.len() <= MOST_READ {
        (passphrase.len() - most_shown() + 1) as nat
    } else {
        (MOST_READ - most_shown() + 1) as nat
    }
}

/// The stretch of a passphrase that starts at character `i`: all of it where it
/// is short.
pub open spec fn stretch(passphrase: Seq<char>, i: int) -> Seq<char> {
    if passphrase.len() <= most_shown() {
        passphrase
    } else {
        passphrase.subrange(i, i + most_shown())
    }
}

/// `zxcvbn::zxcvbn` without user inputs: its score, which is at most four, and
/// the texts of its feedback. The estimate of dates depends on the current
/// year, so nothing more is said of it. It splits the text into up to as many
/// matches as there are characters and multiplies by the factorial of their
/// number, a product that may overflow in longer texts.
#[verifier::external_body]
fn estimate_strength(passphrase: &str) -> (r: Estimate)
    requires
        passphrase@.len() <= most_shown(),
    ensures
        r.score <= 4,
{
    let entropy = zxcvbn::zxcvbn(passphrase, &[]);
    let feedback = entropy.feedback();
    let warning = feedback.and_then(|f| f.warning()).map(|w| w.to_string());
    let suggestions = match feedback {
        Some(f) => f.suggestions().iter().map(|s| s.to_string()).collect(),
        None => Vec::new(),
    };
    Estimate { score: entropy.score() as u8, warning, suggestions }
}

/// Whether the estimator can have said `e` of a text.
pub closed spec fn estimated(text: Seq<char>, e: Estimate) -> bool {
    exists|t: &str| t@ == text && #[trigger] call_ensures(estimate_strength, (t,), e)
}

/// Whether the estimator can have said `estimates` of the stretches of a
/// passphrase, from its front on.
pub open spec fn all_estimated(passphrase: Seq<char>, estimates: Seq<Estimate>) -> bool {
    &&& estimates.len() == stretches(passphrase)
    &&& forall|i: int|
        0 <= i < estimates.len() ==> estimated(stretch(passphrase, i), #[trigger] estimates[i])
}

/// Whether `e` is the first of the estimates with the highest score.
pub open spec fn is_strongest(estimates: Seq<Estimate>, e: Estimate) -> bool {
    exists|i: int|
        {
            &&& 0 <= i < estimates.len()
            &&& #[trigger] estimates[i] == e
            &&& forall|j: int|
                0 <= j < estimates.len() ==> (#[trigger] estimates[j]).score <= e.score
            &&& forall|j: int| 0 <= j < i ==> (#[trigger] estimates[j]).score < e.score
        }
}

/// Whether a passphrase can be estimated at `e`: a long one is as strong as its
/// strongest stretch.
pub open spec fn rated(passphrase: Seq<char>, e: Estimate) -> bool {
    exists|estimates: Seq<Estimate>| #[trigger]
        all_estimated(passphrase, estimates) && is_strongest(estimates, e)
}

/// The first of some estimates with the highest score.
pub fn strongest(estimates: Vec<Estimate>) -> (r: Estimate)
    requires
        estimates@.len() > 0,
    ensures
        is_strongest(estimates@, r),
{
    let mut best: usize = 0;
    let mut i: usize = 1;
    while i < estimates.len()
        invariant
            best < i <= estimates@.len(),
            forall|j: int|
                0 <= j < i ==> (#[trigger] estimates@[j]).score <= estimates@[best as int].score,
            forall|j: int|
                0 <= j < best ==> (#[trigger] estimates@[j]).score < estimates@[best as int].score,
        decreases estimates@.len() - i,
    {
        if estimates[i].score > estimates[best].score {
            best = i;
        }
        i = i + 1;
    }
    let ghost all = estimates@;
    let mut estimates = estimates;
    let r = estimates.swap_remove(best);
    assert(all[best as int] == r);
    r
}

/// The estimate of a passphrase.
fn estimate(passphrase: &str) -> (r: Estimate)
    ensures
        rated(passphrase@, r),
        r.score <= 4,
{
    let most: usize = if usize::MAX > 0xffff_ffff {
        20
    } else {
        12
    };
    let characters = text::chars_of(passphrase);
    let mut estimates: Vec<Estimate> = Vec::new();
    if characters.len() <= most {
        estimates.push(estimate_strength(passphrase));
        assert(all_estimated(passphrase@, estimates@));
        return strongest(estimates);
    }
    let end: usize = if characters.len() <= MOST_READ {
        characters.len()
    } else {
        MOST_READ
    };
    let mut i: usize = 0;
    while i + most <= end
        invariant
            most == most_shown(),
            most <= 20,
            characters@ == passphrase@,
            most < characters@.len(),
            end == (if characters@.len() <= MOST_READ {
                characters@.len()
            } else {
                MOST_READ as nat
            }),
            i + most <= end + 1,
            estimates@.len() == i,
            forall|j: int|
                0 <= j < i ==> estimated(stretch(passphrase@, j), #[trigger] estimates@[j])
                    && estimates@[j].score <= 4,
        decreases end + 1 - i,
    {
        let part = text::text_of(&characters, i, i + most);
        assert(part@ =~= stretch(passphrase@, i as int));
        estimates.push(estimate_strength(part.as_str()));
        i = i + 1;
    }
    assert(all_estimated(passphrase@, estimates@));
    strongest(estimates)
}

/// What the user is told of an estimate.
pub open spec fn feedback_texts(warning: Option<Seq<char>>, suggestions: Seq<Seq<char>>) -> Seq<
    Seq<char>,
> {
    (match warning {
        Some(w) => seq!["Warning: "@ + w],
        None => seq![],
    }) + Seq::new(suggestions.len(), |i: int| "Suggestion: "@ + suggestions[i])
}

/// The view of an optional text.
pub open spec fn text_view(s: Option<String>) -> Option<Seq<char>> {
    match s {
        Some(t) => Some(t@),
        None => None,
    }
}

/// Whether a result is what follows from an estimate.
pub open spec fn follows_from(r: StrengthResult, e: Estimate) -> bool {
    &&& r.score == e.score
    &&& r.is_acceptable == (e.score >= MIN_SCORE)
    &&& texts(r.feedback@) == feedback_texts(text_view(e.warning), texts(e.suggestions@))
}

/// Judges a passphrase by its estimate.
pub fn judge(estimate: &Estimate) -> (r: StrengthResult)
    ensures
        follows_from(r, *estimate),
{
    let mut feedback: Vec<String> = Vec::new();
    if let Some(w) = &estimate.warning {
        feedback.push(text::joined("Warning: ", w.as_str()));
    }
    let ghost start = texts(feedback@);
    let ghost all = texts(estimate.suggestions@);
    let mut i: usize = 0;
    assert(texts(feedback@) =~= start + Seq::new(0, |j: int| "Suggestion: "@ + all[j]));
    while i < estimate.suggestions.len()
        invariant
            i <= estimate.suggestions@.len(),
            all == texts(estimate.suggestions@),
            texts(feedback@) == start + Seq::new(i as nat, |j: int| "Suggestion: "@ + all[j]),
        decreases estimate.suggestions@.len() - i,
    {
        let ghost before = texts(feedback@);
        let line = text::joined("Suggestion: ", estimate.suggestions[i].as_str());
        let ghost added = line@;
        feedback.push(line);
        i = i + 1;
        assert(texts(feedback@) =~= before.push(added));
        assert(texts(feedback@) =~= start + Seq::new(i as nat, |j: int| "Suggestion: "@ + all[j]));
    }
    assert(texts(feedback@) =~= feedback_texts(text_view(estimate.warning), all));
    StrengthResult { score: estimate.score, feedback, is_acceptable: estimate.score >= MIN_SCORE }
}

/// What the user is told of a passphrase that is too short.
pub open spec fn too_short_text(len: nat) -> Seq<char> {
    "Passphrase must be at least "@ + decimal(MIN_LENGTH as nat) + " characters (currently "@
        + decimal(len) + ")"@
}

/// Evaluates the strength of a passphrase. A short one is refused unseen; what
/// the others score is for the estimate to say, which goes by the strongest
/// stretch of a long one.
pub fn evaluate_strength(passphrase: &str) -> (r: StrengthResult)
    ensures
        if encode_utf8(passphrase@).len() < MIN_LENGTH {
            &&& r.score == 0
            &&& !r.is_acceptable
            &&& texts(r.feedback@) == seq![too_short_text(encode_utf8(passphrase@).len())]
        } else {
            exists|e: Estimate|
                {
                    &&& #[trigger] rated(passphrase@, e)
                    &&& e.score <= 4
                    &&& follows_from(r, e)
                }
        },
{
    let len = text::byte_len(passphrase);
    if len < MIN_LENGTH {
        let front = text::joined3(
            "Passphrase must be at least ",
            text::decimal_text(MIN_LENGTH as u64).as_str(),
            " characters (currently ",
        );
        let line = text::joined3(front.as_str(), text::decimal_text(len as u64).as_str(), ")");
        let mut feedback: Vec<String> = Vec::new();
        feedback.push(line);
        assert(texts(feedback@) =~= seq![too_short_text(len as nat)]);
        return StrengthResult { score: 0, feedback, is_acceptable: false };
    }
    let e = estimate(passphrase);
    judge(&e)
}

/// The label of a score.
pub open spec fn label_of(score: u8) -> Seq<char> {
    if score == 0 {
        "Very weak"@
    } else if score == 1 {
        "Weak"@
    } else if score == 2 {
        "Fair"@
    } else if score == 3 {
        "Strong"@
    } else {
        "Very strong"@
    }
}

/// The label of a score.
pub fn score_label(score: u8) -> (r: &'static str)
    ensures
        r@ == label_of(score),
{
    match score {
        0 => "Very weak",
        1 => "Weak",
        2 => "Fair",
        3 => "Strong",
        _ => "Very strong",
    }
}

/// The prompt for the passphrase of a vault. An existing passphrase is not
/// held to any strength.
pub fn prompt_unlock_passphrase() -> (r: &'static str)
    ensures
        r@ == "Passphrase: "@,
{
    "Passphrase: "
}

/// Where the entry of a new passphrase stands.
pub enum NewPassphrase {
    /// It is asked for.
    Enter,
    /// This one was strong enough and is to be confirmed.
    Confirm(String),
    /// This one was confirmed.
    Chosen(String),
}

/// The prompt of a step.
pub open spec fn prompt_of(step: NewPassphrase) -> Seq<char> {
    match step {
        NewPassphrase::Enter => "Enter new passphrase: "@,
        _ => "Confirm passphrase: "@,
    }
}

/// The prompt of a step.
pub fn prompt_text(step: &NewPassphrase) -> (r: &'static str)
    ensures
        r@ == prompt_of(*step),
{
    match step {
        NewPassphrase::Enter => "Enter new passphrase: ",
        _ => "Confirm passphrase: ",
    }
}

/// What the user is told of a weak passphrase.
pub open spec fn weak_text(score: u8) -> Seq<char> {
    "Passphrase is too weak (score "@ + decimal(score as nat) + "/4: "@ + label_of(score)
        + "). Requirements: ≥12 chars, score ≥3."@
}

/// Takes up a passphrase that was entered for the first time: a strong one is
/// to be confirmed, a weak one is refused with the reason.
pub fn first_entry(entered: String, strength: &StrengthResult) -> (r: (NewPassphrase, Vec<String>))
    ensures
        if strength.is_acceptable {
            &&& r.0 matches NewPassphrase::Confirm(p) && p@ == entered@
            &&& r.1@.len() == 0
        } else {
            &&& r.0 is Enter
            &&& texts(r.1@) == seq![weak_text(strength.score)] + Seq::new(
                strength.feedback@.len(),
                |i: int| "  "@ + strength.feedback@[i]@,
            )
        },
{
    let mut lines: Vec<String> = Vec::new();
    if strength.is_acceptable {
        return (NewPassphrase::Confirm(entered), lines);
    }
    let front = text::joined3(
        "Passphrase is too weak (score ",
        text::decimal_text(strength.score as u64).as_str(),
        "/4: ",
    );
    lines.push(
        text::joined3(
            front.as_str(),
            score_label(strength.score),
            "). Requirements: ≥12 chars, score ≥3.",
        ),
    );
    let ghost start = texts(lines@);
    assert(start =~= seq![weak_text(strength.score)]);
    let mut i: usize = 0;
    assert(texts(lines@) =~= start + Seq::new(0, |j: int| "  "@ + strength.feedback@[j]@));
    while i < strength.feedback.len()
        invariant
            i <= strength.feedback@.len(),
            texts(lines@) == start + Seq::new(i as nat, |j: int| "  "@ + strength.feedback@[j]@),
        decreases strength.feedback@.len() - i,
    {
        let ghost before = texts(lines@);
        let line = text::joined("  ", strength.feedback[i].as_str());
        let ghost added = line@;
        lines.push(line);
        i = i + 1;
        assert(texts(lines@) =~= before.push(added));
        assert(texts(lines@) =~= start + Seq::new(
            i as nat,
            |j: int| "  "@ + strength.feedback@[j]@,
        ));
    }
    (NewPassphrase::Enter, lines)
}

/// Takes up a passphrase that was entered again: it must be the same.
pub fn second_entry(first: String, entered: &String) -> (r: (NewPassphrase, Option<&'static str>))
    ensures
        if first@ == entered@ {
            r.0 matches NewPassphrase::Chosen(p) && p@ == first@ && r.1 is None
        } else {
            &&& r.0 is Enter
            &&& r.1 matches Some(t) && t@ == "Passphrases do not match. Try again."@
        },
{
    if first.eq(entered) {
        (NewPassphrase::Chosen(first), None)
    } else {
        (NewPassphrase::Enter, Some("Passphrases do not match. Try again."))
    }
}

/// Whether a duress passphrase may stand beside the normal one: the two must
/// differ.
pub fn duress_differs(normal: &String, duress: &String) -> (r: bool)
    ensures
        r == (normal@ != duress@),
{
    !normal.eq(duress)
}

/// What the user is told after a wrong passphrase.
pub open spec fn attempt_text(attempt: u8) -> Seq<char> {
    if attempt < MAX_ATTEMPTS {
        "Incorrect passphrase ("@ + decimal(attempt as nat) + "/3). Try again."@
    } else {
        "3 incorrect attempts. Exiting."@
    }
}

/// What follows a wrong passphrase: what the user is told, and whether there
/// is another attempt.
pub fn after_wrong_passphrase(attempt: u8) -> (r: (String, bool))
    ensures
        r.0@ == attempt_text(attempt),
        r.1 == (attempt < MAX_ATTEMPTS),
{
    if attempt < MAX_ATTEMPTS {
        (
            text::joined3(
                "Incorrect passphrase (",
                text::decimal_text(attempt as u64).as_str(),
                "/3). Try again.",
            ),
            true,
        )
    } else {
        ("3 incorrect attempts. Exiting.".to_owned(), false)
    }
}

/// What bytes from the terminal make of a secret up to a line end: ASCII
/// characters are taken, other bytes are ignored.
pub open spec fn typed(bytes: Seq<u8>) -> Seq<char>
    decreases bytes.len(),
{
    if bytes.len() == 0 {
        seq![]
    } else if bytes.last() < 128 {
        typed(bytes.drop_last()).push(bytes.last() as char)
    } else {
        typed(bytes.drop_last())
    }
}

/// Takes up a byte from the terminal, and says whether the line is complete.
pub fn type_byte(secret: &mut String, byte: u8) -> (r: bool)
    ensures
        r == (byte == 10 || byte == 13),
        final(secret)@ == (if !r && byte < 128 {
            old(secret)@.push(byte as char)
        } else {
            old(secret)@
        }),
        !r ==> forall|before: Seq<u8>|
            old(secret)@ == #[trigger] typed(before) ==> final(secret)@ == typed(
                before.push(byte),
            ),
{
    if byte == 10 || byte == 13 {
        return true;
    }
    if byte < 128 {
        secret.push(byte as char);
    }
    proof {
        assert forall|before: Seq<u8>| old(secret)@ == #[trigger] typed(before) implies secret@
            == typed(before.push(byte)) by {
            assert(before.push(byte).drop_last() =~= before);
        }
    }
    false
}

/// Why a vault cannot be made of two passphrases on a phone.
pub open spec fn create_error(passphrase: Seq<char>, duress: Seq<char>) -> Option<Seq<char>> {
    if encode_utf8(passphrase).len() < 8 {
        Some("Passphrase must be at least 8 characters."@)
    } else if duress.len() == 0 {
        Some("Duress passphrase is required."@)
    } else if passphrase == duress {
        Some("Duress passphrase must differ from main passphrase."@)
    } else {
        None
    }
}

/// Why a vault cannot be made of two passphrases on a phone.
pub fn check_new_passphrases(passphrase: &String, duress: &String) -> (r: Option<&'static str>)
    ensures
        match r {
            Some(t) => create_error(passphrase@, duress@) == Some(t@),
            None => create_error(passphrase@, duress@) is None,
        },
{
    if text::byte_len(passphrase.as_str()) < 8 {
        Some("Passphrase must be at least 8 characters.")
    } else if duress.as_str().is_empty() {
        Some("Duress passphrase is required.")
    } else if passphrase.eq(duress) {
        Some("Duress passphrase must differ from main passphrase.")
    } else {
        None
    }
}

/// The score of a passphrase for the meter on a phone, from 0 to 4: the one
/// that the estimator gives it, or its strongest stretch where it is long.
pub fn meter_score(passphrase: &str) -> (r: u8)
    ensures
        exists|e: Estimate| #[trigger] rated(passphrase@, e) && r == e.score,
        r <= 4,
{
    estimate(passphrase).score
}

/// The label of a score on a phone.
pub open spec fn meter_of(score: u8) -> Seq<char> {
    if score <= 1 {
        "Weak"@
    } else if score == 2 {
        "Fair"@
    } else if score == 3 {
        "Good"@
    } else {
        "Strong"@
    }
}

/// The label of a score on a phone.
pub fn meter_label(score: u8) -> (r: &'static str)
    ensures
        r@ == meter_of(score),
{
    match score {
        0 | 1 => "Weak",
        2 => "Fair",
        3 => "Good",
        _ => "Strong",
    }
}

} // verus!
