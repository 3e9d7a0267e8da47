use regex::Regex;
use vstd::prelude::*;

verus! {

/// What compiling `pattern` with the regex crate and matching it against `text` gives:
/// `None` where the pattern does not compile.
pub uninterp spec fn regex_outcome(pattern: Seq<char>, text: Seq<char>) -> Option<bool>;

/// Relies on `Regex::new` and `Regex::is_match` of the regex crate: whether `pattern`
/// matches somewhere in `text`, `None` where the pattern is refused.
#[verifier::external_body]
fn regex_is_match(pattern: &str, text: &str) -> (r: Option<bool>)
    ensures
        r == regex_outcome(pattern@, text@),
{
    Regex::new(pattern).ok().map(|re| re.is_match(text))
}

/// At least one upper-case letter.
pub const PASSWORD_UPPER_PATTERN: &'static str = "[A-Z]+";

/// At least one lower-case letter.
pub const PASSWORD_LOWER_PATTERN: &'static str = "[a-z]+";

/// At least one digit.
pub const PASSWORD_DIGIT_PATTERN: &'static str = "[0-9]+";

/// At least one special character.
pub const PASSWORD_SPECIAL_PATTERN: &'static str = "[ !\"$%&'()*+,-./:;<=>?@\\[\\\\\\]^_`{|}~]+";

/// Three to thirty-two letters, digits, underscores or dots.
pub const USERNAME_PATTERN: &'static str = "^[a-zA-Z0-9_.]{3,32}$";

/// Shortest password accepted, in bytes.
pub const PASSWORD_MIN_LENGTH: usize = 8;

/// The texts of a sequence of strings.
pub open spec fn codes_of(v: Seq<String>) -> Seq<Seq<char>> {
    v.map_values(|s: String| s@)
}

/// The error codes of a validation, in the order the checks run; empty when valid.
pub struct ValidationResult(pub Vec<String>);

impl ValidationResult {
    pub open spec fn codes(&self) -> Seq<Seq<char>> {
        codes_of(self.0@)
    }

    pub fn is_valid(&self) -> (r: bool)
        ensures
            r == (self.0@.len() == 0),
    {
        self.0.len() == 0
    }
}

/// `code` where a check fails, nothing where it passes.
pub open spec fn code_if(failed: bool, code: Seq<char>) -> Seq<Seq<char>> {
    if failed {
        seq![code]
    } else {
        Seq::empty()
    }
}

/// The error codes of a password of `byte_len` bytes and characters `text`.
pub open spec fn password_codes(text: Seq<char>, byte_len: nat) -> Seq<Seq<char>> {
    code_if(byte_len < PASSWORD_MIN_LENGTH, "invalid_password__length"@) + code_if(
        regex_outcome(PASSWORD_UPPER_PATTERN@, text) != Some(true),
        "invalid_password__uppercase"@,
    ) + code_if(
        regex_outcome(PASSWORD_LOWER_PATTERN@, text) != Some(true),
        "invalid_password__lowercase"@,
    ) + code_if(
        regex_outcome(PASSWORD_DIGIT_PATTERN@, text) != Some(true),
        "invalid_password__digit"@,
    ) + code_if(
        regex_outcome(PASSWORD_SPECIAL_PATTERN@, text) != Some(true),
        "invalid_password__special"@,
    )
}

fn push_code_if(errors: &mut Vec<String>, failed: bool, code: &str)
    ensures
        codes_of(final(errors)@) == codes_of(old(errors)@)
            + code_if(failed, code@),
{
    let ghost before = errors@;
    if failed {
        errors.push(code.to_owned());
    }
    assert(codes_of(errors@) =~= codes_of(before) + code_if(
        failed,
        code@,
    ));
}

/// Checks a password: at least eight bytes, and an upper-case letter, a lower-case
/// letter, a digit and a special character.
pub fn password(candidate: &str) -> (r: ValidationResult)
    ensures
        r.codes() == password_codes(candidate@, candidate.len() as nat),
{
    let mut errors: Vec<String> = Vec::new();
    assert(codes_of(errors@) =~= Seq::<Seq<char>>::empty());
    let short = candidate.len() < PASSWORD_MIN_LENGTH;
    push_code_if(&mut errors, short, "invalid_password__length");
    assert(codes_of(errors@) =~= code_if(short, "invalid_password__length"@));
    let upper = regex_is_match(PASSWORD_UPPER_PATTERN, candidate);
    push_code_if(&mut errors, upper != Some(true), "invalid_password__uppercase");
    let lower = regex_is_match(PASSWORD_LOWER_PATTERN, candidate);
    push_code_if(&mut errors, lower != Some(true), "invalid_password__lowercase");
    let digit = regex_is_match(PASSWORD_DIGIT_PATTERN, candidate);
    push_code_if(&mut errors, digit != Some(true), "invalid_password__digit");
    let special = regex_is_match(PASSWORD_SPECIAL_PATTERN, candidate);
    push_code_if(&mut errors, special != Some(true), "invalid_password__special");
    ValidationResult(errors)
}

/// Checks a username: three to thirty-two letters, digits, underscores or dots.
pub fn username_format(username: &str) -> (r: ValidationResult)
    ensures
        r.codes() == code_if(
            regex_outcome(USERNAME_PATTERN@, username@) != Some(true),
            "invalid_user__username"@,
        ),
{
    let mut errors: Vec<String> = Vec::new();
    assert(codes_of(errors@) =~= Seq::<Seq<char>>::empty());
    let ok = regex_is_match(USERNAME_PATTERN, username);
    push_code_if(&mut errors, ok != Some(true), "invalid_user__username");
    assert(Seq::<Seq<char>>::empty() + code_if(ok != Some(true), "invalid_user__username"@)
        =~= code_if(ok != Some(true), "invalid_user__username"@));
    ValidationResult(errors)
}

} // verus!
