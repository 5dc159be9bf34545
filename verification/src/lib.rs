//! cred: named secrets in the operating system's credential vault.
//!
//! Secrets are grouped by a `service` string and identified by a `name`
//! within it. Both labels are checked before anything reaches a vault.
use vstd::prelude::*;

pub mod error;
pub mod order;
pub mod sys_macos;
pub mod sys_unsupported;
pub mod sys_windows;

pub use crate::error::{CredError, ErrorKind, Label};

verus! {

/// The vault's per-secret size ceiling in bytes.
pub const MAX_SECRET: usize = 2560;

/// A character that may not appear in a service or a name: `/`, NUL, or a
/// control character (Unicode category Cc).
pub open spec fn forbidden_char(c: char) -> bool {
    c == '/' || c == '\0' || (c as int) < 0x20 || (0x7f <= (c as int) && (c as int) <= 0x9f)
}

/// A label (service or name) is non-empty and holds no forbidden character.
pub open spec fn valid_label(s: Seq<char>) -> bool {
    s.len() > 0 && forall|i: int| 0 <= i < s.len() ==> !forbidden_char(#[trigger] s[i])
}

/// What validation answers for a pair of labels.
pub open spec fn validation(service: Seq<char>, name: Seq<char>) -> Result<(), CredError> {
    if !valid_label(service) {
        Err(CredError::InvalidLabel(Label::Service))
    } else if !valid_label(name) {
        Err(CredError::InvalidLabel(Label::Name))
    } else {
        Ok(())
    }
}

fn is_forbidden(c: char) -> (b: bool)
    ensures
        b == forbidden_char(c),
{
    c == '/' || c == '\0' || c < '\u{20}' || ('\u{7f}' <= c && c <= '\u{9f}')
}

fn check_label(s: &str) -> (ok: bool)
    ensures
        ok == valid_label(s@),
{
    let n: usize = s.unicode_len();
    if n == 0 {
        return false;
    }
    let mut i: usize = 0;
    while i < n
        invariant
            n == s@.len(),
            i <= n,
            forall|j: int| 0 <= j < i ==> !forbidden_char(#[trigger] s@[j]),
        decreases n - i,
    {
        let c = s.get_char(i);
        if is_forbidden(c) {
            return false;
        }
        i = i + 1;
    }
    true
}

/// Check `service` and `name`: each must be non-empty, without `/`, NUL or
/// control characters. The service is checked first.
pub fn validate(service: &str, name: &str) -> (r: Result<(), CredError>)
    ensures
        r == validation(service@, name@),
{
    if !check_label(service) {
        return Err(CredError::InvalidLabel(Label::Service));
    }
    if !check_label(name) {
        return Err(CredError::InvalidLabel(Label::Name));
    }
    Ok(())
}

/// What the checks of `set` answer: the labels first, then the size.
pub open spec fn set_check(service: Seq<char>, name: Seq<char>, len: nat) -> Result<(), CredError> {
    match validation(service, name) {
        Err(e) => Err(e),
        Ok(()) => if len > MAX_SECRET { Err(CredError::SecretTooLarge) } else { Ok(()) },
    }
}

/// The label rule, character by character: a label is accepted exactly when
/// it is non-empty and none of its characters is `/`, NUL, below U+0020, or
/// in U+007F..=U+009F. Nothing else counts, whatever the label's length.
pub proof fn lemma_label_rule(s: Seq<char>)
    ensures
        valid_label(s) <==> (s.len() > 0 && forall|i: int|
            0 <= i < s.len() ==> {
                &&& #[trigger] s[i] != '/'
                &&& s[i] != '\0'
                &&& (s[i] as int) >= 0x20
                &&& !(0x7f <= (s[i] as int) && (s[i] as int) <= 0x9f)
            }),
{
}

/// Validation accepts a pair exactly when both labels are accepted; a bad
/// service is reported first, and a bad name only with a good service.
pub proof fn lemma_validation_rule(service: Seq<char>, name: Seq<char>)
    ensures
        validation(service, name) == Ok::<(), CredError>(()) <==> valid_label(service)
            && valid_label(name),
        validation(service, name) == Err::<(), CredError>(CredError::InvalidLabel(Label::Service))
            <==> !valid_label(service),
        validation(service, name) == Err::<(), CredError>(CredError::InvalidLabel(Label::Name))
            <==> valid_label(service) && !valid_label(name),
{
}

/// The size rule of storing: with good labels, a secret is accepted exactly
/// when it is at most 2560 bytes long, and refused as too large otherwise;
/// with a bad label the label's error comes first, whatever the size.
pub proof fn lemma_size_rule(service: Seq<char>, name: Seq<char>, len: nat)
    ensures
        valid_label(service) && valid_label(name) ==> (set_check(service, name, len) == Ok::<
            (),
            CredError,
        >(()) <==> len <= 2560),
        valid_label(service) && valid_label(name) ==> (set_check(service, name, len) == Err::<
            (),
            CredError,
        >(CredError::SecretTooLarge) <==> len > 2560),
        !(valid_label(service) && valid_label(name)) ==> set_check(service, name, len)
            == validation(service, name),
        MAX_SECRET == 2560,
{
}

/// The answer of an operation on this library's own backend, which has no
/// vault: a failed check is returned as it is, otherwise `Unsupported`.
pub open spec fn without_vault<T>(check: Result<(), CredError>) -> Result<T, CredError> {
    match check {
        Err(e) => Err(e),
        Ok(()) => Err(CredError::NoVault),
    }
}

/// Everything `set` checks before a vault is touched: both labels, then that
/// the secret is at most `MAX_SECRET` bytes.
pub fn check_set(service: &str, name: &str, secret: &[u8]) -> (r: Result<(), CredError>)
    ensures
        r == set_check(service@, name@, secret@.len()),
{
    validate(service, name)?;
    if secret.len() > MAX_SECRET {
        return Err(CredError::SecretTooLarge);
    }
    Ok(())
}

/// The request to store `secret` under `service`/`name`, answered by this
/// library's own backend, the one for platforms without a vault: nothing is
/// stored. Invalid input is refused with `InvalidInput` first; valid input is
/// answered `Unsupported`. Native vaults are reached by the platform crate,
/// which runs `check_set` and the backend decisions of `sys_windows` and
/// `sys_macos`.
pub fn set(service: &str, name: &str, secret: &[u8]) -> (r: Result<(), CredError>)
    ensures
        r == without_vault::<()>(set_check(service@, name@, secret@.len())),
{
    check_set(service, name, secret)?;
    sys_unsupported::set(service, name, secret)
}

/// The request to read the secret under `service`/`name`, answered by the
/// backend without a vault: nothing is read. Invalid labels are refused with
/// `InvalidInput`; valid ones are answered `Unsupported`.
pub fn get(service: &str, name: &str) -> (r: Result<Option<Vec<u8>>, CredError>)
    ensures
        r == without_vault::<Option<Vec<u8>>>(validation(service@, name@)),
{
    validate(service, name)?;
    sys_unsupported::get(service, name)
}

/// The request to delete the secret under `service`/`name`, answered by the
/// backend without a vault: nothing is deleted. Invalid labels are refused
/// with `InvalidInput`; valid ones are answered `Unsupported`.
pub fn delete(service: &str, name: &str) -> (r: Result<bool, CredError>)
    ensures
        r == without_vault::<bool>(validation(service@, name@)),
{
    validate(service, name)?;
    sys_unsupported::delete(service, name)
}

/// The request to list the names stored under `service`, answered by the
/// backend without a vault. An invalid service is refused with
/// `InvalidInput`; a valid one is answered `Unsupported`.
pub fn entries(service: &str) -> (r: Result<Vec<String>, CredError>)
    ensures
        r == without_vault::<Vec<String>>(
            if valid_label(service@) { Ok(()) } else { Err(CredError::InvalidLabel(Label::Service)) },
        ),
{
    proof {
        reveal_strlit("x");
    }
    validate(service, "x")?;
    sys_unsupported::entries(service)
}

} // verus!
