use vstd::prelude::*;

verus! {

/// Which of the two labels of a secret was refused.
#[derive(Clone, Copy, Debug, PartialEq, Eq, Structural)]
pub enum Label {
    Service,
    Name,
}

/// The broad class of an error, as callers branch on it.
#[derive(Clone, Copy, Debug, PartialEq, Eq, Structural)]
pub enum ErrorKind {
    /// The request was refused before anything reached the vault.
    InvalidInput,
    /// The operation has no backend here.
    Unsupported,
    /// The vault reported a failure of its own.
    Other,
    /// A raw operating-system error code; its finer class is the platform's
    /// reading of that code.
    Os,
}

/// Everything that can go wrong while storing, reading, deleting or listing.
#[derive(Clone, Copy, Debug, PartialEq, Eq, Structural)]
pub enum CredError {
    /// A service or name is empty, or holds `/`, NUL or a control character.
    InvalidLabel(Label),
    /// The secret is longer than `MAX_SECRET` bytes.
    SecretTooLarge,
    /// No credential vault backend exists on this platform.
    NoVault,
    /// The backend cannot enumerate its items.
    ListingUnsupported,
    /// A raw operating-system error code (the Windows backend).
    Os(i32),
    /// A Security.framework status code (the macOS backend).
    Security(i32),
}

/// The character of a decimal digit.
pub open spec fn digit_char(d: int) -> char {
    if d == 0 {
        '0'
    } else if d == 1 {
        '1'
    } else if d == 2 {
        '2'
    } else if d == 3 {
        '3'
    } else if d == 4 {
        '4'
    } else if d == 5 {
        '5'
    } else if d == 6 {
        '6'
    } else if d == 7 {
        '7'
    } else if d == 8 {
        '8'
    } else {
        '9'
    }
}

/// The decimal digits of a natural number, most significant first, without
/// leading zeros.
pub open spec fn decimal(n: nat) -> Seq<char>
    decreases n,
{
    if n < 10 {
        seq![digit_char(n as int)]
    } else {
        decimal(n / 10).push(digit_char((n % 10) as int))
    }
}

/// An integer written in decimal, with a leading `-` when negative.
pub open spec fn signed_decimal(n: int) -> Seq<char> {
    if n < 0 {
        seq!['-'] + decimal((-n) as nat)
    } else {
        decimal(n as nat)
    }
}

/// The number that a string of decimal digits denotes.
pub open spec fn decimal_value(s: Seq<char>) -> int
    decreases s.len(),
{
    if s.len() == 0 {
        0
    } else {
        decimal_value(s.drop_last()) * 10 + ((s.last() as int) - ('0' as int))
    }
}

proof fn lemma_digit_char(d: int)
    requires
        0 <= d < 10,
    ensures
        (digit_char(d) as int) - ('0' as int) == d,
        '0' <= digit_char(d) <= '9',
{
    assert(('0' as int) == 48 && ('1' as int) == 49 && ('2' as int) == 50 && ('3' as int) == 51
        && ('4' as int) == 52 && ('5' as int) == 53 && ('6' as int) == 54 && ('7' as int) == 55
        && ('8' as int) == 56 && ('9' as int) == 57);
}

/// Writing a number in decimal gives digits only, without a leading zero
/// unless the number is zero, which read back denote the number.
pub proof fn lemma_decimal_reads_back(n: nat)
    ensures
        decimal_value(decimal(n)) == n,
        decimal(n).len() > 0,
        forall|i: int|
            0 <= i < decimal(n).len() ==> '0' <= #[trigger] decimal(n)[i] && decimal(n)[i] <= '9',
        n > 0 ==> decimal(n)[0] != '0',
    decreases n,
{
    lemma_digit_char((n % 10) as int);
    if n < 10 {
        assert(n % 10 == n);
        let d = decimal(n);
        assert(d.drop_last() =~= Seq::<char>::empty());
        assert(decimal_value(d.drop_last()) == 0);
        assert(d.last() == digit_char(n as int));
        assert(decimal_value(d) == decimal_value(d.drop_last()) * 10 + ((d.last() as int) - ('0' as int)));
    } else {
        lemma_decimal_reads_back(n / 10);
        let d = decimal(n);
        assert(d.drop_last() =~= decimal(n / 10));
        assert((n / 10) * 10 + n % 10 == n) by (nonlinear_arith);
        assert(d.last() == digit_char((n % 10) as int));
        assert(decimal_value(d) == decimal_value(d.drop_last()) * 10 + ((d.last() as int) - ('0' as int)));
        assert(decimal(n)[0] == decimal(n / 10)[0]);
    }
}

/// A signed number in decimal: a `-` and the digits of its magnitude when
/// negative, and just its digits otherwise; either way the digits read back
/// as its magnitude.
pub proof fn lemma_signed_decimal_reads_back(n: int)
    ensures
        n < 0 ==> signed_decimal(n)[0] == '-' && decimal_value(signed_decimal(n).drop_first())
            == -n,
        n >= 0 ==> decimal_value(signed_decimal(n)) == n && signed_decimal(n)[0] != '-',
{
    if n < 0 {
        lemma_decimal_reads_back((-n) as nat);
        assert(signed_decimal(n).drop_first() =~= decimal((-n) as nat));
    } else {
        lemma_decimal_reads_back(n as nat);
        assert('0' <= decimal(n as nat)[0] <= '9');
    }
}

fn append_digit(s: &mut String, d: u64)
    requires
        d < 10,
    ensures
        final(s)@ == old(s)@.push(digit_char(d as int)),
{
    proof {
        reveal_strlit("0");
        reveal_strlit("1");
        reveal_strlit("2");
        reveal_strlit("3");
        reveal_strlit("4");
        reveal_strlit("5");
        reveal_strlit("6");
        reveal_strlit("7");
        reveal_strlit("8");
        reveal_strlit("9");
    }
    let digit: &str = if d == 0 {
        "0"
    } else if d == 1 {
        "1"
    } else if d == 2 {
        "2"
    } else if d == 3 {
        "3"
    } else if d == 4 {
        "4"
    } else if d == 5 {
        "5"
    } else if d == 6 {
        "6"
    } else if d == 7 {
        "7"
    } else if d == 8 {
        "8"
    } else {
        "9"
    };
    s.append(digit);
}

fn append_decimal(s: &mut String, n: u64)
    ensures
        final(s)@ == old(s)@ + decimal(n as nat),
    decreases n,
{
    if n < 10 {
        append_digit(s, n);
    } else {
        append_decimal(s, n / 10);
        append_digit(s, n % 10);
    }
}

/// `n` written in decimal, with a leading `-` when negative.
pub fn i32_to_decimal(n: i32) -> (t: String)
    ensures
        t@ == signed_decimal(n as int),
{
    proof {
        reveal_strlit("-");
    }
    let mut t = String::new();
    let wide: i64 = n as i64;
    if wide < 0 {
        t.append("-");
        append_decimal(&mut t, (-wide) as u64);
    } else {
        append_decimal(&mut t, wide as u64);
    }
    t
}

impl CredError {
    pub open spec fn spec_kind(&self) -> ErrorKind {
        match self {
            CredError::InvalidLabel(_) => ErrorKind::InvalidInput,
            CredError::SecretTooLarge => ErrorKind::InvalidInput,
            CredError::NoVault => ErrorKind::Unsupported,
            CredError::ListingUnsupported => ErrorKind::Unsupported,
            CredError::Os(_) => ErrorKind::Os,
            CredError::Security(_) => ErrorKind::Other,
        }
    }

    /// The class of this error.
    #[verifier::when_used_as_spec(spec_kind)]
    pub fn kind(&self) -> (k: ErrorKind)
        ensures
            k == self.spec_kind(),
    {
        match self {
            CredError::InvalidLabel(_) => ErrorKind::InvalidInput,
            CredError::SecretTooLarge => ErrorKind::InvalidInput,
            CredError::NoVault => ErrorKind::Unsupported,
            CredError::ListingUnsupported => ErrorKind::Unsupported,
            CredError::Os(_) => ErrorKind::Os,
            CredError::Security(_) => ErrorKind::Other,
        }
    }
}

impl CredError {
    /// The message that describes this error.
    pub open spec fn spec_message(&self) -> Seq<char> {
        match self {
            CredError::InvalidLabel(Label::Service) => "service must be non-empty, without '/', NUL, or control characters"@,
            CredError::InvalidLabel(Label::Name) => "name must be non-empty, without '/', NUL, or control characters"@,
            CredError::SecretTooLarge => "secret exceeds 2560 bytes (the vault's limit)"@,
            CredError::NoVault => "no OS credential vault backend on this platform yet (Linux Secret Service needs D-Bus; planned). cred refuses to fall back to plaintext files."@,
            CredError::ListingUnsupported => "listing keychain items needs the SecItemCopyMatching FFI surface; planned. Keep an index entry if you need portable listing"@,
            CredError::Os(code) => "os error "@ + signed_decimal(*code as int),
            CredError::Security(status) => "Security.framework error "@ + signed_decimal(
                *status as int,
            ),
        }
    }

    /// The message that describes this error. For a raw OS error it names
    /// only the code; the platform's own description of the code is not part
    /// of it.
    pub fn message(&self) -> (m: String)
        ensures
            m@ == self.spec_message(),
    {
        match self {
            CredError::InvalidLabel(Label::Service) => String::from_str(
                "service must be non-empty, without '/', NUL, or control characters",
            ),
            CredError::InvalidLabel(Label::Name) => String::from_str(
                "name must be non-empty, without '/', NUL, or control characters",
            ),
            CredError::SecretTooLarge => String::from_str(
                "secret exceeds 2560 bytes (the vault's limit)",
            ),
            CredError::NoVault => String::from_str(
                "no OS credential vault backend on this platform yet (Linux Secret Service needs D-Bus; planned). cred refuses to fall back to plaintext files.",
            ),
            CredError::ListingUnsupported => String::from_str(
                "listing keychain items needs the SecItemCopyMatching FFI surface; planned. Keep an index entry if you need portable listing",
            ),
            CredError::Os(code) => {
                let mut m = String::from_str("os error ");
                let digits = i32_to_decimal(*code);
                m.append(digits.as_str());
                m
            },
            CredError::Security(status) => {
                let mut m = String::from_str("Security.framework error ");
                let digits = i32_to_decimal(*status);
                m.append(digits.as_str());
                m
            },
        }
    }
}

} // verus!
