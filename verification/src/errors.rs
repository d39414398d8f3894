//! Storage error of the domain, independent of the database, and the
//! decimal text of integers used in its messages.

use vstd::prelude::*;

verus! {

/// Decimal digit character of `d` (`0 <= d < 10`).
pub open spec fn digit_char(d: nat) -> char {
    ((d + 48) as u32) as char
}

/// Decimal text of a natural number, no leading zero.
pub open spec fn decimal(n: nat) -> Seq<char>
    decreases n,
{
    if n < 10 {
        seq![digit_char(n)]
    } else {
        decimal(n / 10).push(digit_char(n % 10))
    }
}

/// Decimal text of an integer (`-` before a negative one), as `Display`
/// writes it.
pub open spec fn int_text(n: int) -> Seq<char> {
    if n < 0 {
        seq!['-'] + decimal((-n) as nat)
    } else {
        decimal(n as nat)
    }
}

fn digit(d: u128) -> (c: char)
    requires
        d < 10,
    ensures
        c == digit_char(d as nat),
{
    ((d as u8) + 48) as char
}

/// Decimal text of a natural number.
pub fn decimal_text(n: u128) -> (r: Vec<char>)
    ensures
        r@ == decimal(n as nat),
{
    let mut rest = n;
    let mut acc: Vec<char> = Vec::new();
    assert(decimal(n as nat) == decimal(rest as nat) + acc@);
    while rest >= 10
        invariant
            decimal(n as nat) == decimal(rest as nat) + acc@,
        decreases rest,
    {
        let c = digit(rest % 10);
        let ghost old_acc = acc@;
        acc.insert(0, c);
        assert(decimal(rest as nat) == decimal((rest / 10) as nat).push(c));
        rest = rest / 10;
        assert(acc@ =~= seq![c] + old_acc);
        assert(decimal((rest as nat)).push(c) + old_acc =~= decimal(rest as nat) + acc@);
    }
    let c = digit(rest);
    let ghost old_acc = acc@;
    acc.insert(0, c);
    assert(acc@ =~= seq![c] + old_acc);
    assert(decimal(rest as nat) =~= seq![c]);
    acc
}

/// Decimal text of an `i64` (`i64::to_string`).
pub fn i64_text(n: i64) -> (r: String)
    ensures
        r@ == int_text(n as int),
{
    if n < 0 {
        let m = (0i128 - (n as i128)) as u128;
        let digits = decimal_text(m);
        let mut v: Vec<char> = Vec::new();
        v.push('-');
        let mut i: usize = 0;
        while i < digits.len()
            invariant
                i <= digits.len(),
                v@ == seq!['-'] + digits@.take(i as int),
            decreases digits.len() - i,
        {
            v.push(digits[i]);
            i = i + 1;
            assert(v@ =~= seq!['-'] + digits@.take(i as int));
        }
        assert(digits@.take(digits.len() as int) =~= digits@);
        crate::text::string_of(&v)
    } else {
        let digits = decimal_text(n as u128);
        crate::text::string_of(&digits)
    }
}

/// Error returned by the storage operations.
#[derive(Debug, Clone, PartialEq, Eq)]
pub enum StorageError {
    /// Resource absent, or outside the caller's scope (isolation reads as
    /// "not found", never "forbidden").
    NotFound,
    /// Uniqueness violation (e-mail, project name, preset name…).
    Conflict(String),
    /// Optimistic lock: the given version differs from the stored one.
    VersionConflict { expected: i64, actual: i64 },
    /// Business rule violated.
    Forbidden(String),
    /// Storage backend failure.
    Backend(String),
}

impl StorageError {
    /// The user-facing message of the error.
    pub open spec fn spec_message(&self) -> Seq<char> {
        match self {
            StorageError::NotFound => "ressource introuvable"@,
            StorageError::Conflict(s) => "conflit d'unicité : "@ + s@,
            StorageError::VersionConflict { expected, actual } => "conflit de version (attendu "@
                + int_text(*expected as int) + ", reçu "@ + int_text(*actual as int) + ")"@,
            StorageError::Forbidden(s) => "opération refusée : "@ + s@,
            StorageError::Backend(s) => "erreur de stockage : "@ + s@,
        }
    }

    /// Message of the error (its `Display` text).
    pub fn message(&self) -> (r: String)
        ensures
            r@ == self.spec_message(),
    {
        match self {
            StorageError::NotFound => "ressource introuvable".to_owned(),
            StorageError::Conflict(s) => concat2("conflit d'unicité : ", s.as_str()),
            StorageError::VersionConflict { expected, actual } => {
                let a = concat2("conflit de version (attendu ", i64_text(*expected).as_str());
                let b = concat2(a.as_str(), ", reçu ");
                let c = concat2(b.as_str(), i64_text(*actual).as_str());
                concat2(c.as_str(), ")")
            },
            StorageError::Forbidden(s) => concat2("opération refusée : ", s.as_str()),
            StorageError::Backend(s) => concat2("erreur de stockage : ", s.as_str()),
        }
    }
}

/// `a` followed by `b`.
pub fn concat2(a: &str, b: &str) -> (r: String)
    ensures
        r@ == a@ + b@,
{
    let mut v = crate::text::chars_of(a);
    let w = crate::text::chars_of(b);
    let ghost va = v@;
    let mut i: usize = 0;
    while i < w.len()
        invariant
            i <= w.len(),
            v@ == va + w@.take(i as int),
        decreases w.len() - i,
    {
        v.push(w[i]);
        i = i + 1;
        assert(v@ =~= va + w@.take(i as int));
    }
    assert(w@.take(w.len() as int) =~= w@);
    crate::text::string_of(&v)
}

} // verus!
