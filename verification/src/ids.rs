//! Typed identifiers: one type per entity over the 128-bit value of a
//! UUID, so that ids of different resources cannot be mixed up. Text forms
//! and fresh random ids come from the `uuid` crate.

use vstd::prelude::*;

verus! {

/// Lower-case hexadecimal digit of a value below 16.
pub open spec fn hex_digit(d: u128) -> char {
    if d < 10 {
        (('0' as u32) + (d as u32)) as char
    } else {
        (('a' as u32) + (d as u32) - 10) as char
    }
}

/// Nibble `k` of `n`, counted from the most significant one (0 to 31).
pub open spec fn nibble(n: u128, k: int) -> u128 {
    (n >> (((31 - k) * 4) as u128)) & 0xF
}

/// Which nibble the character at position `p` of a hyphenated UUID text
/// writes (hyphens stand at 8, 13, 18 and 23).
pub open spec fn uuid_digit_index(p: int) -> int {
    if p < 8 {
        p
    } else if p < 13 {
        p - 1
    } else if p < 18 {
        p - 2
    } else if p < 23 {
        p - 3
    } else {
        p - 4
    }
}

/// Hyphenated lower-case text of a UUID value, as `uuid::Uuid`'s
/// `Display` writes it: the 32 hexadecimal digits of the value, most
/// significant first, grouped 8-4-4-4-12.
pub open spec fn uuid_text(n: u128) -> Seq<char> {
    Seq::new(
        36,
        |p: int|
            if p == 8 || p == 13 || p == 18 || p == 23 {
                '-'
            } else {
                hex_digit(nibble(n, uuid_digit_index(p)))
            },
    )
}

proof fn lemma_hex_digit_injective(x: u128, y: u128)
    requires
        x < 16,
        y < 16,
        hex_digit(x) == hex_digit(y),
    ensures
        x == y,
{
    if x < 10 && y >= 10 {
        assert(hex_digit(x) as u32 <= 57);
        assert(hex_digit(y) as u32 >= 97);
    } else if x >= 10 && y < 10 {
        assert(hex_digit(y) as u32 <= 57);
        assert(hex_digit(x) as u32 >= 97);
    } else {
        assert(hex_digit(x) as u32 == hex_digit(y) as u32);
    }
}

proof fn lemma_nibble_small(n: u128, k: int)
    ensures
        nibble(n, k) < 16,
{
    let s: u128 = ((31 - k) * 4) as u128;
    assert((n >> s) & 0xFu128 < 16u128) by (bit_vector);
}

/// Distinct values have distinct texts.
pub proof fn lemma_uuid_text_injective(a: u128, b: u128)
    requires
        uuid_text(a) == uuid_text(b),
    ensures
        a == b,
{
    assert forall|k: int| 0 <= k < 32 implies nibble(a, k) == nibble(b, k) by {
        let p = if k < 8 {
            k
        } else if k < 12 {
            k + 1
        } else if k < 16 {
            k + 2
        } else if k < 20 {
            k + 3
        } else {
            k + 4
        };
        assert(uuid_digit_index(p) == k);
        assert(0 <= p < 36 && p != 8 && p != 13 && p != 18 && p != 23);
        assert(uuid_text(a)[p] == hex_digit(nibble(a, k)));
        assert(uuid_text(b)[p] == hex_digit(nibble(b, k)));
        lemma_nibble_small(a, k);
        lemma_nibble_small(b, k);
        lemma_hex_digit_injective(nibble(a, k), nibble(b, k));
    }
    assert(nibble(a, 0) == nibble(b, 0));
    assert(nibble(a, 1) == nibble(b, 1));
    assert(nibble(a, 2) == nibble(b, 2));
    assert(nibble(a, 3) == nibble(b, 3));
    assert(nibble(a, 4) == nibble(b, 4));
    assert(nibble(a, 5) == nibble(b, 5));
    assert(nibble(a, 6) == nibble(b, 6));
    assert(nibble(a, 7) == nibble(b, 7));
    assert(nibble(a, 8) == nibble(b, 8));
    assert(nibble(a, 9) == nibble(b, 9));
    assert(nibble(a, 10) == nibble(b, 10));
    assert(nibble(a, 11) == nibble(b, 11));
    assert(nibble(a, 12) == nibble(b, 12));
    assert(nibble(a, 13) == nibble(b, 13));
    assert(nibble(a, 14) == nibble(b, 14));
    assert(nibble(a, 15) == nibble(b, 15));
    assert(nibble(a, 16) == nibble(b, 16));
    assert(nibble(a, 17) == nibble(b, 17));
    assert(nibble(a, 18) == nibble(b, 18));
    assert(nibble(a, 19) == nibble(b, 19));
    assert(nibble(a, 20) == nibble(b, 20));
    assert(nibble(a, 21) == nibble(b, 21));
    assert(nibble(a, 22) == nibble(b, 22));
    assert(nibble(a, 23) == nibble(b, 23));
    assert(nibble(a, 24) == nibble(b, 24));
    assert(nibble(a, 25) == nibble(b, 25));
    assert(nibble(a, 26) == nibble(b, 26));
    assert(nibble(a, 27) == nibble(b, 27));
    assert(nibble(a, 28) == nibble(b, 28));
    assert(nibble(a, 29) == nibble(b, 29));
    assert(nibble(a, 30) == nibble(b, 30));
    assert(nibble(a, 31) == nibble(b, 31));
    assert(a == b) by (bit_vector)
        requires
            (a >> 124u128) & 0xF == (b >> 124u128) & 0xF,
            (a >> 120u128) & 0xF == (b >> 120u128) & 0xF,
            (a >> 116u128) & 0xF == (b >> 116u128) & 0xF,
            (a >> 112u128) & 0xF == (b >> 112u128) & 0xF,
            (a >> 108u128) & 0xF == (b >> 108u128) & 0xF,
            (a >> 104u128) & 0xF == (b >> 104u128) & 0xF,
            (a >> 100u128) & 0xF == (b >> 100u128) & 0xF,
            (a >> 96u128) & 0xF == (b >> 96u128) & 0xF,
            (a >> 92u128) & 0xF == (b >> 92u128) & 0xF,
            (a >> 88u128) & 0xF == (b >> 88u128) & 0xF,
            (a >> 84u128) & 0xF == (b >> 84u128) & 0xF,
            (a >> 80u128) & 0xF == (b >> 80u128) & 0xF,
            (a >> 76u128) & 0xF == (b >> 76u128) & 0xF,
            (a >> 72u128) & 0xF == (b >> 72u128) & 0xF,
            (a >> 68u128) & 0xF == (b >> 68u128) & 0xF,
            (a >> 64u128) & 0xF == (b >> 64u128) & 0xF,
            (a >> 60u128) & 0xF == (b >> 60u128) & 0xF,
            (a >> 56u128) & 0xF == (b >> 56u128) & 0xF,
            (a >> 52u128) & 0xF == (b >> 52u128) & 0xF,
            (a >> 48u128) & 0xF == (b >> 48u128) & 0xF,
            (a >> 44u128) & 0xF == (b >> 44u128) & 0xF,
            (a >> 40u128) & 0xF == (b >> 40u128) & 0xF,
            (a >> 36u128) & 0xF == (b >> 36u128) & 0xF,
            (a >> 32u128) & 0xF == (b >> 32u128) & 0xF,
            (a >> 28u128) & 0xF == (b >> 28u128) & 0xF,
            (a >> 24u128) & 0xF == (b >> 24u128) & 0xF,
            (a >> 20u128) & 0xF == (b >> 20u128) & 0xF,
            (a >> 16u128) & 0xF == (b >> 16u128) & 0xF,
            (a >> 12u128) & 0xF == (b >> 12u128) & 0xF,
            (a >> 8u128) & 0xF == (b >> 8u128) & 0xF,
            (a >> 4u128) & 0xF == (b >> 4u128) & 0xF,
            (a >> 0u128) & 0xF == (b >> 0u128) & 0xF,
    ;
}

/// Value of a UUID text (`None` if it is not one), as
/// `uuid::Uuid::parse_str` reads it.
pub uninterp spec fn uuid_parse(s: Seq<char>) -> Option<u128>;

/// A character of a hyphenated lower-case UUID text.
pub open spec fn is_uuid_char(c: char) -> bool {
    ('0' <= c && c <= '9') || ('a' <= c && c <= 'f') || c == '-'
}

/// `Uuid::from_u128(n).to_string()`: the hyphenated text of `n` (36
/// characters, lower-case hexadecimal digits and hyphens), which
/// `Uuid::parse_str` reads back as `n`.
#[verifier::external_body]
pub fn uuid_to_text(n: u128) -> (r: String)
    ensures
        r@ == uuid_text(n),
        uuid_parse(r@) == Some(n),
        r@.len() == 36,
        forall|i: int| 0 <= i < r@.len() ==> is_uuid_char(#[trigger] r@[i]),
{
    uuid::Uuid::from_u128(n).to_string()
}

/// `Uuid::parse_str(s)`, as a 128-bit value.
#[verifier::external_body]
pub fn uuid_from_text(s: &str) -> (r: Option<u128>)
    ensures
        r == uuid_parse(s@),
{
    uuid::Uuid::parse_str(s).ok().map(|u| u.as_u128())
}

/// `Uuid::new_v4()`: random bits with the version nibble set to 4 and the
/// RFC 4122 variant bits set to `10`.
#[verifier::external_body]
pub fn uuid_random() -> (r: u128)
    ensures
        (r >> 76u128) & 0xF == 4,
        (r >> 62u128) & 0x3 == 2,
{
    uuid::Uuid::new_v4().as_u128()
}


/// Identifier of a user account.
#[derive(Debug, Clone, Copy, PartialEq, Eq, Hash, PartialOrd, Ord, Structural)]
pub struct UserId(pub u128);

impl UserId {
    /// Fresh random identifier (UUID version 4).
    pub fn new() -> (r: Self)
        ensures
            (r.0 >> 76u128) & 0xF == 4,
    {
        UserId(uuid_random())
    }

    /// Hyphenated text of the identifier.
    pub fn to_text(&self) -> (r: String)
        ensures
            r@ == uuid_text(self.0),
            uuid_parse(r@) == Some(self.0),
            r@.len() == 36,
            forall|i: int| 0 <= i < r@.len() ==> is_uuid_char(#[trigger] r@[i]),
    {
        uuid_to_text(self.0)
    }

    /// Identifier written in `s` (`None` if `s` is not a UUID).
    pub fn parse(s: &str) -> (r: Option<Self>)
        ensures
            r.is_some() == uuid_parse(s@).is_some(),
            r.is_some() ==> r.unwrap().0 == uuid_parse(s@).unwrap(),
    {
        match uuid_from_text(s) {
            Some(n) => Some(UserId(n)),
            None => None,
        }
    }
}

/// Identifier of a project.
#[derive(Debug, Clone, Copy, PartialEq, Eq, Hash, PartialOrd, Ord, Structural)]
pub struct ProjectId(pub u128);

impl ProjectId {
    /// Fresh random identifier (UUID version 4).
    pub fn new() -> (r: Self)
        ensures
            (r.0 >> 76u128) & 0xF == 4,
    {
        ProjectId(uuid_random())
    }

    /// Hyphenated text of the identifier.
    pub fn to_text(&self) -> (r: String)
        ensures
            r@ == uuid_text(self.0),
            uuid_parse(r@) == Some(self.0),
            r@.len() == 36,
            forall|i: int| 0 <= i < r@.len() ==> is_uuid_char(#[trigger] r@[i]),
    {
        uuid_to_text(self.0)
    }

    /// Identifier written in `s` (`None` if `s` is not a UUID).
    pub fn parse(s: &str) -> (r: Option<Self>)
        ensures
            r.is_some() == uuid_parse(s@).is_some(),
            r.is_some() ==> r.unwrap().0 == uuid_parse(s@).unwrap(),
    {
        match uuid_from_text(s) {
            Some(n) => Some(ProjectId(n)),
            None => None,
        }
    }
}

/// Identifier of an imported 3D model.
#[derive(Debug, Clone, Copy, PartialEq, Eq, Hash, PartialOrd, Ord, Structural)]
pub struct ModelId(pub u128);

impl ModelId {
    /// Fresh random identifier (UUID version 4).
    pub fn new() -> (r: Self)
        ensures
            (r.0 >> 76u128) & 0xF == 4,
    {
        ModelId(uuid_random())
    }

    /// Hyphenated text of the identifier.
    pub fn to_text(&self) -> (r: String)
        ensures
            r@ == uuid_text(self.0),
            uuid_parse(r@) == Some(self.0),
            r@.len() == 36,
            forall|i: int| 0 <= i < r@.len() ==> is_uuid_char(#[trigger] r@[i]),
    {
        uuid_to_text(self.0)
    }

    /// Identifier written in `s` (`None` if `s` is not a UUID).
    pub fn parse(s: &str) -> (r: Option<Self>)
        ensures
            r.is_some() == uuid_parse(s@).is_some(),
            r.is_some() ==> r.unwrap().0 == uuid_parse(s@).unwrap(),
    {
        match uuid_from_text(s) {
            Some(n) => Some(ModelId(n)),
            None => None,
        }
    }
}

/// Identifier of a preset.
#[derive(Debug, Clone, Copy, PartialEq, Eq, Hash, PartialOrd, Ord, Structural)]
pub struct PresetId(pub u128);

impl PresetId {
    /// Fresh random identifier (UUID version 4).
    pub fn new() -> (r: Self)
        ensures
            (r.0 >> 76u128) & 0xF == 4,
    {
        PresetId(uuid_random())
    }

    /// Hyphenated text of the identifier.
    pub fn to_text(&self) -> (r: String)
        ensures
            r@ == uuid_text(self.0),
            uuid_parse(r@) == Some(self.0),
            r@.len() == 36,
            forall|i: int| 0 <= i < r@.len() ==> is_uuid_char(#[trigger] r@[i]),
    {
        uuid_to_text(self.0)
    }

    /// Identifier written in `s` (`None` if `s` is not a UUID).
    pub fn parse(s: &str) -> (r: Option<Self>)
        ensures
            r.is_some() == uuid_parse(s@).is_some(),
            r.is_some() ==> r.unwrap().0 == uuid_parse(s@).unwrap(),
    {
        match uuid_from_text(s) {
            Some(n) => Some(PresetId(n)),
            None => None,
        }
    }
}

/// Identifier of a declared printer.
#[derive(Debug, Clone, Copy, PartialEq, Eq, Hash, PartialOrd, Ord, Structural)]
pub struct PrinterId(pub u128);

impl PrinterId {
    /// Fresh random identifier (UUID version 4).
    pub fn new() -> (r: Self)
        ensures
            (r.0 >> 76u128) & 0xF == 4,
    {
        PrinterId(uuid_random())
    }

    /// Hyphenated text of the identifier.
    pub fn to_text(&self) -> (r: String)
        ensures
            r@ == uuid_text(self.0),
            uuid_parse(r@) == Some(self.0),
            r@.len() == 36,
            forall|i: int| 0 <= i < r@.len() ==> is_uuid_char(#[trigger] r@[i]),
    {
        uuid_to_text(self.0)
    }

    /// Identifier written in `s` (`None` if `s` is not a UUID).
    pub fn parse(s: &str) -> (r: Option<Self>)
        ensures
            r.is_some() == uuid_parse(s@).is_some(),
            r.is_some() ==> r.unwrap().0 == uuid_parse(s@).unwrap(),
    {
        match uuid_from_text(s) {
            Some(n) => Some(PrinterId(n)),
            None => None,
        }
    }
}

/// Identifier of a slicing job.
#[derive(Debug, Clone, Copy, PartialEq, Eq, Hash, PartialOrd, Ord, Structural)]
pub struct JobId(pub u128);

impl JobId {
    /// Fresh random identifier (UUID version 4).
    pub fn new() -> (r: Self)
        ensures
            (r.0 >> 76u128) & 0xF == 4,
    {
        JobId(uuid_random())
    }

    /// Hyphenated text of the identifier.
    pub fn to_text(&self) -> (r: String)
        ensures
            r@ == uuid_text(self.0),
            uuid_parse(r@) == Some(self.0),
            r@.len() == 36,
            forall|i: int| 0 <= i < r@.len() ==> is_uuid_char(#[trigger] r@[i]),
    {
        uuid_to_text(self.0)
    }

    /// Identifier written in `s` (`None` if `s` is not a UUID).
    pub fn parse(s: &str) -> (r: Option<Self>)
        ensures
            r.is_some() == uuid_parse(s@).is_some(),
            r.is_some() ==> r.unwrap().0 == uuid_parse(s@).unwrap(),
    {
        match uuid_from_text(s) {
            Some(n) => Some(JobId(n)),
            None => None,
        }
    }
}

/// Identifier of a produced G-code.
#[derive(Debug, Clone, Copy, PartialEq, Eq, Hash, PartialOrd, Ord, Structural)]
pub struct GcodeId(pub u128);

impl GcodeId {
    /// Fresh random identifier (UUID version 4).
    pub fn new() -> (r: Self)
        ensures
            (r.0 >> 76u128) & 0xF == 4,
    {
        GcodeId(uuid_random())
    }

    /// Hyphenated text of the identifier.
    pub fn to_text(&self) -> (r: String)
        ensures
            r@ == uuid_text(self.0),
            uuid_parse(r@) == Some(self.0),
            r@.len() == 36,
            forall|i: int| 0 <= i < r@.len() ==> is_uuid_char(#[trigger] r@[i]),
    {
        uuid_to_text(self.0)
    }

    /// Identifier written in `s` (`None` if `s` is not a UUID).
    pub fn parse(s: &str) -> (r: Option<Self>)
        ensures
            r.is_some() == uuid_parse(s@).is_some(),
            r.is_some() ==> r.unwrap().0 == uuid_parse(s@).unwrap(),
    {
        match uuid_from_text(s) {
            Some(n) => Some(GcodeId(n)),
            None => None,
        }
    }
}

/// Identifier of an invitation.
#[derive(Debug, Clone, Copy, PartialEq, Eq, Hash, PartialOrd, Ord, Structural)]
pub struct InvitationId(pub u128);

impl InvitationId {
    /// Fresh random identifier (UUID version 4).
    pub fn new() -> (r: Self)
        ensures
            (r.0 >> 76u128) & 0xF == 4,
    {
        InvitationId(uuid_random())
    }

    /// Hyphenated text of the identifier.
    pub fn to_text(&self) -> (r: String)
        ensures
            r@ == uuid_text(self.0),
            uuid_parse(r@) == Some(self.0),
            r@.len() == 36,
            forall|i: int| 0 <= i < r@.len() ==> is_uuid_char(#[trigger] r@[i]),
    {
        uuid_to_text(self.0)
    }

    /// Identifier written in `s` (`None` if `s` is not a UUID).
    pub fn parse(s: &str) -> (r: Option<Self>)
        ensures
            r.is_some() == uuid_parse(s@).is_some(),
            r.is_some() ==> r.unwrap().0 == uuid_parse(s@).unwrap(),
    {
        match uuid_from_text(s) {
            Some(n) => Some(InvitationId(n)),
            None => None,
        }
    }
}

} // verus!
