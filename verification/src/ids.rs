//! Identifiers of sandboxes, mounts and executions.
//!
//! An identifier is a random UUID, held as the number that its bytes spell, most significant
//! first.

use vstd::arithmetic::div_mod::{lemma_mod_breakdown, lemma_small_mod};
use vstd::arithmetic::power::{lemma_pow0, lemma_pow1, lemma_pow_adds, lemma_pow_positive, pow};
use vstd::prelude::*;

verus! {

/// A number whose bits are those of a random UUID: version four, of the RFC variant.
pub open spec fn is_random_uuid(v: u128) -> bool {
    &&& (v as int / pow(16, 19)) % 16 == 4
    &&& (v as int / pow(2, 62)) % 4 == 2
}

/// The lower-case hexadecimal digit of a number below sixteen.
pub open spec fn hex_digit(d: int) -> char {
    if d < 10 {
        ('0' as int + d) as char
    } else {
        ('a' as int + d - 10) as char
    }
}

/// The thirty-two hexadecimal digits of an identifier.
pub open spec fn simple_text(v: u128) -> Seq<char> {
    Seq::new(32, |i: int| hex_digit((v as int / pow(16, (31 - i) as nat)) % 16))
}

/// The digits of an identifier in groups of 8, 4, 4, 4 and 12, with a hyphen between the groups.
pub open spec fn hyphenated_text(v: u128) -> Seq<char> {
    let s = simple_text(v);
    s.subrange(0, 8) + seq!['-'] + s.subrange(8, 12) + seq!['-'] + s.subrange(12, 16) + seq!['-']
        + s.subrange(16, 20) + seq!['-'] + s.subrange(20, 32)
}

/// `uuid::Uuid::new_v4` draws a random UUID. Whatever it draws has the version and the variant
/// that mark a random UUID; nothing else is known of it.
#[verifier::external_body]
fn random_uuid() -> (r: u128)
    ensures
        is_random_uuid(r),
{
    uuid::Uuid::new_v4().as_u128()
}

/// The text of `uuid::Uuid::hyphenated`, which is also how a UUID is displayed: the digits of the
/// number in five groups with hyphens between them.
#[verifier::external_body]
fn uuid_hyphenated(v: u128) -> (r: String)
    ensures
        r@ == hyphenated_text(v),
{
    uuid::Uuid::from_u128(v).hyphenated().to_string()
}

/// Identifies a sandbox.
#[derive(Debug, Clone, Copy, PartialEq, Eq, Hash, Structural)]
pub struct SandboxId(pub u128);

impl SandboxId {
    /// A fresh identifier.
    pub fn new() -> (r: Self)
        ensures
            is_random_uuid(r.0),
    {
        SandboxId(random_uuid())
    }

    /// The identifier as text.
    pub fn text(&self) -> (r: String)
        ensures
            r@ == hyphenated_text(self.0),
    {
        uuid_hyphenated(self.0)
    }
}

impl Default for SandboxId {
    fn default() -> (r: Self)
        ensures
            is_random_uuid(r.0),
    {
        SandboxId::new()
    }
}

/// Identifies a mount.
#[derive(Debug, Clone, Copy, PartialEq, Eq, Hash, Structural)]
pub struct MountId(pub u128);

impl MountId {
    /// A fresh identifier.
    pub fn new() -> (r: Self)
        ensures
            is_random_uuid(r.0),
    {
        MountId(random_uuid())
    }

    /// The identifier as text.
    pub fn text(&self) -> (r: String)
        ensures
            r@ == hyphenated_text(self.0),
    {
        uuid_hyphenated(self.0)
    }
}

impl Default for MountId {
    fn default() -> (r: Self)
        ensures
            is_random_uuid(r.0),
    {
        MountId::new()
    }
}

/// Identifies an execution.
#[derive(Debug, Clone, Copy, PartialEq, Eq, Hash, Structural)]
pub struct ExecId(pub u128);

impl ExecId {
    /// A fresh identifier.
    pub fn new() -> (r: Self)
        ensures
            is_random_uuid(r.0),
    {
        ExecId(random_uuid())
    }

    /// The identifier as text.
    pub fn text(&self) -> (r: String)
        ensures
            r@ == hyphenated_text(self.0),
    {
        uuid_hyphenated(self.0)
    }
}

impl Default for ExecId {
    fn default() -> (r: Self)
        ensures
            is_random_uuid(r.0),
    {
        ExecId::new()
    }
}

/// The code of a hexadecimal digit.
pub proof fn lemma_hex_digit(d: int)
    requires
        0 <= d < 16,
    ensures
        hex_digit(d) as int == if d < 10 {
            48 + d
        } else {
            87 + d
        },
{
}

/// Numbers with the same lowest hexadecimal digits are equal as far as those digits go.
proof fn lemma_low_digits(a: int, b: int, n: nat)
    requires
        0 <= a,
        0 <= b,
        forall|k: nat| k < n ==> (#[trigger] (a / pow(16, k))) % 16 == (b / pow(16, k)) % 16,
    ensures
        a % pow(16, n) == b % pow(16, n),
    decreases n,
{
    lemma_pow_positive(16, n);
    if n == 0 {
        lemma_pow0(16);
    } else {
        let m = (n - 1) as nat;
        lemma_low_digits(a, b, m);
        lemma_pow_positive(16, m);
        lemma_pow1(16);
        lemma_pow_adds(16, m, 1);
        let p = pow(16, m);
        assert(pow(16, n) == p * 16);
        assert((a / p) % 16 == (b / p) % 16);
        lemma_mod_breakdown(a, p, 16);
        lemma_mod_breakdown(b, p, 16);
    }
}

/// Two identifiers with the same digits are the same.
pub proof fn simple_text_identifies(a: u128, b: u128)
    requires
        simple_text(a) == simple_text(b),
    ensures
        a == b,
{
    assert forall|k: nat| k < 32 implies (#[trigger] (a as int / pow(16, k))) % 16 == (b as int
        / pow(16, k)) % 16 by {
        let i: int = 31 - k;
        assert((31 - i) as nat == k);
        assert(simple_text(a)[i] == hex_digit((a as int / pow(16, k)) % 16));
        assert(simple_text(b)[i] == hex_digit((b as int / pow(16, k)) % 16));
        lemma_hex_digit((a as int / pow(16, k)) % 16);
        lemma_hex_digit((b as int / pow(16, k)) % 16);
    }
    lemma_low_digits(a as int, b as int, 32);
    assert(pow(16, 32) == 0x1_0000_0000_0000_0000_0000_0000_0000_0000) by {
        lemma_pow_adds(16, 16, 16);
        lemma_pow_adds(16, 8, 8);
        lemma_pow_adds(16, 4, 4);
        lemma_pow_adds(16, 2, 2);
        lemma_pow_adds(16, 1, 1);
        lemma_pow1(16);
        assert(pow(16, 2) == 256);
        assert(256int * 256int == 65536int) by (nonlinear_arith);
        assert(pow(16, 4) == 65536);
        assert(65536int * 65536int == 0x1_0000_0000int) by (nonlinear_arith);
        assert(pow(16, 8) == 0x1_0000_0000);
        assert(0x1_0000_0000int * 0x1_0000_0000int == 0x1_0000_0000_0000_0000int)
            by (nonlinear_arith);
        assert(pow(16, 16) == 0x1_0000_0000_0000_0000);
        assert(0x1_0000_0000_0000_0000int * 0x1_0000_0000_0000_0000int
            == 0x1_0000_0000_0000_0000_0000_0000_0000_0000int) by (nonlinear_arith);
    }
    lemma_small_mod(a as nat, pow(16, 32) as nat);
    lemma_small_mod(b as nat, pow(16, 32) as nat);
}

/// Two identifiers with the same text are the same.
pub proof fn text_identifies(a: u128, b: u128)
    requires
        hyphenated_text(a) == hyphenated_text(b),
    ensures
        a == b,
{
    let s = simple_text(a);
    let t = simple_text(b);
    let h = hyphenated_text(a);
    assert(h == hyphenated_text(b));
    assert forall|i: int| 0 <= i < 32 implies s[i] == t[i] by {
        let k = if i < 8 {
            i
        } else if i < 12 {
            i + 1
        } else if i < 16 {
            i + 2
        } else if i < 20 {
            i + 3
        } else {
            i + 4
        };
        assert(h[k] == s[i]);
        assert(hyphenated_text(b)[k] == t[i]);
    }
    assert(s =~= t);
    simple_text_identifies(a, b);
}

/// The text of an identifier has thirty-six characters, with a hyphen behind the eighth, the twelfth,
/// the sixteenth and the twentieth of its digits; it is the same for the same number, whatever the
/// number identifies, and different for different ones.
pub proof fn texts_tell_identifiers_apart(
    a: &SandboxId,
    b: &SandboxId,
    m: &MountId,
    e: &ExecId,
    of_a: String,
    of_b: String,
    of_m: String,
    of_e: String,
)
    requires
        call_ensures(SandboxId::text, (a,), of_a),
        call_ensures(SandboxId::text, (b,), of_b),
        call_ensures(MountId::text, (m,), of_m),
        call_ensures(ExecId::text, (e,), of_e),
    ensures
        of_a@.len() == 36,
        of_a@[8] == '-' && of_a@[13] == '-' && of_a@[18] == '-' && of_a@[23] == '-',
        of_a@ == of_b@ <==> a.0 == b.0,
        of_a@ == of_m@ <==> a.0 == m.0,
        of_a@ == of_e@ <==> a.0 == e.0,
{
    if of_a@ == of_b@ {
        text_identifies(a.0, b.0);
    }
    if of_a@ == of_m@ {
        text_identifies(a.0, m.0);
    }
    if of_a@ == of_e@ {
        text_identifies(a.0, e.0);
    }
}

/// An identifier that is drawn is marked as a random UUID: the thirteenth of its digits is a four.
pub proof fn drawn_identifiers_are_random_uuids(
    s: SandboxId,
    m: MountId,
    e: ExecId,
    of_s: String,
    of_m: String,
    of_e: String,
)
    requires
        call_ensures(SandboxId::new, (), s),
        call_ensures(MountId::new, (), m),
        call_ensures(ExecId::new, (), e),
        call_ensures(SandboxId::text, (&s,), of_s),
        call_ensures(MountId::text, (&m,), of_m),
        call_ensures(ExecId::text, (&e,), of_e),
    ensures
        of_s@[14] == '4',
        of_m@[14] == '4',
        of_e@[14] == '4',
{
    assert(of_s@[14] == simple_text(s.0)[12]);
    assert(of_m@[14] == simple_text(m.0)[12]);
    assert(of_e@[14] == simple_text(e.0)[12]);
    assert((31 - 12int) as nat == 19);
}

} // verus!
