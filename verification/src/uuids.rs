//! The text of an identifier, and fresh identifiers.

use vstd::prelude::*;

use crate::disk::Uuid;

verus! {

/// The `p`-th of the 32 hexadecimal digits of an identifier, from the left.
pub open spec fn nibble(bits: u128, p: nat) -> int {
    (bits as int / vstd::arithmetic::power::pow(16, (31 - p) as nat)) % 16
}

/// The lower-case hexadecimal digit that stands for `d`, for `d` below sixteen.
pub open spec fn hex_char(d: int) -> char {
    if d < 10 {
        (48 + d) as char
    } else {
        (87 + d) as char
    }
}

/// The hyphenated text of an identifier: 32 lower-case hexadecimal digits in
/// groups of 8, 4, 4, 4 and 12.
pub open spec fn hyphenated(bits: u128) -> Seq<char> {
    let digits = |from: nat, to: nat|
        Seq::new((to - from) as nat, |i: int| hex_char(nibble(bits, (from + i) as nat)));
    digits(0, 8) + seq!['-'] + digits(8, 12) + seq!['-'] + digits(12, 16) + seq!['-'] + digits(
        16,
        20,
    ) + seq!['-'] + digits(20, 32)
}

/// Whether an identifier is marked as randomly made: its version digit is 4 and
/// its variant digit is one of 8, 9, a and b.
pub open spec fn is_random_uuid(bits: u128) -> bool {
    nibble(bits, 12) == 4 && 8 <= nibble(bits, 16) <= 11
}

impl Uuid {
    /// Calls `uuid::Uuid::from_u128` and its `to_string`. The claim is that the
    /// text of an identifier is its hyphenated lower-case form, the highest bits
    /// first.
    #[verifier::external_body]
    pub(crate) fn hyphenated_text(self) -> (r: String)
        ensures
            r@ == hyphenated(self.bits),
    {
        uuid::Uuid::from_u128(self.bits).to_string()
    }

    /// Calls `uuid::Uuid::new_v4`. The claim is only that the identifier is
    /// marked as randomly made; which one comes is left to chance. The call does
    /// not return where the system has no randomness to give.
    #[verifier::external_body]
    pub(crate) fn random() -> (r: Uuid)
        ensures
            is_random_uuid(r.bits),
    {
        Uuid { bits: uuid::Uuid::new_v4().as_u128() }
    }

    /// The text of the identifier.
    pub fn to_text(&self) -> (r: String)
        ensures
            r@ == hyphenated(self.bits),
    {
        self.hyphenated_text()
    }
}

proof fn lemma_prefix_equal(a: u128, b: u128, k: nat)
    requires
        k <= 32,
        forall|p: nat| p < 32 ==> #[trigger] nibble(a, p) == nibble(b, p),
    ensures
        a as int / vstd::arithmetic::power::pow(16, (32 - k) as nat) == b as int
            / vstd::arithmetic::power::pow(16, (32 - k) as nat),
    decreases k,
{
    if k == 0 {
        assert(vstd::arithmetic::power::pow(16, 32) == 0x1_0000_0000_0000_0000_0000_0000_0000_0000int)
            by {
            reveal_with_fuel(vstd::arithmetic::power::pow, 33);
        }
        assert(a as int / 0x1_0000_0000_0000_0000_0000_0000_0000_0000int == 0);
        assert(b as int / 0x1_0000_0000_0000_0000_0000_0000_0000_0000int == 0);
    } else {
        let e = (32 - k) as nat;
        let small = vstd::arithmetic::power::pow(16, e);
        lemma_prefix_equal(a, b, (k - 1) as nat);
        vstd::arithmetic::power::lemma_pow_positive(16, e);
        assert(vstd::arithmetic::power::pow(16, e + 1) == 16 * small) by {
            reveal(vstd::arithmetic::power::pow);
        }
        assert(small * 16 == 16 * small);
        vstd::arithmetic::div_mod::lemma_div_denominator(a as int, small, 16);
        vstd::arithmetic::div_mod::lemma_div_denominator(b as int, small, 16);
        assert(nibble(a, (k - 1) as nat) == nibble(b, (k - 1) as nat));
        let x = a as int / small;
        let y = b as int / small;
        assert(x / 16 == y / 16);
        assert(x % 16 == y % 16);
    }
}

/// The text of an identifier tells it apart from every other identifier.
pub proof fn law_uuid_text_identifies(a: u128, b: u128)
    requires
        hyphenated(a) == hyphenated(b),
    ensures
        a == b,
{
    let s = hyphenated(a);
    let t = hyphenated(b);
    assert forall|p: nat| p < 32 implies #[trigger] nibble(a, p) == nibble(b, p) by {
        let at: int = if p < 8 {
            p as int
        } else if p < 12 {
            p as int + 1
        } else if p < 16 {
            p as int + 2
        } else if p < 20 {
            p as int + 3
        } else {
            p as int + 4
        };
        assert(s[at] == hex_char(nibble(a, p)));
        assert(t[at] == hex_char(nibble(b, p)));
    }
    lemma_prefix_equal(a, b, 32);
    assert(vstd::arithmetic::power::pow(16, 0) == 1) by {
        reveal(vstd::arithmetic::power::pow);
    }
    assert(a as int / 1 == a as int && b as int / 1 == b as int);
}

/// The text of an identifier has 36 characters: hyphens in the places 8, 13, 18
/// and 23, and else its hexadecimal digits in lower case, the highest first.
pub proof fn law_uuid_text_shows_the_digits(bits: u128, p: nat)
    requires
        p < 32,
    ensures
        hyphenated(bits).len() == 36,
        hyphenated(bits)[8] == '-',
        hyphenated(bits)[13] == '-',
        hyphenated(bits)[18] == '-',
        hyphenated(bits)[23] == '-',
        ({
            let at: int = if p < 8 {
                p as int
            } else if p < 12 {
                p as int + 1
            } else if p < 16 {
                p as int + 2
            } else if p < 20 {
                p as int + 3
            } else {
                p as int + 4
            };
            let c = hyphenated(bits)[at];
            let digit = (bits as int / vstd::arithmetic::power::pow(16, (31 - p) as nat)) % 16;
            if digit < 10 {
                c as int == '0' as int + digit
            } else {
                c as int == 'a' as int + (digit - 10)
            }
        }),
{
    assert(0 <= nibble(bits, p) < 16);
}

/// An identifier counts as randomly made where its thirteenth digit is 4 and its
/// seventeenth is one of 8, 9, a and b.
pub proof fn law_random_uuid_is_marked(bits: u128)
    ensures
        is_random_uuid(bits) <==> hyphenated(bits)[14] == '4' && (hyphenated(bits)[19] == '8'
            || hyphenated(bits)[19] == '9' || hyphenated(bits)[19] == 'a' || hyphenated(bits)[19]
            == 'b'),
{
    assert(hyphenated(bits)[14] == hex_char(nibble(bits, 12)));
    assert(hyphenated(bits)[19] == hex_char(nibble(bits, 16)));
    assert(0 <= nibble(bits, 12) < 16 && 0 <= nibble(bits, 16) < 16);
}

}
