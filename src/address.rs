use vstd::prelude::*;
use crate::text::{hex_char, hex_digits, push_hex};
use vstd::arithmetic::div_mod::{lemma_fundamental_div_mod, lemma_fundamental_div_mod_converse, lemma_mod_pos_bound};

verus! {

/// The 4-byte sender ID of a transmitter.
#[derive(Clone, Copy, Debug, PartialEq, Eq, Hash, Structural)]
pub struct Address {
    pub id: u32,
}

/// The value of a hexadecimal digit of either case.
pub open spec fn hex_digit_value(c: char) -> Option<nat> {
    if '0' <= c && c <= '9' {
        Some((c as int - '0' as int) as nat)
    } else if 'a' <= c && c <= 'f' {
        Some((c as int - 'a' as int + 10) as nat)
    } else if 'A' <= c && c <= 'F' {
        Some((c as int - 'A' as int + 10) as nat)
    } else {
        None
    }
}

/// The number written by a sequence of hexadecimal digits.
pub open spec fn hex_value(s: Seq<char>) -> nat
    decreases s.len(),
{
    if s.len() == 0 {
        0
    } else {
        hex_value(s.drop_last()) * 16 + hex_digit_value(s.last()).unwrap_or(0)
    }
}

/// The canonical text of an address: eight upper-case hexadecimal digits.
pub open spec fn address_text(id: u32) -> Seq<char> {
    hex_digits(id as nat, 8)
}

/// What a configuration key denotes: exactly eight hexadecimal digits, of
/// either case, read as a big-endian number.
pub open spec fn parsed_address(s: Seq<char>) -> Option<u32> {
    if s.len() == 8 && forall|i: int| 0 <= i < 8 ==> (#[trigger] hex_digit_value(s[i])) is Some {
        Some(hex_value(s) as u32)
    } else {
        None
    }
}

/// The big-endian number of four bytes.
pub open spec fn id_of_bytes(b: Seq<u8>) -> int {
    ((b[0] as int * 256 + b[1] as int) * 256 + b[2] as int) * 256 + b[3] as int
}

proof fn lemma_hex_value_bound(s: Seq<char>)
    requires
        forall|i: int| 0 <= i < s.len() ==> (#[trigger] hex_digit_value(s[i])) is Some,
    ensures
        hex_value(s) < pow16(s.len()),
    decreases s.len(),
{
    if s.len() > 0 {
        let p = s.drop_last();
        assert forall|i: int| 0 <= i < p.len() implies (#[trigger] hex_digit_value(p[i])) is Some by {
            assert(p[i] == s[i]);
        }
        lemma_hex_value_bound(p);
        assert(hex_digit_value(s[s.len() - 1]) is Some);
        let d = hex_digit_value(s.last()).unwrap_or(0);
        assert(d < 16);
        assert(hex_value(p) * 16 + d < pow16(p.len()) * 16) by (nonlinear_arith)
            requires
                hex_value(p) < pow16(p.len()),
                d < 16,
        ;
    }
}

/// Powers of sixteen.
pub open spec fn pow16(n: nat) -> nat
    decreases n,
{
    if n == 0 { 1 } else { pow16((n - 1) as nat) * 16 }
}

fn char_digit_value(c: char) -> (r: Option<u32>)
    ensures
        match hex_digit_value(c) {
            Some(v) => r == Some(v as u32),
            None => r is None,
        },
{
    if '0' <= c && c <= '9' {
        Some((c as u32) - ('0' as u32))
    } else if 'a' <= c && c <= 'f' {
        Some((c as u32) - ('a' as u32) + 10)
    } else if 'A' <= c && c <= 'F' {
        Some((c as u32) - ('A' as u32) + 10)
    } else {
        None
    }
}

impl Address {
    /// The address of a sender ID as it stands in a radio telegram, most
    /// significant byte first.
    pub fn from_bytes(bytes: [u8; 4]) -> (r: Address)
        ensures
            r.id as int == id_of_bytes(bytes@),
    {
        let id: u32 = (((bytes[0] as u32) * 256 + bytes[1] as u32) * 256 + bytes[2] as u32) * 256
            + bytes[3] as u32;
        Address { id }
    }

    /// Reads an address from its text form; `None` where the text is not
    /// exactly eight hexadecimal digits.
    pub fn parse(text: &str) -> (r: Option<Address>)
        ensures
            match parsed_address(text@) {
                Some(id) => r == Some(Address { id }),
                None => r is None,
            },
    {
        let mut value: u32 = 0;
        let mut count: usize = 0;
        let mut valid: bool = true;
        for c in it: text.chars()
            invariant
                it.seq() == text@,
                valid ==> count == it.index(),
                valid ==> forall|i: int| 0 <= i < count ==> (#[trigger] hex_digit_value(text@[i])) is Some,
                valid ==> count <= 8,
                valid ==> value as nat == hex_value(text@.take(count as int)),
                !valid ==> !(text@.len() == 8 && forall|i: int| 0 <= i < 8 ==> (#[trigger] hex_digit_value(text@[i])) is Some),
        {
            let ghost prev = text@.take(count as int);
            if valid {
                match char_digit_value(c) {
                    Some(d) => {
                        if count < 8 {
                            proof {
                                lemma_hex_value_bound(prev);
                                assert(pow16(prev.len()) <= pow16(7)) by {
                                    lemma_pow16_monotone(prev.len(), 7);
                                }
                                assert(pow16(7) == 0x10000000) by {
                                    reveal_with_fuel(pow16, 8);
                                }
                                assert(text@.take(count + 1).drop_last() == prev);
                                assert(text@.take(count + 1).last() == c);
                            }
                            value = value * 16 + d;
                            count = count + 1;
                        } else {
                            valid = false;
                        }
                    }
                    None => {
                        valid = false;
                    }
                }
            }
        }
        if valid && count == 8 {
            proof {
                assert(text@.take(8) == text@);
            }
            Some(Address { id: value })
        } else {
            None
        }
    }

    /// The canonical text of the address.
    pub fn to_text(&self) -> (r: String)
        ensures
            r@ == address_text(self.id),
    {
        let mut s = String::new();
        push_hex(&mut s, self.id, 8);
        assert(s@ =~= address_text(self.id));
        s
    }
}

proof fn lemma_pow16_monotone(a: nat, b: nat)
    requires
        a <= b,
    ensures
        pow16(a) <= pow16(b),
    decreases b,
{
    if a < b {
        lemma_pow16_monotone(a, (b - 1) as nat);
    }
}

proof fn lemma_pow16_positive(n: nat)
    ensures
        pow16(n) > 0,
    decreases n,
{
    if n > 0 {
        lemma_pow16_positive((n - 1) as nat);
    }
}

proof fn lemma_hex_char_value(d: nat)
    requires
        d < 16,
    ensures
        hex_digit_value(hex_char(d)) == Some(d),
{
}

proof fn lemma_hex_digits_value(n: nat, count: nat)
    ensures
        hex_digits(n, count).len() == count,
        forall|i: int| 0 <= i < count ==> (#[trigger] hex_digit_value(hex_digits(n, count)[i])) is Some,
        hex_value(hex_digits(n, count)) == n % pow16(count),
    decreases count,
{
    if count > 0 {
        let c = (count - 1) as nat;
        let q = n / 16;
        let r = n % 16;
        let s = hex_digits(n, count);
        lemma_hex_digits_value(q, c);
        lemma_hex_char_value(r);
        assert(s.drop_last() == hex_digits(q, c));
        assert forall|i: int| 0 <= i < count implies (#[trigger] hex_digit_value(s[i])) is Some by {
            if i < c {
                assert(s[i] == hex_digits(q, c)[i]);
            }
        }
        let p = pow16(c);
        lemma_pow16_positive(c);
        let a = q / p;
        let b = q % p;
        lemma_fundamental_div_mod(q as int, p as int);
        lemma_mod_pos_bound(q as int, p as int);
        assert(q == a * p + b) by (nonlinear_arith)
            requires
                q == p * a + b,
        ;
        assert(n == a * (p * 16) + (b * 16 + r)) by (nonlinear_arith)
            requires
                n == q * 16 + r,
                q == a * p + b,
        ;
        assert(b * 16 + r < p * 16) by (nonlinear_arith)
            requires
                b < p,
                r < 16,
        ;
        lemma_fundamental_div_mod_converse(n as int, (p * 16) as int, a as int, (b * 16 + r) as int);
    }
}

/// Reading back the text of an address gives the address.
pub proof fn lemma_address_text_round_trip(id: u32)
    ensures
        parsed_address(address_text(id)) == Some(id),
{
    lemma_hex_digits_value(id as nat, 8);
    assert(pow16(8) == 0x100000000) by {
        reveal_with_fuel(pow16, 9);
    }
}

} // verus!
