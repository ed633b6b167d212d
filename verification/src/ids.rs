//! Record identifiers for invoices and payments.
//!
//! The document store names each record by a 96-bit identifier, written
//! as 24 hexadecimal characters (the classic ObjectId shape).  The store
//! itself only ever compares identifiers, so this crate models one as a
//! plain integer; parsing and rendering of the hexadecimal form are
//! verified here, and whoever mints fresh identifiers supplies them to
//! this crate as values.

use vstd::prelude::*;
use vstd::string::{StrSliceExecFns, StringExecFns};

verus! {

/// Numeric value of a hexadecimal digit character, either case;
/// 16 marks a non-digit.
pub open spec fn hex_digit_value(c: char) -> nat {
    if c == '0' {
        0
    } else if c == '1' {
        1
    } else if c == '2' {
        2
    } else if c == '3' {
        3
    } else if c == '4' {
        4
    } else if c == '5' {
        5
    } else if c == '6' {
        6
    } else if c == '7' {
        7
    } else if c == '8' {
        8
    } else if c == '9' {
        9
    } else if c == 'a' || c == 'A' {
        10
    } else if c == 'b' || c == 'B' {
        11
    } else if c == 'c' || c == 'C' {
        12
    } else if c == 'd' || c == 'D' {
        13
    } else if c == 'e' || c == 'E' {
        14
    } else if c == 'f' || c == 'F' {
        15
    } else {
        16
    }
}

pub open spec fn is_hex_char(c: char) -> bool {
    hex_digit_value(c) < 16
}

pub open spec fn all_hex(s: Seq<char>) -> bool {
    forall|i: int| 0 <= i < s.len() ==> is_hex_char(#[trigger] s[i])
}

/// The lowercase digit character for a value below sixteen.
pub open spec fn hex_char(d: nat) -> char {
    if d == 0 {
        '0'
    } else if d == 1 {
        '1'
    } else if d == 2 {
        '2'
    } else if d == 3 {
        '3'
    } else if d == 4 {
        '4'
    } else if d == 5 {
        '5'
    } else if d == 6 {
        '6'
    } else if d == 7 {
        '7'
    } else if d == 8 {
        '8'
    } else if d == 9 {
        '9'
    } else if d == 10 {
        'a'
    } else if d == 11 {
        'b'
    } else if d == 12 {
        'c'
    } else if d == 13 {
        'd'
    } else if d == 14 {
        'e'
    } else {
        'f'
    }
}

/// Value of a run of hexadecimal characters, most significant first.
pub open spec fn hex_value(s: Seq<char>) -> nat
    decreases s.len(),
{
    if s.len() == 0 {
        0
    } else {
        hex_value(s.drop_last()) * 16 + hex_digit_value(s.last())
    }
}

/// Fixed-width lowercase rendering of the low `width` nibbles of `n`.
pub open spec fn hex_digits(n: nat, width: nat) -> Seq<char>
    decreases width,
{
    if width == 0 {
        Seq::<char>::empty()
    } else {
        hex_digits(n / 16, (width - 1) as nat).push(hex_char(n % 16))
    }
}

spec fn pow16(w: nat) -> nat
    decreases w,
{
    if w == 0 {
        1
    } else {
        16 * pow16((w - 1) as nat)
    }
}

proof fn lemma_pow16_mono(i: nat, j: nat)
    requires
        i <= j,
    ensures
        pow16(i) <= pow16(j),
    decreases j,
{
    if i < j {
        lemma_pow16_mono(i, (j - 1) as nat);
    }
}

/// A 96-bit record identifier.
#[derive(Clone, Copy, PartialEq, Eq, Structural, Debug)]
pub struct RecordId {
    pub value: u128,
}

impl RecordId {
    /// The identifier fits in 96 bits, as every parsed or store-minted
    /// identifier does.
    pub open spec fn wf(self) -> bool {
        self.value < 0x1000000000000000000000000
    }

    /// Parses the 24-character hexadecimal form, accepting either case.
    pub fn parse_str(s: &str) -> (r: Result<RecordId, ()>)
        ensures
            r is Ok <==> s@.len() == 24 && all_hex(s@),
            r matches Ok(id) ==> id.value as nat == hex_value(s@) && id.wf(),
    {
        let n = s.unicode_len();
        if n != 24 {
            return Err(());
        }
        let mut acc: u128 = 0;
        let mut i: usize = 0;
        while i < 24
            invariant
                i <= 24 == s@.len(),
                acc as nat == hex_value(s@.subrange(0, i as int)),
                acc < pow16(i as nat),
                all_hex(s@.subrange(0, i as int)),
            decreases 24 - i,
        {
            let c = s.get_char(i);
            let d = match hex_digit_of_char(c) {
                Ok(d) => d,
                Err(()) => {
                    proof {
                        assert(!all_hex(s@)) by {
                            assert(s@[i as int] == c);
                        }
                    }
                    return Err(());
                },
            };
            proof {
                let prev = s@.subrange(0, i as int);
                let next = s@.subrange(0, i + 1);
                assert(next.drop_last() =~= prev);
                assert(next.last() == c);
                lemma_pow16_mono(i as nat + 1, 24);
                assert(pow16(24) == 0x1000000000000000000000000) by {
                    reveal_with_fuel(pow16, 25);
                }
            }
            acc = acc * 16 + d;
            i = i + 1;
        }
        proof {
            assert(s@.subrange(0, 24) =~= s@);
            assert(pow16(24) == 0x1000000000000000000000000) by {
                reveal_with_fuel(pow16, 25);
            }
        }
        Ok(RecordId { value: acc })
    }

    /// Renders the low 96 bits as 24 lowercase hexadecimal characters.
    pub fn to_hex(&self) -> (r: String)
        ensures
            r@ == hex_digits(self.value as nat, 24),
    {
        hex_str_width(self.value, 24)
    }
}

/// A single-character string for a hexadecimal digit value.
fn hex_digit_str(d: u128) -> (r: &'static str)
    requires
        d < 16,
    ensures
        r@ =~= seq![hex_char(d as nat)],
{
    proof {
        reveal_strlit("0");
        reveal_strlit("1");
        reveal_strlit("2");
        reveal_strlit("3");
        reveal_strlit("4");
        reveal_strlit("5");
        reveal_strlit("6");
        reveal_strlit("7");
        reveal_strlit("8");
        reveal_strlit("9");
        reveal_strlit("a");
        reveal_strlit("b");
        reveal_strlit("c");
        reveal_strlit("d");
        reveal_strlit("e");
        reveal_strlit("f");
    }
    if d == 0 {
        "0"
    } else if d == 1 {
        "1"
    } else if d == 2 {
        "2"
    } else if d == 3 {
        "3"
    } else if d == 4 {
        "4"
    } else if d == 5 {
        "5"
    } else if d == 6 {
        "6"
    } else if d == 7 {
        "7"
    } else if d == 8 {
        "8"
    } else if d == 9 {
        "9"
    } else if d == 10 {
        "a"
    } else if d == 11 {
        "b"
    } else if d == 12 {
        "c"
    } else if d == 13 {
        "d"
    } else if d == 14 {
        "e"
    } else {
        "f"
    }
}

/// Hexadecimal value of a character, or an error for anything else.
fn hex_digit_of_char(c: char) -> (r: Result<u128, ()>)
    ensures
        r matches Ok(v) ==> v < 16 && v as nat == hex_digit_value(c),
        r is Err <==> !is_hex_char(c),
{
    match c {
        '0' => Ok(0),
        '1' => Ok(1),
        '2' => Ok(2),
        '3' => Ok(3),
        '4' => Ok(4),
        '5' => Ok(5),
        '6' => Ok(6),
        '7' => Ok(7),
        '8' => Ok(8),
        '9' => Ok(9),
        'a' | 'A' => Ok(10),
        'b' | 'B' => Ok(11),
        'c' | 'C' => Ok(12),
        'd' | 'D' => Ok(13),
        'e' | 'E' => Ok(14),
        'f' | 'F' => Ok(15),
        _ => Err(()),
    }
}

/// Fixed-width lowercase hexadecimal rendering of the low nibbles of `n`.
fn hex_str_width(n: u128, width: usize) -> (r: String)
    ensures
        r@ == hex_digits(n as nat, width as nat),
    decreases width,
{
    if width == 0 {
        String::new()
    } else {
        let mut prefix = hex_str_width(n / 16, width - 1);
        prefix.append(hex_digit_str(n % 16));
        proof {
            assert(hex_digits((n / 16) as nat, (width - 1) as nat) + seq![hex_char(
                (n % 16) as nat,
            )] =~= hex_digits((n / 16) as nat, (width - 1) as nat).push(hex_char((n % 16) as nat)));
        }
        prefix
    }
}

} // verus!
