//! The identifiers of scored prompts: random numbers in hexadecimal.

use vstd::prelude::*;

verus! {

/// The hexadecimal digit of a number below sixteen.
pub open spec fn digit(d: int) -> char {
    if d < 10 {
        ('0' as u32 + d) as char
    } else {
        ('a' as u32 + (d - 10)) as char
    }
}

/// A number in lower-case hexadecimal, without leading zeros.
pub open spec fn hex(n: nat) -> Seq<char>
    decreases n,
{
    if n < 16 {
        seq![digit(n as int)]
    } else {
        hex(n / 16).push(digit(n as int % 16))
    }
}

/// One hexadecimal digit as text.
fn digit_text(d: u64) -> (r: &'static str)
    requires
        d < 16,
    ensures
        r@ == seq![digit(d as int)],
{
    let ghost wanted = seq![digit(d as int)];
    let text: &'static str = match d {
        0 => "0",
        1 => "1",
        2 => "2",
        3 => "3",
        4 => "4",
        5 => "5",
        6 => "6",
        7 => "7",
        8 => "8",
        9 => "9",
        10 => "a",
        11 => "b",
        12 => "c",
        13 => "d",
        14 => "e",
        _ => "f",
    };
    proof {
        reveal_strlit("0");
        reveal_strlit("1");
        reveal_strlit("2");
        reveal_strlit("3");
        reveal_strlit("4");
        reveal_strlit("5");
        reveal_strlit("6");
        reveal_strlit("7");
        reveal_strlit("8");
        reveal_strlit("9");
        reveal_strlit("a");
        reveal_strlit("b");
        reveal_strlit("c");
        reveal_strlit("d");
        reveal_strlit("e");
        reveal_strlit("f");
        assert(text@ =~= wanted);
    }
    text
}

/// Writes a number in lower-case hexadecimal.
pub fn hex_id(n: u64) -> (r: String)
    ensures
        r@ == hex(n as nat),
    decreases n,
{
    if n < 16 {
        digit_text(n).to_owned()
    } else {
        let mut text: String = hex_id(n / 16);
        let ghost before = text@;
        let last: &'static str = digit_text(n % 16);
        text.append(last);
        proof {
            assert(text@ =~= before.push(digit(n as int % 16)));
        }
        text
    }
}

/// Calls `rand::random` for a number of 64 bits. Any number may come back.
#[verifier::external_body]
pub(crate) fn random_number() -> (r: u64) {
    rand::random::<u64>()
}

/// Different numbers have different identifiers.
pub proof fn law_ids_tell_numbers_apart(m: nat, n: nat)
    requires
        hex(m) == hex(n),
    ensures
        m == n,
    decreases m + n,
{
    lemma_hex_len(m);
    lemma_hex_len(n);
    let i = m as int % 16;
    let j = n as int % 16;
    assert(hex(m).last() == digit(i));
    assert(hex(n).last() == digit(j));
    assert(i == j);
    if m >= 16 && n >= 16 {
        assert(hex(m).drop_last() =~= hex(m / 16));
        assert(hex(n).drop_last() =~= hex(n / 16));
        law_ids_tell_numbers_apart(m / 16, n / 16);
    }
}

/// An identifier has at least one digit, and more than one from sixteen on.
proof fn lemma_hex_len(n: nat)
    ensures
        hex(n).len() >= 1,
        n >= 16 ==> hex(n).len() >= 2,
    decreases n,
{
    if n >= 16 {
        lemma_hex_len(n / 16);
    }
}

/// The number that hexadecimal digits stand for.
pub open spec fn number_of(digits: Seq<char>) -> int
    decreases digits.len(),
{
    if digits.len() == 0 {
        0
    } else {
        let v = digits.last() as int;
        16 * number_of(digits.drop_last()) + if v < 97 {
            v - 48
        } else {
            v - 87
        }
    }
}

/// An identifier is made of the digits `0` to `9` and `a` to `f`, has no zero in
/// front but for the number zero itself, and stands for its number.
pub proof fn law_id_stands_for_its_number(n: nat)
    ensures
        number_of(hex(n)) == n,
        hex(n).len() >= 1,
        hex(n)[0] == '0' ==> n == 0 && hex(n).len() == 1,
        forall|i: int|
            0 <= i < hex(n).len() ==> '0' <= #[trigger] hex(n)[i] <= '9' || 'a' <= hex(n)[i] <= 'f',
    decreases n,
{
    lemma_hex_len(n);
    let d = n as int % 16;
    assert(0 <= d < 10 ==> digit(d) as int == d + 48);
    assert(10 <= d < 16 ==> digit(d) as int == d + 87);
    assert(hex(n).last() == digit(d));
    if n >= 16 {
        law_id_stands_for_its_number(n / 16);
        assert(hex(n).drop_last() =~= hex(n / 16));
        assert(n == 16 * (n / 16) + d);
        assert(hex(n)[0] == hex(n / 16)[0]);
        assert forall|i: int| 0 <= i < hex(n).len() implies '0' <= #[trigger] hex(n)[i] <= '9'
            || 'a' <= hex(n)[i] <= 'f' by {
            if i < hex(n).len() - 1 {
                assert(hex(n)[i] == hex(n / 16)[i]);
            }
        }
    } else {
        assert(hex(n).drop_last() =~= Seq::empty());
        assert(number_of(Seq::<char>::empty()) == 0);
    }
}

/// What is written for a number stands for it.
pub proof fn law_hex_id(n: u64, r: String)
    requires
        call_ensures(hex_id, (n,), r),
    ensures
        number_of(r@) == n,
        r@.len() >= 1,
        r@[0] == '0' ==> r@.len() == 1,
        forall|i: int| 0 <= i < r@.len() ==> '0' <= #[trigger] r@[i] <= '9' || 'a' <= r@[i] <= 'f',
{
    law_id_stands_for_its_number(n as nat);
}

} // verus!
