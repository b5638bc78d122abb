//! Small executable helpers over strings used across the store and the
//! services.

use vstd::prelude::*;

verus! {

broadcast use vstd::string::to_string_from_display_ensures_for_str;

/// Equality of two string slices, by their character sequences.
pub fn str_eq(a: &str, b: &str) -> (r: bool)
    ensures
        r == (a@ == b@),
{
    let x = a.to_string();
    let y = b.to_string();
    x == y
}

/// Whether one of the strings in `v` has the character sequence of `s`.
pub fn contains_str(v: &Vec<String>, s: &str) -> (r: bool)
    ensures
        r == exists|i: int| 0 <= i < v@.len() && v@[i]@ == s@,
{
    let mut k: usize = 0;
    while k < v.len()
        invariant
            0 <= k <= v@.len(),
            forall|i: int| 0 <= i < k ==> v@[i]@ != s@,
        decreases v@.len() - k,
    {
        if str_eq(v[k].as_str(), s) {
            return true;
        }
        k += 1;
    }
    false
}

/// The character of one decimal digit.
pub open spec fn spec_digit_char(d: nat) -> char {
    if d == 0 {
        '0'
    } else if d == 1 {
        '1'
    } else if d == 2 {
        '2'
    } else if d == 3 {
        '3'
    } else if d == 4 {
        '4'
    } else if d == 5 {
        '5'
    } else if d == 6 {
        '6'
    } else if d == 7 {
        '7'
    } else if d == 8 {
        '8'
    } else {
        '9'
    }
}

/// Decimal rendering of a number, most significant digit first.
pub open spec fn spec_dec_digits(n: nat) -> Seq<char>
    decreases n,
{
    if n < 10 {
        seq![spec_digit_char(n)]
    } else {
        spec_dec_digits(n / 10).push(spec_digit_char(n % 10))
    }
}

/// The one-character string of a decimal digit.
fn digit_str(d: u64) -> (r: &'static str)
    requires
        d < 10,
    ensures
        r@ == seq![spec_digit_char(d as nat)],
{
    proof {
        reveal_strlit("0");
        reveal_strlit("1");
        reveal_strlit("2");
        reveal_strlit("3");
        reveal_strlit("4");
        reveal_strlit("5");
        reveal_strlit("6");
        reveal_strlit("7");
        reveal_strlit("8");
        reveal_strlit("9");
    }
    match d {
        0 => "0",
        1 => "1",
        2 => "2",
        3 => "3",
        4 => "4",
        5 => "5",
        6 => "6",
        7 => "7",
        8 => "8",
        _ => "9",
    }
}

/// The characters of a digit stack read top to bottom (the digits were
/// pushed least significant first, so this reads most significant first).
pub open spec fn spec_digits_rev(digs: Seq<u64>) -> Seq<char>
    decreases digs.len(),
{
    if digs.len() == 0 {
        Seq::empty()
    } else {
        seq![spec_digit_char(digs.last() as nat)] + spec_digits_rev(digs.drop_last())
    }
}

/// Pointwise reading of [`spec_digits_rev`].
proof fn lemma_digits_rev(digs: Seq<u64>)
    ensures
        spec_digits_rev(digs).len() == digs.len(),
        forall|k: int|
            0 <= k < digs.len() ==> spec_digits_rev(digs)[k] == spec_digit_char(
                digs[digs.len() - 1 - k] as nat,
            ),
    decreases digs.len(),
{
    if digs.len() > 0 {
        lemma_digits_rev(digs.drop_last());
        assert forall|k: int|
            0 <= k < digs.len() implies spec_digits_rev(digs)[k] == spec_digit_char(
            digs[digs.len() - 1 - k] as nat,
        ) by {
            if k > 0 {
                assert(spec_digits_rev(digs)[k] == spec_digits_rev(digs.drop_last())[k - 1]);
                assert(digs.drop_last()[digs.len() - 1 - k] == digs[digs.len() - 1 - k]);
            }
        }
    }
}

/// Decimal rendering of a number, proved against [`spec_dec_digits`]:
/// most significant digit first, no sign, no leading zeros.
pub(crate) fn u64_to_dec(n: u64) -> (r: String)
    ensures
        r@ == spec_dec_digits(n as nat),
{
    let mut digs: Vec<u64> = Vec::new();
    let mut m: u64 = n;
    digs.push(m % 10);
    m = m / 10;
    proof {
        assert(digs@.drop_last() =~= Seq::<u64>::empty());
        assert(spec_digits_rev(Seq::<u64>::empty()) == Seq::<char>::empty());
        assert(spec_digits_rev(digs@) =~= seq![spec_digit_char((n % 10) as nat)]);
        if m == 0 {
            assert(spec_dec_digits(n as nat) =~= spec_digits_rev(digs@));
        } else {
            assert(spec_dec_digits(n as nat) =~= spec_dec_digits(m as nat) + spec_digits_rev(
                digs@,
            ));
        }
    }
    while m > 0
        invariant
            m > 0 ==> spec_dec_digits(n as nat) == spec_dec_digits(m as nat) + spec_digits_rev(
                digs@,
            ),
            m == 0 ==> spec_dec_digits(n as nat) == spec_digits_rev(digs@),
            digs@.len() >= 1,
            forall|k: int| 0 <= k < digs@.len() ==> digs@[k] < 10,
        decreases m,
    {
        let ghost digs_pre = digs@;
        let d = m % 10;
        digs.push(d);
        let next = m / 10;
        proof {
            assert(digs@.drop_last() =~= digs_pre);
            assert(spec_digits_rev(digs@) == seq![spec_digit_char(d as nat)] + spec_digits_rev(
                digs_pre,
            ));
            if next == 0 {
                assert(spec_dec_digits(m as nat) =~= seq![spec_digit_char(d as nat)]);
                assert(spec_dec_digits(n as nat) =~= seq![spec_digit_char(d as nat)]
                    + spec_digits_rev(digs_pre));
                assert(spec_dec_digits(n as nat) =~= spec_digits_rev(digs@));
            } else {
                assert(spec_dec_digits(m as nat) == spec_dec_digits(next as nat).push(
                    spec_digit_char(d as nat),
                ));
                assert(spec_dec_digits(next as nat).push(spec_digit_char(d as nat))
                    + spec_digits_rev(digs_pre) =~= spec_dec_digits(next as nat) + (seq![
                    spec_digit_char(d as nat)] + spec_digits_rev(digs_pre)));
                assert(spec_dec_digits(n as nat) =~= spec_dec_digits(next as nat)
                    + spec_digits_rev(digs@));
            }
        }
        m = next;
    }
    proof {
        lemma_digits_rev(digs@);
    }
    let mut s = String::new();
    let mut i: usize = digs.len();
    while i > 0
        invariant
            0 <= i <= digs@.len(),
            forall|k: int| 0 <= k < digs@.len() ==> digs@[k] < 10,
            s@.len() == digs@.len() - i,
            forall|k: int|
                0 <= k < s@.len() ==> s@[k] == spec_digit_char(digs@[digs@.len() - 1 - k] as nat),
        decreases i,
    {
        let part = digit_str(digs[i - 1]);
        s.append(part);
        i = i - 1;
    }
    proof {
        lemma_digits_rev(digs@);
        assert(s@ =~= spec_digits_rev(digs@));
    }
    s
}

/// Name of a minted key version: a `v` followed by the decimal form of the
/// allocator value it was minted from.
pub open spec fn spec_version_name(n: nat) -> Seq<char> {
    seq!['v'] + spec_dec_digits(n)
}

/// See [`spec_version_name`].
pub fn version_name(n: u64) -> (r: String)
    ensures
        r@ == spec_version_name(n as nat),
{
    let mut s = String::new();
    s.append("v");
    let digits = u64_to_dec(n);
    s.append(digits.as_str());
    proof {
        reveal_strlit("v");
        assert(s@ =~= spec_version_name(n as nat));
    }
    s
}

} // verus!
