//! ASCII text helpers: decimal digit strings and byte-string equality.
//!
//! The wire protocol is plain ASCII, so all protocol text in this crate
//! is carried as byte vectors and characterised over `Seq<u8>`.

use vstd::prelude::*;
use vstd::arithmetic::div_mod::{lemma_fundamental_div_mod, lemma_div_denominator, lemma_mod_bound};

verus! {

/// Whether a byte is an ASCII decimal digit.
pub open spec fn is_dec_digit(b: u8) -> bool {
    48 <= b <= 57
}

/// Whether every byte of a string is an ASCII decimal digit.
pub open spec fn all_dec_digits(s: Seq<u8>) -> bool {
    forall|i: int| 0 <= i < s.len() ==> is_dec_digit(#[trigger] s[i])
}

/// Numeric value of an ASCII decimal digit string (most significant
/// digit first).
pub open spec fn dec_val(s: Seq<u8>) -> int
    decreases s.len(),
{
    if s.len() == 0 {
        0
    } else {
        dec_val(s.drop_last()) * 10 + (s.last() - 48)
    }
}

/// The canonical decimal rendering of an 8-bit number: one to three
/// digits, no leading zero.
pub open spec fn dec_u8(n: u8) -> Seq<u8> {
    if n < 10 {
        seq![(48 + n) as u8]
    } else if n < 100 {
        seq![(48 + n / 10) as u8, (48 + n % 10) as u8]
    } else {
        seq![(48 + n / 100) as u8, (48 + (n / 10) % 10) as u8, (48 + n % 10) as u8]
    }
}

/// The value of a digit string is nonnegative.
pub proof fn lemma_dec_val_nonneg(s: Seq<u8>)
    requires
        all_dec_digits(s),
    ensures
        dec_val(s) >= 0,
    decreases s.len(),
{
    if s.len() > 0 {
        assert(all_dec_digits(s.drop_last())) by {
            assert(forall|i: int|
                0 <= i < s.drop_last().len() ==> s.drop_last()[i] == #[trigger] s[i]);
        }
        lemma_dec_val_nonneg(s.drop_last());
    }
}

/// Extending a digit string by one digit multiplies its value by ten
/// and adds the digit.
pub proof fn lemma_dec_val_push(s: Seq<u8>, b: u8)
    ensures
        dec_val(s.push(b)) == dec_val(s) * 10 + (b - 48),
{
    assert(s.push(b).drop_last() =~= s);
    assert(s.push(b).last() == b);
}

/// The canonical rendering of an 8-bit number reads back as that
/// number, and consists of decimal digits.
pub proof fn lemma_dec_u8_val(n: u8)
    ensures
        all_dec_digits(dec_u8(n)),
        dec_val(dec_u8(n)) == n as int,
        dec_u8(n).len() >= 1,
        dec_u8(n)[0] != 48 || n < 10,
{
    lemma_fundamental_div_mod(n as int, 10);
    lemma_mod_bound(n as int, 10);
    let s = dec_u8(n);
    if n < 10 {
        assert(s.drop_last() =~= Seq::<u8>::empty());
        assert(dec_val(Seq::<u8>::empty()) == 0);
        assert(s.last() == (48 + n) as u8);
        assert(dec_val(s) == n as int);
    } else if n < 100 {
        assert(n as int / 10 <= 25);
        assert(s.drop_last() =~= seq![(48 + n / 10) as u8]);
        assert(s.drop_last().drop_last() =~= Seq::<u8>::empty());
        assert(dec_val(Seq::<u8>::empty()) == 0);
        assert(dec_val(s.drop_last()) == n as int / 10);
        assert(s.last() == (48 + n % 10) as u8);
        assert(dec_val(s) == (n as int / 10) * 10 + (n as int % 10));
    } else {
        lemma_fundamental_div_mod(n as int / 10, 10);
        lemma_mod_bound(n as int / 10, 10);
        lemma_div_denominator(n as int, 10, 10);
        assert(n as int / 10 <= 25);
        assert(n as int / 100 <= 2);
        assert(s.drop_last() =~= seq![(48 + n / 100) as u8, (48 + (n / 10) % 10) as u8]);
        assert(s.drop_last().drop_last() =~= seq![(48 + n / 100) as u8]);
        assert(s.drop_last().drop_last().drop_last() =~= Seq::<u8>::empty());
        assert(dec_val(Seq::<u8>::empty()) == 0);
        assert(dec_val(s.drop_last().drop_last()) == n as int / 100);
        assert(dec_val(s.drop_last()) == (n as int / 100) * 10 + ((n as int / 10) % 10));
        assert((n as int / 10) / 10 == n as int / 100);
        assert(dec_val(s.drop_last()) == n as int / 10);
        assert(dec_val(s) == (n as int / 10) * 10 + (n as int % 10));
    }
}

/// Render an 8-bit number as decimal ASCII digits.
pub fn render_u8(n: u8) -> (r: Vec<u8>)
    ensures
        r@ == dec_u8(n),
{
    let mut out: Vec<u8> = Vec::new();
    if n < 10 {
        out.push(48 + n);
        assert(out@ =~= dec_u8(n));
    } else if n < 100 {
        out.push(48 + n / 10);
        out.push(48 + n % 10);
        assert(out@ =~= dec_u8(n));
    } else {
        out.push(48 + n / 100);
        out.push(48 + (n / 10) % 10);
        out.push(48 + n % 10);
        assert(out@ =~= dec_u8(n));
    }
    out
}

/// A prefix of a digit string never has a larger value than the whole.
pub proof fn lemma_dec_val_prefix_le(s: Seq<u8>, j: int)
    requires
        all_dec_digits(s),
        0 <= j <= s.len(),
    ensures
        dec_val(s.take(j)) <= dec_val(s),
    decreases s.len() - j,
{
    if j < s.len() {
        assert(s.take(j + 1).drop_last() =~= s.take(j));
        assert(all_dec_digits(s.take(j))) by {
            assert(forall|i: int| 0 <= i < j ==> s.take(j)[i] == #[trigger] s[i]);
        }
        lemma_dec_val_nonneg(s.take(j));
        assert(dec_val(s.take(j + 1)) == dec_val(s.take(j)) * 10 + (s.take(j + 1).last() - 48));
        assert(dec_val(s.take(j)) <= dec_val(s.take(j + 1)));
        lemma_dec_val_prefix_le(s, j + 1);
        assert(s.take(s.len() as int) =~= s);
    } else {
        assert(s.take(j) =~= s);
    }
}

/// Parse an ASCII decimal digit string as an 8-bit number. Returns
/// `Some` exactly when the string is nonempty, all digits, and its
/// value fits.
pub fn parse_u8_dec(s: &[u8]) -> (r: Option<u8>)
    ensures
        (match r {
            Some(v) => s@.len() > 0 && all_dec_digits(s@) && dec_val(s@) == v as int,
            None => s@.len() == 0 || !all_dec_digits(s@) || dec_val(s@) > 255,
        }),
{
    if s.len() == 0 {
        return None;
    }
    let mut acc: u32 = 0;
    let mut i: usize = 0;
    while i < s.len()
        invariant
            0 <= i <= s@.len(),
            s@.len() > 0,
            acc <= 255,
            all_dec_digits(s@.take(i as int)),
            acc as int == dec_val(s@.take(i as int)),
        decreases s@.len() - i,
    {
        let b = s[i];
        if b < 48 || b > 57 {
            assert(!is_dec_digit(s@[i as int]));
            return None;
        }
        proof {
            lemma_dec_val_push(s@.take(i as int), b);
            assert(s@.take(i as int).push(b) =~= s@.take(i as int + 1));
        }
        acc = acc * 10 + (b - 48) as u32;
        i = i + 1;
        if acc > 255 {
            proof {
                assert(all_dec_digits(s@.take(i as int)));
                if all_dec_digits(s@) {
                    lemma_dec_val_prefix_le(s@, i as int);
                }
            }
            return None;
        }
    }
    proof {
        assert(s@.take(s@.len() as int) =~= s@);
    }
    Some(acc as u8)
}

/// Find the first occurrence of a byte in a string.
pub fn find_first(s: &[u8], b: u8) -> (r: Option<usize>)
    ensures
        (match r {
            Some(i) => i < s@.len() && s@[i as int] == b && (forall|j: int|
                0 <= j < i ==> s@[j] != b),
            None => forall|j: int| 0 <= j < s@.len() ==> s@[j] != b,
        }),
{
    let mut i: usize = 0;
    while i < s.len()
        invariant
            0 <= i <= s@.len(),
            forall|j: int| 0 <= j < i ==> s@[j] != b,
        decreases s@.len() - i,
    {
        if s[i] == b {
            return Some(i);
        }
        i = i + 1;
    }
    None
}

/// Compare two byte strings for equality.
pub fn bytes_eq(a: &[u8], b: &[u8]) -> (r: bool)
    ensures
        r == (a@ == b@),
{
    if a.len() != b.len() {
        return false;
    }
    let mut i: usize = 0;
    while i < a.len()
        invariant
            a@.len() == b@.len(),
            0 <= i <= a@.len(),
            forall|j: int| 0 <= j < i ==> a@[j] == b@[j],
        decreases a@.len() - i,
    {
        if a[i] != b[i] {
            return false;
        }
        i = i + 1;
    }
    proof {
        assert(a@ =~= b@);
    }
    true
}

} // verus!
