//! Decimal values as digit strings.
//!
//! The gateway relays numeric parameters (set-voltage, measured
//! current, protection limits) as decimal ASCII between the interface
//! side and the device side; it never does arithmetic on them. A value
//! is therefore kept in its canonical textual form: a sign, the integer
//! digits without a leading zero, and the fraction digits without a
//! trailing zero. Rendering and parsing are exact inverses on
//! well-formed values.

use vstd::prelude::*;
use vstd::slice::slice_to_vec;
use crate::text::{all_dec_digits, is_dec_digit};

verus! {

/// ASCII minus sign.
pub const MINUS: u8 = 45;

/// ASCII plus sign.
pub const PLUS: u8 = 43;

/// ASCII decimal point.
pub const DOT: u8 = 46;

/// Well-formed integer-part digits: nonempty, all digits, and no
/// leading zero unless the part is exactly "0".
pub open spec fn wf_int_digits(s: Seq<u8>) -> bool {
    &&& all_dec_digits(s)
    &&& s.len() >= 1
    &&& (s[0] != 48 || s.len() == 1)
}

/// Well-formed fraction-part digits: all digits and no trailing zero;
/// an empty part means the value is an integer.
pub open spec fn wf_frac_digits(s: Seq<u8>) -> bool {
    &&& all_dec_digits(s)
    &&& (s.len() == 0 || s.last() != 48)
}

/// A decimal value in canonical form.
pub struct DecNum {
    /// Whether the value is negative. Zero is never negative.
    pub neg: bool,
    /// Integer-part digits, ASCII, most significant first.
    pub int_digits: Vec<u8>,
    /// Fraction-part digits, ASCII; empty for an integer value.
    pub frac_digits: Vec<u8>,
}

/// The canonical rendering of a decimal triple.
pub open spec fn render_spec(neg: bool, ip: Seq<u8>, fp: Seq<u8>) -> Seq<u8> {
    (if neg {
        seq![MINUS]
    } else {
        Seq::<u8>::empty()
    }) + ip + (if fp.len() == 0 {
        Seq::<u8>::empty()
    } else {
        seq![DOT] + fp
    })
}

impl DecNum {
    /// The value "0".
    pub open spec fn spec_is_zero(&self) -> bool {
        self.int_digits@ == seq![48u8] && self.frac_digits@.len() == 0
    }

    /// Canonical form: well-formed parts and no negative zero.
    pub open spec fn wf(&self) -> bool {
        &&& wf_int_digits(self.int_digits@)
        &&& wf_frac_digits(self.frac_digits@)
        &&& !(self.neg && self.spec_is_zero())
    }

    /// The canonical text of this value.
    pub open spec fn render(&self) -> Seq<u8> {
        render_spec(self.neg, self.int_digits@, self.frac_digits@)
    }

    /// The value "0".
    pub fn zero() -> (r: DecNum)
        ensures
            r.wf(),
            r.spec_is_zero(),
            !r.neg,
    {
        let mut ip: Vec<u8> = Vec::new();
        ip.push(48);
        let r = DecNum { neg: false, int_digits: ip, frac_digits: Vec::new() };
        proof {
            assert(r.int_digits@ =~= seq![48u8]);
        }
        r
    }

    /// The integer value of an 8-bit number.
    pub fn from_u8(n: u8) -> (r: DecNum)
        ensures
            r.wf(),
            !r.neg,
            r.int_digits@ == crate::text::dec_u8(n),
            r.frac_digits@.len() == 0,
    {
        let ip = crate::text::render_u8(n);
        proof {
            crate::text::lemma_dec_u8_val(n);
        }
        DecNum { neg: false, int_digits: ip, frac_digits: Vec::new() }
    }

    /// Render this value as ASCII text.
    pub fn to_text(&self) -> (r: Vec<u8>)
        ensures
            r@ == self.render(),
    {
        let mut out: Vec<u8> = Vec::new();
        if self.neg {
            out.push(MINUS);
        }
        out.extend_from_slice(self.int_digits.as_slice());
        if self.frac_digits.len() > 0 {
            out.push(DOT);
            out.extend_from_slice(self.frac_digits.as_slice());
        }
        proof {
            assert(out@ =~= self.render());
        }
        out
    }
}

/// Lexicographic order on digit strings, where a proper prefix is
/// smaller. On canonical fraction digits (no trailing zero) this is the
/// numeric order of the fractions they denote.
pub open spec fn lex_lt(a: Seq<u8>, b: Seq<u8>) -> bool
    decreases a.len(),
{
    if b.len() == 0 {
        false
    } else if a.len() == 0 {
        true
    } else if a[0] != b[0] {
        a[0] < b[0]
    } else {
        lex_lt(a.drop_first(), b.drop_first())
    }
}

/// Numeric order of two unsigned canonical decimals: a longer integer
/// part is larger; equal-length integer parts compare digit by digit;
/// equal integer parts fall back to the fraction digits.
pub open spec fn mag_lt(ia: Seq<u8>, fa: Seq<u8>, ib: Seq<u8>, fb: Seq<u8>) -> bool {
    if ia.len() != ib.len() {
        ia.len() < ib.len()
    } else if ia != ib {
        lex_lt(ia, ib)
    } else {
        lex_lt(fa, fb)
    }
}

/// Numeric order of two canonical decimal values.
pub open spec fn dec_lt(a: DecNum, b: DecNum) -> bool {
    if a.neg != b.neg {
        a.neg
    } else if a.neg {
        mag_lt(b.int_digits@, b.frac_digits@, a.int_digits@, a.frac_digits@)
    } else {
        mag_lt(a.int_digits@, a.frac_digits@, b.int_digits@, b.frac_digits@)
    }
}

/// Compare two digit strings lexicographically.
fn lex_lt_bytes(a: &[u8], b: &[u8]) -> (r: bool)
    ensures
        r == lex_lt(a@, b@),
{
    let mut i: usize = 0;
    proof {
        assert(a@.skip(0) =~= a@);
        assert(b@.skip(0) =~= b@);
    }
    loop
        invariant
            0 <= i <= a@.len(),
            0 <= i <= b@.len(),
            lex_lt(a@, b@) == lex_lt(a@.skip(i as int), b@.skip(i as int)),
        decreases a@.len() - i,
    {
        if i >= b.len() {
            assert(b@.skip(i as int).len() == 0);
            return false;
        }
        if i >= a.len() {
            assert(a@.skip(i as int).len() == 0);
            return true;
        }
        let x = a[i];
        let y = b[i];
        assert(a@.skip(i as int)[0] == a@[i as int]);
        assert(b@.skip(i as int)[0] == b@[i as int]);
        if x != y {
            return x < y;
        }
        proof {
            assert(a@.skip(i as int).drop_first() =~= a@.skip(i as int + 1));
            assert(b@.skip(i as int).drop_first() =~= b@.skip(i as int + 1));
        }
        i = i + 1;
    }
}

impl DecNum {
    /// Numeric comparison: whether this value is strictly below the
    /// other.
    pub fn lt(&self, other: &DecNum) -> (r: bool)
        ensures
            r == dec_lt(*self, *other),
    {
        if self.neg != other.neg {
            return self.neg;
        }
        let (x, y): (&DecNum, &DecNum) = if self.neg {
            (other, self)
        } else {
            (self, other)
        };
        if x.int_digits.len() != y.int_digits.len() {
            x.int_digits.len() < y.int_digits.len()
        } else if !crate::text::bytes_eq(x.int_digits.as_slice(), y.int_digits.as_slice()) {
            lex_lt_bytes(x.int_digits.as_slice(), y.int_digits.as_slice())
        } else {
            lex_lt_bytes(x.frac_digits.as_slice(), y.frac_digits.as_slice())
        }
    }

    /// A field-for-field copy of this value.
    pub fn duplicate(&self) -> (r: DecNum)
        ensures
            r.neg == self.neg,
            r.int_digits@ == self.int_digits@,
            r.frac_digits@ == self.frac_digits@,
            r.wf() == self.wf(),
            r.render() == self.render(),
    {
        DecNum {
            neg: self.neg,
            int_digits: slice_to_vec(self.int_digits.as_slice()),
            frac_digits: slice_to_vec(self.frac_digits.as_slice()),
        }
    }
}

/// Whether a byte string is the canonical text of some well-formed
/// unsigned decimal: either all integer digits, or integer digits, a
/// dot, and fraction digits.
pub open spec fn valid_udec(s: Seq<u8>) -> bool {
    if exists|k: int| 0 <= k < s.len() && s[k] == DOT {
        let k = choose|k: int| 0 <= k < s.len() && s[k] == DOT;
        &&& wf_int_digits(s.take(k))
        &&& s.skip(k + 1).len() >= 1
        &&& wf_frac_digits(s.skip(k + 1))
    } else {
        wf_int_digits(s)
    }
}

/// Whether a byte string is the canonical text of some well-formed
/// decimal value.
pub open spec fn valid_dec(s: Seq<u8>) -> bool {
    if s.len() > 0 && s[0] == MINUS {
        valid_udec(s.drop_first()) && !(s.drop_first() =~= seq![48u8])
    } else {
        valid_udec(s)
    }
}

/// The rendering of a well-formed value is valid decimal text.
pub proof fn lemma_render_valid(v: DecNum)
    requires
        v.wf(),
    ensures
        valid_dec(v.render()),
{
    let r = v.render();
    let ip = v.int_digits@;
    let fp = v.frac_digits@;
    let u = render_spec(false, ip, fp);
    assert(u =~= if fp.len() == 0 {
        ip
    } else {
        ip + seq![DOT] + fp
    });
    lemma_udec_valid(ip, fp);
    if v.neg {
        assert(r[0] == MINUS);
        assert(r.drop_first() =~= u);
        if u =~= seq![48u8] {
            assert(fp.len() == 0) by {
                if fp.len() > 0 {
                    assert(u[ip.len() as int] == DOT);
                }
            }
            assert(ip =~= seq![48u8]);
            assert(v.spec_is_zero());
        }
        assert(!(r.drop_first() =~= seq![48u8]));
    } else {
        assert(r =~= u);
        assert(is_dec_digit(ip[0]));
        assert(r[0] != MINUS);
    }
}

/// The unsigned rendering of well-formed parts is valid unsigned text.
proof fn lemma_udec_valid(ip: Seq<u8>, fp: Seq<u8>)
    requires
        wf_int_digits(ip),
        wf_frac_digits(fp),
    ensures
        valid_udec(render_spec(false, ip, fp)),
{
    let u = render_spec(false, ip, fp);
    if fp.len() == 0 {
        assert(u =~= ip);
        assert(forall|k: int| 0 <= k < u.len() ==> is_dec_digit(#[trigger] u[k]));
        assert(!(exists|k: int| 0 <= k < u.len() && u[k] == DOT));
    } else {
        let d = ip.len() as int;
        assert(u =~= ip + seq![DOT] + fp);
        assert(u[d] == DOT);
        assert(u.take(d) =~= ip);
        assert(u.skip(d + 1) =~= fp);
        lemma_dot_unique(u, d);
        let k0 = choose|k0: int| 0 <= k0 < u.len() && u[k0] == DOT;
        assert(k0 == d);
    }
}

/// Rendering is injective on well-formed values: equal canonical text
/// means equal values.
pub proof fn lemma_render_injective(a: DecNum, b: DecNum)
    requires
        a.wf(),
        b.wf(),
        a.render() == b.render(),
    ensures
        a.neg == b.neg,
        a.int_digits@ == b.int_digits@,
        a.frac_digits@ == b.frac_digits@,
{
    let r = a.render();
    let ua = render_spec(false, a.int_digits@, a.frac_digits@);
    let ub = render_spec(false, b.int_digits@, b.frac_digits@);
    assert(ua =~= if a.frac_digits@.len() == 0 {
        a.int_digits@
    } else {
        a.int_digits@ + seq![DOT] + a.frac_digits@
    });
    assert(ub =~= if b.frac_digits@.len() == 0 {
        b.int_digits@
    } else {
        b.int_digits@ + seq![DOT] + b.frac_digits@
    });
    // The sign is determined by the first byte: a digit for
    // nonnegative values, the minus sign otherwise.
    assert(r.len() > 0);
    if a.neg {
        assert(r[0] == MINUS);
    } else {
        assert(r =~= ua);
        assert(is_dec_digit(a.int_digits@[0]));
        assert(r[0] != MINUS);
    }
    if b.neg {
        assert(a.render()[0] == MINUS);
    } else {
        assert(a.render() =~= ub);
        assert(is_dec_digit(b.int_digits@[0]));
        assert(a.render()[0] != MINUS);
    }
    assert(a.neg == b.neg);
    let u = if a.neg {
        r.drop_first()
    } else {
        r
    };
    assert(u =~= ua);
    assert(u =~= ub);
    lemma_udec_injective(a.int_digits@, a.frac_digits@, b.int_digits@, b.frac_digits@);
}

/// Unsigned rendering is injective on well-formed parts.
proof fn lemma_udec_injective(ia: Seq<u8>, fa: Seq<u8>, ib: Seq<u8>, fb: Seq<u8>)
    requires
        wf_int_digits(ia),
        wf_frac_digits(fa),
        wf_int_digits(ib),
        wf_frac_digits(fb),
        render_spec(false, ia, fa) == render_spec(false, ib, fb),
    ensures
        ia == ib,
        fa == fb,
{
    let u = render_spec(false, ia, fa);
    assert(u =~= if fa.len() == 0 {
        ia
    } else {
        ia + seq![DOT] + fa
    });
    assert(u =~= if fb.len() == 0 {
        ib
    } else {
        ib + seq![DOT] + fb
    });
    if fa.len() == 0 && fb.len() == 0 {
        assert(ia =~= ib);
        assert(fa =~= fb);
    } else if fa.len() > 0 && fb.len() == 0 {
        // u would be all digits yet contain a dot.
        assert(u[ia.len() as int] == DOT);
        assert(is_dec_digit(u[ia.len() as int]));
        assert(false);
    } else if fa.len() == 0 && fb.len() > 0 {
        assert(u[ib.len() as int] == DOT);
        assert(is_dec_digit(u[ib.len() as int]));
        assert(false);
    } else {
        let da = ia.len() as int;
        let db = ib.len() as int;
        assert(u[da] == DOT);
        assert(u[db] == DOT);
        assert(u.take(da) =~= ia);
        assert(u.skip(da + 1) =~= fa);
        lemma_dot_unique(u, da);
        assert(db == da);
        assert(u.take(db) =~= ib);
        assert(u.skip(db + 1) =~= fb);
        assert(ia =~= ib);
        assert(fa =~= fb);
    }
}

/// If the parts around one dot are all digits, that dot is the only
/// one in the string.
proof fn lemma_dot_unique(s: Seq<u8>, k: int)
    requires
        0 <= k < s.len(),
        s[k] == DOT,
        all_dec_digits(s.take(k)),
        all_dec_digits(s.skip(k + 1)),
    ensures
        forall|j: int| 0 <= j < s.len() && s[j] == DOT ==> j == k,
{
    assert forall|j: int| 0 <= j < s.len() && s[j] == DOT implies j == k by {
        if j < k {
            assert(s.take(k)[j] == s[j]);
            assert(is_dec_digit(s.take(k)[j]));
        } else if j > k {
            assert(s.skip(k + 1)[j - k - 1] == s[j]);
            assert(is_dec_digit(s.skip(k + 1)[j - k - 1]));
        }
    }
}

/// Check that every byte of a slice is an ASCII digit.
fn check_all_digits(s: &[u8]) -> (r: bool)
    ensures
        r == all_dec_digits(s@),
{
    let mut i: usize = 0;
    while i < s.len()
        invariant
            0 <= i <= s@.len(),
            forall|j: int| 0 <= j < i ==> is_dec_digit(#[trigger] s@[j]),
        decreases s@.len() - i,
    {
        let b = s[i];
        if b < 48 || b > 57 {
            assert(!is_dec_digit(s@[i as int]));
            return false;
        }
        i = i + 1;
    }
    true
}

/// Check that a slice is a well-formed integer part.
fn check_int_digits(s: &[u8]) -> (r: bool)
    ensures
        r == wf_int_digits(s@),
{
    if s.len() == 0 {
        return false;
    }
    if !check_all_digits(s) {
        return false;
    }
    s[0] != 48 || s.len() == 1
}

/// Check that a slice is a well-formed fraction part.
fn check_frac_digits(s: &[u8]) -> (r: bool)
    ensures
        r == wf_frac_digits(s@),
{
    if !check_all_digits(s) {
        return false;
    }
    s.len() == 0 || s[s.len() - 1] != 48
}

impl DecNum {
    /// Parse canonical decimal text. Returns `Some` exactly when the
    /// text is the rendering of a well-formed value, and then returns
    /// that value.
    pub fn parse(text: &[u8]) -> (r: Option<DecNum>)
        ensures
            (match r {
                Some(v) => v.wf() && v.render() == text@ && valid_dec(text@),
                None => !valid_dec(text@),
            }),
    {
        let (neg, body): (bool, &[u8]) = if text.len() > 0 && text[0] == MINUS {
            (true, &text[1..text.len()])
        } else {
            (false, &text[0..text.len()])
        };
        proof {
            if neg {
                assert(body@ =~= text@.drop_first());
            } else {
                assert(body@ =~= text@);
            }
        }
        let parsed = Self::parse_unsigned(body);
        match parsed {
            None => None,
            Some((ip, fp)) => {
                if neg && fp.len() == 0 && ip.len() == 1 && ip[0] == 48 {
                    // "-0" is not canonical.
                    proof {
                        assert(ip@ =~= seq![48u8]);
                        assert(text@.drop_first() =~= seq![48u8]);
                    }
                    return None;
                }
                let v = DecNum { neg, int_digits: ip, frac_digits: fp };
                proof {
                    if neg {
                        assert(text@.len() > 0 && text@[0] == MINUS);
                        assert(text@ =~= seq![MINUS] + text@.drop_first());
                        assert(v.render() =~= seq![MINUS] + render_spec(false, ip@, fp@));
                        assert(v.render() =~= text@);
                        if v.spec_is_zero() {
                            assert(v.int_digits@ == seq![48u8]);
                            assert(v.int_digits@.len() == 1);
                        }
                    } else {
                        assert(v.render() =~= render_spec(false, ip@, fp@));
                        assert(v.render() =~= text@);
                    }
                }
                Some(v)
            },
        }
    }

    /// Parse an unsigned canonical decimal into its integer and
    /// fraction digit parts. `Some` exactly when the text is valid.
    fn parse_unsigned(s: &[u8]) -> (r: Option<(Vec<u8>, Vec<u8>)>)
        ensures
            (match r {
                Some((ip, fp)) => {
                    &&& wf_int_digits(ip@)
                    &&& wf_frac_digits(fp@)
                    &&& s@ == render_spec(false, ip@, fp@)
                    &&& valid_udec(s@)
                },
                None => !valid_udec(s@),
            }),
    {
        match crate::text::find_first(s, DOT) {
            None => {
                if check_int_digits(s) {
                    let ip = slice_to_vec(s);
                    let fp: Vec<u8> = Vec::new();
                    proof {
                        assert(s@ =~= render_spec(false, ip@, fp@));
                    }
                    Some((ip, fp))
                } else {
                    None
                }
            },
            Some(k) => {
                let n = s.len();
                assert(k < n);
                let intp = &s[0..k];
                let fracp = &s[k + 1..n];
                proof {
                    assert(intp@ =~= s@.take(k as int));
                    assert(fracp@ =~= s@.skip(k as int + 1));
                }
                if check_int_digits(intp) && fracp.len() >= 1 && check_frac_digits(fracp) {
                    let ip = slice_to_vec(intp);
                    let fp = slice_to_vec(fracp);
                    proof {
                        lemma_dot_unique(s@, k as int);
                        let k0 = choose|k0: int| 0 <= k0 < s@.len() && s@[k0] == DOT;
                        assert(k0 == k as int);
                        assert(s@ =~= render_spec(false, ip@, fp@));
                    }
                    Some((ip, fp))
                } else {
                    proof {
                        if valid_udec(s@) {
                            // Validity chooses some dot; digits around it
                            // make it the only dot, so it is this one, and
                            // then this dot's parts were well formed.
                            assert(exists|k0: int| 0 <= k0 < s@.len() && s@[k0] == DOT);
                            let k0 = choose|k0: int| 0 <= k0 < s@.len() && s@[k0] == DOT;
                            lemma_dot_unique(s@, k0);
                            assert(k0 == k as int);
                        }
                    }
                    None
                }
            },
        }
    }
}

/// Integer digits with redundant leading zeros removed; at least one
/// digit always remains.
pub open spec fn strip_lead0(s: Seq<u8>) -> Seq<u8>
    decreases s.len(),
{
    if s.len() <= 1 {
        s
    } else if s[0] == 48 {
        strip_lead0(s.drop_first())
    } else {
        s
    }
}

/// Fraction digits with redundant trailing zeros removed.
pub open spec fn strip_trail0(s: Seq<u8>) -> Seq<u8>
    decreases s.len(),
{
    if s.len() == 0 {
        s
    } else if s.last() == 48 {
        strip_trail0(s.drop_last())
    } else {
        s
    }
}

/// The canonical value denoted by a sign and raw integer and fraction
/// digit parts: leading and trailing zeros go, an empty integer part
/// reads as zero, and zero is never negative.
pub open spec fn lax_norm(minus: bool, ip: Seq<u8>, fp: Seq<u8>) -> (bool, Seq<u8>, Seq<u8>) {
    let ni = if ip.len() == 0 {
        seq![48u8]
    } else {
        strip_lead0(ip)
    };
    let nf = strip_trail0(fp);
    let zero = ni == seq![48u8] && nf.len() == 0;
    (minus && !zero, ni, nf)
}

/// Split an unsigned decimal body into raw integer and fraction digit
/// parts: digits around at most one dot, at least one digit in all.
pub open spec fn lax_parts(b: Seq<u8>) -> Option<(Seq<u8>, Seq<u8>)> {
    if exists|k: int| 0 <= k < b.len() && b[k] == DOT {
        let k = choose|k: int| 0 <= k < b.len() && b[k] == DOT;
        if all_dec_digits(b.take(k)) && all_dec_digits(b.skip(k + 1)) && b.len() >= 2 {
            Some((b.take(k), b.skip(k + 1)))
        } else {
            None
        }
    } else {
        if b.len() >= 1 && all_dec_digits(b) {
            Some((b, Seq::<u8>::empty()))
        } else {
            None
        }
    }
}

/// What a decimal text denotes, as the view of its canonical value:
/// an optional sign, then digits with at most one dot among them.
/// This is the plain decimal grammar of the wire protocol; exponent
/// forms are not part of it.
pub open spec fn lax_parse(s: Seq<u8>) -> Option<(bool, Seq<u8>, Seq<u8>)> {
    let signed = s.len() > 0 && (s[0] == MINUS || s[0] == PLUS);
    let minus = s.len() > 0 && s[0] == MINUS;
    let b = if signed {
        s.drop_first()
    } else {
        s
    };
    match lax_parts(b) {
        None => None,
        Some((ip, fp)) => Some(lax_norm(minus, ip, fp)),
    }
}

/// Stripping leading zeros of a nonempty digit string leaves a
/// well-formed integer part.
proof fn lemma_strip_lead0_wf(s: Seq<u8>)
    requires
        all_dec_digits(s),
        s.len() >= 1,
    ensures
        wf_int_digits(strip_lead0(s)),
    decreases s.len(),
{
    if s.len() > 1 && s[0] == 48 {
        assert(all_dec_digits(s.drop_first())) by {
            assert(forall|j: int|
                0 <= j < s.drop_first().len() ==> s.drop_first()[j] == #[trigger] s[j + 1]);
        }
        lemma_strip_lead0_wf(s.drop_first());
    }
}

/// Stripping trailing zeros of a digit string leaves a well-formed
/// fraction part.
proof fn lemma_strip_trail0_wf(s: Seq<u8>)
    requires
        all_dec_digits(s),
    ensures
        wf_frac_digits(strip_trail0(s)),
    decreases s.len(),
{
    if s.len() > 0 && s.last() == 48 {
        assert(all_dec_digits(s.drop_last())) by {
            assert(forall|j: int|
                0 <= j < s.drop_last().len() ==> s.drop_last()[j] == #[trigger] s[j]);
        }
        lemma_strip_trail0_wf(s.drop_last());
    }
}

/// Stripping leading zeros keeps the suffix that starts at the first
/// byte that is no zero, or at the last byte.
proof fn lemma_strip_lead0_skip(s: Seq<u8>, i: int)
    requires
        0 <= i < s.len(),
        forall|j: int| 0 <= j < i ==> s[j] == 48,
        s[i] != 48 || i == s.len() - 1,
    ensures
        strip_lead0(s) == s.skip(i),
    decreases i,
{
    if i == 0 {
        assert(s.skip(0) =~= s);
    } else {
        assert(s[0] == 48 && s.len() > 1);
        let t = s.drop_first();
        assert(forall|j: int| 0 <= j < i - 1 ==> t[j] == #[trigger] s[j + 1]);
        assert(t[i - 1] == s[i]);
        lemma_strip_lead0_skip(t, i - 1);
        assert(t.skip(i - 1) =~= s.skip(i));
    }
}

/// Stripping trailing zeros keeps the prefix that ends after the last
/// byte that is no zero.
proof fn lemma_strip_trail0_take(s: Seq<u8>, i: int)
    requires
        0 <= i <= s.len(),
        forall|j: int| i <= j < s.len() ==> s[j] == 48,
        i == 0 || s[i - 1] != 48,
    ensures
        strip_trail0(s) == s.take(i),
    decreases s.len(),
{
    if i == s.len() {
        if s.len() == 0 {
            assert(s.take(0) =~= s);
        } else {
            assert(s.last() != 48);
            assert(s.take(i) =~= s);
        }
    } else {
        assert(s.last() == 48);
        let t = s.drop_last();
        assert(forall|j: int| i <= j < t.len() ==> t[j] == #[trigger] s[j]);
        lemma_strip_trail0_take(t, i);
        assert(t.take(i) =~= s.take(i));
    }
}

/// Canonical text denotes its own value: rendering then reading back
/// through the relaxed grammar is the identity on well-formed values.
pub proof fn lemma_lax_canonical(v: DecNum)
    requires
        v.wf(),
    ensures
        lax_parse(v.render()) == Some(v@),
{
    let s = v.render();
    let ip = v.int_digits@;
    let fp = v.frac_digits@;
    let u = render_spec(false, ip, fp);
    assert(u =~= if fp.len() == 0 {
        ip
    } else {
        ip + seq![DOT] + fp
    });
    let b = if v.neg {
        s.drop_first()
    } else {
        s
    };
    if v.neg {
        assert(s[0] == MINUS);
        assert(b =~= u);
    } else {
        assert(s =~= u);
        assert(is_dec_digit(s[0]));
    }
    // The raw parts of the canonical text are the canonical parts.
    assert(lax_parts(b) == Some((ip, fp))) by {
        if fp.len() == 0 {
            assert(!(exists|k: int| 0 <= k < b.len() && b[k] == DOT)) by {
                assert(forall|k: int| 0 <= k < b.len() ==> is_dec_digit(#[trigger] b[k]));
            }
        } else {
            let d = ip.len() as int;
            assert(b[d] == DOT);
            assert(b.take(d) =~= ip);
            assert(b.skip(d + 1) =~= fp);
            lemma_dot_unique(b, d);
            let k0 = choose|k0: int| 0 <= k0 < b.len() && b[k0] == DOT;
            assert(k0 == d);
            assert(b.len() >= 2);
        }
    }
    // Canonical parts strip to themselves.
    assert(strip_lead0(ip) == ip) by {
        assert(ip[0] != 48 || ip.len() == 1);
    }
    assert(strip_trail0(fp) == fp) by {
        if fp.len() > 0 {
            assert(fp.last() != 48);
        }
    }
    assert(lax_norm(v.neg, ip, fp) == (v.neg, ip, fp)) by {
        if v.neg {
            assert(!(ip == seq![48u8] && fp.len() == 0)) by {
                if ip == seq![48u8] && fp.len() == 0 {
                    assert(v.spec_is_zero());
                }
            }
        }
    }
}

impl DecNum {
    /// Parse decimal text in the wire protocol's plain grammar — an
    /// optional sign, digits, at most one dot — normalizing redundant
    /// leading and trailing zeros away. Returns `Some` exactly when the
    /// text fits the grammar, and then the canonical value it denotes.
    pub fn parse_relaxed(text: &[u8]) -> (r: Option<DecNum>)
        ensures
            (match r {
                Some(v) => v.wf() && lax_parse(text@) == Some(v@),
                None => lax_parse(text@) is None,
            }),
    {
        let n0 = text.len();
        let (minus, body): (bool, &[u8]) = if n0 > 0 && (text[0] == MINUS || text[0] == PLUS) {
            (text[0] == MINUS, &text[1..n0])
        } else {
            (false, &text[0..n0])
        };
        proof {
            if n0 > 0 && (text@[0] == MINUS || text@[0] == PLUS) {
                assert(body@ =~= text@.drop_first());
            } else {
                assert(body@ =~= text@);
            }
        }
        let parts = Self::lax_split(body);
        let (ip, fp) = match parts {
            None => {
                return None;
            },
            Some(p) => p,
        };
        // Strip redundant zeros and build the canonical value.
        let int_digits: Vec<u8> = if ip.len() == 0 {
            let mut z: Vec<u8> = Vec::new();
            z.push(48);
            proof {
                assert(z@ =~= seq![48u8]);
            }
            z
        } else {
            let mut i: usize = 0;
            while i < ip.len() - 1 && ip[i] == 48
                invariant
                    0 <= i < ip@.len(),
                    ip@.len() >= 1,
                    forall|j: int| 0 <= j < i ==> ip@[j] == 48,
                decreases ip@.len() - i,
            {
                i = i + 1;
            }
            proof {
                lemma_strip_lead0_skip(ip@, i as int);
            }
            slice_to_vec(&ip[i..ip.len()])
        };
        let mut e: usize = fp.len();
        while e > 0 && fp[e - 1] == 48
            invariant
                0 <= e <= fp@.len(),
                forall|j: int| e <= j < fp@.len() ==> fp@[j] == 48,
            decreases e,
        {
            e = e - 1;
        }
        proof {
            lemma_strip_trail0_take(fp@, e as int);
        }
        let frac_digits = slice_to_vec(&fp[0..e]);
        let zero = int_digits.len() == 1 && int_digits[0] == 48 && frac_digits.len() == 0;
        let v = DecNum { neg: minus && !zero, int_digits, frac_digits };
        proof {
            lemma_strip_lead0_wf(if ip@.len() == 0 {
                seq![48u8]
            } else {
                ip@
            });
            lemma_strip_trail0_wf(fp@);
            assert(v.int_digits@ == lax_norm(minus, ip@, fp@).1);
            assert(v.frac_digits@ == lax_norm(minus, ip@, fp@).2);
            assert((v.int_digits@ == seq![48u8]) == zero || v.frac_digits@.len() > 0) by {
                if v.int_digits@ == seq![48u8] {
                    assert(v.int_digits@.len() == 1 && v.int_digits@[0] == 48);
                }
                if v.int_digits@.len() == 1 && v.int_digits@[0] == 48 {
                    assert(v.int_digits@ =~= seq![48u8]);
                }
            }
            assert(v.neg == lax_norm(minus, ip@, fp@).0);
            assert(v.wf()) by {
                if v.neg {
                    assert(!zero);
                    if v.spec_is_zero() {
                        assert(v.int_digits@.len() == 1 && v.int_digits@[0] == 48);
                    }
                }
            }
        }
        Some(v)
    }

    /// Split an unsigned decimal body into its raw digit parts, exactly
    /// as the relaxed grammar reads it.
    fn lax_split(b: &[u8]) -> (r: Option<(Vec<u8>, Vec<u8>)>)
        ensures
            (match r {
                Some((ip, fp)) => lax_parts(b@) == Some((ip@, fp@)),
                None => lax_parts(b@) is None,
            }),
    {
        match crate::text::find_first(b, DOT) {
            None => {
                if b.len() >= 1 && check_all_digits(b) {
                    let ip = slice_to_vec(b);
                    Some((ip, Vec::new()))
                } else {
                    None
                }
            },
            Some(k) => {
                let n = b.len();
                let intp = &b[0..k];
                let fracp = &b[k + 1..n];
                proof {
                    assert(intp@ =~= b@.take(k as int));
                    assert(fracp@ =~= b@.skip(k as int + 1));
                }
                if check_all_digits(intp) && check_all_digits(fracp) && n >= 2 {
                    proof {
                        lemma_dot_unique(b@, k as int);
                        let k0 = choose|k0: int| 0 <= k0 < b@.len() && b@[k0] == DOT;
                        assert(k0 == k as int);
                    }
                    Some((slice_to_vec(intp), slice_to_vec(fracp)))
                } else {
                    proof {
                        if lax_parts(b@) is Some {
                            let k0 = choose|k0: int| 0 <= k0 < b@.len() && b@[k0] == DOT;
                            lemma_dot_unique(b@, k0);
                            assert(k0 == k as int);
                        }
                    }
                    None
                }
            },
        }
    }
}

} // verus!
