//! Parser adapters between device-side ASCII text and typed values.
//!
//! Three adapters share one contract: `load` turns a device reply into
//! a value and hands the text back on failure; `store` renders a value
//! in the form the device expects. Storing any value in an adapter's
//! domain and loading the result yields that value again.

use vstd::prelude::*;
use vstd::slice::slice_to_vec;
use crate::num::DecNum;
use crate::text::bytes_eq;

verus! {

/// A parser adapter: a bidirectional translation between device-side
/// text and values of type `T`.
pub trait Parser<T: View>: Sized {
    /// The values this adapter can store.
    spec fn in_domain(&self, v: &T) -> bool;

    /// The text `store` produces for a domain value.
    spec fn stores(&self, v: &T) -> Seq<u8>;

    /// Whether `text` loads as the value `v`.
    spec fn load_ok(&self, text: Seq<u8>, v: &T) -> bool;

    /// Whether `text` loads as some value.
    spec fn loadable(&self, text: Seq<u8>) -> bool;

    /// Decode device text. On failure the original text is handed
    /// back.
    fn load(&self, text: Vec<u8>) -> (r: Result<T, Vec<u8>>)
        ensures
            (match r {
                Ok(v) => self.loadable(text@) && self.load_ok(text@, &v),
                Err(t) => t@ == text@ && !self.loadable(text@),
            }),
    ;

    /// Render a domain value as device text.
    fn store(&self, v: &T) -> (r: Vec<u8>)
        requires
            self.in_domain(v),
        ensures
            r@ == self.stores(v),
    ;

    /// The text stored for a domain value always loads.
    proof fn lemma_store_loadable(&self, v: &T)
        requires
            self.in_domain(v),
        ensures
            self.loadable(self.stores(v)),
    ;

    /// Whatever the stored text of a domain value loads as is that
    /// value again.
    proof fn lemma_round_trip(&self, v: &T, w: &T)
        requires
            self.in_domain(v),
            self.load_ok(self.stores(v), w),
        ensures
            v@ == w@,
    ;

    /// The domain is a property of a value's view: a view-preserving
    /// copy of a domain value is in the domain.
    proof fn lemma_view_domain(&self, v: &T, w: &T)
        requires
            self.in_domain(v),
            v@ == w@,
        ensures
            self.in_domain(w),
    ;
}

/// Every parser adapter is the identity on its domain: storing a value
/// and loading the result gives the value back.
pub proof fn lemma_parser_round_trip<T: View, P: Parser<T>>(p: &P, v: &T, w: &T)
    requires
        p.in_domain(v),
        p.load_ok(p.stores(v), w),
    ensures
        p.loadable(p.stores(v)),
        v@ == w@,
{
    p.lemma_store_loadable(v);
    p.lemma_round_trip(v, w);
}

impl View for DecNum {
    type V = (bool, Seq<u8>, Seq<u8>);

    open spec fn view(&self) -> Self::V {
        (self.neg, self.int_digits@, self.frac_digits@)
    }
}

/// The numeric adapter for set-points, readbacks and protection
/// limits: it reads the wire protocol's plain decimal grammar — an
/// optional sign, digits, at most one dot — normalizing redundant
/// zeros away, and always writes the canonical form.
pub struct NumParser;

impl Parser<DecNum> for NumParser {
    open spec fn in_domain(&self, v: &DecNum) -> bool {
        v.wf()
    }

    open spec fn stores(&self, v: &DecNum) -> Seq<u8> {
        v.render()
    }

    open spec fn load_ok(&self, text: Seq<u8>, v: &DecNum) -> bool {
        v.wf() && crate::num::lax_parse(text) == Some(v@)
    }

    open spec fn loadable(&self, text: Seq<u8>) -> bool {
        crate::num::lax_parse(text) is Some
    }

    fn load(&self, text: Vec<u8>) -> (r: Result<DecNum, Vec<u8>>) {
        match DecNum::parse_relaxed(text.as_slice()) {
            Some(v) => Ok(v),
            None => Err(text),
        }
    }

    fn store(&self, v: &DecNum) -> (r: Vec<u8>) {
        v.to_text()
    }

    proof fn lemma_store_loadable(&self, v: &DecNum) {
        crate::num::lemma_lax_canonical(*v);
    }

    proof fn lemma_round_trip(&self, v: &DecNum, w: &DecNum) {
        crate::num::lemma_lax_canonical(*v);
    }

    proof fn lemma_view_domain(&self, v: &DecNum, w: &DecNum) {
    }
}

/// The boolean adapter for the output-enable parameter: one configured
/// spelling for false and one for true. The value type is a small
/// integer, 0 for false and 1 for true.
pub struct BoolParser {
    /// The device's spelling of "off".
    pub false_text: Vec<u8>,
    /// The device's spelling of "on".
    pub true_text: Vec<u8>,
}

impl BoolParser {
    /// The two spellings differ, so the two values store differently.
    pub open spec fn wf(&self) -> bool {
        self.false_text@ != self.true_text@
    }

    /// Configure the adapter with a spelling for each truth value.
    pub fn new(false_text: Vec<u8>, true_text: Vec<u8>) -> (r: BoolParser)
        requires
            false_text@ != true_text@,
        ensures
            r.false_text@ == false_text@,
            r.true_text@ == true_text@,
            r.wf(),
    {
        BoolParser { false_text, true_text }
    }

    /// The `OFF`/`ON` spelling used by the first device family.
    pub fn off_on() -> (r: BoolParser)
        ensures
            r.false_text@ == seq![79u8, 70u8, 70u8],
            r.true_text@ == seq![79u8, 78u8],
            r.wf(),
    {
        let mut f: Vec<u8> = Vec::new();
        f.push(79);
        f.push(70);
        f.push(70);
        let mut t: Vec<u8> = Vec::new();
        t.push(79);
        t.push(78);
        proof {
            assert(f@ =~= seq![79u8, 70u8, 70u8]);
            assert(t@ =~= seq![79u8, 78u8]);
        }
        BoolParser { false_text: f, true_text: t }
    }

    /// The `0`/`1` spelling used by the second device family.
    pub fn zero_one() -> (r: BoolParser)
        ensures
            r.false_text@ == seq![48u8],
            r.true_text@ == seq![49u8],
            r.wf(),
    {
        let mut f: Vec<u8> = Vec::new();
        f.push(48);
        let mut t: Vec<u8> = Vec::new();
        t.push(49);
        proof {
            assert(f@ =~= seq![48u8]);
            assert(t@ =~= seq![49u8]);
            assert(f@[0] == 48u8 && t@[0] == 49u8);
        }
        BoolParser { false_text: f, true_text: t }
    }
}

impl Default for BoolParser {
    /// The default spelling is `OFF`/`ON`, as on the oldest device
    /// family.
    fn default() -> (r: BoolParser)
        ensures
            r.false_text@ == seq![79u8, 70u8, 70u8],
            r.true_text@ == seq![79u8, 78u8],
            r.wf(),
    {
        BoolParser::off_on()
    }
}

impl Parser<u16> for BoolParser {
    open spec fn in_domain(&self, v: &u16) -> bool {
        (*v == 0 || *v == 1) && self.wf()
    }

    open spec fn stores(&self, v: &u16) -> Seq<u8> {
        if *v == 0 {
            self.false_text@
        } else {
            self.true_text@
        }
    }

    open spec fn load_ok(&self, text: Seq<u8>, v: &u16) -> bool {
        ||| (text == self.false_text@ && *v == 0)
        ||| (text == self.true_text@ && text != self.false_text@ && *v == 1)
    }

    open spec fn loadable(&self, text: Seq<u8>) -> bool {
        text == self.false_text@ || text == self.true_text@
    }

    fn load(&self, text: Vec<u8>) -> (r: Result<u16, Vec<u8>>) {
        if bytes_eq(text.as_slice(), self.false_text.as_slice()) {
            Ok(0)
        } else if bytes_eq(text.as_slice(), self.true_text.as_slice()) {
            Ok(1)
        } else {
            Err(text)
        }
    }

    fn store(&self, v: &u16) -> (r: Vec<u8>) {
        if *v == 0 {
            slice_to_vec(self.false_text.as_slice())
        } else {
            slice_to_vec(self.true_text.as_slice())
        }
    }

    proof fn lemma_store_loadable(&self, v: &u16) {
    }

    proof fn lemma_round_trip(&self, v: &u16, w: &u16) {
    }

    proof fn lemma_view_domain(&self, v: &u16, w: &u16) {
    }
}

/// The identity adapter: device text passed through unchanged, used
/// for the serial-number readback.
pub struct StringParser;

impl Parser<Vec<u8>> for StringParser {
    open spec fn in_domain(&self, v: &Vec<u8>) -> bool {
        true
    }

    open spec fn stores(&self, v: &Vec<u8>) -> Seq<u8> {
        v@
    }

    open spec fn load_ok(&self, text: Seq<u8>, v: &Vec<u8>) -> bool {
        v@ == text
    }

    open spec fn loadable(&self, text: Seq<u8>) -> bool {
        true
    }

    fn load(&self, text: Vec<u8>) -> (r: Result<Vec<u8>, Vec<u8>>) {
        Ok(text)
    }

    fn store(&self, v: &Vec<u8>) -> (r: Vec<u8>) {
        slice_to_vec(v.as_slice())
    }

    proof fn lemma_store_loadable(&self, v: &Vec<u8>) {
    }

    proof fn lemma_round_trip(&self, v: &Vec<u8>, w: &Vec<u8>) {
    }

    proof fn lemma_view_domain(&self, v: &Vec<u8>, w: &Vec<u8>) {
    }
}

/// The boolean adapter recognises exactly its two configured
/// spellings: the false spelling loads as 0, the true spelling as 1,
/// and any other text is handed back as an error.
pub proof fn lemma_bool_adapter_spellings(p: &BoolParser, text: Seq<u8>)
    requires
        p.wf(),
    ensures
        p.load_ok(p.false_text@, &0u16),
        p.load_ok(p.true_text@, &1u16),
        p.loadable(text) <==> (text == p.false_text@ || text == p.true_text@),
{
}

} // verus!
