use vstd::prelude::*;
use sha2::Digest;

verus! {

/// SHA-256 digest of a byte sequence.
pub uninterp spec fn sha256_of(data: Seq<u8>) -> Seq<u8>;

/// The bytes a running SHA-256 state has absorbed so far.
pub uninterp spec fn sha256_absorbed(state: Sha256State) -> Seq<u8>;

/// A running SHA-256 computation.
#[verifier::external_body]
pub struct Sha256State {
    inner: sha2::Sha256,
}

/// Relies on sha2::Sha256::new: a fresh state has absorbed nothing.
#[verifier::external_body]
fn sha256_new() -> (r: Sha256State)
    ensures
        sha256_absorbed(r) == Seq::<u8>::empty(),
{
    Sha256State { inner: sha2::Sha256::new() }
}

/// Relies on sha2's Digest::update: the chunk is appended to what was absorbed.
#[verifier::external_body]
fn sha256_update(state: &mut Sha256State, chunk: &[u8])
    ensures
        sha256_absorbed(*final(state)) == sha256_absorbed(*old(state)) + chunk@,
{
    state.inner.update(chunk);
}

/// Relies on sha2's Digest::finalize: the 32-byte digest of all absorbed bytes.
#[verifier::external_body]
fn sha256_finalize(state: Sha256State) -> (r: Vec<u8>)
    ensures
        r@ == sha256_of(sha256_absorbed(state)),
        r@.len() == 32,
{
    state.inner.finalize().to_vec()
}

/// Lower-case hexadecimal digit for a value below 16.
pub open spec fn hex_digit(n: u8) -> char {
    seq!['0', '1', '2', '3', '4', '5', '6', '7', '8', '9', 'a', 'b', 'c', 'd', 'e', 'f'][n as int]
}

/// Two lower-case hexadecimal digits per byte, high nibble first.
pub open spec fn hex_text(b: Seq<u8>) -> Seq<char>
    decreases b.len(),
{
    if b.len() == 0 {
        Seq::empty()
    } else {
        hex_text(b.drop_last()) + seq![hex_digit(b.last() / 16), hex_digit(b.last() % 16)]
    }
}

/// Relies on hex::encode: two lower-case digits per byte, high nibble first.
#[verifier::external_body]
fn hex_encode(b: &[u8]) -> (r: String)
    ensures
        r@ == hex_text(b@),
{
    hex::encode(b)
}

/// The fingerprint text of a content: hex of its SHA-256 digest.
pub open spec fn fingerprint_text(content: Seq<u8>) -> Seq<char> {
    hex_text(sha256_of(content))
}

/// A content fingerprint and the number of bytes it covers.
#[derive(Clone, Debug)]
pub struct Fingerprint {
    pub hex: String,
    pub size: u64,
}

/// Streams a content through SHA-256 chunk by chunk, counting its bytes.
pub struct Fingerprinter {
    state: Sha256State,
    size: u64,
}

impl Fingerprinter {
    /// The bytes absorbed so far.
    pub closed spec fn absorbed(&self) -> Seq<u8> {
        sha256_absorbed(self.state)
    }

    pub closed spec fn wf(&self) -> bool {
        self.size as int == sha256_absorbed(self.state).len()
    }

    pub fn new() -> (r: Fingerprinter)
        ensures
            r.wf(),
            r.absorbed() == Seq::<u8>::empty(),
    {
        Fingerprinter { state: sha256_new(), size: 0 }
    }

    /// Number of bytes absorbed so far.
    pub fn size(&self) -> (r: u64)
        requires
            self.wf(),
        ensures
            r == self.absorbed().len(),
    {
        self.size
    }

    /// Absorbs the next chunk of the content.
    pub fn absorb(&mut self, chunk: &[u8])
        requires
            old(self).wf(),
            old(self).absorbed().len() + chunk@.len() <= u64::MAX,
        ensures
            final(self).wf(),
            final(self).absorbed() == old(self).absorbed() + chunk@,
    {
        sha256_update(&mut self.state, chunk);
        self.size = self.size + chunk.len() as u64;
    }

    /// The fingerprint of everything absorbed.
    pub fn finish(self) -> (r: Fingerprint)
        requires
            self.wf(),
        ensures
            r.hex@ == fingerprint_text(self.absorbed()),
            r.hex@.len() == 64,
            r.size == self.absorbed().len(),
    {
        let size = self.size;
        let digest = sha256_finalize(self.state);
        proof {
            lemma_hex_len(digest@);
        }
        Fingerprint { hex: hex_encode(digest.as_slice()), size }
    }
}

/// The fingerprint of a content held in memory.
pub fn fingerprint_bytes(content: &[u8]) -> (r: Fingerprint)
    requires
        content@.len() <= u64::MAX,
    ensures
        r.hex@ == fingerprint_text(content@),
        r.hex@.len() == 64,
        r.size == content@.len(),
{
    let mut f = Fingerprinter::new();
    f.absorb(content);
    assert(f.absorbed() =~= content@);
    f.finish()
}

/// Hex text has two digits per byte.
pub proof fn lemma_hex_len(b: Seq<u8>)
    ensures
        hex_text(b).len() == 2 * b.len(),
    decreases b.len(),
{
    if b.len() > 0 {
        lemma_hex_len(b.drop_last());
    }
}

/// Distinct digit values below 16 have distinct hexadecimal digits.
proof fn lemma_hex_digit_injective(x: u8, y: u8)
    requires
        x < 16,
        y < 16,
        hex_digit(x) == hex_digit(y),
    ensures
        x == y,
{
    let t = seq!['0', '1', '2', '3', '4', '5', '6', '7', '8', '9', 'a', 'b', 'c', 'd', 'e', 'f'];
    assert(t[0] == '0' && t[1] == '1' && t[2] == '2' && t[3] == '3');
    assert(t[4] == '4' && t[5] == '5' && t[6] == '6' && t[7] == '7');
    assert(t[8] == '8' && t[9] == '9' && t[10] == 'a' && t[11] == 'b');
    assert(t[12] == 'c' && t[13] == 'd' && t[14] == 'e' && t[15] == 'f');
    assert(x == 0 || x == 1 || x == 2 || x == 3 || x == 4 || x == 5 || x == 6 || x == 7 || x == 8
        || x == 9 || x == 10 || x == 11 || x == 12 || x == 13 || x == 14 || x == 15);
    assert(y == 0 || y == 1 || y == 2 || y == 3 || y == 4 || y == 5 || y == 6 || y == 7 || y == 8
        || y == 9 || y == 10 || y == 11 || y == 12 || y == 13 || y == 14 || y == 15);
}

/// Hex text is one-to-one: distinct digests give distinct fingerprint texts,
/// so distinct digests never share a ledger key.
pub proof fn lemma_hex_text_injective(a: Seq<u8>, b: Seq<u8>)
    requires
        hex_text(a) == hex_text(b),
    ensures
        a == b,
    decreases a.len(),
{
    lemma_hex_len(a);
    lemma_hex_len(b);
    if a.len() > 0 {
        let ta = hex_text(a);
        let pa = hex_text(a.drop_last());
        let pb = hex_text(b.drop_last());
        lemma_hex_len(a.drop_last());
        lemma_hex_len(b.drop_last());
        let x = a.last();
        let y = b.last();
        assert(ta == pa + seq![hex_digit(x / 16), hex_digit(x % 16)]);
        assert(ta == pb + seq![hex_digit(y / 16), hex_digit(y % 16)]);
        assert(ta[ta.len() - 2] == hex_digit(x / 16) && ta[ta.len() - 2] == hex_digit(y / 16));
        assert(ta[ta.len() - 1] == hex_digit(x % 16) && ta[ta.len() - 1] == hex_digit(y % 16));
        lemma_hex_digit_injective(x / 16, y / 16);
        lemma_hex_digit_injective(x % 16, y % 16);
        assert(x == y) by (nonlinear_arith)
            requires
                x / 16 == y / 16,
                x % 16 == y % 16,
        ;
        assert(pa =~= ta.subrange(0, ta.len() - 2));
        assert(pb =~= ta.subrange(0, ta.len() - 2));
        lemma_hex_text_injective(a.drop_last(), b.drop_last());
        assert(a =~= a.drop_last().push(x));
        assert(b =~= b.drop_last().push(y));
    }
}

} // verus!
