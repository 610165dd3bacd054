use vstd::prelude::*;
use vstd::string::StringExecFns;
use vstd::string::StrSliceExecFns;
use vstd::string::StringSliceAdditionalSpecFns;

verus! {

/// A running SHA-256 computation of the `sha2` crate, kept out of Verus's
/// sight; `digest_input` names what it has taken in.
#[verifier::external_body]
pub struct Sha256State {
    inner: sha2::Sha256,
}

/// The SHA-256 digest of a byte sequence.
pub uninterp spec fn sha256(data: Seq<u8>) -> Seq<u8>;

/// The bytes a SHA-256 hasher has taken in since it was created.
pub uninterp spec fn digest_input(h: Sha256State) -> Seq<u8>;

/// Relies on `sha2::Digest::new` for `Sha256`: a fresh hasher has taken in nothing.
#[verifier::external_body]
fn sha256_new() -> (r: Sha256State)
    ensures
        digest_input(r) == Seq::<u8>::empty(),
{
    Sha256State { inner: <sha2::Sha256 as sha2::Digest>::new() }
}

/// Relies on `sha2::Digest::update` for `Sha256`: the bytes are appended to
/// what the hasher has taken in.
#[verifier::external_body]
fn sha256_update(h: &mut Sha256State, data: &[u8])
    ensures
        digest_input(*final(h)) == digest_input(*old(h)) + data@,
{
    <sha2::Sha256 as sha2::Digest>::update(&mut h.inner, data)
}

/// Relies on `sha2::Digest::finalize` for `Sha256`: the 32-byte SHA-256
/// digest of everything the hasher has taken in.
#[verifier::external_body]
fn sha256_finish(h: Sha256State) -> (r: Vec<u8>)
    ensures
        r@ == sha256(digest_input(h)),
        r@.len() == 32,
{
    <sha2::Sha256 as sha2::Digest>::finalize(h.inner).to_vec()
}

/// The lower-case hexadecimal digits, by value.
pub open spec fn hex_digits() -> Seq<char> {
    seq!['0', '1', '2', '3', '4', '5', '6', '7', '8', '9', 'a', 'b', 'c', 'd', 'e', 'f']
}

/// Two lower-case hexadecimal digits per byte, high digit first.
pub open spec fn hex_lower(b: Seq<u8>) -> Seq<char>
    decreases b.len(),
{
    if b.len() == 0 {
        Seq::empty()
    } else {
        hex_lower(b.drop_last()) + seq![
            hex_digits()[b.last() as int / 16],
            hex_digits()[b.last() as int % 16],
        ]
    }
}

/// Writes bytes as lower-case hexadecimal, two digits per byte.
pub fn to_hex(b: &[u8]) -> (r: String)
    ensures
        r@ == hex_lower(b@),
{
    let digits: &str = "0123456789abcdef";
    proof {
        reveal_strlit("0123456789abcdef");
        assert(digits@ =~= hex_digits());
    }
    let mut out = String::new();
    let mut i: usize = 0;
    proof {
        assert(b@.take(0) =~= Seq::<u8>::empty());
    }
    while i < b.len()
        invariant
            i <= b@.len(),
            digits@ == hex_digits(),
            out@ == hex_lower(b@.take(i as int)),
        decreases b@.len() - i,
    {
        let x = b[i];
        let hi = (x / 16) as usize;
        let lo = (x % 16) as usize;
        out.append(digits.substring_char(hi, hi + 1));
        out.append(digits.substring_char(lo, lo + 1));
        proof {
            assert(b@.take(i + 1).drop_last() =~= b@.take(i as int));
            assert(out@ =~= hex_lower(b@.take(i + 1)));
        }
        i = i + 1;
    }
    proof {
        assert(b@.take(i as int) =~= b@);
    }
    out
}

/// The full fingerprint of a content: its SHA-256 digest in lower-case hex.
pub open spec fn full_fingerprint(content: Seq<u8>) -> Seq<char> {
    hex_lower(sha256(content))
}

/// Computes a full fingerprint from content handed over in pieces of any size.
pub struct ContentHasher {
    state: Sha256State,
}

impl View for ContentHasher {
    type V = Seq<u8>;

    /// The content taken in so far.
    closed spec fn view(&self) -> Seq<u8> {
        digest_input(self.state)
    }
}

impl ContentHasher {
    /// A hasher that has taken in nothing.
    pub fn new() -> (r: ContentHasher)
        ensures
            r@ == Seq::<u8>::empty(),
    {
        ContentHasher { state: sha256_new() }
    }

    /// Takes in the next piece of content.
    pub fn update(&mut self, chunk: &[u8])
        ensures
            final(self)@ == old(self)@ + chunk@,
    {
        sha256_update(&mut self.state, chunk);
    }

    /// The full fingerprint of all content taken in.
    pub fn finish(self) -> (r: String)
        ensures
            r@ == full_fingerprint(self@),
    {
        let d = sha256_finish(self.state);
        to_hex(d.as_slice())
    }
}

/// The number of leading content bytes that a pseudo fingerprint covers.
pub const PSEUDO_PREFIX_LEN: usize = 1024;

/// A 64-bit integer as eight bytes, most significant first.
pub open spec fn be_bytes(x: u64) -> Seq<u8> {
    seq![
        (x >> 56u64) as u8,
        (x >> 48u64) as u8,
        (x >> 40u64) as u8,
        (x >> 32u64) as u8,
        (x >> 24u64) as u8,
        (x >> 16u64) as u8,
        (x >> 8u64) as u8,
        x as u8,
    ]
}

/// Writes a 64-bit integer as eight bytes, most significant first.
pub fn u64_to_be_bytes(x: u64) -> (r: Vec<u8>)
    ensures
        r@ == be_bytes(x),
{
    let r = vec![
        (x >> 56u64) as u8,
        (x >> 48u64) as u8,
        (x >> 40u64) as u8,
        (x >> 32u64) as u8,
        (x >> 24u64) as u8,
        (x >> 16u64) as u8,
        (x >> 8u64) as u8,
        x as u8,
    ];
    proof {
        assert(r@ =~= be_bytes(x));
    }
    r
}

/// What a pseudo fingerprint hashes: the file name's UTF-8 bytes, the file
/// size as eight big-endian bytes, and at most the first 1024 content bytes.
pub open spec fn pseudo_message(name: Seq<u8>, size: u64, head: Seq<u8>) -> Seq<u8> {
    let n = if head.len() < PSEUDO_PREFIX_LEN { head.len() } else { PSEUDO_PREFIX_LEN as nat };
    name + be_bytes(size) + head.take(n as int)
}

/// The pseudo fingerprint of a file from its name, its size and the start of
/// its content; bytes of `head` past the first 1024 are not looked at.
pub fn pseudo_fingerprint(name: &str, size: u64, head: &[u8]) -> (r: String)
    ensures
        r@ == full_fingerprint(pseudo_message(name.spec_bytes(), size, head@)),
{
    let n = if head.len() < PSEUDO_PREFIX_LEN { head.len() } else { PSEUDO_PREFIX_LEN };
    let mut h = ContentHasher::new();
    h.update(name.as_bytes());
    let size_bytes = u64_to_be_bytes(size);
    h.update(size_bytes.as_slice());
    h.update(&head[0..n]);
    proof {
        assert(head@.subrange(0, n as int) =~= head@.take(n as int));
        assert(h@ =~= pseudo_message(name.spec_bytes(), size, head@));
    }
    h.finish()
}

/// A full fingerprint depends on the content alone: two computations over
/// the same bytes, whatever pieces they were handed over in, agree.
pub proof fn lemma_full_fingerprint_deterministic(first: Seq<Seq<u8>>, second: Seq<Seq<u8>>)
    requires
        first.flatten() == second.flatten(),
    ensures
        full_fingerprint(first.flatten()) == full_fingerprint(second.flatten()),
{
}

/// A pseudo fingerprint depends on the name, the size and the first 1024
/// content bytes alone: two files that agree on these get the same one,
/// whatever follows.
pub proof fn lemma_pseudo_fingerprint_deterministic(
    name: Seq<u8>,
    size: u64,
    head1: Seq<u8>,
    head2: Seq<u8>,
)
    requires
        head1.len() >= PSEUDO_PREFIX_LEN,
        head2.len() >= PSEUDO_PREFIX_LEN,
        head1.take(PSEUDO_PREFIX_LEN as int) == head2.take(PSEUDO_PREFIX_LEN as int),
    ensures
        full_fingerprint(pseudo_message(name, size, head1)) == full_fingerprint(
            pseudo_message(name, size, head2),
        ),
{
}

} // verus!
