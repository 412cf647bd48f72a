//! Content fingerprints: MD5 over a stream of byte chunks, rendered as
//! lower-case hexadecimal text.

use vstd::prelude::*;
use vstd::slice::slice_subrange;
use vstd::string::StringExecFns;

use crate::report::Failure;

verus! {

/// The MD5 accumulator of the `md5` crate. Verus sees nothing inside it; what
/// it has consumed is spoken of through [`consumed`].
#[verifier::external_type_specification]
#[verifier::external_body]
pub struct ExContext(md5::Context);

/// The bytes that an `md5::Context` has consumed since it was created, in the
/// order in which they were fed.
pub uninterp spec fn consumed(context: md5::Context) -> Seq<u8>;

/// The sixteen bytes of the MD5 digest of `bytes`, as `md5::Context::compute`
/// returns them for a context that has consumed exactly `bytes`.
pub uninterp spec fn md5_digest(bytes: Seq<u8>) -> Seq<u8>;

/// `md5::Context::new`: a fresh context has consumed nothing.
#[verifier::external_body]
fn context_new() -> (context: md5::Context)
    ensures
        consumed(context) == Seq::<u8>::empty(),
{
    md5::Context::new()
}

/// `md5::Context::consume`: the context has consumed what it had before,
/// followed by `data`. The call never fails and never panics.
#[verifier::external_body]
fn context_consume(context: &mut md5::Context, data: &[u8])
    ensures
        consumed(*final(context)) == consumed(*old(context)) + data@,
{
    context.consume(data);
}

/// `md5::Context::compute`: pads, finalizes and returns the digest of all the
/// bytes consumed, which `md5::Digest` holds as an array of sixteen bytes.
#[verifier::external_body]
fn context_compute(context: md5::Context) -> (digest: [u8; 16])
    ensures
        digest@ == md5_digest(consumed(context)),
{
    context.compute().0
}

/// The number of bytes a driver reads from a file at a time.
pub const BUFFER_SIZE: usize = 8192;

/// The lower-case hexadecimal digit for a value below sixteen.
pub open spec fn hex_digit(nibble: int) -> char {
    seq!['0', '1', '2', '3', '4', '5', '6', '7', '8', '9', 'a', 'b', 'c', 'd', 'e', 'f'][nibble]
}

/// Two lower-case hexadecimal digits per byte, high nibble first, in the
/// order of the bytes.
pub open spec fn hex_lower(bytes: Seq<u8>) -> Seq<char>
    decreases bytes.len(),
{
    if bytes.len() == 0 {
        Seq::<char>::empty()
    } else {
        hex_lower(bytes.drop_last()) + seq![
            hex_digit(bytes.last() as int / 16),
            hex_digit(bytes.last() as int % 16),
        ]
    }
}

/// Whether a character is a lower-case hexadecimal digit.
pub open spec fn is_lower_hex(digit: char) -> bool {
    ('0' <= digit && digit <= '9') || ('a' <= digit && digit <= 'f')
}

/// The hexadecimal text of bytes holds two digits per byte, and nothing but
/// lower-case hexadecimal digits.
pub proof fn lemma_hex_lower_shape(bytes: Seq<u8>)
    ensures
        hex_lower(bytes).len() == 2 * bytes.len(),
        forall|position: int|
            0 <= position < hex_lower(bytes).len() ==> is_lower_hex(
                #[trigger] hex_lower(bytes)[position],
            ),
    decreases bytes.len(),
{
    if bytes.len() > 0 {
        lemma_hex_lower_shape(bytes.drop_last());
        let high = bytes.last() as int / 16;
        let low = bytes.last() as int % 16;
        assert(is_lower_hex(hex_digit(high)));
        assert(is_lower_hex(hex_digit(low)));
    }
}

/// The fingerprint of a byte sequence: its MD5 digest in lower-case
/// hexadecimal.
pub open spec fn digest_text(bytes: Seq<u8>) -> Seq<char> {
    hex_lower(md5_digest(bytes))
}

/// What a hasher that had absorbed `start` has absorbed after it was fed
/// `chunks` one after the other.
pub open spec fn fed(start: Seq<u8>, chunks: Seq<Seq<u8>>) -> Seq<u8>
    decreases chunks.len(),
{
    if chunks.len() == 0 {
        start
    } else {
        fed(start, chunks.drop_last()) + chunks.last()
    }
}

fn hex_digit_text(nibble: u8) -> (text: &'static str)
    requires
        nibble < 16,
    ensures
        text@ == seq![hex_digit(nibble as int)],
{
    proof {
        reveal_strlit("0");
        reveal_strlit("1");
        reveal_strlit("2");
        reveal_strlit("3");
        reveal_strlit("4");
        reveal_strlit("5");
        reveal_strlit("6");
        reveal_strlit("7");
        reveal_strlit("8");
        reveal_strlit("9");
        reveal_strlit("a");
        reveal_strlit("b");
        reveal_strlit("c");
        reveal_strlit("d");
        reveal_strlit("e");
        reveal_strlit("f");
    }
    if nibble == 0 {
        "0"
    } else if nibble == 1 {
        "1"
    } else if nibble == 2 {
        "2"
    } else if nibble == 3 {
        "3"
    } else if nibble == 4 {
        "4"
    } else if nibble == 5 {
        "5"
    } else if nibble == 6 {
        "6"
    } else if nibble == 7 {
        "7"
    } else if nibble == 8 {
        "8"
    } else if nibble == 9 {
        "9"
    } else if nibble == 10 {
        "a"
    } else if nibble == 11 {
        "b"
    } else if nibble == 12 {
        "c"
    } else if nibble == 13 {
        "d"
    } else if nibble == 14 {
        "e"
    } else {
        "f"
    }
}

/// Renders bytes as lower-case hexadecimal text.
pub fn hex_encode(bytes: &[u8]) -> (text: String)
    ensures
        text@ == hex_lower(bytes@),
{
    let mut text = String::new();
    let mut index: usize = 0;
    while index < bytes.len()
        invariant
            index <= bytes.len(),
            text@ == hex_lower(bytes@.take(index as int)),
        decreases bytes.len() - index,
    {
        let byte: u8 = bytes[index];
        text.append(hex_digit_text(byte / 16));
        text.append(hex_digit_text(byte % 16));
        index = index + 1;
        proof {
            let prefix = bytes@.take(index as int);
            assert(prefix.drop_last() =~= bytes@.take(index - 1));
        }
    }
    assert(bytes@.take(index as int) =~= bytes@);
    text
}

/// One read from the stream that is being hashed.
pub enum ReadOutcome<'a> {
    /// The bytes that the read delivered; none at the end of the stream.
    Data(&'a [u8]),
    /// The read failed.
    Failed(Failure),
}

/// What the hasher makes of one read.
pub enum HashStep {
    /// The bytes were absorbed; read on.
    More(ContentHasher),
    /// The stream has ended; this is its fingerprint.
    Digest(String),
    /// The read failed; no fingerprint is given.
    Abort(Failure),
}

/// An incremental MD5 hasher: memory use does not grow with the stream.
pub struct ContentHasher {
    context: md5::Context,
}

impl ContentHasher {
    /// All the bytes absorbed so far, in order.
    pub closed spec fn absorbed(&self) -> Seq<u8> {
        consumed(self.context)
    }

    /// A hasher that has absorbed nothing.
    pub fn new() -> (hasher: Self)
        ensures
            hasher.absorbed() == Seq::<u8>::empty(),
    {
        ContentHasher { context: context_new() }
    }

    /// Absorbs one chunk, and says whether it held any bytes: an empty chunk
    /// marks the end of a stream.
    pub fn absorb(&mut self, chunk: &[u8]) -> (more: bool)
        ensures
            final(self).absorbed() == old(self).absorbed() + chunk@,
            more == (chunk@.len() > 0),
    {
        context_consume(&mut self.context, chunk);
        chunk.len() > 0
    }

    /// The fingerprint of everything absorbed: thirty-two hexadecimal
    /// digits.
    pub fn finish(self) -> (digest: String)
        ensures
            digest@ == digest_text(self.absorbed()),
            digest@.len() == 32,
    {
        let raw: [u8; 16] = context_compute(self.context);
        proof {
            lemma_hex_lower_shape(raw@);
        }
        hex_encode(raw.as_slice())
    }

    /// Takes one read of the stream: data is absorbed, an empty read ends the
    /// stream and yields the fingerprint of all that was absorbed, and a
    /// failed read ends the hashing without a fingerprint.
    pub fn step(self, read: ReadOutcome<'_>) -> (next: HashStep)
        ensures
            match read {
                ReadOutcome::Data(chunk) => if chunk@.len() > 0 {
                    next matches HashStep::More(hasher)
                        && hasher.absorbed() == self.absorbed() + chunk@
                } else {
                    next matches HashStep::Digest(digest)
                        && digest@ == digest_text(self.absorbed()) && digest@.len() == 32
                },
                ReadOutcome::Failed(failure) => next == HashStep::Abort(failure),
            },
    {
        match read {
            ReadOutcome::Data(chunk) => {
                if chunk.len() > 0 {
                    let mut hasher = self;
                    hasher.absorb(chunk);
                    HashStep::More(hasher)
                } else {
                    HashStep::Digest(self.finish())
                }
            },
            ReadOutcome::Failed(failure) => HashStep::Abort(failure),
        }
    }
}

/// Hashes `data` as a driver hashes a file: through reads of at most
/// `buffer_size` bytes, ended by an empty read. The fingerprint is that of
/// `data`, whatever the buffer size; a size of zero is taken as one, since a
/// read into no room would look like the end of the stream.
pub fn hash_buffered(data: &[u8], buffer_size: usize) -> (digest: String)
    ensures
        digest@ == digest_text(data@),
        digest@.len() == 32,
{
    let room: usize = if buffer_size == 0 { 1 } else { buffer_size };
    let mut hasher = ContentHasher::new();
    let mut offset: usize = 0;
    while offset < data.len()
        invariant
            room > 0,
            offset <= data.len(),
            hasher.absorbed() == data@.take(offset as int),
        decreases data.len() - offset,
    {
        let remaining: usize = data.len() - offset;
        let count: usize = if remaining < room { remaining } else { room };
        let chunk = slice_subrange(data, offset, offset + count);
        hasher.absorb(chunk);
        offset = offset + count;
    }
    hasher.absorb(slice_subrange(data, offset, offset));
    assert(hasher.absorbed() =~= data@);
    hasher.finish()
}

/// Feeding chunks one after the other amounts to feeding their
/// concatenation.
pub proof fn lemma_fed_is_concatenation(start: Seq<u8>, chunks: Seq<Seq<u8>>)
    ensures
        fed(start, chunks) == start + chunks.flatten(),
    decreases chunks.len(),
{
    chunks.lemma_flatten_and_flatten_alt_are_equivalent();
    if chunks.len() > 0 {
        lemma_fed_is_concatenation(start, chunks.drop_last());
        chunks.drop_last().lemma_flatten_and_flatten_alt_are_equivalent();
    }
}

/// A fingerprint is determined by the bytes of the stream alone: however two
/// streams with the same content are cut into reads, their fingerprints are
/// the same text.
pub proof fn lemma_digest_ignores_chunking(first: Seq<Seq<u8>>, second: Seq<Seq<u8>>)
    requires
        first.flatten() == second.flatten(),
    ensures
        digest_text(fed(Seq::empty(), first)) == digest_text(fed(Seq::empty(), second)),
{
    lemma_fed_is_concatenation(Seq::empty(), first);
    lemma_fed_is_concatenation(Seq::empty(), second);
}

} // verus!
