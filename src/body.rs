//! Body collection under a byte limit, with progress notification.

use vstd::prelude::*;
use crate::content_encoding::ContentEncoding;

verus! {

/// Receives the size of each raw body chunk as it arrives.
pub trait Notifier {
    /// The sizes heard so far, in order.
    spec fn heard(&self) -> Seq<usize>;

    /// Called once per chunk, with its length in bytes.
    fn send(&mut self, num: usize)
        ensures
            final(self).heard() == old(self).heard().push(num),
    ;
}

/// A notifier that does nothing with what it hears.
pub struct Noop {
    heard: Ghost<Seq<usize>>,
}

impl Noop {
    /// A notifier that has heard nothing.
    pub fn new() -> (r: Self)
        ensures
            r.heard() == Seq::<usize>::empty(),
    {
        Noop { heard: Ghost(Seq::empty()) }
    }
}

impl Notifier for Noop {
    closed spec fn heard(&self) -> Seq<usize> {
        self.heard@
    }

    fn send(&mut self, num: usize) {
        self.heard = Ghost(self.heard@.push(num));
    }
}

/// A notifier that records every size it hears.
pub struct Recorder {
    counts: Vec<usize>,
}

impl Recorder {
    /// A recorder that has heard nothing.
    pub fn new() -> (r: Self)
        ensures
            r.heard() == Seq::<usize>::empty(),
    {
        Recorder { counts: Vec::new() }
    }

    /// The sizes heard so far, in order.
    pub fn counts(&self) -> (r: &Vec<usize>)
        ensures
            r@ == self.heard(),
    {
        &self.counts
    }
}

impl Notifier for Recorder {
    closed spec fn heard(&self) -> Seq<usize> {
        self.counts@
    }

    fn send(&mut self, num: usize) {
        self.counts.push(num);
    }
}

/// Sizes of the chunks, in order.
pub open spec fn chunk_sizes(chunks: Seq<Seq<u8>>) -> Seq<usize> {
    Seq::new(chunks.len(), |i: int| chunks[i].len() as usize)
}

/// Relies on `String::from_utf8`: the string when the bytes are valid UTF-8,
/// an error otherwise.
#[verifier::external_body]
fn string_from_utf8(bytes: Vec<u8>) -> (r: Option<String>)
    ensures
        match r {
            Some(s) => vstd::utf8::valid_utf8(bytes@) && s@ == vstd::utf8::decode_utf8(bytes@),
            None => !vstd::utf8::valid_utf8(bytes@),
        },
{
    String::from_utf8(bytes).ok()
}

/// The body as UTF-8 text; `EncodingError` when it is not valid UTF-8.
pub fn text_of(bytes: Vec<u8>) -> (r: Result<String, BodyReadError>)
    ensures
        match r {
            Ok(s) => vstd::utf8::valid_utf8(bytes@) && s@ == vstd::utf8::decode_utf8(bytes@),
            Err(e) => !vstd::utf8::valid_utf8(bytes@) && e is EncodingError,
        },
{
    match string_from_utf8(bytes) {
        Some(s) => Ok(s),
        None => Err(BodyReadError::EncodingError),
    }
}

/// Limit used when none is given: 2 MiB.
pub const DEFAULT_LIMIT: usize = 2097152;

/// Initial buffer capacity at most.
pub const BUFFER_SIZE: usize = 4096;

/// Why reading a body failed.
#[derive(Debug)]
pub enum BodyReadError {
    /// The transport failed while reading.
    TransportError,
    /// The body exceeded the limit; what was read is handed back.
    Overflow(Vec<u8>),
    /// The body is not valid in its character set.
    EncodingError,
    /// The body is not the expected JSON.
    Json,
    /// The decoder rejected the data.
    DecompressionError,
    /// The stream ended before the decoder finished.
    IncompleteDecompression,
    /// A file could not be written.
    FileError,
    /// Reading failed.
    ReadError,
}

/// The limit in force.
pub open spec fn limit_of(limit: Option<usize>) -> usize {
    match limit {
        Some(l) => l,
        None => DEFAULT_LIMIT,
    }
}

/// The limit in force and the initial buffer capacity.
pub fn calculate_buffer_size(limit: Option<usize>) -> (r: (usize, usize))
    ensures
        r.0 == limit_of(limit),
        r.1 == if r.0 < BUFFER_SIZE {
            r.0
        } else {
            BUFFER_SIZE
        },
{
    let l = match limit {
        Some(l) => l,
        None => DEFAULT_LIMIT,
    };
    if l < BUFFER_SIZE {
        (l, l)
    } else {
        (l, BUFFER_SIZE)
    }
}

/// All chunks, one after the other.
pub open spec fn flatten(chunks: Seq<Seq<u8>>) -> Seq<u8>
    decreases chunks.len(),
{
    if chunks.len() == 0 {
        Seq::empty()
    } else {
        flatten(chunks.drop_last()) + chunks.last()
    }
}

/// Views of the chunks.
pub open spec fn chunks_view(chunks: Seq<Vec<u8>>) -> Seq<Seq<u8>> {
    Seq::new(chunks.len(), |i: int| chunks[i]@)
}

/// Accumulates body bytes (decoded ones, for a compressed body) and stops at
/// the first chunk that takes them over the limit.
pub struct BodyCollector {
    buffer: Vec<u8>,
    limit: usize,
    overflowed: bool,
}

impl BodyCollector {
    /// Bytes taken so far.
    pub closed spec fn bytes(&self) -> Seq<u8> {
        self.buffer@
    }

    /// The limit.
    pub closed spec fn limit_spec(&self) -> usize {
        self.limit
    }

    /// Whether the limit has been exceeded.
    pub closed spec fn over(&self) -> bool {
        self.overflowed
    }

    /// A collector with the given limit, or the default one.
    pub fn new(limit: Option<usize>) -> (r: Self)
        ensures
            r.bytes() == Seq::<u8>::empty(),
            r.limit_spec() == limit_of(limit),
            !r.over(),
    {
        let (limit, cap) = calculate_buffer_size(limit);
        BodyCollector { buffer: Vec::with_capacity(cap), limit, overflowed: false }
    }

    /// The limit.
    pub fn limit(&self) -> (r: usize)
        ensures
            r == self.limit_spec(),
    {
        self.limit
    }

    /// Reports a raw chunk of `n` bytes; the notifier hears of every chunk
    /// before any limit check.
    pub fn notify<N: Notifier>(&self, notifier: &mut N, n: usize)
        ensures
            final(notifier).heard() == old(notifier).heard().push(n),
    {
        notifier.send(n);
    }

    /// Takes a chunk; returns whether the bytes still fit in the limit.
    pub fn push(&mut self, chunk: &[u8]) -> (r: bool)
        requires
            !old(self).over(),
            old(self).bytes().len() <= old(self).limit_spec(),
        ensures
            final(self).bytes() == old(self).bytes() + chunk@,
            final(self).limit_spec() == old(self).limit_spec(),
            r == (final(self).bytes().len() <= final(self).limit_spec()),
            final(self).over() == !r,
    {
        let mut i: usize = 0;
        let ghost start = self.buffer@;
        while i < chunk.len()
            invariant
                0 <= i <= chunk@.len(),
                self.buffer@ == start + chunk@.subrange(0, i as int),
                self.limit == old(self).limit,
                self.overflowed == old(self).overflowed,
            decreases chunk@.len() - i,
        {
            self.buffer.push(chunk[i]);
            i = i + 1;
            proof {
                assert(self.buffer@ =~= start + chunk@.subrange(0, i as int));
            }
        }
        proof {
            assert(chunk@.subrange(0, chunk@.len() as int) =~= chunk@);
        }
        let fits = self.buffer.len() <= self.limit;
        self.overflowed = !fits;
        fits
    }

    /// The body, or `Overflow` with what was read when the limit was exceeded.
    pub fn finish(self) -> (r: Result<Vec<u8>, BodyReadError>)
        ensures
            self.over() ==> (r matches Err(BodyReadError::Overflow(p)) && p@ == self.bytes()),
            !self.over() ==> (r matches Ok(b) && b@ == self.bytes()),
    {
        if self.overflowed {
            Err(BodyReadError::Overflow(self.buffer))
        } else {
            Ok(self.buffer)
        }
    }
}

/// Reads identity-encoded chunks under a limit, notifying each chunk first.
///
/// The result is all the bytes when they fit in the limit; otherwise the bytes
/// up to and including the first chunk that exceeds it, as `Overflow`. The
/// bytes returned never exceed the limit, and an overflow always carries bytes.
pub fn collect<N: Notifier>(chunks: &Vec<Vec<u8>>, limit: Option<usize>, notifier: &mut N) -> (r:
    Result<Vec<u8>, BodyReadError>)
    ensures
        match r {
            Ok(b) => b@ == flatten(chunks_view(chunks@)) && b@.len() <= limit_of(limit),
            Err(BodyReadError::Overflow(p)) => exists|k: int|
                0 <= k < chunks@.len() && p@ == #[trigger] flatten(chunks_view(chunks@).subrange(0, k + 1))
                    && forall|j: int|
                    0 <= j < k ==> flatten(#[trigger] chunks_view(chunks@).subrange(0, j + 1)).len()
                        <= limit_of(limit),
            Err(_) => false,
        },
        r matches Err(BodyReadError::Overflow(p)) ==> p@.len() > limit_of(limit)
            && p@.len() > 0,
        r is Ok ==> final(notifier).heard() == old(notifier).heard() + chunk_sizes(
            chunks_view(chunks@),
        ),
        r matches Err(BodyReadError::Overflow(p)) ==> exists|k: int|
            0 <= k < chunks@.len() && p@ == flatten(chunks_view(chunks@).subrange(0, k + 1))
                && final(notifier).heard() == old(notifier).heard() + #[trigger] chunk_sizes(
                chunks_view(chunks@).subrange(0, k + 1),
            ),
{
    let mut c = BodyCollector::new(limit);
    let ghost cv = chunks_view(chunks@);
    let ghost lim = c.limit_spec();
    let mut i: usize = 0;
    while i < chunks.len()
        invariant
            0 <= i <= chunks@.len(),
            cv == chunks_view(chunks@),
            lim == limit_of(limit),
            c.limit_spec() == lim,
            !c.over(),
            c.bytes() == flatten(cv.subrange(0, i as int)),
            c.bytes().len() <= lim,
            forall|j: int| 0 <= j < i ==> flatten(#[trigger] cv.subrange(0, j + 1)).len() <= lim,
            notifier.heard() == old(notifier).heard() + chunk_sizes(cv.subrange(0, i as int)),
        decreases chunks@.len() - i,
    {
        c.notify(notifier, chunks[i].len());
        proof {
            assert(chunk_sizes(cv.subrange(0, i + 1)) =~= chunk_sizes(cv.subrange(0, i as int)).push(
                chunks@[i as int]@.len() as usize,
            ));
            assert(notifier.heard() =~= old(notifier).heard() + chunk_sizes(cv.subrange(0, i + 1)));
        }
        let fits = c.push(chunks[i].as_slice());
        proof {
            assert(cv.subrange(0, i + 1).drop_last() =~= cv.subrange(0, i as int));
            assert(cv.subrange(0, i + 1).last() == chunks@[i as int]@);
        }
        if !fits {
            let r = c.finish();
            proof {
                assert(c.bytes() == flatten(cv.subrange(0, i + 1)));
            }
            return r;
        }
        i = i + 1;
    }
    proof {
        assert(cv.subrange(0, chunks@.len() as int) =~= cv);
    }
    c.finish()
}

/// What `compu`'s zlib decoder (gzip or zlib mode) makes of a whole input:
/// the output and whether the stream finished; `None` when it rejects the data.
pub uninterp spec fn zlib_decoded(gzip: bool, input: Seq<u8>) -> Option<(Seq<u8>, bool)>;

/// What `compu`'s Brotli decoder makes of a whole input: the output and whether
/// the stream finished; `None` when it rejects the data.
pub uninterp spec fn brotli_decoded(input: Seq<u8>) -> Option<(Seq<u8>, bool)>;

/// View of a decoder result.
pub open spec fn decode_view(r: Option<(Vec<u8>, bool)>) -> Option<(Seq<u8>, bool)> {
    match r {
        Some((out, done)) => Some((out@, done)),
        None => None,
    }
}

/// Relies on `compu::decoder::Interface::zlib_rust` in gzip or zlib mode and
/// `Decoder::decode_vec_full`: the output, and whether the status is
/// `Finished`; `None` when the decoder cannot start or reports an error.
#[verifier::external_body]
fn zlib_decode(gzip: bool, input: &[u8]) -> (r: Option<(Vec<u8>, bool)>)
    ensures
        decode_view(r) == zlib_decoded(gzip, input@),
{
    let mode = if gzip {
        compu::decoder::ZlibMode::Gzip
    } else {
        compu::decoder::ZlibMode::Zlib
    };
    let mut decoder = compu::decoder::Interface::zlib_rust(mode)?;
    let mut out = Vec::new();
    match decoder.decode_vec_full(input, &mut out) {
        Ok(d) => match d.status {
            Ok(status) => Some((out, status == compu::DecodeStatus::Finished)),
            Err(_) => None,
        },
        Err(_) => None,
    }
}

/// Relies on `compu::decoder::Interface::brotli_rust` and
/// `Decoder::decode_vec_full`: the output, and whether the status is
/// `Finished`; `None` when the decoder reports an error.
#[verifier::external_body]
fn brotli_decode(input: &[u8]) -> (r: Option<(Vec<u8>, bool)>)
    ensures
        decode_view(r) == brotli_decoded(input@),
{
    let mut decoder = compu::decoder::Interface::brotli_rust();
    let mut out = Vec::new();
    match decoder.decode_vec_full(input, &mut out) {
        Ok(d) => match d.status {
            Ok(status) => Some((out, status == compu::DecodeStatus::Finished)),
            Err(_) => None,
        },
        Err(_) => None,
    }
}

/// What a compressed body of this encoding decodes to; identity bytes are
/// themselves, and always finished.
pub open spec fn decoded_of(encoding: ContentEncoding, input: Seq<u8>) -> Option<(Seq<u8>, bool)> {
    match encoding {
        ContentEncoding::Gzip => zlib_decoded(true, input),
        ContentEncoding::Deflate => zlib_decoded(false, input),
        ContentEncoding::Brotli => brotli_decoded(input),
        ContentEncoding::Identity => Some((input, true)),
    }
}

/// Decodes a whole input.
pub fn decode(encoding: ContentEncoding, input: &[u8]) -> (r: Option<(Vec<u8>, bool)>)
    ensures
        decode_view(r) == decoded_of(encoding, input@),
{
    match encoding {
        ContentEncoding::Gzip => zlib_decode(true, input),
        ContentEncoding::Deflate => zlib_decode(false, input),
        ContentEncoding::Brotli => brotli_decode(input),
        ContentEncoding::Identity => {
            let mut v: Vec<u8> = Vec::new();
            let mut i: usize = 0;
            while i < input.len()
                invariant
                    0 <= i <= input@.len(),
                    v@ == input@.subrange(0, i as int),
                decreases input@.len() - i,
            {
                v.push(input[i]);
                i = i + 1;
                proof {
                    assert(v@ =~= input@.subrange(0, i as int));
                }
            }
            proof {
                assert(input@.subrange(0, input@.len() as int) =~= input@);
            }
            Some((v, true))
        },
    }
}

/// Whether every prefix of the first `n` chunks decodes, within the limit.
pub open spec fn prefixes_fit(encoding: ContentEncoding, chunks: Seq<Seq<u8>>, n: int, limit: nat) -> bool {
    forall|j: int|
        0 <= j < n ==> (#[trigger] decoded_of(encoding, flatten(chunks.subrange(0, j + 1))) matches Some(
            d,
        ) && d.0.len() <= limit)
}

/// Reads a body under a limit, decoding it per its encoding. Each raw chunk is
/// notified, in order, before any check. After each chunk the bytes received so
/// far are decoded: a decoder error gives `DecompressionError`, and decoded
/// output beyond the limit gives `Overflow` with that output. At the end, a
/// stream that did not finish gives `IncompleteDecompression`; otherwise the
/// decoded body, which never exceeds the limit.
pub fn collect_decoded<N: Notifier>(
    chunks: &Vec<Vec<u8>>,
    encoding: ContentEncoding,
    limit: Option<usize>,
    notifier: &mut N,
) -> (r: Result<Vec<u8>, BodyReadError>)
    ensures
        r matches Ok(b) ==> b@.len() <= limit_of(limit)
            && decoded_of(encoding, flatten(chunks_view(chunks@))) == Some((b@, true))
            && prefixes_fit(encoding, chunks_view(chunks@), chunks@.len() as int, limit_of(limit) as nat)
            && final(notifier).heard() == old(notifier).heard() + chunk_sizes(chunks_view(chunks@)),
        r matches Err(BodyReadError::IncompleteDecompression) ==> (if chunks@.len() == 0 {
            encoding != ContentEncoding::Identity
        } else {
            decoded_of(encoding, flatten(chunks_view(chunks@))) matches Some(d) && !d.1 && d.0.len()
                <= limit_of(limit)
        })
            && prefixes_fit(encoding, chunks_view(chunks@), chunks@.len() as int, limit_of(limit) as nat)
            && final(notifier).heard() == old(notifier).heard() + chunk_sizes(chunks_view(chunks@)),
        r matches Err(BodyReadError::Overflow(p)) ==> p@.len() > limit_of(limit) && exists|k: int|
            0 <= k < chunks@.len() && (#[trigger] decoded_of(
                encoding,
                flatten(chunks_view(chunks@).subrange(0, k + 1)),
            ) matches Some(d) && d.0 == p@) && prefixes_fit(
                encoding,
                chunks_view(chunks@),
                k,
                limit_of(limit) as nat,
            ) && final(notifier).heard() == old(notifier).heard() + chunk_sizes(
                chunks_view(chunks@).subrange(0, k + 1),
            ),
        r matches Err(BodyReadError::DecompressionError) ==> exists|k: int|
            0 <= k < chunks@.len() && #[trigger] decoded_of(
                encoding,
                flatten(chunks_view(chunks@).subrange(0, k + 1)),
            ) is None && prefixes_fit(encoding, chunks_view(chunks@), k, limit_of(limit) as nat)
                && final(notifier).heard() == old(notifier).heard() + chunk_sizes(
                chunks_view(chunks@).subrange(0, k + 1),
            ),
        r matches Err(e) ==> (e is IncompleteDecompression || e is Overflow || e is DecompressionError),
        encoding == ContentEncoding::Identity ==> !(r matches Err(BodyReadError::IncompleteDecompression))
            && !(r matches Err(BodyReadError::DecompressionError)),
{
    let (lim, _) = calculate_buffer_size(limit);
    let ghost cv = chunks_view(chunks@);
    let mut raw: Vec<u8> = Vec::new();
    let mut out: Vec<u8> = Vec::new();
    let mut done = true;
    let mut i: usize = 0;
    proof {
        assert(cv.subrange(0, 0) =~= Seq::<Seq<u8>>::empty());
        assert(flatten(Seq::<Seq<u8>>::empty()) =~= Seq::<u8>::empty());
        assert(chunk_sizes(Seq::<Seq<u8>>::empty()) =~= Seq::<usize>::empty());
    }
    while i < chunks.len()
        invariant
            0 <= i <= chunks@.len(),
            cv == chunks_view(chunks@),
            lim == limit_of(limit),
            raw@ == flatten(cv.subrange(0, i as int)),
            prefixes_fit(encoding, cv, i as int, lim as nat),
            notifier.heard() == old(notifier).heard() + chunk_sizes(cv.subrange(0, i as int)),
            encoding != ContentEncoding::Identity && i > 0 ==> decoded_of(encoding, raw@) == Some(
                (out@, done),
            ) && out@.len() <= lim,
            encoding == ContentEncoding::Identity ==> raw@.len() <= lim,
        decreases chunks@.len() - i,
    {
        notifier.send(chunks[i].len());
        let mut k: usize = 0;
        let ghost before = raw@;
        while k < chunks[i].len()
            invariant
                0 <= k <= chunks@[i as int]@.len(),
                i < chunks@.len(),
                raw@ == before + chunks@[i as int]@.subrange(0, k as int),
            decreases chunks@[i as int]@.len() - k,
        {
            raw.push(chunks[i][k]);
            k = k + 1;
            proof {
                assert(raw@ =~= before + chunks@[i as int]@.subrange(0, k as int));
            }
        }
        proof {
            assert(chunks@[i as int]@.subrange(0, chunks@[i as int]@.len() as int) =~= chunks@[i as int]@);
            let t = cv.subrange(0, i + 1);
            assert(t.drop_last() =~= cv.subrange(0, i as int));
            assert(t.last() == chunks@[i as int]@);
            assert(raw@ == flatten(t));
            assert(chunk_sizes(t) =~= chunk_sizes(cv.subrange(0, i as int)).push(
                chunks@[i as int]@.len() as usize,
            ));
        }
        if encoding == ContentEncoding::Identity {
            if raw.len() > lim {
                return Err(BodyReadError::Overflow(raw));
            }
        } else {
            match decode(encoding, raw.as_slice()) {
                None => {
                    return Err(BodyReadError::DecompressionError);
                },
                Some((o, d)) => {
                    if o.len() > lim {
                        return Err(BodyReadError::Overflow(o));
                    }
                    out = o;
                    done = d;
                },
            }
        }
        proof {
            assert forall|j: int| 0 <= j < i + 1 implies (#[trigger] decoded_of(
                encoding,
                flatten(cv.subrange(0, j + 1)),
            ) matches Some(d) && d.0.len() <= lim) by {
                if j < i {
                    assert(prefixes_fit(encoding, cv, i as int, lim as nat));
                }
            }
        }
        i = i + 1;
    }
    proof {
        assert(cv.subrange(0, chunks@.len() as int) =~= cv);
    }
    if i == 0 {
        if encoding == ContentEncoding::Identity {
            proof {
                assert(cv =~= Seq::<Seq<u8>>::empty());
                assert(flatten(cv) =~= Seq::<u8>::empty());
                assert(chunk_sizes(cv) =~= Seq::<usize>::empty());
                assert(notifier.heard() =~= old(notifier).heard() + chunk_sizes(cv));
            }
            return Ok(Vec::new());
        }
        return Err(BodyReadError::IncompleteDecompression);
    }
    if encoding == ContentEncoding::Identity {
        return Ok(raw);
    }
    if !done {
        return Err(BodyReadError::IncompleteDecompression);
    }
    Ok(out)
}

} // verus!
