//! Reading a request body into memory under a size limit.

use vstd::prelude::*;

verus! {

/// The most that is asked of a stream at once.
pub const CHUNK_SIZE: usize = 1024;

/// Why a stream could not be read.
#[derive(Debug, Clone, Copy, PartialEq, Eq, Structural)]
pub enum IoError {
    /// The stream ended before the announced length was read.
    UnexpectedEof,
    /// The stream handed out more than was asked for.
    Overrun,
    /// The stream itself failed.
    Failed,
}

/// Why a body was not read.
#[derive(Debug, Clone, Copy, PartialEq, Eq, Structural)]
pub enum ReadError {
    /// The body is larger than the limit.
    TooBig,
    /// The stream failed.
    Io(IoError),
}

/// What a chunk holds, or the error.
pub open spec fn chunk_view(r: Result<Vec<u8>, IoError>) -> Result<Seq<u8>, IoError> {
    match r {
        Ok(chunk) => Ok(chunk@),
        Err(e) => Err(e),
    }
}

/// What a body holds, or the error.
pub open spec fn body_view(r: Result<Vec<u8>, ReadError>) -> Result<Seq<u8>, ReadError> {
    match r {
        Ok(data) => Ok(data@),
        Err(e) => Err(e),
    }
}

/// A source of bytes, such as the body of a request.
///
/// Beside the function stands a relation that says what the stream may hand
/// out. A stream that does not say may hand out anything: what is proved of
/// a reader then holds whatever it is handed. A stream that says more, as
/// the one in memory does, makes the reader say more.
pub trait ByteStream {
    /// Whether the stream, asked for at most `max` bytes, may turn into
    /// `after` and hand out `r`.
    open spec fn yields(&self, max: usize, after: &Self, r: Result<Seq<u8>, IoError>) -> bool {
        true
    }

    /// Hands out the next bytes of the stream, at most `max` of them. An
    /// empty chunk says that the stream has ended.
    fn read_chunk(&mut self, max: usize) -> (r: Result<Vec<u8>, IoError>)
        ensures
            old(self).yields(max, final(self), chunk_view(r)),
    ;
}

/// What has been read of a body so far, and what is still to come.
///
/// With an announced length the reader takes in exactly that many bytes;
/// without one it takes in chunks until the stream ends, and fails as soon as
/// they add up to more than the limit.
pub struct Reading {
    /// The most that the body may hold.
    pub limit: usize,
    /// The length announced for the body, if any.
    pub announced: Option<usize>,
    /// The bytes taken in so far.
    pub data: Seq<u8>,
    /// Whether the end of a body without announced length has been seen.
    pub ended: bool,
}

impl Reading {
    /// The beginning of a body.
    pub open spec fn start(limit: usize, announced: Option<usize>) -> Reading {
        Reading { limit, announced, data: Seq::empty(), ended: false }
    }

    /// What holds of every reading: it never holds more than the limit, nor
    /// more than was announced, and only a body without announced length has
    /// an end to be seen.
    pub open spec fn wf(self) -> bool {
        &&& self.data.len() <= self.limit
        &&& self.announced matches Some(n) ==> self.data.len() <= n <= self.limit
            && !self.ended
    }

    /// How many bytes to ask of the stream next; none where the body is
    /// complete.
    pub open spec fn wanted(self) -> nat {
        match self.announced {
            Some(n) => if n - self.data.len() <= CHUNK_SIZE {
                (n - self.data.len()) as nat
            } else {
                CHUNK_SIZE as nat
            },
            None => if self.ended {
                0
            } else {
                CHUNK_SIZE as nat
            },
        }
    }

    /// What taking in a chunk does to a reading that still wants bytes. A
    /// chunk longer than was asked for is an error. An empty chunk ends a
    /// body without announced length and is an error in one with. A chunk
    /// that would take the body over the limit is `TooBig`.
    pub open spec fn fed(self, chunk: Seq<u8>) -> Result<Reading, ReadError> {
        if chunk.len() > self.wanted() {
            Err(ReadError::Io(IoError::Overrun))
        } else if chunk.len() == 0 {
            match self.announced {
                Some(_) => Err(ReadError::Io(IoError::UnexpectedEof)),
                None => Ok(Reading { ended: true, ..self }),
            }
        } else if self.data.len() + chunk.len() > self.limit {
            Err(ReadError::TooBig)
        } else {
            Ok(Reading { data: self.data + chunk, ..self })
        }
    }

    /// How far a reading is from its end, at most.
    pub open spec fn distance(self) -> nat {
        if self.wf() {
            (self.limit - self.data.len() + self.wanted()) as nat
        } else {
            0
        }
    }

    /// Whether reading on from here, from `stream`, may leave the stream as
    /// `after` and end with `r`: the body, where no more is wanted; and else
    /// what comes of the next chunk that the stream may hand out, be it the
    /// stream's error, the reader's, or reading on.
    pub open spec fn reads<S: ByteStream>(
        self,
        stream: S,
        after: S,
        r: Result<Seq<u8>, ReadError>,
    ) -> bool
        decreases self.distance(),
    {
        if !self.wf() {
            false
        } else if self.wanted() == 0 {
            r == Ok::<Seq<u8>, ReadError>(self.data) && after == stream
        } else {
            exists|next: S, chunk: Result<Seq<u8>, IoError>| #[trigger]
                stream.yields(self.wanted() as usize, &next, chunk) && match chunk {
                    Err(e) => r == Err::<Seq<u8>, ReadError>(ReadError::Io(e)) && after == next,
                    Ok(bytes) => match self.fed(bytes) {
                        Err(e) => r == Err::<Seq<u8>, ReadError>(e) && after == next,
                        Ok(further) => further.reads_on(self, next, after, r),
                    },
                }
        }
    }

    /// Reading on after a chunk was taken in, which brings the end nearer.
    pub open spec fn reads_on<S: ByteStream>(
        self,
        before: Reading,
        stream: S,
        after: S,
        r: Result<Seq<u8>, ReadError>,
    ) -> bool
        decreases before.distance(), 0nat,
    {
        self.distance() < before.distance() && self.reads(stream, after, r)
    }
}

/// Taking in a chunk keeps a reading well-formed and brings its end nearer.
pub proof fn lemma_fed_is_nearer(reading: Reading, chunk: Seq<u8>)
    requires
        reading.wf(),
        reading.wanted() > 0,
        reading.fed(chunk) is Ok,
    ensures
        reading.fed(chunk)->Ok_0.wf(),
        reading.fed(chunk)->Ok_0.distance() < reading.distance(),
        reading.fed(chunk)->Ok_0.limit == reading.limit,
        reading.fed(chunk)->Ok_0.announced == reading.announced,
{
}

/// A body without announced length fails with `TooBig` as soon as a chunk
/// would take it over the limit, whatever has been read before, and holds
/// every chunk that does not.
pub proof fn lemma_unannounced_over_limit(reading: Reading, chunk: Seq<u8>)
    requires
        reading.wf(),
        reading.announced is None,
        !reading.ended,
        0 < chunk.len() <= CHUNK_SIZE,
    ensures
        reading.data.len() + chunk.len() > reading.limit ==> reading.fed(chunk) == Err::<
            Reading,
            ReadError,
        >(ReadError::TooBig),
        reading.data.len() + chunk.len() <= reading.limit ==> reading.fed(chunk) == Ok::<
            Reading,
            ReadError,
        >(Reading { data: reading.data + chunk, ..reading }),
{
}

/// With an announced length, a chunk never takes the body over the limit:
/// `TooBig` comes from the announcement alone, or from a body without one.
pub proof fn lemma_too_big_only_unannounced(reading: Reading, chunk: Seq<u8>)
    requires
        reading.wf(),
        reading.wanted() > 0,
        reading.fed(chunk) == Err::<Reading, ReadError>(ReadError::TooBig),
    ensures
        reading.announced is None,
        reading.data.len() + chunk.len() > reading.limit,
{
}

/// The reader of a body: what has been read so far, and what is still to
/// come.
pub struct BoundedReader {
    limit: usize,
    announced: Option<usize>,
    data: Vec<u8>,
    ended: bool,
}

impl View for BoundedReader {
    type V = Reading;

    closed spec fn view(&self) -> Reading {
        Reading {
            limit: self.limit,
            announced: self.announced,
            data: self.data@,
            ended: self.ended,
        }
    }
}

impl BoundedReader {
    /// A reader for a body of at most `limit` bytes. An announced length
    /// above the limit is refused at once.
    pub fn new(limit: usize, announced: Option<u64>) -> (r: Result<Self, ReadError>)
        ensures
            match r {
                Ok(reader) => match announced {
                    Some(n) => n <= limit && reader@ == Reading::start(limit, Some(n as usize)),
                    None => reader@ == Reading::start(limit, None),
                },
                Err(e) => e == ReadError::TooBig && (announced matches Some(n) && n > limit),
            },
            r matches Ok(reader) ==> reader@.wf(),
    {
        let announced = match announced {
            Some(n) => {
                if n > limit as u64 {
                    return Err(ReadError::TooBig);
                }
                Some(n as usize)
            },
            None => None,
        };
        Ok(BoundedReader { limit, announced, data: Vec::new(), ended: false })
    }

    /// How many bytes to ask of the stream next; none where the body is
    /// complete.
    pub fn wanted(&self) -> (n: usize)
        requires
            self@.wf(),
        ensures
            n == self@.wanted(),
    {
        match self.announced {
            Some(n) => {
                let rest = n - self.data.len();
                if rest <= CHUNK_SIZE {
                    rest
                } else {
                    CHUNK_SIZE
                }
            },
            None => {
                if self.ended {
                    0
                } else {
                    CHUNK_SIZE
                }
            },
        }
    }

    /// Takes in the chunk that the stream handed out, as `Reading::fed`
    /// says. After an error the reader is as it was.
    pub fn feed(&mut self, chunk: Vec<u8>) -> (r: Result<(), ReadError>)
        requires
            old(self)@.wf(),
            old(self)@.wanted() > 0,
        ensures
            match r {
                Ok(()) => old(self)@.fed(chunk@) == Ok::<Reading, ReadError>(final(self)@),
                Err(e) => old(self)@.fed(chunk@) == Err::<Reading, ReadError>(e) && final(self)@
                    == old(self)@,
            },
            final(self)@.wf(),
    {
        if chunk.len() > self.wanted() {
            return Err(ReadError::Io(IoError::Overrun));
        }
        if chunk.len() == 0 {
            return match self.announced {
                Some(_) => Err(ReadError::Io(IoError::UnexpectedEof)),
                None => {
                    self.ended = true;
                    Ok(())
                },
            };
        }
        if chunk.len() > self.limit - self.data.len() {
            return Err(ReadError::TooBig);
        }
        let mut chunk = chunk;
        self.data.append(&mut chunk);
        Ok(())
    }

    /// The body, once it is complete.
    pub fn into_data(self) -> (data: Vec<u8>)
        requires
            self@.wf(),
            self@.wanted() == 0,
        ensures
            data@ == self@.data,
            data@.len() <= self@.limit,
            self@.announced matches Some(n) ==> data@.len() == n,
    {
        self.data
    }
}

/// Whether loading a body of at most `limit` bytes from `stream`, with the
/// length `data_length` announced or none, may leave the stream as `after`
/// and end with `r`. An announced length above the limit is `TooBig`, and
/// the stream is not read. Else the body is read chunk by chunk, as
/// `Reading::reads` says.
pub open spec fn loads<S: ByteStream>(
    stream: S,
    limit: usize,
    data_length: Option<u64>,
    after: S,
    r: Result<Seq<u8>, ReadError>,
) -> bool {
    match data_length {
        Some(n) => if n > limit {
            r == Err::<Seq<u8>, ReadError>(ReadError::TooBig) && after == stream
        } else {
            Reading::start(limit, Some(n as usize)).reads(stream, after, r)
        },
        None => Reading::start(limit, None).reads(stream, after, r),
    }
}

/// A body that was loaded holds no more than the limit, and as many bytes
/// as were announced.
pub proof fn lemma_loaded_is_bounded<S: ByteStream>(
    stream: S,
    limit: usize,
    data_length: Option<u64>,
    after: S,
    data: Seq<u8>,
)
    requires
        loads(stream, limit, data_length, after, Ok(data)),
    ensures
        data.len() <= limit,
        data_length matches Some(n) ==> data.len() == n,
{
    let start = Reading::start(
        limit,
        match data_length {
            Some(n) => Some(n as usize),
            None => None,
        },
    );
    lemma_read_is_bounded(start, stream, after, data);
}

proof fn lemma_read_is_bounded<S: ByteStream>(reading: Reading, stream: S, after: S, data: Seq<u8>)
    requires
        reading.reads(stream, after, Ok(data)),
    ensures
        data.len() <= reading.limit,
        reading.announced matches Some(n) ==> data.len() == n,
    decreases reading.distance(),
{
    if reading.wanted() > 0 {
        let (next, chunk) = choose|next: S, chunk: Result<Seq<u8>, IoError>| #[trigger]
            stream.yields(reading.wanted() as usize, &next, chunk) && match chunk {
                Err(e) => Ok::<Seq<u8>, ReadError>(data) == Err::<Seq<u8>, ReadError>(
                    ReadError::Io(e),
                ) && after == next,
                Ok(bytes) => match reading.fed(bytes) {
                    Err(e) => Ok::<Seq<u8>, ReadError>(data) == Err::<Seq<u8>, ReadError>(e)
                        && after == next,
                    Ok(further) => further.reads_on(reading, next, after, Ok(data)),
                },
            };
        let further = reading.fed(chunk->Ok_0)->Ok_0;
        lemma_fed_is_nearer(reading, chunk->Ok_0);
        lemma_read_is_bounded(further, next, after, data);
    }
}

/// Loads a body from a stream: exactly `data_length` bytes where a length is
/// announced, and else chunk by chunk until the stream ends.
///
/// An announced length above `limit` is `TooBig`, and the stream is not
/// read. A body that comes out holds no more than `limit` bytes, and as many
/// as announced.
pub fn load_data<S: ByteStream>(stream: &mut S, limit: usize, data_length: Option<u64>) -> (r:
    Result<Vec<u8>, ReadError>)
    ensures
        loads(*old(stream), limit, data_length, *final(stream), body_view(r)),
        data_length matches Some(n) && n > limit ==> r == Err::<Vec<u8>, ReadError>(
            ReadError::TooBig,
        ) && *final(stream) == *old(stream),
        r matches Ok(data) ==> data@.len() <= limit && (data_length matches Some(n)
            ==> data@.len() == n),
{
    let mut reader = match BoundedReader::new(limit, data_length) {
        Ok(reader) => reader,
        Err(e) => {
            return Err(e);
        },
    };
    let ghost start = reader@;
    loop
        invariant
            reader@.wf(),
            reader@.limit == limit,
            reader@.announced == start.announced,
            match data_length {
                Some(n) => n <= limit && start == Reading::start(limit, Some(n as usize)),
                None => start == Reading::start(limit, None),
            },
            forall|after: S, r: Result<Seq<u8>, ReadError>| #[trigger]
                reader@.reads(*stream, after, r) ==> start.reads(*old(stream), after, r),
        decreases reader@.distance(),
    {
        let wanted = reader.wanted();
        if wanted == 0 {
            let data = reader.into_data();
            assert(reader@.reads(*stream, *stream, Ok(data@)));
            return Ok(data);
        }
        let ghost reading = reader@;
        let ghost source = *stream;
        let ghost asked = reading.wanted() as usize;
        let handed = stream.read_chunk(wanted);
        let ghost seen = chunk_view(handed);
        assert(source.yields(asked, &*stream, seen));
        let chunk = match handed {
            Ok(chunk) => chunk,
            Err(e) => {
                assert(reading.reads(source, *stream, Err(ReadError::Io(e))));
                return Err(ReadError::Io(e));
            },
        };
        match reader.feed(chunk) {
            Ok(()) => {},
            Err(e) => {
                assert(reading.reads(source, *stream, Err(e)));
                return Err(e);
            },
        }
        proof {
            lemma_fed_is_nearer(reading, seen->Ok_0);
            assert forall|after: S, r: Result<Seq<u8>, ReadError>| #[trigger]
                reader@.reads(*stream, after, r) implies start.reads(*old(stream), after, r) by {
                assert(reader@.reads_on(reading, *stream, after, r));
                assert(reading.reads(source, after, r));
            }
        }
    }
}

/// A stream over bytes held in memory.
pub struct MemoryStream {
    data: Vec<u8>,
    position: usize,
}

impl MemoryStream {
    #[verifier::type_invariant]
    closed spec fn within_bounds(&self) -> bool {
        self.position <= self.data@.len()
    }

    /// The bytes that the stream has yet to hand out.
    pub closed spec fn remaining(&self) -> Seq<u8> {
        self.data@.skip(self.position as int)
    }

    /// A stream that hands out `data` from its start.
    pub fn new(data: Vec<u8>) -> (stream: Self)
        ensures
            stream.remaining() == data@,
    {
        MemoryStream { data, position: 0 }
    }

    /// Hands out the next bytes, at most `max` of them.
    pub fn take(&mut self, max: usize) -> (chunk: Vec<u8>)
        ensures
            chunk@.len() == vstd::math::min(max as int, old(self).remaining().len() as int),
            chunk@ == old(self).remaining().take(chunk@.len() as int),
            final(self).remaining() == old(self).remaining().skip(chunk@.len() as int),
    {
        proof {
            use_type_invariant(&*self);
        }
        let left = self.data.len() - self.position;
        let n = if max < left {
            max
        } else {
            left
        };
        let mut chunk: Vec<u8> = Vec::new();
        let ghost start = self.position;
        let mut i: usize = 0;
        while i < n
            invariant
                i <= n,
                start + n <= self.data@.len() <= usize::MAX,
                self.position == start,
                chunk@ == self.data@.subrange(start as int, start + i),
            decreases n - i,
        {
            chunk.push(self.data[self.position + i]);
            assert(self.data@.subrange(start as int, start + i + 1) =~= self.data@.subrange(
                start as int,
                start + i,
            ).push(self.data@[start + i]));
            i = i + 1;
        }
        self.position = self.position + n;
        assert(chunk@ =~= old(self).remaining().take(n as int));
        assert(self.remaining() =~= old(self).remaining().skip(n as int));
        chunk
    }
}

impl ByteStream for MemoryStream {
    /// The stream hands out the next bytes that it holds, as many as are
    /// asked for or as it has, and never fails.
    open spec fn yields(&self, max: usize, after: &Self, r: Result<Seq<u8>, IoError>) -> bool {
        let n = vstd::math::min(max as int, self.remaining().len() as int);
        &&& r == Ok::<Seq<u8>, IoError>(self.remaining().take(n))
        &&& after.remaining() == self.remaining().skip(n)
    }

    fn read_chunk(&mut self, max: usize) -> (r: Result<Vec<u8>, IoError>) {
        Ok(self.take(max))
    }
}

/// What loading a body from bytes in memory comes to. With an announced
/// length: `TooBig` where it is above the limit, an early end where the bytes
/// are fewer, and else the first bytes, as many as announced. Without one:
/// `TooBig` where the bytes are more than the limit, and else all of them.
pub open spec fn loaded_from(bytes: Seq<u8>, limit: usize, data_length: Option<u64>) -> Result<
    Seq<u8>,
    ReadError,
> {
    match data_length {
        Some(n) => if n > limit {
            Err(ReadError::TooBig)
        } else if bytes.len() < n {
            Err(ReadError::Io(IoError::UnexpectedEof))
        } else {
            Ok(bytes.take(n as int))
        },
        None => if bytes.len() > limit {
            Err(ReadError::TooBig)
        } else {
            Ok(bytes)
        },
    }
}

/// What reading on from bytes in memory comes to.
pub open spec fn read_from(reading: Reading, rest: Seq<u8>) -> Result<Seq<u8>, ReadError> {
    match reading.announced {
        Some(n) => if rest.len() < n - reading.data.len() {
            Err(ReadError::Io(IoError::UnexpectedEof))
        } else {
            Ok(reading.data + rest.take(n - reading.data.len()))
        },
        None => if reading.ended {
            Ok(reading.data)
        } else if reading.data.len() + rest.len() > reading.limit {
            Err(ReadError::TooBig)
        } else {
            Ok(reading.data + rest)
        },
    }
}

/// Reading on from a stream in memory comes to what `read_from` says of the
/// bytes that the stream has yet to hand out.
pub proof fn lemma_read_from_memory(
    reading: Reading,
    stream: MemoryStream,
    after: MemoryStream,
    r: Result<Seq<u8>, ReadError>,
)
    requires
        reading.reads(stream, after, r),
    ensures
        r == read_from(reading, stream.remaining()),
    decreases reading.distance(),
{
    let rest = stream.remaining();
    if reading.wanted() == 0 {
        assert(reading.data + rest.take(0) =~= reading.data);
    } else {
        let asked = reading.wanted() as usize;
        let (next, chunk) = choose|next: MemoryStream, chunk: Result<Seq<u8>, IoError>|
            #[trigger]
            stream.yields(asked, &next, chunk) && match chunk {
                Err(e) => r == Err::<Seq<u8>, ReadError>(ReadError::Io(e)) && after == next,
                Ok(bytes) => match reading.fed(bytes) {
                    Err(e) => r == Err::<Seq<u8>, ReadError>(e) && after == next,
                    Ok(further) => further.reads_on(reading, next, after, r),
                },
            };
        let bytes = chunk->Ok_0;
        let k = bytes.len() as int;
        match reading.fed(bytes) {
            Err(e) => {},
            Ok(further) => {
                lemma_read_from_memory(further, next, after, r);
                let left = next.remaining();
                assert(left == rest.skip(k));
                match reading.announced {
                    Some(n) => {
                        let more = n - reading.data.len() - k;
                        if left.len() >= more {
                            assert((reading.data + bytes) + left.take(more) =~= reading.data
                                + rest.take(n - reading.data.len()));
                        }
                    },
                    None => {
                        if k == 0 {
                            assert(rest.len() == 0);
                            assert(reading.data + rest =~= reading.data);
                        } else {
                            assert((reading.data + bytes) + left =~= reading.data + rest);
                        }
                    },
                }
            },
        }
    }
}

/// Loading a body from a stream in memory comes to what `loaded_from` says
/// of the bytes that the stream holds: a body announced as larger than the
/// limit, or found to be larger, is `TooBig` and never cut short; one that
/// ends early is an error; and a body within the limit comes out whole.
pub proof fn lemma_load_from_memory(
    stream: MemoryStream,
    limit: usize,
    data_length: Option<u64>,
    after: MemoryStream,
    r: Result<Seq<u8>, ReadError>,
)
    requires
        loads(stream, limit, data_length, after, r),
    ensures
        r == loaded_from(stream.remaining(), limit, data_length),
{
    let bytes = stream.remaining();
    match data_length {
        Some(n) => {
            if n <= limit {
                let start = Reading::start(limit, Some(n as usize));
                lemma_read_from_memory(start, stream, after, r);
                assert(start.data + bytes.take(n as int) =~= bytes.take(n as int));
            }
        },
        None => {
            let start = Reading::start(limit, None);
            lemma_read_from_memory(start, stream, after, r);
            assert(start.data + bytes =~= bytes);
        },
    }
}

} // verus!
