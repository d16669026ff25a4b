//! How the data of an image reaches the terminal: inside the request, whole or in chunks, or
//! through a shared memory object.

use vstd::prelude::*;
use vstd::slice::slice_subrange;
use vstd::utf8::encode_utf8;

use crate::kitty::base64::b64;
use crate::kitty::base64::lemma_b64_len;
use crate::kitty::base64::write_b64;
use crate::text::push_text;
use crate::text::text;

verus! {

/// The size of a chunk, in groups of four base64 symbols; it is never zero.
#[derive(Clone, Copy, Debug, PartialEq, Eq, Structural)]
pub struct ChunkSize {
    size: u16,
}

impl View for ChunkSize {
    type V = u16;

    closed spec fn view(&self) -> u16 {
        self.size
    }
}

impl Default for ChunkSize {
    fn default() -> (r: ChunkSize)
        ensures
            r@ == 1024,
    {
        ChunkSize { size: 1024 }
    }
}

impl ChunkSize {
    #[verifier::type_invariant]
    spec fn is_nonzero(self) -> bool {
        self.size != 0
    }

    /// The number of groups.
    pub fn get(self) -> (r: u16)
        ensures
            r == self@,
            r != 0,
    {
        proof {
            use_type_invariant(&self);
        }
        self.size
    }
}

/// The step at which creating a shared memory object failed.
#[derive(Clone, Copy, Debug, PartialEq, Eq, Structural)]
pub enum ShmCreationFailureStep {
    ShmOpen,
    ShmSetSize,
    MemmapCreation,
}

/// A failure to create a shared memory object: the step, and the message of the system's error.
#[derive(Debug, PartialEq)]
pub struct ShmError<S = String> {
    pub step: ShmCreationFailureStep,
    pub err: S,
}

impl View for ShmError {
    type V = ShmError<Seq<char>>;

    open spec fn view(&self) -> ShmError<Seq<char>> {
        ShmError { step: self.step, err: self.err@ }
    }
}

impl ShmError<Seq<char>> {
    /// The message that is shown for the error.
    pub open spec fn message(self) -> Seq<char> {
        (match self.step {
            ShmCreationFailureStep::ShmOpen => "Couldn't open SHM: "@,
            ShmCreationFailureStep::ShmSetSize => "Couldn't set the size of the SHM: "@,
            ShmCreationFailureStep::MemmapCreation => {
                "Couldn't create the memmap necessary to write to this SHM: "@
            },
        }) + self.err
    }
}

impl ShmError {
    /// The message that is shown for the error.
    pub fn to_text(&self) -> (r: String)
        ensures
            r@ == self@.message(),
    {
        let start = match self.step {
            ShmCreationFailureStep::ShmOpen => "Couldn't open SHM: ",
            ShmCreationFailureStep::ShmSetSize => "Couldn't set the size of the SHM: ",
            ShmCreationFailureStep::MemmapCreation => {
                "Couldn't create the memmap necessary to write to this SHM: "
            },
        };
        start.to_owned().concat(self.err.as_str())
    }
}

/// A buffer was too large for the shared memory object that it was to be copied into.
#[derive(Clone, Copy, Debug, PartialEq, Eq, Structural)]
pub struct BufferTooLarge;

impl BufferTooLarge {
    /// The message that is shown for the error.
    pub fn to_text(&self) -> (r: String)
        ensures
            r@ == "Provided buffer is too large to fit"@,
    {
        "Provided buffer is too large to fit".to_owned()
    }
}

/// What a mapping holds once a buffer was copied to its start, where it fits.
pub open spec fn copied_in(map: Seq<u8>, buf: Seq<u8>) -> Seq<u8> {
    if buf.len() <= map.len() {
        buf + Seq::new((map.len() - buf.len()) as nat, |i: int| 0u8)
    } else {
        map
    }
}

/// A mapping keeps its size, holds every byte of a buffer that fits at the place where the buffer
/// has it, and is zero behind it; of a buffer that does not fit it takes nothing.
pub proof fn lemma_copied_in(map: Seq<u8>, buf: Seq<u8>, i: int)
    requires
        0 <= i < map.len(),
    ensures
        copied_in(map, buf).len() == map.len(),
        buf.len() <= map.len() && i < buf.len() ==> copied_in(map, buf)[i] == buf[i],
        buf.len() <= map.len() && i >= buf.len() ==> copied_in(map, buf)[i] == 0,
        buf.len() > map.len() ==> copied_in(map, buf)[i] == map[i],
        buf.len() == map.len() ==> copied_in(map, buf) == buf,
{
    if buf.len() == map.len() {
        assert(copied_in(map, buf) =~= buf);
    }
}

/// A shared memory object: its name, and the bytes that its mapping holds.
#[derive(Debug)]
pub struct SharedMemObject {
    name: String,
    map: Vec<u8>,
}

impl PartialEq for SharedMemObject {
    /// Objects are equal where their names are.
    fn eq(&self, other: &Self) -> (r: bool) {
        self.name == other.name
    }
}

impl vstd::std_specs::cmp::PartialEqSpecImpl for SharedMemObject {
    open spec fn obeys_eq_spec() -> bool {
        true
    }

    open spec fn eq_spec(&self, other: &Self) -> bool {
        self.spec_name() == other.spec_name()
    }
}

impl SharedMemObject {
    /// The name of the object.
    pub closed spec fn spec_name(&self) -> Seq<char> {
        self.name@
    }

    /// The bytes that the mapping holds.
    pub closed spec fn spec_map(&self) -> Seq<u8> {
        self.map@
    }

    /// The object that the system created under `name` with `size` bytes, all of them zero;
    /// where a step of its creation failed, that step and its error.
    pub fn create_new(
        name: &str,
        size: usize,
        failure: Option<(ShmCreationFailureStep, String)>,
    ) -> (r: Result<SharedMemObject, ShmError>)
        ensures
            match r {
                Ok(obj) => failure is None && obj.spec_name() == name@ && obj.spec_map() == Seq::new(
                    size as nat,
                    |i: int| 0u8,
                ),
                Err(e) => failure matches Some(f) && e.step == f.0 && e.err == f.1,
            },
    {
        match failure {
            Some((step, err)) => Err(ShmError { step, err }),
            None => {
                let map: Vec<u8> = vec![0; size];
                assert(map@ =~= Seq::new(size as nat, |i: int| 0u8));
                Ok(SharedMemObject { name: name.to_owned(), map })
            },
        }
    }

    /// The name of the object.
    pub fn name(&self) -> (r: &str)
        ensures
            r@ == self.spec_name(),
    {
        self.name.as_str()
    }

    /// The bytes that the mapping is to hold.
    pub fn map(&self) -> (r: &[u8])
        ensures
            r@ == self.spec_map(),
    {
        self.map.as_slice()
    }

    /// Copies `buf` to the start of the mapping and fills the rest with zeros. A buffer that is
    /// longer than the mapping is refused, and nothing is changed.
    pub fn copy_in_buf(&mut self, buf: &[u8]) -> (r: Result<(), BufferTooLarge>)
        ensures
            final(self).spec_name() == old(self).spec_name(),
            r is Ok <==> buf@.len() <= old(self).spec_map().len(),
            r is Ok ==> final(self).spec_map() == buf@ + Seq::new(
                (old(self).spec_map().len() - buf@.len()) as nat,
                |i: int| 0u8,
            ),
            r is Err ==> final(self).spec_map() == old(self).spec_map(),
            final(self).spec_map() == copied_in(old(self).spec_map(), buf@),
    {
        let len: usize = self.map.len();
        if buf.len() > len {
            return Err(BufferTooLarge);
        }
        let mut filled: Vec<u8> = Vec::new();
        filled.extend_from_slice(buf);
        filled.resize(len, 0);
        assert(filled@ =~= buf@ + Seq::new((len - buf@.len()) as nat, |i: int| 0u8)) by {
            assert(filled@.subrange(0, buf@.len() as int) =~= buf@);
            assert forall|i: int| 0 <= i < buf@.len() implies filled@[i] == buf@[i] by {
                assert(filled@.subrange(0, buf@.len() as int)[i] == buf@[i]);
            }
        }
        self.map = filled;
        Ok(())
    }
}

/// Where the data of an image is.
#[derive(Debug, PartialEq)]
pub enum Medium {
    Direct { chunk_size: Option<ChunkSize>, data: Vec<u8> },
    SharedMemObject(SharedMemObject),
}

/// Cuts `data` into chunks of `size` bytes; the last one may be shorter.
pub open spec fn data_chunks(data: Seq<u8>, size: nat) -> Seq<Seq<u8>>
    decreases data.len(),
{
    if data.len() == 0 || size == 0 {
        Seq::empty()
    } else if data.len() <= size {
        seq![data]
    } else {
        seq![data.take(size as int)] + data_chunks(data.skip(size as int), size)
    }
}

/// The packets of a row of chunks: each says whether more follow and carries its chunk in
/// base64, and each but the first of the request starts a packet of its own.
pub open spec fn chunk_packets(chunks: Seq<Seq<u8>>, first: bool) -> Seq<u8>
    decreases chunks.len(),
{
    if chunks.len() == 0 {
        Seq::empty()
    } else {
        (if first {
            text("m=")
        } else {
            text("\x1b_Gm=")
        }) + (if chunks.len() > 1 {
            text("1;")
        } else {
            text("0;")
        }) + b64(chunks[0]) + text("\x1b\\") + chunk_packets(chunks.drop_first(), false)
    }
}

/// Appends `data` in chunks of `size` bytes.
fn write_chunks(data: &[u8], size: usize, buf: &mut Vec<u8>)
    requires
        size > 0,
    ensures
        final(buf)@ == old(buf)@ + chunk_packets(data_chunks(data@, size as nat), true),
{
    let mut pos: usize = 0;
    assert(data@.skip(0) =~= data@);
    while pos < data.len()
        invariant
            size > 0,
            pos <= data@.len(),
            buf@ + chunk_packets(data_chunks(data@.skip(pos as int), size as nat), pos == 0) == old(
                buf,
            )@ + chunk_packets(data_chunks(data@, size as nat), true),
        decreases data.len() - pos,
    {
        let ghost before = buf@;
        let ghost rest = data@.skip(pos as int);
        let ghost chunks = data_chunks(rest, size as nat);
        let more: bool = data.len() - pos > size;
        let end: usize = if more {
            pos + size
        } else {
            data.len()
        };
        if pos == 0 {
            push_text(buf, "m=");
        } else {
            push_text(buf, "\x1b_Gm=");
        }
        if more {
            push_text(buf, "1;");
        } else {
            push_text(buf, "0;");
        }
        let chunk = slice_subrange(data, pos, end);
        write_b64(chunk, buf);
        push_text(buf, "\x1b\\");
        proof {
            let later = data_chunks(data@.skip(end as int), size as nat);
            if more {
                assert(rest.take(size as int) =~= chunk@);
                assert(rest.skip(size as int) =~= data@.skip(end as int));
                assert(chunks.drop_first() =~= later);
                lemma_chunks_nonempty(data@.skip(end as int), size as nat);
            } else {
                assert(rest =~= chunk@);
                assert(chunks.drop_first() =~= Seq::empty());
                assert(later =~= Seq::empty());
            }
            assert(buf@ + chunk_packets(later, false) =~= before + chunk_packets(chunks, pos == 0));
        }
        pos = end;
    }
    assert(data@.skip(pos as int) =~= Seq::empty());
    assert(buf@ + chunk_packets(Seq::empty(), pos == 0) =~= buf@);
}

/// Data that is not empty has a chunk.
proof fn lemma_chunks_nonempty(data: Seq<u8>, size: nat)
    requires
        data.len() > 0,
        size > 0,
    ensures
        data_chunks(data, size).len() > 0,
{
}

impl Medium {
    /// What the request says of the medium, and the data that it carries: in chunks, whole, or
    /// as the name of a shared memory object.
    pub open spec fn bytes(self) -> Seq<u8> {
        match self {
            Medium::Direct { chunk_size: Some(size), data } => {
                text(",t=d,") + chunk_packets(data_chunks(data@, (size@ * 3) as nat), true)
            },
            Medium::Direct { chunk_size: None, data } => text(",t=d;") + b64(data@),
            Medium::SharedMemObject(obj) => text(",t=s;") + b64(encode_utf8(obj.spec_name())),
        }
    }

    /// Appends the medium and its data.
    pub fn write_data(&self, buf: &mut Vec<u8>)
        ensures
            final(buf)@ == old(buf)@ + self.bytes(),
    {
        match self {
            Medium::Direct { chunk_size, data } => {
                if let Some(size) = chunk_size {
                    push_text(buf, ",t=d,");
                    let bytes_per_chunk: usize = size.get() as usize * 3;
                    write_chunks(data.as_slice(), bytes_per_chunk, buf);
                } else {
                    push_text(buf, ",t=d;");
                    write_b64(data.as_slice(), buf);
                }
            },
            Medium::SharedMemObject(obj) => {
                push_text(buf, ",t=s;");
                write_b64(obj.name().as_bytes(), buf);
            },
        }
        assert(buf@ =~= old(buf)@ + self.bytes());
    }
}

/// The chunks put together, in order, are the data.
pub proof fn lemma_chunks_flatten(data: Seq<u8>, size: nat)
    requires
        size > 0,
    ensures
        data_chunks(data, size).flatten() == data,
    decreases data.len(),
{
    reveal_with_fuel(Seq::<_>::flatten, 3);
    let chunks = data_chunks(data, size);
    if data.len() == 0 {
        assert(chunks.flatten() =~= data);
    } else if data.len() <= size {
        assert(chunks.drop_first() =~= Seq::empty());
        assert(chunks.flatten() =~= data);
    } else {
        let rest = data.skip(size as int);
        lemma_chunks_flatten(rest, size);
        assert(chunks.drop_first() =~= data_chunks(rest, size));
        assert(chunks.flatten() =~= data);
    }
}

/// Every chunk but the last is full, and the last is neither empty nor more than full; there are
/// as many chunks as it takes.
pub proof fn lemma_chunk_sizes(data: Seq<u8>, size: nat)
    requires
        size > 0,
    ensures
        forall|i: int|
            0 <= i < data_chunks(data, size).len() - 1 ==> (#[trigger] data_chunks(
                data,
                size,
            )[i]).len() == size,
        data.len() > 0 ==> 0 < data_chunks(data, size).last().len() <= size,
        data_chunks(data, size).len() == (data.len() + size - 1) / size as int,
    decreases data.len(),
{
    let chunks = data_chunks(data, size);
    if data.len() > size {
        let rest = data.skip(size as int);
        lemma_chunk_sizes(rest, size);
        lemma_chunks_nonempty(rest, size);
        let later = data_chunks(rest, size);
        assert forall|i: int| 0 <= i < chunks.len() - 1 implies (#[trigger] chunks[i]).len()
            == size by {
            if i > 0 {
                assert(chunks[i] == later[i - 1]);
            }
        }
        assert(chunks.last() == later.last());
        let n = rest.len() + size - 1;
        assert((n + size) / size as int == n / size as int + 1) by (nonlinear_arith)
            requires
                size > 0,
                n >= 0,
        ;
    } else if data.len() == 0 {
        assert((size - 1) / size as int == 0) by (nonlinear_arith)
            requires
                size > 0,
        ;
    } else {
        let n = data.len();
        assert((n + size - 1) / size as int == 1) by (nonlinear_arith)
            requires
                0 < n <= size,
        ;
    }
}

/// With the default chunk size a packet carries at most 4096 symbols.
pub proof fn lemma_default_chunk_fits(data: Seq<u8>, i: int)
    requires
        0 <= i < data_chunks(data, 3 * 1024).len(),
    ensures
        b64(data_chunks(data, 3 * 1024)[i]).len() <= 4096,
{
    lemma_chunk_sizes(data, 3 * 1024);
    let chunks = data_chunks(data, 3 * 1024);
    assert(i == chunks.len() - 1 ==> chunks[i] == chunks.last());
    if data.len() == 0 {
        assert(false);
    }
    lemma_b64_len(chunks[i]);
}

} // verus!
