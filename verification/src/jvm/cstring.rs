//! Words and zero-terminated strings in guest memory, read piece by piece.
//!
//! Guest memory is read by the caller. A `CStringReader` says which byte it wants next and
//! takes the answer.
use crate::bytes;
use crate::jvm::guest;
use crate::jvm::handles::ScratchAllocator;
use crate::text;
use vstd::prelude::*;
use vstd::utf8::*;

verus! {

/// Addresses below this one are never read as strings.
pub const LOWEST_STRING_ADDR: u64 = 0x1000;

/// The number of bytes after which a string ends at the latest.
pub const LONGEST_STRING: u64 = 256;

/// What a reader wants.
#[derive(Debug, Clone, Copy, PartialEq, Eq, Structural)]
pub enum ByteRequest {
    /// The byte at this address.
    Byte(u64),
    /// Nothing more.
    Finished,
    /// A byte behind the end of the address space.
    PastEnd,
}

/// What a `CStringReader` has read.
#[verifier::ext_equal]
pub struct ReaderModel {
    pub addr: u64,
    pub read: Seq<u8>,
    pub ended: bool,
}

/// Reads a zero-terminated string from guest memory.
#[derive(Debug)]
pub struct CStringReader {
    /// Where the string begins.
    pub addr: u64,
    /// The bytes that have been read.
    pub read: Vec<u8>,
    /// The end of the string, or of readable memory, has been met.
    pub ended: bool,
}

impl View for CStringReader {
    type V = ReaderModel;

    open spec fn view(&self) -> ReaderModel {
        ReaderModel { addr: self.addr, read: self.read@, ended: self.ended }
    }
}

impl ReaderModel {
    /// A reader that has read nothing; below the lowest address it is at its end at once.
    pub open spec fn starting_at(addr: u64) -> ReaderModel {
        ReaderModel { addr, read: Seq::empty(), ended: addr < LOWEST_STRING_ADDR }
    }

    /// What the reader wants next.
    pub open spec fn request(self) -> ByteRequest {
        if self.ended || self.read.len() >= LONGEST_STRING {
            ByteRequest::Finished
        } else if self.addr + self.read.len() > u64::MAX {
            ByteRequest::PastEnd
        } else {
            ByteRequest::Byte((self.addr + self.read.len()) as u64)
        }
    }

    /// The reader after an answer: the byte, or `None` where memory cannot be read.
    pub open spec fn after(self, reply: Option<u8>) -> ReaderModel {
        match reply {
            Some(b) if b != 0 => ReaderModel { read: self.read.push(b), ..self },
            _ => ReaderModel { ended: true, ..self },
        }
    }

    /// The string that has been read.
    pub open spec fn result(self) -> Option<Seq<char>> {
        string_of(self.read)
    }
}

/// The string that bytes stand for: none where there are no bytes or they are not UTF-8.
pub open spec fn string_of(b: Seq<u8>) -> Option<Seq<char>> {
    if b.len() > 0 && valid_utf8(b) {
        Some(decode_utf8(b))
    } else {
        None
    }
}

impl CStringReader {
    /// A reader for the string at `addr`.
    pub fn new(addr: u64) -> (r: Self)
        ensures
            r@ == ReaderModel::starting_at(addr),
    {
        CStringReader { addr, read: Vec::new(), ended: addr < LOWEST_STRING_ADDR }
    }

    /// What the reader wants next.
    pub fn request(&self) -> (r: ByteRequest)
        ensures
            r == self@.request(),
    {
        let count: usize = self.read.len();
        if self.ended || count >= LONGEST_STRING as usize {
            return ByteRequest::Finished;
        }
        match self.addr.checked_add(count as u64) {
            Some(a) => ByteRequest::Byte(a),
            None => ByteRequest::PastEnd,
        }
    }

    /// Takes the answer to a request: the byte, or `None` where memory cannot be read.
    pub fn supply(&mut self, reply: Option<u8>)
        ensures
            final(self)@ == old(self)@.after(reply),
    {
        match reply {
            Some(b) => {
                if b != 0 {
                    self.read.push(b);
                } else {
                    self.ended = true;
                }
            },
            None => {
                self.ended = true;
            },
        }
    }

    /// The string that has been read: none where it is empty or not UTF-8.
    pub fn finish(self) -> (r: Option<String>)
        ensures
            text::optional_text(r) == self@.result(),
    {
        if self.read.len() == 0 {
            return None;
        }
        text::decode_utf8_strict(self.read)
    }
}

/// The word in an answer to a read of eight bytes: zero where memory cannot be read or the
/// answer is no word.
pub open spec fn word_in(reply: Option<Seq<u8>>) -> int {
    match reply {
        Some(b) if b.len() == 8 => bytes::le_u64(b, 0),
        _ => 0,
    }
}

/// Decodes the answer to a read of eight bytes.
pub fn read_u64(reply: &Option<Vec<u8>>) -> (r: u64)
    ensures
        r == word_in(bytes::optional_bytes(*reply)),
{
    match reply {
        Some(b) => {
            if b.len() == 8 {
                bytes::read_u64(b.as_slice(), 0)
            } else {
                0
            }
        },
        None => 0,
    }
}

/// A string that is to be put into guest memory.
#[derive(Debug)]
pub struct StringStore {
    /// Where memory has to be mapped first, and how much.
    pub map_addr: u64,
    pub map_size: u64,
    /// Where the bytes go.
    pub addr: u64,
    pub bytes: Vec<u8>,
}

impl StringStore {
    /// The store puts `s` with its terminating zero at `addr`, on pages mapped from the
    /// start of the page that holds `addr`.
    pub open spec fn puts(self, s: Seq<char>, addr: u64) -> bool {
        &&& self.map_addr == addr - addr % 0x1000
        &&& self.map_size == (encode_utf8(s).len() / 4096 + 1) * 4096
        &&& self.addr == addr
        &&& self.bytes@ == encode_utf8(s).push(0)
    }
}

/// The number of bytes of a string.
pub fn byte_count(s: &str) -> (r: u64)
    ensures
        r == encode_utf8(s@).len(),
{
    s.as_bytes().len() as u64
}

/// Hands out scratch memory for a C string and says what to write there.
pub fn write_cstring_to_mem(s: &str, scratch: &mut ScratchAllocator) -> (r: StringStore)
    requires
        old(scratch).wf(),
        old(scratch).room(encode_utf8(s@).len() as int + 1),
    ensures
        final(scratch).wf(),
        r.puts(s@, old(scratch).next),
        final(scratch).next == old(scratch).next + encode_utf8(s@).len() + 1,
{
    let raw = s.as_bytes();
    let count: u64 = raw.len() as u64;
    let mut out: Vec<u8> = Vec::new();
    let mut i: usize = 0;
    while i < raw.len()
        invariant
            i <= raw.len(),
            out@ == raw@.take(i as int),
        decreases raw.len() - i,
    {
        out.push(raw[i]);
        assert(raw@.take(i + 1) == raw@.take(i as int).push(raw@[i as int]));
        i = i + 1;
    }
    assert(raw@.take(i as int) == raw@);
    out.push(0);
    let addr: u64 = scratch.take(count + 1);
    StringStore {
        map_addr: addr - addr % 0x1000,
        map_size: (count / 4096 + 1) * 4096,
        addr,
        bytes: out,
    }
}

/// The bytes from `addr` up to the first zero, the end of readable memory or the limit.
pub open spec fn string_bytes(m: Map<int, u8>, addr: int, limit: nat) -> Seq<u8>
    decreases limit,
{
    if limit == 0 || !m.contains_key(addr) || m[addr] == 0 {
        Seq::empty()
    } else {
        seq![m[addr]] + string_bytes(m, addr + 1, (limit - 1) as nat)
    }
}

/// The string at `addr` in guest memory.
pub open spec fn string_at(m: Map<int, u8>, addr: u64) -> Option<Seq<char>> {
    if addr < LOWEST_STRING_ADDR {
        None
    } else {
        string_of(string_bytes(m, addr as int, LONGEST_STRING as nat))
    }
}

/// What memory answers to a read of one byte.
pub open spec fn byte_reply(m: Map<int, u8>, addr: u64) -> Option<u8> {
    if m.contains_key(addr as int) {
        Some(m[addr as int])
    } else {
        None
    }
}

/// The reader once `steps` of its requests have been answered from memory, or all of them
/// where they are fewer.
pub open spec fn driven(r: ReaderModel, m: Map<int, u8>, steps: nat) -> ReaderModel
    decreases steps,
{
    match r.request() {
        ByteRequest::Byte(a) if steps > 0 => driven(
            r.after(byte_reply(m, a)),
            m,
            (steps - 1) as nat,
        ),
        _ => r,
    }
}

/// The string at `addr` ends within the address space: so do its bytes and, where it is
/// shorter than the limit, the byte that ends it.
pub open spec fn ends_in_memory(m: Map<int, u8>, addr: int, limit: nat) -> bool {
    let count = string_bytes(m, addr, limit).len();
    if count < limit {
        addr + count <= u64::MAX
    } else {
        addr + count <= u64::MAX + 1
    }
}

/// A reader whose requests are answered from memory finishes, after at most one request per
/// byte, with the string that stands there.
pub proof fn law_reader_reads_the_string(m: Map<int, u8>, addr: u64)
    requires
        addr >= LOWEST_STRING_ADDR ==> ends_in_memory(m, addr as int, LONGEST_STRING as nat),
    ensures
        ({
            let end = driven(ReaderModel::starting_at(addr), m, LONGEST_STRING as nat);
            end.request() == ByteRequest::Finished && end.result() == string_at(m, addr)
        }),
{
    let start = ReaderModel::starting_at(addr);
    if addr >= LOWEST_STRING_ADDR {
        reader_collects(start, m, LONGEST_STRING as nat);
        assert(start.read + string_bytes(m, addr as int, LONGEST_STRING as nat) =~= string_bytes(
            m,
            addr as int,
            LONGEST_STRING as nat,
        ));
    }
}

proof fn reader_collects(r: ReaderModel, m: Map<int, u8>, steps: nat)
    requires
        !r.ended,
        r.read.len() + steps == LONGEST_STRING,
        ends_in_memory(m, r.addr + r.read.len(), steps),
    ensures
        driven(r, m, steps).request() == ByteRequest::Finished,
        driven(r, m, steps).read == r.read + string_bytes(m, r.addr + r.read.len(), steps),
    decreases steps,
{
    if steps > 0 {
        let a = (r.addr + r.read.len()) as u64;
        let next = r.after(byte_reply(m, a));
        assert(r.request() == ByteRequest::Byte(a));
        if m.contains_key(a as int) && m[a as int] != 0 {
            reader_collects(next, m, (steps - 1) as nat);
            assert(driven(next, m, (steps - 1) as nat).read =~= r.read + string_bytes(
                m,
                r.addr + r.read.len(),
                steps,
            ));
        } else {
            assert(driven(next, m, (steps - 1) as nat) == next);
        }
    }
}

/// A string that has been put into guest memory is read back, where it is not empty, not
/// longer than the limit and holds no zero.
pub proof fn law_stored_string_reads_back(m: Map<int, u8>, addr: u64, s: Seq<char>)
    requires
        addr >= LOWEST_STRING_ADDR,
        0 < encode_utf8(s).len() <= LONGEST_STRING,
        !encode_utf8(s).contains(0),
    ensures
        string_at(guest::written(m, addr as int, encode_utf8(s).push(0)), addr) == Some(s),
{
    let b = encode_utf8(s);
    let after = guest::written(m, addr as int, b.push(0));
    stored_bytes_read_back(after, addr as int, b, LONGEST_STRING as nat);
    encode_utf8_valid_utf8(s);
    encode_utf8_decode_utf8(s);
}

proof fn stored_bytes_read_back(m: Map<int, u8>, addr: int, b: Seq<u8>, limit: nat)
    requires
        b.len() <= limit,
        forall|i: int| 0 <= i < b.len() ==> #[trigger] m.contains_key(addr + i),
        forall|i: int| 0 <= i < b.len() ==> #[trigger] b[i] == m[addr + i],
        forall|i: int| 0 <= i < b.len() ==> #[trigger] b[i] != 0,
        b.len() < limit ==> m.contains_key(addr + b.len()) && m[addr + b.len()] == 0,
    ensures
        string_bytes(m, addr, limit) == b,
    decreases limit,
{
    if b.len() > 0 {
        let rest = b.subrange(1, b.len() as int);
        assert(m.contains_key(addr + 0));
        assert(b[0] == m[addr + 0]);
        assert forall|i: int| 0 <= i < rest.len() implies #[trigger] m.contains_key(
            addr + 1 + i,
        ) by {
            assert(m.contains_key(addr + (1 + i)));
        }
        assert forall|i: int| 0 <= i < rest.len() implies #[trigger] rest[i] == m[addr + 1
            + i] by {
            assert(b[1 + i] == m[addr + (1 + i)]);
        }
        stored_bytes_read_back(m, addr + 1, rest, (limit - 1) as nat);
        assert(seq![b[0]] + rest =~= b);
    }
}

/// Memory after a string has been stored.
pub open spec fn stored(m: Map<int, u8>, store: StringStore) -> Map<int, u8> {
    guest::written(m, store.addr as int, store.bytes@)
}

/// Two strings that are stored one after the other stand one after the other: the second begins
/// where the first has ended, neither lies on the other, every byte of both can be read, and each
/// is read back where it is not empty, not longer than the limit and holds no zero.
pub proof fn law_stored_strings_do_not_overlap(
    m: Map<int, u8>,
    first: StringStore,
    second: StringStore,
    s: Seq<char>,
    t: Seq<char>,
    start: ScratchAllocator,
    between: ScratchAllocator,
    after: ScratchAllocator,
)
    requires
        start.wf(),
        start.room(encode_utf8(s).len() as int + 1),
        first.puts(s, start.next),
        between.next == start.next + encode_utf8(s).len() + 1,
        between.room(encode_utf8(t).len() as int + 1),
        second.puts(t, between.next),
        after.next == between.next + encode_utf8(t).len() + 1,
    ensures
        second.addr == first.addr + encode_utf8(s).len() + 1,
        first.addr + first.bytes@.len() <= second.addr,
        second.addr + second.bytes@.len() <= after.next,
        ({
            let end = stored(stored(m, first), second);
            &&& forall|i: int|
                0 <= i < first.bytes@.len() ==> end.contains_key(first.addr + i) && end[first.addr
                    + i] == #[trigger] first.bytes@[i]
            &&& forall|i: int|
                0 <= i < second.bytes@.len() ==> end.contains_key(second.addr + i)
                    && end[second.addr + i] == #[trigger] second.bytes@[i]
            &&& 0 < encode_utf8(s).len() <= LONGEST_STRING && !encode_utf8(s).contains(0)
                ==> string_at(end, first.addr) == Some(s)
            &&& 0 < encode_utf8(t).len() <= LONGEST_STRING && !encode_utf8(t).contains(0)
                ==> string_at(end, second.addr) == Some(t)
        }),
{
    let end = stored(stored(m, first), second);
    if 0 < encode_utf8(t).len() <= LONGEST_STRING && !encode_utf8(t).contains(0) {
        law_stored_string_reads_back(stored(m, first), second.addr, t);
    }
    if 0 < encode_utf8(s).len() <= LONGEST_STRING && !encode_utf8(s).contains(0) {
        let b = encode_utf8(s);
        assert forall|i: int| 0 <= i < b.len() implies #[trigger] b[i] == end[first.addr + i] by {
            assert(b[i] == first.bytes@[i]);
        }
        stored_bytes_read_back(end, first.addr as int, b, LONGEST_STRING as nat);
        encode_utf8_valid_utf8(s);
        encode_utf8_decode_utf8(s);
    }
}

} // verus!
