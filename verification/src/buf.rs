//! Buffers that are handed to the runtime by ownership, and owned views into them.
use std::rc::Rc;
use vstd::prelude::*;
use vstd::string::StringSliceAdditionalSpecFns;

verus! {

/// One end of a range of positions.
#[derive(Clone, Copy, PartialEq, Eq, Structural, Debug)]
pub enum Bound {
    Included(usize),
    Excluded(usize),
    Unbounded,
}

/// An owned view of the positions `begin..end` of a buffer.
pub struct Slice<T> {
    buf: T,
    begin: usize,
    end: usize,
}

impl<T> Slice<T> {
    pub closed spec fn spec_buf(&self) -> T {
        self.buf
    }

    pub closed spec fn spec_begin(&self) -> usize {
        self.begin
    }

    pub closed spec fn spec_end(&self) -> usize {
        self.end
    }

    /// A view of the positions `begin..end` of `buf`.
    pub fn new(buf: T, begin: usize, end: usize) -> (s: Slice<T>)
        ensures
            s.spec_buf() == buf,
            s.spec_begin() == begin,
            s.spec_end() == end,
    {
        Slice { buf, begin, end }
    }

    /// The first position of the view.
    pub fn begin(&self) -> (r: usize)
        ensures
            r == self.spec_begin(),
    {
        self.begin
    }

    /// The position just past the view.
    pub fn end(&self) -> (r: usize)
        ensures
            r == self.spec_end(),
    {
        self.end
    }

    /// The whole buffer.
    pub fn get_ref(&self) -> (r: &T)
        ensures
            *r == self.spec_buf(),
    {
        &self.buf
    }

    /// Gives the buffer back.
    pub fn into_inner(self) -> (r: T)
        ensures
            r == self.spec_buf(),
    {
        self.buf
    }
}

/// Where a slice starts.
pub open spec fn range_begin(start: Bound) -> int {
    match start {
        Bound::Included(n) => n as int,
        Bound::Excluded(n) => n + 1,
        Bound::Unbounded => 0,
    }
}

/// Where a slice ends, in a buffer of `total` bytes.
pub open spec fn range_end(end: Bound, total: nat) -> int {
    match end {
        Bound::Included(n) => n + 1,
        Bound::Excluded(n) => n as int,
        Bound::Unbounded => total as int,
    }
}

/// A buffer that can be handed to an I/O operation: it knows how many of its bytes are
/// initialized and how many it has room for.
pub trait IoBuf: Sized {
    /// The number of initialized bytes.
    spec fn spec_bytes_init(&self) -> nat;

    /// Room that the buffer is known to have: all of it for a buffer of fixed size; its
    /// length for one whose room is its allocation, which may be larger.
    spec fn spec_room(&self) -> nat;

    /// Number of initialized bytes.
    fn bytes_init(&self) -> (n: usize)
        ensures
            n == self.spec_bytes_init(),
    ;

    /// Total size of the buffer, including uninitialized memory, if any.
    fn bytes_total(&self) -> (n: usize)
        ensures
            self.spec_bytes_init() <= self.spec_room() <= n,
    ;

    /// Takes the buffer and returns a view of the positions between `start` and `end`.
    /// The view starts before the end of the buffer and within its initialized bytes, and
    /// ends no later than the end of the buffer; an unbounded end is the end of the buffer.
    fn slice(self, start: Bound, end: Bound) -> (s: Slice<Self>)
        requires
            range_begin(start) < self.spec_room(),
            range_begin(start) <= self.spec_bytes_init(),
            end is Included ==> end->Included_0 < usize::MAX,
            end !is Unbounded ==> range_end(end, 0) <= self.spec_room(),
        ensures
            s.spec_buf() == self,
            s.spec_begin() == range_begin(start),
            end !is Unbounded ==> s.spec_end() == range_end(end, 0),
            end is Unbounded ==> s.spec_end() >= self.spec_room(),
    {
        let total = self.bytes_total();
        let begin = match start {
            Bound::Included(n) => n,
            Bound::Excluded(n) => n + 1,
            Bound::Unbounded => 0,
        };
        let end = match end {
            Bound::Included(n) => n + 1,
            Bound::Excluded(n) => n,
            Bound::Unbounded => total,
        };
        Slice::new(self, begin, end)
    }
}

/// `Vec::capacity`: trusted to be at least the vector's length, as std documents.
#[verifier::external_body]
fn vec_capacity(v: &Vec<u8>) -> (c: usize)
    ensures
        c >= v.len(),
{
    v.capacity()
}

/// `String::capacity`: trusted to be at least the string's length in bytes, as std
/// documents.
#[verifier::external_body]
fn string_capacity(s: &String) -> (c: usize)
    ensures
        c >= vstd::utf8::encode_utf8(s@).len(),
{
    s.capacity()
}

impl IoBuf for Vec<u8> {
    open spec fn spec_bytes_init(&self) -> nat {
        self@.len()
    }

    open spec fn spec_room(&self) -> nat {
        self@.len()
    }

    /// The length.
    fn bytes_init(&self) -> (n: usize) {
        self.len()
    }

    /// The capacity.
    fn bytes_total(&self) -> (n: usize) {
        vec_capacity(self)
    }
}

impl IoBuf for String {
    open spec fn spec_bytes_init(&self) -> nat {
        vstd::utf8::encode_utf8(self@).len()
    }

    open spec fn spec_room(&self) -> nat {
        vstd::utf8::encode_utf8(self@).len()
    }

    /// The length in bytes.
    fn bytes_init(&self) -> (n: usize) {
        self.as_str().as_bytes().len()
    }

    /// The capacity.
    fn bytes_total(&self) -> (n: usize) {
        string_capacity(self)
    }
}

impl IoBuf for &'static [u8] {
    open spec fn spec_bytes_init(&self) -> nat {
        self@.len()
    }

    open spec fn spec_room(&self) -> nat {
        self@.len()
    }

    fn bytes_init(&self) -> (n: usize) {
        self.len()
    }

    fn bytes_total(&self) -> (n: usize)
        ensures
            n == self@.len(),
    {
        self.len()
    }
}

impl IoBuf for &'static str {
    open spec fn spec_bytes_init(&self) -> nat {
        self.spec_bytes().len()
    }

    open spec fn spec_room(&self) -> nat {
        self.spec_bytes().len()
    }

    fn bytes_init(&self) -> (n: usize) {
        self.as_bytes().len()
    }

    fn bytes_total(&self) -> (n: usize)
        ensures
            n == self.spec_bytes().len(),
    {
        self.as_bytes().len()
    }
}

impl IoBuf for Box<[u8]> {
    open spec fn spec_bytes_init(&self) -> nat {
        self@.len()
    }

    open spec fn spec_room(&self) -> nat {
        self@.len()
    }

    fn bytes_init(&self) -> (n: usize) {
        self.len()
    }

    fn bytes_total(&self) -> (n: usize)
        ensures
            n == self@.len(),
    {
        self.len()
    }
}

impl IoBuf for Rc<[u8]> {
    open spec fn spec_bytes_init(&self) -> nat {
        self@.len()
    }

    open spec fn spec_room(&self) -> nat {
        self@.len()
    }

    fn bytes_init(&self) -> (n: usize) {
        self.len()
    }

    fn bytes_total(&self) -> (n: usize)
        ensures
            n == self@.len(),
    {
        self.len()
    }
}

} // verus!
