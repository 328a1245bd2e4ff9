//! The bounded string container.
//!
//! A container is modelled by three things: the text it holds (its view), whether
//! the bytes lie inline or on the heap, and the spare bytes that follow the text
//! in the working buffer of a mutation. Every contract below is stated over
//! these, and [`BoundedStr::well_formed`] holds of every container.
//!
//! A mutation works on a copy. For an inline text the copy is the whole inline
//! buffer, `MAX_BYTES` bytes. For a text on the heap it is the text padded with
//! zeros up to the larger of `MAX` and `MAX_BYTES`, and that number is also the
//! most bytes a mutation may report: a text never moves between the two
//! representations after its construction.

use core::marker::PhantomData;
use vstd::prelude::*;
use vstd::slice::slice_subrange;
use vstd::slice::slice_to_vec;
use vstd::string::StringSliceAdditionalSpecFns;
use vstd::utf8::decode_utf8;
use vstd::utf8::encode_utf8;
use vstd::utf8::valid_utf8;

use crate::error::BoundedStrError;
use crate::policy::FormatPolicy;
use crate::policy::LengthPolicy;
use crate::std_calls::observe;
use crate::std_calls::text_of;

verus! {

/// `n` zero bytes.
pub open spec fn zeros(n: nat) -> Seq<u8> {
    Seq::new(n, |i: int| 0u8)
}

/// The zero bytes that fill a buffer of `limit` bytes behind its first `used`
/// bytes: none where `used` is `limit` or more.
pub open spec fn padding(limit: nat, used: nat) -> Seq<u8> {
    if used < limit {
        zeros((limit - used) as nat)
    } else {
        Seq::empty()
    }
}

/// Overwrites a buffer that is about to be released with zeros where `ZERO` is
/// set, and leaves it as it is otherwise.
fn clear_scratch<const ZERO: bool>(scratch: &mut [u8])
    ensures
        final(scratch)@ == (if ZERO {
            zeros(old(scratch)@.len())
        } else {
            old(scratch)@
        }),
{
    if ZERO {
        let n: usize = scratch.len();
        let mut i: usize = 0;
        while i < n
            invariant
                i <= n,
                n == scratch@.len(),
                forall|j: int| 0 <= j < i ==> scratch@[j] == 0,
            decreases n - i,
        {
            scratch[i] = 0;
            i += 1;
        }
        assert(scratch@ =~= zeros(n as nat));
        observe(scratch);
    }
}

/// Where the bytes of a container live: exactly one of the two at any time.
#[derive(Debug)]
enum Storage<const N: usize> {
    /// In the container itself: `buf[..len]` is the text.
    Stack { buf: [u8; N], len: usize },
    /// In an allocation of their own, which holds the text and nothing else.
    Heap(Vec<u8>),
}

impl<const N: usize> Storage<N> {
    /// The cursor of an inline text lies within the buffer.
    spec fn wf(&self) -> bool {
        match self {
            Storage::Stack { buf, len } => *len <= N,
            Storage::Heap(v) => true,
        }
    }

    /// The bytes of the text.
    spec fn bytes(&self) -> Seq<u8> {
        match self {
            Storage::Stack { buf, len } => buf@.subrange(0, *len as int),
            Storage::Heap(v) => v@,
        }
    }

    /// What follows the text in the working buffer of a mutation that starts
    /// from this storage, up to `limit` bytes where the text is on the heap.
    spec fn spare(&self, limit: nat) -> Seq<u8> {
        match self {
            Storage::Stack { buf, len } => buf@.subrange(*len as int, N as int),
            Storage::Heap(v) => padding(limit, v@.len()),
        }
    }

    /// Gives the storage up, with every byte of it overwritten with zeros first
    /// where `ZERO` is set.
    fn release<const ZERO: bool>(self) {
        match self {
            Storage::Stack { mut buf, len } => {
                clear_scratch::<ZERO>(&mut buf);
            },
            Storage::Heap(mut v) => {
                clear_scratch::<ZERO>(v.as_mut_slice());
            },
        }
    }

    /// A copy in the same representation: the array as it is, the allocation
    /// cloned.
    fn duplicate(&self) -> (res: Self)
        ensures
            res is Stack == self is Stack,
            res.wf() == self.wf(),
            res.bytes() == self.bytes(),
            forall|limit: nat| res.spare(limit) == self.spare(limit),
    {
        match self {
            Storage::Stack { buf, len } => Storage::Stack { buf: *buf, len: *len },
            Storage::Heap(v) => {
                let copy = v.clone();
                assert(copy@ =~= v@);
                Storage::Heap(copy)
            },
        }
    }
}

/// A text that is known to satisfy its length bounds, its format policy and
/// its capacity, from construction on and through every mutation.
///
/// - `MIN` and `MAX` bound the logical length, both inclusive, as `L` counts it.
/// - `MAX_BYTES` is the capacity of the inline buffer.
/// - `F` decides which texts are admissible.
/// - `Z` asks that every buffer be overwritten with zeros before it is released.
/// - `HEAP` allows a text of more than `MAX_BYTES` bytes to be kept on the heap;
///   without it such a text is refused.
#[derive(Debug)]
pub struct BoundedStr<
    const MIN: usize,
    const MAX: usize,
    const MAX_BYTES: usize,
    L: LengthPolicy,
    F: FormatPolicy,
    const Z: bool,
    const HEAP: bool,
> {
    storage: Storage<MAX_BYTES>,
    _marker: PhantomData<(L, F)>,
}

/// A container whose bytes never move to the heap.
pub type StackStr<
    const MIN: usize,
    const MAX: usize,
    const MAXB: usize,
    L,
    F,
    const Z: bool,
> = BoundedStr<MIN, MAX, MAXB, L, F, Z, false>;

/// A container whose bytes move to the heap where the inline buffer is too
/// small for them.
pub type FlexStr<
    const MIN: usize,
    const MAX: usize,
    const MAXB: usize,
    L,
    F,
    const Z: bool,
> = BoundedStr<MIN, MAX, MAXB, L, F, Z, true>;

impl<
    const MIN: usize,
    const MAX: usize,
    const MAX_BYTES: usize,
    L: LengthPolicy,
    F: FormatPolicy,
    const Z: bool,
    const HEAP: bool,
> View for BoundedStr<MIN, MAX, MAX_BYTES, L, F, Z, HEAP> {
    type V = Seq<char>;

    /// The text that the container holds.
    open spec fn view(&self) -> Seq<char> {
        decode_utf8(self.spec_bytes())
    }
}

impl<
    const MIN: usize,
    const MAX: usize,
    const MAX_BYTES: usize,
    L: LengthPolicy,
    F: FormatPolicy,
    const Z: bool,
    const HEAP: bool,
> BoundedStr<MIN, MAX, MAX_BYTES, L, F, Z, HEAP> {
    /// The representation is sound: an inline text ends within its buffer.
    pub closed spec fn repr_ok(&self) -> bool {
        self.storage.wf()
    }

    /// The bytes of the text: its UTF-8 encoding, in a well-formed container.
    pub closed spec fn spec_bytes(&self) -> Seq<u8> {
        self.storage.bytes()
    }

    /// Whether the bytes lie in the inline buffer rather than on the heap.
    pub closed spec fn spec_is_inline(&self) -> bool {
        self.storage is Stack
    }

    /// The bytes that follow the text in the buffer that a mutator is handed.
    pub closed spec fn spare(&self) -> Seq<u8> {
        self.storage.spare(Self::heap_ceiling())
    }

    /// The most bytes that a text on the heap may be given by a mutation.
    pub open spec fn heap_ceiling() -> nat {
        if MAX > MAX_BYTES {
            MAX as nat
        } else {
            MAX_BYTES as nat
        }
    }

    /// The most bytes that a mutation may report for this container.
    pub open spec fn ceiling(&self) -> nat {
        if self.is_inline() {
            MAX_BYTES as nat
        } else {
            Self::heap_ceiling()
        }
    }

    /// The buffer that a mutator is handed: the text, then the spare bytes.
    pub open spec fn scratch(&self) -> Seq<u8> {
        self.spec_bytes() + self.spare()
    }

    /// Whether `text` has a logical length within the bounds and a content that
    /// the format policy accepts.
    pub open spec fn admissible(text: Seq<char>) -> bool {
        &&& MIN <= L::spec_logical_len(text) <= MAX
        &&& F::spec_check(text)
    }

    /// What holds of every container, at every moment a caller can see it:
    /// the bytes are well-formed UTF-8, the text is admissible, an inline text
    /// fills its buffer together with the spare bytes, and a text is on the heap
    /// only where the heap is allowed, with zeros for spare bytes.
    #[verifier::type_invariant]
    pub open spec fn well_formed(&self) -> bool {
        &&& self.repr_ok()
        &&& valid_utf8(self.spec_bytes())
        &&& Self::admissible(self@)
        &&& self.is_inline() ==> self.scratch().len() == MAX_BYTES
        &&& !self.is_inline() ==> HEAP && self.spare() == padding(
            Self::heap_ceiling(),
            self.spec_bytes().len(),
        )
    }

    /// The bytes of a container are the UTF-8 encoding of its text.
    pub proof fn lemma_bytes_encode_text(&self)
        requires
            self.well_formed(),
        ensures
            self.spec_bytes() == encode_utf8(self@),
    {
        vstd::utf8::decode_utf8_encode_utf8(self.spec_bytes());
    }

    /// Two containers hold the same text exactly where they hold the same
    /// bytes, whichever representation each of them has.
    pub proof fn lemma_same_text_same_bytes(&self, other: &Self)
        requires
            self.well_formed(),
            other.well_formed(),
        ensures
            self@ == other@ <==> self.spec_bytes() == other.spec_bytes(),
    {
        self.lemma_bytes_encode_text();
        other.lemma_bytes_encode_text();
    }

    /// Whether the bytes lie in the inline buffer rather than on the heap.
    #[verifier::when_used_as_spec(spec_is_inline)]
    pub fn is_inline(&self) -> (inline: bool)
        ensures
            inline == self.spec_is_inline(),
    {
        match &self.storage {
            Storage::Stack { .. } => true,
            Storage::Heap(_) => false,
        }
    }

    /// Why `text` cannot be held, if it cannot: the first check that fails,
    /// in the order length, format, capacity.
    pub open spec fn rejection(text: Seq<char>) -> Option<BoundedStrError> {
        let n = L::spec_logical_len(text);
        if n < MIN {
            Some(BoundedStrError::TooShort)
        } else if n > MAX {
            Some(BoundedStrError::TooLong)
        } else if !F::spec_check(text) {
            Some(BoundedStrError::InvalidContent)
        } else if encode_utf8(text).len() > MAX_BYTES && !HEAP {
            Some(BoundedStrError::TooManyBytes)
        } else {
            None
        }
    }

    /// Whether this container is what construction makes of `text`: it holds
    /// the text, inline up to the capacity and on the heap beyond it, with zeros
    /// for spare bytes.
    pub open spec fn holds(&self, text: Seq<char>) -> bool {
        &&& self@ == text
        &&& self.spec_bytes() == encode_utf8(text)
        &&& self.is_inline() <==> encode_utf8(text).len() <= MAX_BYTES
        &&& self.spare() == padding(self.ceiling(), encode_utf8(text).len())
    }

    /// Validates `s` and copies it into a new container: length first, then
    /// format, then capacity. Nothing is copied before every check has passed.
    ///
    /// The first clause says exactly what is returned. The others spell out
    /// what follows from it:
    /// - an admissible text that fits the capacity, or may go to the heap, is
    ///   accepted and read back unchanged;
    /// - a logical length below `MIN` gives `TooShort`, one above `MAX` gives
    ///   `TooLong`;
    /// - a text within the bounds that the format policy rejects gives
    ///   `InvalidContent`;
    /// - without the heap, an admissible text of more bytes than the capacity
    ///   gives `TooManyBytes`;
    /// - a text of up to `MAX_BYTES` bytes is kept inline, a longer one on the
    ///   heap.
    pub fn new(s: &str) -> (res: Result<Self, BoundedStrError>)
        ensures
            (match res {
                Ok(b) => Self::rejection(s@) is None && b.holds(s@),
                Err(e) => Self::rejection(s@) == Some(e),
            }),
            Self::admissible(s@) && (s.spec_bytes().len() <= MAX_BYTES || HEAP) ==> res is Ok
                && res.unwrap()@ == s@,
            L::spec_logical_len(s@) < MIN ==> res == Err::<Self, _>(BoundedStrError::TooShort),
            MIN <= MAX && L::spec_logical_len(s@) > MAX ==> res == Err::<Self, _>(
                BoundedStrError::TooLong,
            ),
            MIN <= L::spec_logical_len(s@) <= MAX && !F::spec_check(s@) ==> res == Err::<Self, _>(
                BoundedStrError::InvalidContent,
            ),
            Self::admissible(s@) && s.spec_bytes().len() > MAX_BYTES && !HEAP ==> res == Err::<
                Self,
                _,
            >(BoundedStrError::TooManyBytes),
            res is Ok ==> (res.unwrap().is_inline() <==> s.spec_bytes().len() <= MAX_BYTES),
    {
        let logical_len = L::logical_len(s);
        if logical_len < MIN {
            return Err(BoundedStrError::TooShort);
        }
        if logical_len > MAX {
            return Err(BoundedStrError::TooLong);
        }
        if !F::check(s) {
            return Err(BoundedStrError::InvalidContent);
        }
        let bytes = s.as_bytes();
        let byte_len = bytes.len();
        proof {
            vstd::utf8::encode_utf8_valid_utf8(s@);
            vstd::utf8::encode_utf8_decode_utf8(s@);
        }
        if byte_len > MAX_BYTES {
            if !HEAP {
                return Err(BoundedStrError::TooManyBytes);
            }
            return Ok(Self { storage: Storage::Heap(slice_to_vec(bytes)), _marker: PhantomData });
        }
        let mut buf = [0u8; MAX_BYTES];
        let mut i: usize = 0;
        while i < byte_len
            invariant
                i <= byte_len <= MAX_BYTES,
                byte_len == bytes@.len(),
                forall|j: int| 0 <= j < i ==> buf@[j] == bytes@[j],
                forall|j: int| i <= j < MAX_BYTES ==> buf@[j] == 0,
            decreases byte_len - i,
        {
            buf[i] = bytes[i];
            i += 1;
        }
        assert(buf@.subrange(0, byte_len as int) =~= bytes@);
        assert(buf@.subrange(byte_len as int, MAX_BYTES as int) =~= padding(
            MAX_BYTES as nat,
            byte_len as nat,
        ));
        Ok(Self { storage: Storage::Stack { buf, len: byte_len }, _marker: PhantomData })
    }

    /// The first `n` bytes of `scratch`, followed by zeros where it is shorter.
    pub open spec fn fit(scratch: Seq<u8>, n: nat) -> Seq<u8> {
        Seq::new(n, |i: int| if i < scratch.len() { scratch[i] } else { 0u8 })
    }

    /// Why the first `reported` bytes of `scratch` cannot replace the text of
    /// this container, if they cannot.
    pub open spec fn verdict(&self, scratch: Seq<u8>, reported: usize) -> Option<BoundedStrError> {
        if reported > self.ceiling() || reported > scratch.len() {
            Some(BoundedStrError::TooManyBytes)
        } else {
            let bytes = scratch.subrange(0, reported as int);
            if valid_utf8(bytes) && Self::admissible(decode_utf8(bytes)) {
                None
            } else {
                Some(BoundedStrError::MutationFailed)
            }
        }
    }

    /// Whether `next` is this container after `scratch` and `reported` were
    /// offered to it: unchanged where they are refused, and else holding the
    /// reported bytes in the representation it had.
    pub open spec fn committed(&self, scratch: Seq<u8>, reported: usize, next: Self) -> bool {
        if self.verdict(scratch, reported) is Some {
            next == *self
        } else {
            &&& next.spec_bytes() == scratch.subrange(0, reported as int)
            &&& next.is_inline() == self.is_inline()
            &&& next.spare() == if self.is_inline() {
                Self::fit(scratch, MAX_BYTES as nat).subrange(reported as int, MAX_BYTES as int)
            } else {
                padding(Self::heap_ceiling(), reported as nat)
            }
        }
    }

    /// Whether `buf` and `len` are what a mutator of this container is handed:
    /// the working buffer and the byte length of the text.
    pub open spec fn hands(&self, buf: Seq<u8>, len: usize) -> bool {
        &&& buf == self.scratch()
        &&& len == self.spec_bytes().len()
    }

    /// What a mutation returns: the value of its mutator where the result was
    /// accepted, and else the reason for which it was refused.
    pub open spec fn answer<R>(verdict: Option<BoundedStrError>, out: R) -> Result<
        R,
        BoundedStrError,
    > {
        match verdict {
            None => Ok(out),
            Some(e) => Err(e),
        }
    }

    /// Validates the first `reported_len` bytes of `scratch` and, if they are an
    /// admissible text, makes them the text of this container. This is what a
    /// mutation does with the buffer and the length that its mutator left.
    ///
    /// `TooManyBytes` is returned where `reported_len` exceeds the ceiling of
    /// the container or the length of `scratch`, and `MutationFailed` where the
    /// reported bytes are not UTF-8, or are a text outside the bounds or against
    /// the format. An inline container keeps the rest of `scratch` as its spare
    /// bytes, cut or filled with zeros to the capacity. Where `Z` is set, the
    /// storage that is replaced is overwritten with zeros before it is released.
    ///
    /// A refusal leaves the container exactly as it was; a success makes the
    /// reported bytes its text.
    pub fn commit(&mut self, scratch: &[u8], reported_len: usize) -> (res: Result<
        (),
        BoundedStrError,
    >)
        ensures
            res == Self::answer(old(self).verdict(scratch@, reported_len), ()),
            old(self).committed(scratch@, reported_len, *final(self)),
            res is Err ==> *final(self) == *old(self),
            res is Ok ==> final(self)@ == decode_utf8(scratch@.subrange(0, reported_len as int)),
    {
        proof {
            use_type_invariant(&*self);
        }
        let inline = self.is_inline();
        let ceiling = if inline {
            MAX_BYTES
        } else if MAX > MAX_BYTES {
            MAX
        } else {
            MAX_BYTES
        };
        if reported_len > ceiling || reported_len > scratch.len() {
            return Err(BoundedStrError::TooManyBytes);
        }
        let head = slice_subrange(scratch, 0, reported_len);
        match text_of(head) {
            Some(s) => {
                proof {
                    vstd::utf8::encode_utf8_decode_utf8(s@);
                }
                let n = L::logical_len(s);
                if n >= MIN && n <= MAX && F::check(s) {
                    let mut storage = if inline {
                        let mut buf = [0u8; MAX_BYTES];
                        let mut i: usize = 0;
                        while i < MAX_BYTES && i < scratch.len()
                            invariant
                                i <= MAX_BYTES,
                                i <= scratch@.len(),
                                forall|j: int| 0 <= j < i ==> buf@[j] == scratch@[j],
                                forall|j: int| i <= j < MAX_BYTES ==> buf@[j] == 0,
                            decreases MAX_BYTES - i,
                        {
                            buf[i] = scratch[i];
                            i += 1;
                        }
                        assert(buf@ =~= Self::fit(scratch@, MAX_BYTES as nat));
                        assert(buf@.subrange(0, reported_len as int) =~= head@);
                        Storage::Stack { buf, len: reported_len }
                    } else {
                        Storage::Heap(slice_to_vec(head))
                    };
                    core::mem::swap(&mut self.storage, &mut storage);
                    storage.release::<Z>();
                    return Ok(());
                }
            },
            None => {},
        }
        Err(BoundedStrError::MutationFailed)
    }

    /// Runs `mutator` on a copy of the working buffer and of the byte length,
    /// then offers what it left to [`Self::commit`]. The container changes only
    /// if the result is an admissible text; the live bytes are never handed out,
    /// so a mutator that fails half-way leaves them as they were.
    ///
    /// Where `Z` is set, the copy is overwritten with zeros before it is
    /// released, whether it was accepted or refused.
    ///
    /// The mutator must accept the buffer and the length that it is handed.
    /// Some run of it from there, leaving a buffer, a length and a value, then
    /// accounts for the outcome: the container is what [`Self::commit`] makes
    /// of that buffer and length, and the value is returned where they were
    /// accepted. A refusal, whatever its reason, leaves the container exactly
    /// as it was.
    pub fn mutate<Mut, R>(&mut self, mutator: Mut) -> (res: Result<R, BoundedStrError>) where
        Mut: FnOnce(&mut [u8], &mut usize) -> R,

        requires
            forall|buf: &mut [u8], len: &mut usize|
                old(self).hands(buf@, *len) ==> #[trigger] call_requires(mutator, (buf, len)),
        ensures
            exists|buf: &mut [u8], len: &mut usize, out: R|
                #[trigger] call_ensures(mutator, (buf, len), out) && old(self).hands(buf@, *len)
                    && old(self).committed(final(buf)@, *final(len), *final(self)) && res
                    == Self::answer(old(self).verdict(final(buf)@, *final(len)), out),
            res is Err ==> *final(self) == *old(self),
    {
        proof {
            use_type_invariant(&*self);
        }
        let mut temp_len = self.len_bytes();
        match &self.storage {
            Storage::Stack { buf, .. } => {
                let mut temp_buf: [u8; MAX_BYTES] = *buf;
                assert(temp_buf@ =~= self.scratch());
                let out = mutator(&mut temp_buf, &mut temp_len);
                let committed = self.commit(temp_buf.as_slice(), temp_len);
                clear_scratch::<Z>(&mut temp_buf);
                match committed {
                    Ok(()) => Ok(out),
                    Err(e) => Err(e),
                }
            },
            Storage::Heap(v) => {
                let mut temp_vec = v.clone();
                let limit = if MAX > MAX_BYTES {
                    MAX
                } else {
                    MAX_BYTES
                };
                if temp_vec.len() < limit {
                    temp_vec.resize(limit, 0);
                }
                assert(temp_vec@ =~= self.scratch());
                let out = mutator(temp_vec.as_mut_slice(), &mut temp_len);
                let committed = self.commit(temp_vec.as_slice(), temp_len);
                clear_scratch::<Z>(temp_vec.as_mut_slice());
                match committed {
                    Ok(()) => Ok(out),
                    Err(e) => Err(e),
                }
            },
        }
    }

    /// The number of bytes of the text.
    #[inline(always)]
    pub fn len_bytes(&self) -> (n: usize)
        ensures
            n == self.spec_bytes().len(),
            n == encode_utf8(self@).len(),
    {
        proof {
            use_type_invariant(self);
            self.lemma_bytes_encode_text();
        }
        match &self.storage {
            Storage::Stack { len, .. } => *len,
            Storage::Heap(v) => v.len(),
        }
    }

    /// The logical length of the text, as the length policy counts it. It
    /// depends on the text alone, so that two calls on one container agree.
    #[inline(always)]
    pub fn len_logical(&self) -> (n: usize)
        ensures
            n == L::spec_logical_len(self@),
            MIN <= n <= MAX,
    {
        proof {
            use_type_invariant(self);
        }
        L::logical_len(self.as_str())
    }

    /// Compares the bytes of the text with `other`. Once the lengths are found
    /// equal, every position is compared, wherever the first difference lies.
    #[inline(never)]
    pub fn constant_time_eq(&self, other: &[u8]) -> (equal: bool)
        ensures
            equal <==> self.spec_bytes() == other@,
    {
        let a = self.as_bytes();
        let b = other;
        if a.len() != b.len() {
            return false;
        }
        let n: usize = a.len();
        let mut result: u8 = 0;
        let mut i: usize = 0;
        assert(a@.subrange(0, 0) =~= b@.subrange(0, 0));
        while i < n
            invariant
                i <= n,
                n == a@.len(),
                n == b@.len(),
                result == 0 <==> a@.subrange(0, i as int) == b@.subrange(0, i as int),
            decreases n - i,
        {
            let x: u8 = a[i];
            let y: u8 = b[i];
            let ghost before = result;
            result |= x ^ y;
            proof {
                assert((before | (x ^ y)) == 0u8 <==> (before == 0u8 && x == y)) by (bit_vector);
                let a0 = a@.subrange(0, i as int);
                let b0 = b@.subrange(0, i as int);
                let a1 = a@.subrange(0, i + 1);
                let b1 = b@.subrange(0, i + 1);
                assert(a1 =~= a0.push(x));
                assert(b1 =~= b0.push(y));
                assert(a0 =~= a1.subrange(0, i as int));
                assert(b0 =~= b1.subrange(0, i as int));
                assert(a1[i as int] == x && b1[i as int] == y);
            }
            i += 1;
        }
        assert(a@.subrange(0, n as int) =~= a@);
        assert(b@.subrange(0, n as int) =~= b@);
        result == 0
    }

    /// Gives the container up. Where erasure is enabled, every byte of its
    /// storage is overwritten with zero before the storage is released.
    pub fn wipe(self) {
        let Self { storage, _marker } = self;
        storage.release::<Z>();
    }

    /// The bytes of the text.
    #[inline(always)]
    pub fn as_bytes(&self) -> (bytes: &[u8])
        ensures
            bytes@ == self.spec_bytes(),
            bytes@ == encode_utf8(self@),
    {
        proof {
            use_type_invariant(self);
            self.lemma_bytes_encode_text();
        }
        match &self.storage {
            Storage::Stack { buf, len } => slice_subrange(buf.as_slice(), 0, *len),
            Storage::Heap(v) => v.as_slice(),
        }
    }

    /// The text. The bytes are read as UTF-8, which they always are.
    #[inline(always)]
    pub fn as_str(&self) -> (s: &str)
        ensures
            s@ == self@,
            Self::admissible(s@),
    {
        proof {
            use_type_invariant(self);
        }
        match text_of(self.as_bytes()) {
            Some(s) => {
                proof {
                    vstd::utf8::encode_utf8_decode_utf8(s@);
                }
                s
            },
            None => vstd::pervasive::unreached(),
        }
    }
}

impl<
    const MIN: usize,
    const MAX: usize,
    const MAX_BYTES: usize,
    L: LengthPolicy,
    F: FormatPolicy,
    const Z: bool,
    const HEAP: bool,
> Clone for BoundedStr<MIN, MAX, MAX_BYTES, L, F, Z, HEAP> {
    /// The copy holds the same text in the same representation.
    fn clone(&self) -> (res: Self)
        ensures
            res@ == self@,
            res.spec_bytes() == self.spec_bytes(),
            res.is_inline() == self.is_inline(),
            res.spare() == self.spare(),
    {
        proof {
            use_type_invariant(self);
        }
        Self { storage: self.storage.duplicate(), _marker: PhantomData }
    }
}

} // verus!
