//! The LZ77 layer: codes, the consumer of codes, and what an encoder owes.
//!
//! An encoder turns bytes into a sequence of [`Code`]s. The meaning of such a
//! sequence is given by [`replay`]: literals are appended, pointers copy bytes
//! that were produced earlier. An encoder is correct when replaying what it
//! emitted gives back the bytes it was handed.

use vstd::prelude::*;

verus! {

/// The longest match a pointer may describe.
pub const MAX_LENGTH: u16 = 258;

/// The shortest match a pointer may describe.
pub const MIN_LENGTH: u16 = 3;

/// The farthest a pointer may reach back.
pub const MAX_DISTANCE: u16 = 32768;

/// The largest sliding window an encoder may keep.
pub const MAX_WINDOW_SIZE: u16 = 32768;

/// One unit of LZ77 output.
#[derive(Debug, Clone, Copy, PartialEq, Eq, Hash, Structural)]
pub enum Code {
    /// One byte, as it is.
    Literal(u8),
    /// A copy of `length` bytes that start `backward_distance` bytes before
    /// the current end of the output.
    Pointer { length: u16, backward_distance: u16 },
}

/// Why a pointer could not be built.
#[derive(Debug, Clone, Copy, PartialEq, Eq, Structural)]
pub enum CodeError {
    /// The length is not within `MIN_LENGTH..=MAX_LENGTH`.
    LengthOutOfRange(u16),
    /// The distance is not within `1..=MAX_DISTANCE`.
    DistanceOutOfRange(u16),
}

/// Whether `length` is a length that a pointer may carry.
pub open spec fn length_in_range(length: u16) -> bool {
    MIN_LENGTH <= length <= MAX_LENGTH
}

/// Whether `distance` is a distance that a pointer may carry.
pub open spec fn distance_in_range(distance: u16) -> bool {
    1 <= distance <= MAX_DISTANCE
}

impl Code {
    /// A literal is always valid; a pointer is valid when both of its fields
    /// are in range.
    pub open spec fn is_valid(self) -> bool {
        match self {
            Code::Literal(_) => true,
            Code::Pointer { length, backward_distance } => length_in_range(length)
                && distance_in_range(backward_distance),
        }
    }

    /// How far back the code reaches: zero for a literal.
    pub open spec fn reach(self) -> nat {
        match self {
            Code::Literal(_) => 0,
            Code::Pointer { backward_distance, .. } => backward_distance as nat,
        }
    }

    pub fn new_literal(symbol: u8) -> (code: Self)
        ensures
            code == Code::Literal(symbol),
    {
        Code::Literal(symbol)
    }

    /// Builds a pointer, or says which field is out of range. When both are,
    /// the length is reported.
    pub fn new_pointer(length: u16, backward_distance: u16) -> (result: Result<Self, CodeError>)
        ensures
            length_in_range(length) && distance_in_range(backward_distance) ==> result == Ok::<
                Code,
                CodeError,
            >(Code::Pointer { length, backward_distance }),
            !length_in_range(length) ==> result == Err::<Code, CodeError>(
                CodeError::LengthOutOfRange(length),
            ),
            length_in_range(length) && !distance_in_range(backward_distance) ==> result == Err::<
                Code,
                CodeError,
            >(CodeError::DistanceOutOfRange(backward_distance)),
            result is Ok ==> result->Ok_0.is_valid(),
    {
        if length < MIN_LENGTH || length > MAX_LENGTH {
            Err(CodeError::LengthOutOfRange(length))
        } else if backward_distance < 1 || backward_distance > MAX_DISTANCE {
            Err(CodeError::DistanceOutOfRange(backward_distance))
        } else {
            Ok(Code::Pointer { length, backward_distance })
        }
    }
}

/// The output after `length` more bytes have been copied, one at a time, from
/// `distance` bytes before its end. Copying one at a time is what lets a
/// pointer overlap the bytes it produces.
pub open spec fn copy_back(stream: Seq<u8>, length: nat, distance: nat) -> Seq<u8>
    decreases length,
{
    if length == 0 {
        stream
    } else {
        copy_back(stream.push(stream[stream.len() - distance]), (length - 1) as nat, distance)
    }
}

/// The output after one more code, or `None` when the code is invalid or
/// points back past the start of `stream`.
pub open spec fn replay_one(stream: Seq<u8>, code: Code) -> Option<Seq<u8>> {
    match code {
        Code::Literal(byte) => Some(stream.push(byte)),
        Code::Pointer { length, backward_distance } => if code.is_valid() && backward_distance
            <= stream.len() {
            Some(copy_back(stream, length as nat, backward_distance as nat))
        } else {
            None
        },
    }
}

/// The output after all of `codes`, starting from `stream`.
pub open spec fn replay_onto(stream: Seq<u8>, codes: Seq<Code>) -> Option<Seq<u8>>
    decreases codes.len(),
{
    if codes.len() == 0 {
        Some(stream)
    } else {
        match replay_one(stream, codes[0]) {
            Some(next) => replay_onto(next, codes.drop_first()),
            None => None,
        }
    }
}

/// The bytes that `codes` stand for when `window` is what came before them.
pub open spec fn replay(window: Seq<u8>, codes: Seq<Code>) -> Option<Seq<u8>> {
    match replay_onto(window, codes) {
        Some(stream) => Some(stream.skip(window.len() as int)),
        None => None,
    }
}

/// One literal for each byte, in order.
pub open spec fn literals(bytes: Seq<u8>) -> Seq<Code> {
    Seq::new(bytes.len(), |i: int| Code::Literal(bytes[i]))
}

/// Whether no code of `codes` reaches back farther than `limit`.
pub open spec fn within_reach(codes: Seq<Code>, limit: nat) -> bool {
    forall|i: int| 0 <= i < codes.len() ==> (#[trigger] codes[i]).reach() <= limit
}

/// Replaying literals appends their bytes, whatever came before.
pub proof fn lemma_replay_literals(stream: Seq<u8>, bytes: Seq<u8>)
    ensures
        replay_onto(stream, literals(bytes)) == Some(stream + bytes),
        replay(stream, literals(bytes)) == Some(bytes),
    decreases bytes.len(),
{
    if bytes.len() == 0 {
        assert(stream + bytes =~= stream);
    } else {
        let rest = bytes.drop_first();
        assert(literals(bytes).drop_first() =~= literals(rest));
        lemma_replay_literals(stream.push(bytes[0]), rest);
        assert(stream.push(bytes[0]) + rest =~= stream + bytes);
    }
    assert((stream + bytes).skip(stream.len() as int) =~= bytes);
}

/// A consumer of codes.
pub trait Sink {
    /// Every code consumed so far, oldest first.
    spec fn codes(&self) -> Seq<Code>;

    /// Takes one more code.
    fn consume(&mut self, code: Code)
        ensures
            final(self).codes() == old(self).codes().push(code),
    ;
}

impl Sink for Vec<Code> {
    open spec fn codes(&self) -> Seq<Code> {
        self@
    }

    fn consume(&mut self, code: Code) {
        self.push(code);
    }
}

/// A handle to a sink is a sink: what it consumes, the sink behind it
/// consumes.
impl<'a, T: Sink> Sink for &'a mut T {
    open spec fn codes(&self) -> Seq<Code> {
        (**self).codes()
    }

    fn consume(&mut self, code: Code) {
        (**self).consume(code);
    }
}

/// A hint on how hard an encoder should look for matches.
#[derive(Debug, Clone, Copy, PartialEq, Eq, Hash, Structural)]
pub enum CompressionMode {
    NoCompression,
    BestSpeed,
    Balance,
    BestCompression,
}

impl Default for CompressionMode {
    fn default() -> (mode: Self)
        ensures
            mode == CompressionMode::Balance,
    {
        CompressionMode::Balance
    }
}

/// An LZ77 encoder.
///
/// The encoder keeps a window of bytes that its codes may point back into,
/// and may hold bytes back until `flush`. The contract of `encode` and
/// `flush` is the correctness of the encoder: the codes handed to the sink
/// in one call, replayed against the window as it was before the call,
/// give exactly the bytes that left the encoder in that call.
pub trait Lz77Encode {
    /// The bytes that codes emitted from now on may point back into.
    spec fn window(&self) -> Seq<u8>;

    /// The bytes taken in that no emitted code stands for yet.
    spec fn pending(&self) -> Seq<u8>;

    /// The value that `window_size` returns.
    spec fn window_limit(&self) -> u16;

    /// Takes in `buf` and hands zero or more codes to `sink`.
    fn encode<S: Sink>(&mut self, buf: &[u8], sink: &mut S)
        ensures
            emitted_correctly(
                old(self).window(),
                old(self).pending() + buf@,
                (*old(sink)).codes(),
                (*final(sink)).codes(),
                final(self).window(),
                final(self).pending(),
                final(self).window_limit(),
            ),
            final(self).window_limit() == old(self).window_limit(),
    ;

    /// Hands to `sink` the codes for everything that was held back.
    fn flush<S: Sink>(&mut self, sink: &mut S)
        ensures
            emitted_correctly(
                old(self).window(),
                old(self).pending(),
                (*old(sink)).codes(),
                (*final(sink)).codes(),
                final(self).window(),
                final(self).pending(),
                final(self).window_limit(),
            ),
            final(self).pending() == Seq::<u8>::empty(),
            final(self).window_limit() == old(self).window_limit(),
    ;

    /// The policy the encoder follows: a balance, unless it says otherwise.
    fn compression_mode(&self) -> (mode: CompressionMode)
        default_ensures
            mode == CompressionMode::Balance,
    {
        CompressionMode::Balance
    }

    /// The farthest back any emitted pointer reaches.
    fn window_size(&self) -> (size: u16)
        ensures
            size == self.window_limit(),
            size <= MAX_WINDOW_SIZE,
    ;
}

/// What one call of an encoder owes. `input` is what the encoder had to
/// encode (held back earlier or handed in now). The sink has only grown;
/// the new codes are valid, stay within `limit`, and replay against
/// `window_before` to a prefix of `input`; the rest of `input` is what is
/// held back; and the new window is a tail of the old one followed by what
/// was produced.
pub open spec fn emitted_correctly(
    window_before: Seq<u8>,
    input: Seq<u8>,
    codes_before: Seq<Code>,
    codes_after: Seq<Code>,
    window_after: Seq<u8>,
    pending_after: Seq<u8>,
    limit: u16,
) -> bool {
    let emitted = codes_after.skip(codes_before.len() as int);
    &&& codes_before.is_prefix_of(codes_after)
    &&& within_reach(emitted, limit as nat)
    &&& replay(window_before, emitted) matches Some(produced)
    &&& produced + pending_after == input
    &&& window_after.is_suffix_of(window_before + produced)
}

/// The encoder that does not compress: one literal for each byte.
#[derive(Debug)]
pub struct NonCompressedLz77Encoder {}

impl NonCompressedLz77Encoder {
    pub fn new() -> (encoder: Self)
        ensures
            encoder.window() == Seq::<u8>::empty(),
            encoder.pending() == Seq::<u8>::empty(),
    {
        NonCompressedLz77Encoder {  }
    }
}

impl Lz77Encode for NonCompressedLz77Encoder {
    /// Literals never point back, so no window is kept.
    open spec fn window(&self) -> Seq<u8> {
        Seq::empty()
    }

    /// Nothing is ever held back.
    open spec fn pending(&self) -> Seq<u8> {
        Seq::empty()
    }

    open spec fn window_limit(&self) -> u16 {
        MAX_WINDOW_SIZE
    }

    fn encode<S: Sink>(&mut self, buf: &[u8], sink: &mut S)
        ensures
            (*final(sink)).codes() == (*old(sink)).codes() + literals(buf@),
    {
        let ghost before = (*sink).codes();
        let mut i: usize = 0;
        while i < buf.len()
            invariant
                i <= buf.len(),
                (*sink).codes() == before + literals(buf@.take(i as int)),
            decreases buf.len() - i,
        {
            sink.consume(Code::Literal(buf[i]));
            proof {
                assert(literals(buf@.take(i as int)).push(Code::Literal(buf@[i as int]))
                    =~= literals(buf@.take(i as int + 1)));
            }
            i = i + 1;
        }
        proof {
            assert(buf@.take(buf.len() as int) =~= buf@);
            let emitted = (*sink).codes().skip(before.len() as int);
            assert(emitted =~= literals(buf@));
            lemma_replay_literals(Seq::empty(), buf@);
            assert(buf@ + Seq::<u8>::empty() =~= Seq::<u8>::empty() + buf@);
        }
    }

    fn flush<S: Sink>(&mut self, sink: &mut S)
        ensures
            (*final(sink)).codes() == (*old(sink)).codes(),
    {
        proof {
            assert((*sink).codes().skip((*sink).codes().len() as int) =~= Seq::<Code>::empty());
        }
    }

    fn compression_mode(&self) -> (mode: CompressionMode)
        ensures
            mode == CompressionMode::NoCompression,
    {
        CompressionMode::NoCompression
    }

    fn window_size(&self) -> (size: u16) {
        MAX_WINDOW_SIZE
    }
}

/// Replaying two runs of codes one after the other is replaying the first
/// and then, from where it ended, the second.
pub proof fn lemma_replay_concat(stream: Seq<u8>, first: Seq<Code>, second: Seq<Code>)
    ensures
        replay_onto(stream, first + second) == match replay_onto(stream, first) {
            Some(middle) => replay_onto(middle, second),
            None => None,
        },
    decreases first.len(),
{
    if first.len() == 0 {
        assert(first + second =~= second);
    } else {
        assert((first + second)[0] == first[0]);
        assert((first + second).drop_first() =~= first.drop_first() + second);
        match replay_one(stream, first[0]) {
            Some(next) => {
                lemma_replay_concat(next, first.drop_first(), second);
            },
            None => {},
        }
    }
}

/// Replaying only appends: what was there stays in front.
pub proof fn lemma_replay_appends(stream: Seq<u8>, codes: Seq<Code>)
    ensures
        replay_onto(stream, codes) matches Some(after) ==> stream.is_prefix_of(after),
    decreases codes.len(),
{
    if codes.len() > 0 {
        match replay_one(stream, codes[0]) {
            Some(next) => {
                lemma_copy_back_appends(stream, codes[0]);
                lemma_replay_appends(next, codes.drop_first());
            },
            None => {},
        }
    }
}

/// One code only appends.
proof fn lemma_copy_back_appends(stream: Seq<u8>, code: Code)
    ensures
        replay_one(stream, code) matches Some(after) ==> stream.is_prefix_of(after),
{
    match code {
        Code::Literal(_) => {},
        Code::Pointer { length, backward_distance } => {
            if replay_one(stream, code) is Some {
                lemma_copy_back(stream, length as nat, backward_distance as nat);
            }
        },
    }
}

/// A copy appends `length` bytes and keeps what was there.
proof fn lemma_copy_back(stream: Seq<u8>, length: nat, distance: nat)
    requires
        1 <= distance <= stream.len(),
    ensures
        copy_back(stream, length, distance).len() == stream.len() + length,
        stream.is_prefix_of(copy_back(stream, length, distance)),
    decreases length,
{
    if length > 0 {
        lemma_copy_back(stream.push(stream[stream.len() - distance]), (length - 1) as nat, distance);
    }
}

/// A copy sees only the last `distance` bytes: more bytes in front change
/// nothing of what it appends.
proof fn lemma_copy_back_with_more_in_front(
    front: Seq<u8>,
    stream: Seq<u8>,
    length: nat,
    distance: nat,
)
    requires
        1 <= distance <= stream.len(),
    ensures
        copy_back(front + stream, length, distance) == front + copy_back(stream, length, distance),
    decreases length,
{
    if length == 0 {
    } else {
        let byte = stream[stream.len() - distance];
        assert((front + stream)[(front + stream).len() - distance] == byte);
        assert((front + stream).push(byte) =~= front + stream.push(byte));
        lemma_copy_back_with_more_in_front(front, stream.push(byte), (length - 1) as nat, distance);
    }
}

/// Codes that replay against a window replay the same way against any
/// longer history that ends with that window. So an encoder may forget the
/// front of its window, and whoever replays all the codes of a stream from
/// its start still gets the bytes that each call stood for.
pub proof fn lemma_replay_with_more_in_front(front: Seq<u8>, window: Seq<u8>, codes: Seq<Code>)
    ensures
        replay_onto(window, codes) matches Some(after) ==> replay_onto(front + window, codes)
            == Some(front + after),
        replay(window, codes) matches Some(produced) ==> replay(front + window, codes) == Some(
            produced,
        ),
    decreases codes.len(),
{
    if codes.len() == 0 {
    } else {
        match replay_one(window, codes[0]) {
            Some(next) => {
                match codes[0] {
                    Code::Literal(byte) => {
                        assert((front + window).push(byte) =~= front + window.push(byte));
                    },
                    Code::Pointer { length, backward_distance } => {
                        lemma_copy_back_with_more_in_front(
                            front,
                            window,
                            length as nat,
                            backward_distance as nat,
                        );
                    },
                }
                lemma_replay_with_more_in_front(front, next, codes.drop_first());
            },
            None => {},
        }
    }
    match replay_onto(window, codes) {
        Some(after) => {
            lemma_replay_appends(window, codes);
            assert((front + after).skip((front + window).len() as int) =~= after.skip(
                window.len() as int,
            ));
        },
        None => {},
    }
}

} // verus!
