//! The binary form of values: how a value is written, and how it is read
//! back. Lengths and numbers are little-endian; a list is its length and
//! then its elements; a text is the length of its UTF-8 form and then that
//! form.

use crate::collections::{seq_view, DeepClone};
use vstd::bytes::{
    spec_u128_from_le_bytes, spec_u128_to_le_bytes, spec_u64_from_le_bytes, spec_u64_to_le_bytes,
    u128_from_le_bytes, u128_to_le_bytes, u64_from_le_bytes, u64_to_le_bytes,
};
use vstd::prelude::*;
use vstd::slice::slice_subrange;
use vstd::utf8::{decode_utf8, encode_utf8, valid_utf8};

verus! {

/// A cursor over bytes that are being read.
pub struct Reader<'a> {
    bytes: &'a [u8],
    at: usize,
}

impl<'a> Reader<'a> {
    /// The cursor is within the bytes.
    pub closed spec fn wf(&self) -> bool {
        self.at <= self.bytes@.len()
    }

    /// The bytes that are still to be read.
    pub closed spec fn rest(&self) -> Seq<u8> {
        self.bytes@.skip(self.at as int)
    }

    pub fn new(bytes: &'a [u8]) -> (r: Self)
        ensures
            r.wf(),
            r.rest() == bytes@,
    {
        let r = Reader { bytes, at: 0 };
        assert(r.rest() =~= bytes@);
        r
    }

    /// Whether every byte was read.
    pub fn is_done(&self) -> (b: bool)
        requires
            self.wf(),
        ensures
            b == (self.rest().len() == 0),
    {
        self.at == self.bytes.len()
    }

    /// How many bytes are still to be read.
    pub fn remaining(&self) -> (n: usize)
        requires
            self.wf(),
        ensures
            n == self.rest().len(),
    {
        self.bytes.len() - self.at
    }

    /// The next `n` bytes, where there are as many.
    pub fn take(&mut self, n: usize) -> (r: Option<&'a [u8]>)
        requires
            old(self).wf(),
        ensures
            final(self).wf(),
            match r {
                Some(s) => n <= old(self).rest().len() && s@ == old(self).rest().take(n as int)
                    && final(self).rest() == old(self).rest().skip(n as int),
                None => n > old(self).rest().len(),
            },
    {
        if n > self.bytes.len() - self.at {
            return None;
        }
        let s = slice_subrange(self.bytes, self.at, self.at + n);
        assert(s@ =~= self.rest().take(n as int));
        self.at = self.at + n;
        assert(self.rest() =~= old(self).rest().skip(n as int));
        Some(s)
    }
}

/// Joining bytes in either grouping gives the same bytes.
pub proof fn lemma_concat_assoc(a: Seq<u8>, b: Seq<u8>, c: Seq<u8>)
    ensures
        (a + b) + c == a + (b + c),
{
    assert((a + b) + c =~= a + (b + c));
}

/// A value that has a binary form.
pub trait Wire: DeepClone {
    /// The binary form of the value.
    spec fn wire(&self) -> Seq<u8>;

    /// What is read from the front of `bytes`: the view of a value, and
    /// the bytes after it; nothing where the bytes do not start with the
    /// binary form of a value.
    spec fn read(bytes: Seq<u8>) -> Option<(Self::V, Seq<u8>)>;

    /// Whether every length within the value fits in 64 bits. Every
    /// value that was written does.
    spec fn fits(&self) -> bool;

    /// The binary form is never empty, and it is read back as the value,
    /// whatever follows it.
    proof fn lemma_read_wire(&self, rest: Seq<u8>)
        requires
            self.valid(),
            self.fits(),
        ensures
            self.wire().len() > 0,
            Self::read(self.wire() + rest) == Some((self@, rest)),
    ;

    /// Appends the binary form of the value.
    fn encode(&self, out: &mut Vec<u8>)
        requires
            self.valid(),
        ensures
            final(out)@ == old(out)@ + self.wire(),
            self.fits(),
    ;

    /// Reads a value from the cursor.
    fn decode(reader: &mut Reader<'_>) -> (r: Option<Self>)
        requires
            old(reader).wf(),
        ensures
            final(reader).wf(),
            match r {
                Some(x) => x.valid() && Self::read(old(reader).rest()) == Some(
                    (x@, final(reader).rest()),
                ),
                None => Self::read(old(reader).rest()) is None,
            },
    ;
}

impl DeepClone for u8 {
    open spec fn valid(&self) -> bool {
        true
    }

    fn deep_clone(&self) -> (r: Self) {
        *self
    }
}

impl DeepClone for bool {
    open spec fn valid(&self) -> bool {
        true
    }

    fn deep_clone(&self) -> (r: Self) {
        *self
    }
}

impl DeepClone for u128 {
    open spec fn valid(&self) -> bool {
        true
    }

    fn deep_clone(&self) -> (r: Self) {
        *self
    }
}

impl DeepClone for i128 {
    open spec fn valid(&self) -> bool {
        true
    }

    fn deep_clone(&self) -> (r: Self) {
        *self
    }
}

impl Wire for u8 {
    open spec fn fits(&self) -> bool {
        true
    }

    open spec fn wire(&self) -> Seq<u8> {
        seq![*self]
    }

    open spec fn read(bytes: Seq<u8>) -> Option<(u8, Seq<u8>)> {
        if bytes.len() >= 1 {
            Some((bytes[0], bytes.skip(1)))
        } else {
            None
        }
    }

    proof fn lemma_read_wire(&self, rest: Seq<u8>) {
        assert((self.wire() + rest).skip(1) =~= rest);
    }

    fn encode(&self, out: &mut Vec<u8>) {
        out.push(*self);
        assert(out@ =~= old(out)@ + self.wire());
    }

    fn decode(reader: &mut Reader<'_>) -> (r: Option<Self>) {
        match reader.take(1) {
            Some(s) => Some(s[0]),
            None => None,
        }
    }
}

impl Wire for bool {
    open spec fn fits(&self) -> bool {
        true
    }

    open spec fn wire(&self) -> Seq<u8> {
        seq![if *self { 1u8 } else { 0u8 }]
    }

    open spec fn read(bytes: Seq<u8>) -> Option<(bool, Seq<u8>)> {
        if bytes.len() >= 1 && bytes[0] <= 1 {
            Some((bytes[0] == 1, bytes.skip(1)))
        } else {
            None
        }
    }

    proof fn lemma_read_wire(&self, rest: Seq<u8>) {
        assert((self.wire() + rest).skip(1) =~= rest);
    }

    fn encode(&self, out: &mut Vec<u8>) {
        out.push(if *self { 1 } else { 0 });
        assert(out@ =~= old(out)@ + self.wire());
    }

    fn decode(reader: &mut Reader<'_>) -> (r: Option<Self>) {
        match reader.take(1) {
            Some(s) => if s[0] <= 1 {
                Some(s[0] == 1)
            } else {
                None
            },
            None => None,
        }
    }
}

impl Wire for u64 {
    open spec fn fits(&self) -> bool {
        true
    }

    open spec fn wire(&self) -> Seq<u8> {
        spec_u64_to_le_bytes(*self)
    }

    open spec fn read(bytes: Seq<u8>) -> Option<(u64, Seq<u8>)> {
        if bytes.len() >= 8 {
            Some((spec_u64_from_le_bytes(bytes.take(8)), bytes.skip(8)))
        } else {
            None
        }
    }

    proof fn lemma_read_wire(&self, rest: Seq<u8>) {
        vstd::bytes::lemma_auto_spec_u64_to_from_le_bytes();
        assert((self.wire() + rest).take(8) =~= self.wire());
        assert((self.wire() + rest).skip(8) =~= rest);
    }

    fn encode(&self, out: &mut Vec<u8>) {
        let mut bytes = u64_to_le_bytes(*self);
        out.append(&mut bytes);
    }

    fn decode(reader: &mut Reader<'_>) -> (r: Option<Self>) {
        match reader.take(8) {
            Some(s) => Some(u64_from_le_bytes(s)),
            None => None,
        }
    }
}

impl Wire for u128 {
    open spec fn fits(&self) -> bool {
        true
    }

    open spec fn wire(&self) -> Seq<u8> {
        spec_u128_to_le_bytes(*self)
    }

    open spec fn read(bytes: Seq<u8>) -> Option<(u128, Seq<u8>)> {
        if bytes.len() >= 16 {
            Some((spec_u128_from_le_bytes(bytes.take(16)), bytes.skip(16)))
        } else {
            None
        }
    }

    proof fn lemma_read_wire(&self, rest: Seq<u8>) {
        vstd::bytes::lemma_auto_spec_u128_to_from_le_bytes();
        assert((self.wire() + rest).take(16) =~= self.wire());
        assert((self.wire() + rest).skip(16) =~= rest);
    }

    fn encode(&self, out: &mut Vec<u8>) {
        let mut bytes = u128_to_le_bytes(*self);
        out.append(&mut bytes);
    }

    fn decode(reader: &mut Reader<'_>) -> (r: Option<Self>) {
        match reader.take(16) {
            Some(s) => Some(u128_from_le_bytes(s)),
            None => None,
        }
    }
}

impl Wire for i128 {
    open spec fn fits(&self) -> bool {
        true
    }

    /// A signed number is written as the unsigned number with the same bits.
    open spec fn wire(&self) -> Seq<u8> {
        spec_u128_to_le_bytes(*self as u128)
    }

    open spec fn read(bytes: Seq<u8>) -> Option<(i128, Seq<u8>)> {
        if bytes.len() >= 16 {
            Some((spec_u128_from_le_bytes(bytes.take(16)) as i128, bytes.skip(16)))
        } else {
            None
        }
    }

    proof fn lemma_read_wire(&self, rest: Seq<u8>) {
        vstd::bytes::lemma_auto_spec_u128_to_from_le_bytes();
        assert((self.wire() + rest).take(16) =~= self.wire());
        assert((self.wire() + rest).skip(16) =~= rest);
        let x = *self;
        assert((x as u128) as i128 == x) by (bit_vector);
    }

    fn encode(&self, out: &mut Vec<u8>) {
        let mut bytes = u128_to_le_bytes(*self as u128);
        out.append(&mut bytes);
    }

    fn decode(reader: &mut Reader<'_>) -> (r: Option<Self>) {
        match reader.take(16) {
            Some(s) => Some(u128_from_le_bytes(s) as i128),
            None => None,
        }
    }
}

impl<A: Wire, B: Wire> Wire for (A, B) {
    open spec fn fits(&self) -> bool {
        self.0.fits() && self.1.fits()
    }

    open spec fn wire(&self) -> Seq<u8> {
        self.0.wire() + self.1.wire()
    }

    open spec fn read(bytes: Seq<u8>) -> Option<((A::V, B::V), Seq<u8>)> {
        match A::read(bytes) {
            Some((a, after)) => match B::read(after) {
                Some((b, rest)) => Some(((a, b), rest)),
                None => None,
            },
            None => None,
        }
    }

    proof fn lemma_read_wire(&self, rest: Seq<u8>) {
        self.0.lemma_read_wire(self.1.wire() + rest);
        self.1.lemma_read_wire(rest);
        assert(self.wire() + rest =~= self.0.wire() + (self.1.wire() + rest));
    }

    fn encode(&self, out: &mut Vec<u8>) {
        self.0.encode(out);
        self.1.encode(out);
        assert(out@ =~= old(out)@ + self.wire());
    }

    fn decode(reader: &mut Reader<'_>) -> (r: Option<Self>) {
        let a = match A::decode(reader) {
            Some(v) => v,
            None => {
                return None;
            },
        };
        let b = match B::decode(reader) {
            Some(v) => v,
            None => {
                return None;
            },
        };
        let r = (a, b);
        assert(r.valid());
        Some(r)
    }
}

/// The binary form of a run of bytes: its length, then the bytes.
pub open spec fn wire_bytes(bytes: Seq<u8>) -> Seq<u8> {
    spec_u64_to_le_bytes(bytes.len() as u64) + bytes
}

/// What is read as a run of bytes.
pub open spec fn read_bytes(bytes: Seq<u8>) -> Option<(Seq<u8>, Seq<u8>)> {
    match u64::read(bytes) {
        Some((n, after)) => if n <= after.len() {
            Some((after.take(n as int), after.skip(n as int)))
        } else {
            None
        },
        None => None,
    }
}

/// A run of bytes whose length fits in 64 bits is read back as it was
/// written.
pub proof fn lemma_read_wire_bytes(bytes: Seq<u8>, rest: Seq<u8>)
    requires
        bytes.len() <= u64::MAX,
    ensures
        wire_bytes(bytes).len() > 0,
        read_bytes(wire_bytes(bytes) + rest) == Some((bytes, rest)),
{
    let n = bytes.len() as u64;
    n.lemma_read_wire(bytes + rest);
    assert(wire_bytes(bytes) + rest =~= n.wire() + (bytes + rest));
    assert((bytes + rest).take(n as int) =~= bytes);
    assert((bytes + rest).skip(n as int) =~= rest);
}

/// Appends the binary form of a run of bytes.
pub fn put_bytes(bytes: &[u8], out: &mut Vec<u8>)
    ensures
        final(out)@ == old(out)@ + wire_bytes(bytes@),
        bytes@.len() <= u64::MAX,
{
    let n: u64 = bytes.len() as u64;
    n.encode(out);
    let mut i: usize = 0;
    assert(out@ =~= old(out)@ + n.wire() + bytes@.take(0));
    while i < bytes.len()
        invariant
            i <= bytes@.len(),
            out@ == old(out)@ + n.wire() + bytes@.take(i as int),
        decreases bytes@.len() - i,
    {
        out.push(bytes[i]);
        assert(bytes@.take(i + 1) =~= bytes@.take(i as int).push(bytes@[i as int]));
        assert(out@ =~= old(out)@ + n.wire() + bytes@.take(i + 1));
        i += 1;
    }
    assert(bytes@.take(i as int) =~= bytes@);
    assert(out@ =~= old(out)@ + wire_bytes(bytes@));
}

/// Reads a run of bytes.
pub fn get_bytes<'a>(reader: &mut Reader<'a>) -> (r: Option<&'a [u8]>)
    requires
        old(reader).wf(),
    ensures
        final(reader).wf(),
        match r {
            Some(s) => read_bytes(old(reader).rest()) == Some((s@, final(reader).rest())),
            None => read_bytes(old(reader).rest()) is None,
        },
{
    let n = match u64::decode(reader) {
        Some(n) => n,
        None => {
            return None;
        },
    };
    if n > reader.remaining() as u64 {
        return None;
    }
    reader.take(n as usize)
}

impl Wire for Vec<u8> {
    open spec fn fits(&self) -> bool {
        self@.len() <= u64::MAX
    }

    open spec fn wire(&self) -> Seq<u8> {
        wire_bytes(self@)
    }

    open spec fn read(bytes: Seq<u8>) -> Option<(Seq<u8>, Seq<u8>)> {
        read_bytes(bytes)
    }

    proof fn lemma_read_wire(&self, rest: Seq<u8>) {
        lemma_read_wire_bytes(self@, rest);
    }

    fn encode(&self, out: &mut Vec<u8>) {
        put_bytes(self.as_slice(), out);
    }

    fn decode(reader: &mut Reader<'_>) -> (r: Option<Self>) {
        match get_bytes(reader) {
            Some(s) => {
                let v = vstd::slice::slice_to_vec(s);
                assert(v.valid());
                Some(v)
            },
            None => None,
        }
    }
}

/// Reads bytes as UTF-8 text, with `String::from_utf8`: the text that the
/// bytes encode, or nothing where they are no valid UTF-8.
#[verifier::external_body]
fn text_of(bytes: Vec<u8>) -> (r: Option<String>)
    ensures
        match r {
            Some(s) => valid_utf8(bytes@) && s@ == decode_utf8(bytes@),
            None => !valid_utf8(bytes@),
        },
{
    String::from_utf8(bytes).ok()
}

impl Wire for String {
    open spec fn fits(&self) -> bool {
        encode_utf8(self@).len() <= u64::MAX
    }

    open spec fn wire(&self) -> Seq<u8> {
        wire_bytes(encode_utf8(self@))
    }

    open spec fn read(bytes: Seq<u8>) -> Option<(Seq<char>, Seq<u8>)> {
        match read_bytes(bytes) {
            Some((text, after)) => if valid_utf8(text) {
                Some((decode_utf8(text), after))
            } else {
                None
            },
            None => None,
        }
    }

    proof fn lemma_read_wire(&self, rest: Seq<u8>) {
        broadcast use vstd::utf8::encode_utf8_valid_utf8, vstd::utf8::encode_utf8_decode_utf8;

        lemma_read_wire_bytes(encode_utf8(self@), rest);
    }

    fn encode(&self, out: &mut Vec<u8>) {
        put_bytes(self.as_str().as_bytes(), out);
    }

    fn decode(reader: &mut Reader<'_>) -> (r: Option<Self>) {
        match get_bytes(reader) {
            Some(s) => match text_of(vstd::slice::slice_to_vec(s)) {
                Some(text) => {
                    assert(text.valid());
                    Some(text)
                },
                None => None,
            },
            None => None,
        }
    }
}


/// Whether every element is well formed.
pub open spec fn all_valid<T: DeepClone>(s: Seq<T>) -> bool {
    forall|i: int| 0 <= i < s.len() ==> (#[trigger] s[i]).valid()
}

/// Whether every length within every element fits in 64 bits.
pub open spec fn all_fit<T: Wire>(s: Seq<T>) -> bool {
    forall|i: int| 0 <= i < s.len() ==> (#[trigger] s[i]).fits()
}

/// The binary forms of the elements, one after the other.
pub open spec fn wire_each<T: Wire>(s: Seq<T>) -> Seq<u8>
    decreases s.len(),
{
    if s.len() == 0 {
        Seq::empty()
    } else {
        s[0].wire() + wire_each(s.drop_first())
    }
}

/// What is read as `count` elements, one after the other.
pub open spec fn read_each<T: Wire>(bytes: Seq<u8>, count: nat) -> Option<(Seq<T::V>, Seq<u8>)>
    decreases count,
{
    if count == 0 {
        Some((Seq::empty(), bytes))
    } else {
        match T::read(bytes) {
            Some((v, after)) => match read_each::<T>(after, (count - 1) as nat) {
                Some((vs, rest)) => Some((seq![v] + vs, rest)),
                None => None,
            },
            None => None,
        }
    }
}

/// The binary form of a list: its length, then its elements.
pub open spec fn wire_list<T: Wire>(s: Seq<T>) -> Seq<u8> {
    spec_u64_to_le_bytes(s.len() as u64) + wire_each(s)
}

/// What is read as a list. A length that is more than the bytes that
/// follow is refused: every element takes a byte at the least.
pub open spec fn read_list<T: Wire>(bytes: Seq<u8>) -> Option<(Seq<T::V>, Seq<u8>)> {
    match u64::read(bytes) {
        Some((n, after)) => if n <= after.len() {
            read_each::<T>(after, n as nat)
        } else {
            None
        },
        None => None,
    }
}

/// The binary forms of a sequence with one more element.
pub proof fn lemma_wire_each_push<T: Wire>(s: Seq<T>, x: T)
    ensures
        wire_each(s.push(x)) == wire_each(s) + x.wire(),
    decreases s.len(),
{
    if s.len() == 0 {
        let one = s.push(x);
        assert(one.drop_first() =~= Seq::<T>::empty());
        assert(one[0] == x);
        assert(wire_each(one.drop_first()) =~= Seq::<u8>::empty());
        assert(wire_each(one) =~= x.wire() + wire_each(one.drop_first()));
        assert(wire_each(s) =~= Seq::<u8>::empty());
        assert(wire_each(s.push(x)) =~= wire_each(s) + x.wire());
    } else {
        assert(s.push(x)[0] == s[0]);
        assert(s.push(x).drop_first() =~= s.drop_first().push(x));
        lemma_wire_each_push(s.drop_first(), x);
        assert(wire_each(s.push(x)) =~= wire_each(s) + x.wire());
    }
}

/// Elements are read back as they were written, whatever follows them.
pub proof fn lemma_read_wire_each<T: Wire>(s: Seq<T>, rest: Seq<u8>)
    requires
        all_valid(s),
        all_fit(s),
    ensures
        wire_each(s).len() >= s.len(),
        read_each::<T>(wire_each(s) + rest, s.len()) == Some((seq_view(s), rest)),
    decreases s.len(),
{
    if s.len() == 0 {
        assert(wire_each(s) + rest =~= rest);
        assert(seq_view(s) =~= Seq::<T::V>::empty());
    } else {
        let tail = s.drop_first();
        assert(all_valid(tail)) by {
            assert forall|i: int| 0 <= i < tail.len() implies (#[trigger] tail[i]).valid() by {
                assert(tail[i] == s[i + 1]);
            }
        }
        assert(all_fit(tail)) by {
            assert forall|i: int| 0 <= i < tail.len() implies (#[trigger] tail[i]).fits() by {
                assert(tail[i] == s[i + 1]);
            }
        }
        lemma_read_wire_each(tail, rest);
        s[0].lemma_read_wire(wire_each(tail) + rest);
        assert(wire_each(s) + rest =~= s[0].wire() + (wire_each(tail) + rest));
        assert(seq_view(s) =~= seq![s[0]@] + seq_view(tail));
    }
}

/// A list whose length fits in 64 bits is read back as it was written.
pub proof fn lemma_read_wire_list<T: Wire>(s: Seq<T>, rest: Seq<u8>)
    requires
        all_valid(s),
        all_fit(s),
        s.len() <= u64::MAX,
    ensures
        wire_list(s).len() > 0,
        read_list::<T>(wire_list(s) + rest) == Some((seq_view(s), rest)),
{
    let n = s.len() as u64;
    n.lemma_read_wire(wire_each(s) + rest);
    lemma_read_wire_each(s, rest);
    assert(wire_list(s) + rest =~= n.wire() + (wire_each(s) + rest));
}

/// Appends the binary form of a list.
pub fn put_list<T: Wire>(v: &Vec<T>, out: &mut Vec<u8>)
    requires
        all_valid(v@),
    ensures
        final(out)@ == old(out)@ + wire_list(v@),
        all_fit(v@),
        v@.len() <= u64::MAX,
{
    let n: u64 = v.len() as u64;
    n.encode(out);
    let mut i: usize = 0;
    assert(v@.take(0) =~= Seq::<T>::empty());
    assert(out@ =~= old(out)@ + n.wire() + wire_each(v@.take(0)));
    while i < v.len()
        invariant
            i <= v@.len(),
            all_valid(v@),
            out@ == old(out)@ + n.wire() + wire_each(v@.take(i as int)),
            forall|j: int| 0 <= j < i ==> (#[trigger] v@[j]).fits(),
        decreases v@.len() - i,
    {
        let ghost before = out@;
        v[i].encode(out);
        proof {
            lemma_wire_each_push(v@.take(i as int), v@[i as int]);
            assert(v@.take(i + 1) =~= v@.take(i as int).push(v@[i as int]));
            assert(out@ =~= old(out)@ + n.wire() + wire_each(v@.take(i + 1)));
        }
        i += 1;
    }
    assert(v@.take(i as int) =~= v@);
    assert(out@ =~= old(out)@ + wire_list(v@));
}

/// What is read, with the elements that were read before put in front.
pub open spec fn after_prefix<V>(prefix: Seq<V>, read: Option<(Seq<V>, Seq<u8>)>) -> Option<
    (Seq<V>, Seq<u8>),
> {
    match read {
        Some((vs, rest)) => Some((prefix + vs, rest)),
        None => None,
    }
}

/// Reads a list.
pub fn get_list<T: Wire>(reader: &mut Reader<'_>) -> (r: Option<Vec<T>>)
    requires
        old(reader).wf(),
    ensures
        final(reader).wf(),
        match r {
            Some(v) => all_valid(v@) && read_list::<T>(old(reader).rest()) == Some(
                (seq_view(v@), final(reader).rest()),
            ),
            None => read_list::<T>(old(reader).rest()) is None,
        },
{
    let n = match u64::decode(reader) {
        Some(n) => n,
        None => {
            return None;
        },
    };
    if n > reader.remaining() as u64 {
        return None;
    }
    let ghost start = reader.rest();
    let ghost whole = read_each::<T>(start, n as nat);
    assert(read_list::<T>(old(reader).rest()) == whole);
    let mut items: Vec<T> = Vec::new();
    let mut i: u64 = 0;
    assert(seq_view(items@) =~= Seq::<T::V>::empty());
    assert(whole == after_prefix(seq_view(items@), read_each::<T>(reader.rest(), n as nat))) by {
        match read_each::<T>(reader.rest(), n as nat) {
            Some((vs, rest)) => {
                assert(Seq::<T::V>::empty() + vs =~= vs);
            },
            None => {},
        }
    }
    while i < n
        invariant
            i <= n,
            reader.wf(),
            all_valid(items@),
            read_list::<T>(old(reader).rest()) == whole,
            whole == after_prefix(
                seq_view(items@),
                read_each::<T>(reader.rest(), (n - i) as nat),
            ),
        decreases n - i,
    {
        let ghost here = reader.rest();
        let ghost prefix = seq_view(items@);
        match T::decode(reader) {
            Some(x) => {
                items.push(x);
                proof {
                    assert(seq_view(items@) =~= prefix.push(x@));
                    match read_each::<T>(reader.rest(), (n - i - 1) as nat) {
                        Some((vs, rest)) => {
                            assert(prefix + (seq![x@] + vs) =~= prefix.push(x@) + vs);
                        },
                        None => {},
                    }
                }
            },
            None => {
                assert(read_each::<T>(here, (n - i) as nat) is None);
                return None;
            },
        }
        i += 1;
    }
    proof {
        assert(seq_view(items@) + Seq::<T::V>::empty() =~= seq_view(items@));
    }
    Some(items)
}

/// Whether what an option holds is well formed.
pub open spec fn opt_valid<T: DeepClone>(o: Option<T>) -> bool {
    match o {
        Some(t) => t.valid(),
        None => true,
    }
}

/// Whether every length within what an option holds fits in 64 bits.
pub open spec fn opt_fits<T: Wire>(o: Option<T>) -> bool {
    match o {
        Some(t) => t.fits(),
        None => true,
    }
}

/// The binary form of an option: a byte that says whether it holds a
/// value, then the value.
pub open spec fn wire_opt<T: Wire>(o: Option<T>) -> Seq<u8> {
    match o {
        Some(t) => seq![1u8] + t.wire(),
        None => seq![0u8],
    }
}

/// What is read as an option.
pub open spec fn read_opt<T: Wire>(bytes: Seq<u8>) -> Option<(Option<T::V>, Seq<u8>)> {
    if bytes.len() >= 1 && bytes[0] == 0 {
        Some((None, bytes.skip(1)))
    } else if bytes.len() >= 1 && bytes[0] == 1 {
        match T::read(bytes.skip(1)) {
            Some((v, rest)) => Some((Some(v), rest)),
            None => None,
        }
    } else {
        None
    }
}

/// An option is read back as it was written.
pub proof fn lemma_read_wire_opt<T: Wire>(o: Option<T>, rest: Seq<u8>)
    requires
        opt_valid(o),
        opt_fits(o),
    ensures
        wire_opt(o).len() > 0,
        read_opt::<T>(wire_opt(o) + rest) == Some((crate::rpc_types::opt_view(o), rest)),
{
    match o {
        Some(t) => {
            t.lemma_read_wire(rest);
            assert((wire_opt(o) + rest).skip(1) =~= t.wire() + rest);
        },
        None => {
            assert((wire_opt(o) + rest).skip(1) =~= rest);
        },
    }
}

/// Appends the binary form of an option.
pub fn put_opt<T: Wire>(o: &Option<T>, out: &mut Vec<u8>)
    requires
        opt_valid(*o),
    ensures
        final(out)@ == old(out)@ + wire_opt(*o),
        opt_fits(*o),
{
    match o {
        Some(t) => {
            out.push(1);
            t.encode(out);
            assert(out@ =~= old(out)@ + wire_opt(*o));
        },
        None => {
            out.push(0);
            assert(out@ =~= old(out)@ + wire_opt(*o));
        },
    }
}

/// Reads an option.
pub fn get_opt<T: Wire>(reader: &mut Reader<'_>) -> (r: Option<Option<T>>)
    requires
        old(reader).wf(),
    ensures
        final(reader).wf(),
        match r {
            Some(o) => opt_valid(o) && read_opt::<T>(old(reader).rest()) == Some(
                (crate::rpc_types::opt_view(o), final(reader).rest()),
            ),
            None => read_opt::<T>(old(reader).rest()) is None,
        },
{
    let tag = match reader.take(1) {
        Some(s) => s[0],
        None => {
            return None;
        },
    };
    if tag == 0 {
        Some(None)
    } else if tag == 1 {
        match T::decode(reader) {
            Some(t) => Some(Some(t)),
            None => None,
        }
    } else {
        None
    }
}

/// The views of the elements of an optional list.
pub open spec fn opt_list_valid<T: DeepClone>(o: Option<Vec<T>>) -> bool {
    match o {
        Some(v) => all_valid(v@),
        None => true,
    }
}

/// Whether every length within an optional list fits in 64 bits.
pub open spec fn opt_list_fits<T: Wire>(o: Option<Vec<T>>) -> bool {
    match o {
        Some(v) => all_fit(v@) && v@.len() <= u64::MAX,
        None => true,
    }
}

/// The binary form of an optional list.
pub open spec fn wire_opt_list<T: Wire>(o: Option<Vec<T>>) -> Seq<u8> {
    match o {
        Some(v) => seq![1u8] + wire_list(v@),
        None => seq![0u8],
    }
}

/// What is read as an optional list.
pub open spec fn read_opt_list<T: Wire>(bytes: Seq<u8>) -> Option<(Option<Seq<T::V>>, Seq<u8>)> {
    if bytes.len() >= 1 && bytes[0] == 0 {
        Some((None, bytes.skip(1)))
    } else if bytes.len() >= 1 && bytes[0] == 1 {
        match read_list::<T>(bytes.skip(1)) {
            Some((v, rest)) => Some((Some(v), rest)),
            None => None,
        }
    } else {
        None
    }
}

/// An optional list is read back as it was written.
pub proof fn lemma_read_wire_opt_list<T: Wire>(o: Option<Vec<T>>, rest: Seq<u8>)
    requires
        opt_list_valid(o),
        opt_list_fits(o),
    ensures
        wire_opt_list(o).len() > 0,
        read_opt_list::<T>(wire_opt_list(o) + rest) == Some(
            (crate::rpc_types::opt_seq_view(o), rest),
        ),
{
    match o {
        Some(v) => {
            lemma_read_wire_list(v@, rest);
            assert((wire_opt_list(o) + rest).skip(1) =~= wire_list(v@) + rest);
        },
        None => {
            assert((wire_opt_list(o) + rest).skip(1) =~= rest);
        },
    }
}

/// Appends the binary form of an optional list.
pub fn put_opt_list<T: Wire>(o: &Option<Vec<T>>, out: &mut Vec<u8>)
    requires
        opt_list_valid(*o),
    ensures
        final(out)@ == old(out)@ + wire_opt_list(*o),
        opt_list_fits(*o),
{
    match o {
        Some(v) => {
            out.push(1);
            put_list(v, out);
            assert(out@ =~= old(out)@ + wire_opt_list(*o));
        },
        None => {
            out.push(0);
            assert(out@ =~= old(out)@ + wire_opt_list(*o));
        },
    }
}

/// Reads an optional list.
pub fn get_opt_list<T: Wire>(reader: &mut Reader<'_>) -> (r: Option<Option<Vec<T>>>)
    requires
        old(reader).wf(),
    ensures
        final(reader).wf(),
        match r {
            Some(o) => opt_list_valid(o) && read_opt_list::<T>(old(reader).rest()) == Some(
                (crate::rpc_types::opt_seq_view(o), final(reader).rest()),
            ),
            None => read_opt_list::<T>(old(reader).rest()) is None,
        },
{
    let tag = match reader.take(1) {
        Some(s) => s[0],
        None => {
            return None;
        },
    };
    if tag == 0 {
        Some(None)
    } else if tag == 1 {
        match get_list::<T>(reader) {
            Some(v) => Some(Some(v)),
            None => None,
        }
    } else {
        None
    }
}

} // verus!
