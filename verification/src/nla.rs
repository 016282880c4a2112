//! Netlink attributes: the framing of a stream of type-length-value records
//! aligned on four bytes, the iterator that walks such a stream, and the
//! generic attribute that keeps a kind it does not know.
use vstd::prelude::*;
use vstd::slice::slice_subrange;
use crate::byte_order::{lemma_u16_bytes_of_value, lemma_u16_round_trip, zeros, ByteOrder};
use crate::errors::DecodeError;

verus! {

/// Size of an attribute's header: a 16-bit length and a 16-bit kind.
pub const NLA_HEADER_SIZE: usize = 4;

/// Attributes start on multiples of this many bytes.
pub const NLA_ALIGNTO: usize = 4;

/// The largest value that the 16-bit length field can describe.
pub const NLA_MAX_VALUE_LEN: usize = 0xFFFF - 4;

/// An attribute as the framing sees it: a kind and the bytes of its value.
pub struct Attribute {
    pub kind: u16,
    pub value: Seq<u8>,
}

/// `n` rounded up to a multiple of four.
pub open spec fn align4(n: int) -> int {
    if n % 4 == 0 {
        n
    } else {
        n + (4 - n % 4)
    }
}

/// The bytes of one attribute: length (header included, padding excluded),
/// kind, value, and zero bytes up to the next multiple of four.
#[verifier::opaque]
pub open spec fn attribute_wire(a: Attribute, order: ByteOrder) -> Seq<u8> {
    order.u16_bytes((a.value.len() + 4) as u16) + order.u16_bytes(a.kind) + a.value + zeros(
        (align4(a.value.len() as int) - a.value.len()) as nat,
    )
}

/// The bytes of a stream of attributes, one after the other.
pub open spec fn attributes_wire(s: Seq<Attribute>, order: ByteOrder) -> Seq<u8>
    decreases s.len(),
{
    if s.len() == 0 {
        Seq::empty()
    } else {
        attribute_wire(s[0], order) + attributes_wire(s.drop_first(), order)
    }
}

/// The number of bytes that a stream of attributes takes.
pub open spec fn attributes_wire_len(s: Seq<Attribute>) -> nat
    decreases s.len(),
{
    if s.len() == 0 {
        0
    } else {
        (4 + align4(s[0].value.len() as int) + attributes_wire_len(s.drop_first())) as nat
    }
}

/// One step of the walk over `bytes` from `position`: nothing when the stream
/// has ended, else what the step yields and the position after it.
///
/// The step first moves up to the next multiple of four. The stream ends when
/// fewer than four bytes are left there, or when the declared length is not
/// less than what is left. A declared length under four cannot hold its own
/// header: the step yields an error and the walk is over.
#[verifier::opaque]
pub open spec fn next_attribute(bytes: Seq<u8>, position: int, order: ByteOrder) -> Option<
    (Result<Attribute, DecodeError>, int),
> {
    let start = align4(position);
    if bytes.len() - start < 4 {
        None
    } else {
        let length = order.u16_from(bytes.subrange(start, start + 2)) as int;
        let kind = order.u16_from(bytes.subrange(start + 2, start + 4));
        if length >= bytes.len() - start {
            None
        } else if length < 4 {
            Some((Err(DecodeError::Malformed), bytes.len() as int))
        } else {
            Some(
                (
                    Ok(Attribute { kind, value: bytes.subrange(start + 4, start + length) }),
                    start + length,
                ),
            )
        }
    }
}

/// Everything that the walk over `bytes` yields from `position` on.
pub open spec fn attributes_from(bytes: Seq<u8>, position: int, order: ByteOrder) -> Seq<
    Result<Attribute, DecodeError>,
>
    decreases bytes.len() - position,
{
    match next_attribute(bytes, position, order) {
        None => Seq::empty(),
        Some((item, next)) => if position < next <= bytes.len() {
            seq![item] + attributes_from(bytes, next, order)
        } else {
            seq![item]
        },
    }
}

/// One attribute of a stream, borrowed from the buffer it was found in.
#[derive(Debug, Clone, Copy, PartialEq, Eq)]
pub struct NlaBuffer<'a> {
    pub kind: u16,
    pub value: &'a [u8],
}

impl<'a> View for NlaBuffer<'a> {
    type V = Attribute;

    open spec fn view(&self) -> Attribute {
        Attribute { kind: self.kind, value: self.value@ }
    }
}

/// The model of what an iterator step returns.
pub open spec fn item_view(item: Result<NlaBuffer<'_>, DecodeError>) -> Result<
    Attribute,
    DecodeError,
> {
    match item {
        Ok(nla) => Ok(nla@),
        Err(e) => Err(e),
    }
}

/// Walks a stream of attributes once, front to back.
#[derive(Debug, Clone, Copy, PartialEq, Eq)]
pub struct NlasIterator<'a> {
    pub buffer: &'a [u8],
    pub position: usize,
    pub order: ByteOrder,
}

impl<'a> NlasIterator<'a> {
    /// What the iterator has still to yield.
    pub open spec fn remaining(&self) -> Seq<Result<Attribute, DecodeError>> {
        attributes_from(self.buffer@, self.position as int, self.order)
    }

    pub fn new(buffer: &'a [u8], order: ByteOrder) -> (r: Self)
        ensures
            r.buffer == buffer,
            r.position == 0,
            r.order == order,
            r.remaining() == attributes_from(buffer@, 0, order),
    {
        NlasIterator { buffer, position: 0, order }
    }

    /// The next attribute, or the error that ends the walk, or nothing when
    /// the stream has ended.
    pub fn next(&mut self) -> (r: Option<Result<NlaBuffer<'a>, DecodeError>>)
        ensures
            final(self).buffer == old(self).buffer,
            final(self).order == old(self).order,
            old(self).remaining().len() == 0 ==> r is None && final(self).remaining().len() == 0,
            old(self).remaining().len() > 0 ==> r is Some && item_view(r->0) == old(
                self,
            ).remaining()[0] && final(self).remaining() == old(self).remaining().drop_first(),
    {
        proof {
            reveal(next_attribute);
        }
        let len: usize = self.buffer.len();
        let ghost bytes = self.buffer@;
        let ghost before = self.position as int;
        if self.position >= len {
            return None;
        }
        let misaligned: usize = self.position % NLA_ALIGNTO;
        if misaligned != 0 {
            let skip: usize = NLA_ALIGNTO - misaligned;
            if len - self.position < skip {
                self.position = len;
                assert(next_attribute(bytes, len as int, self.order) is None);
                return None;
            }
            self.position += skip;
        }
        let start: usize = self.position;
        assert(start == align4(before));
        assert(align4(start as int) == start);
        if len - start < NLA_HEADER_SIZE {
            return None;
        }
        let length: usize = self.order.read_u16(self.buffer, start) as usize;
        let kind: u16 = self.order.read_u16(self.buffer, start + 2);
        if length >= len - start {
            return None;
        }
        if length < NLA_HEADER_SIZE {
            self.position = len;
            assert(next_attribute(bytes, len as int, self.order) is None);
            assert(self.remaining() =~= Seq::empty());
            assert(next_attribute(bytes, before, self.order) == Some(
                (Err::<Attribute, DecodeError>(DecodeError::Malformed), len as int),
            ));
            assert(old(self).remaining() =~= seq![Err(DecodeError::Malformed)]);
            assert(self.remaining() =~= old(self).remaining().drop_first());
            return Some(Err(DecodeError::Malformed));
        }
        let value = slice_subrange(self.buffer, start + NLA_HEADER_SIZE, start + length);
        self.position = start + length;
        proof {
            let item = Ok::<Attribute, DecodeError>(Attribute { kind, value: value@ });
            assert(next_attribute(bytes, before, self.order) == Some((item, start + length)));
            assert(old(self).remaining() =~= seq![item] + self.remaining());
            assert(self.remaining() =~= old(self).remaining().drop_first());
        }
        Some(Ok(NlaBuffer { kind, value }))
    }
}

/// What a typed attribute is to the framing: the model of a type whose values
/// are carried as attributes.
pub trait NlaModel: Sized {
    /// The kind code under which the value travels.
    spec fn kind(self) -> u16;

    /// The bytes of the value.
    spec fn value(self, order: ByteOrder) -> Seq<u8>;

    /// The number of bytes of the value, which does not depend on the order.
    spec fn value_len(self) -> nat;

    /// Whether the value, and every attribute nested in it, is short enough
    /// for the 16-bit length field.
    spec fn fits(self) -> bool;

    proof fn lemma_value_len(self, order: ByteOrder)
        ensures
            self.value(order).len() == self.value_len(),
            self.fits() ==> self.value_len() <= NLA_MAX_VALUE_LEN,
    ;
}

/// The model of a type that can be read from a framed attribute.
pub trait NlaParseModel: Sized {
    /// The typed reading of a framed attribute.
    spec fn parse(a: Attribute, order: ByteOrder) -> Result<Self, DecodeError>;
}

/// The kind and value bytes of a typed attribute.
pub open spec fn attribute_of<M: NlaModel>(m: M, order: ByteOrder) -> Attribute {
    Attribute { kind: m.kind(), value: m.value(order) }
}

/// The framed form of a list of typed attributes.
pub open spec fn nlas_attributes<M: NlaModel>(s: Seq<M>, order: ByteOrder) -> Seq<Attribute> {
    s.map_values(|m: M| attribute_of(m, order))
}

/// The bytes of a list of typed attributes.
pub open spec fn nlas_wire<M: NlaModel>(s: Seq<M>, order: ByteOrder) -> Seq<u8> {
    attributes_wire(nlas_attributes(s, order), order)
}

/// The number of bytes that a list of typed attributes takes.
pub open spec fn nlas_wire_len<M: NlaModel>(s: Seq<M>) -> nat
    decreases s.len(),
{
    if s.len() == 0 {
        0
    } else {
        (4 + align4(s[0].value_len() as int) + nlas_wire_len(s.drop_first())) as nat
    }
}

/// Whether every attribute of the list can be emitted.
pub open spec fn nlas_fit<M: NlaModel>(s: Seq<M>) -> bool {
    forall|i: int| 0 <= i < s.len() ==> (#[trigger] s[i]).fits()
}

/// `r` with `done` in front of what it holds.
pub open spec fn prepend<M>(done: Seq<M>, r: Result<Seq<M>, DecodeError>) -> Result<
    Seq<M>,
    DecodeError,
> {
    match r {
        Ok(rest) => Ok(done + rest),
        Err(e) => Err(e),
    }
}

/// The typed reading of what a walk yields: the attributes in order, or the
/// first error, be it one of the framing or one of the typed reading.
pub open spec fn collect<M: NlaParseModel>(
    items: Seq<Result<Attribute, DecodeError>>,
    order: ByteOrder,
) -> Result<Seq<M>, DecodeError>
    decreases items.len(),
{
    if items.len() == 0 {
        Ok(Seq::empty())
    } else {
        match items[0] {
            Err(e) => Err(e),
            Ok(a) => match M::parse(a, order) {
                Err(e) => Err(e),
                Ok(m) => prepend(seq![m], collect::<M>(items.drop_first(), order)),
            },
        }
    }
}

/// The typed reading of a stream of attributes.
pub open spec fn nlas_parse<M: NlaParseModel>(bytes: Seq<u8>, order: ByteOrder) -> Result<
    Seq<M>,
    DecodeError,
> {
    collect::<M>(attributes_from(bytes, 0, order), order)
}

/// The models of the elements of a sequence.
pub open spec fn views<T: View>(s: Seq<T>) -> Seq<T::V> {
    s.map_values(|t: T| t@)
}

/// The model of the outcome of a typed reading.
pub open spec fn parsed_view<T: View>(r: Result<T, DecodeError>) -> Result<T::V, DecodeError> {
    match r {
        Ok(t) => Ok(t@),
        Err(e) => Err(e),
    }
}

/// The model of the outcome of reading a list.
pub open spec fn parsed_views<T: View>(r: Result<Vec<T>, DecodeError>) -> Result<
    Seq<T::V>,
    DecodeError,
> {
    match r {
        Ok(v) => Ok(views(v@)),
        Err(e) => Err(e),
    }
}

/// A type whose values can be read from attributes.
pub trait ParseableNla: View + Sized where Self::V: NlaParseModel {
    fn parse(nla: &NlaBuffer<'_>, order: ByteOrder) -> (r: Result<Self, DecodeError>)
        ensures
            parsed_view(r) == <Self::V as NlaParseModel>::parse(nla@, order),
    ;
}

/// A type whose values can be written as attributes.
pub trait Nla: View + Sized where Self::V: NlaModel {
    /// Whether the value can be written.
    fn fits(&self) -> (r: bool)
        ensures
            r == self@.fits(),
    ;

    fn kind(&self) -> (r: u16)
        ensures
            r == self@.kind(),
    ;

    fn value_len(&self) -> (r: usize)
        requires
            self@.fits(),
        ensures
            r == self@.value_len(),
    ;

    /// Writes the value into a buffer of exactly its length.
    fn emit_value(&self, buffer: &mut [u8], order: ByteOrder)
        requires
            self@.fits(),
            old(buffer).len() == self@.value_len(),
        ensures
            final(buffer)@ == self@.value(order),
    ;
}

/// Overwrites a buffer with zero bytes.
pub fn fill_zero(buffer: &mut [u8])
    ensures
        final(buffer)@ == zeros(old(buffer)@.len()),
{
    let n: usize = buffer.len();
    let mut i: usize = 0;
    while i < n
        invariant
            i <= n,
            buffer.len() == n,
            n == old(buffer)@.len(),
            forall|j: int| 0 <= j < i ==> buffer@[j] == 0u8,
        decreases n - i,
    {
        buffer[i] = 0;
        i += 1;
    }
    assert(buffer@ =~= zeros(n as nat));
}

/// Copies `source` over a buffer of the same length.
pub fn copy_bytes(buffer: &mut [u8], source: &[u8])
    requires
        old(buffer).len() == source.len(),
    ensures
        final(buffer)@ == source@,
{
    let n: usize = source.len();
    let mut i: usize = 0;
    while i < n
        invariant
            i <= n,
            buffer.len() == n,
            source.len() == n,
            forall|j: int| 0 <= j < i ==> buffer@[j] == source@[j],
        decreases n - i,
    {
        buffer[i] = source[i];
        i += 1;
    }
    assert(buffer@ =~= source@);
}

/// `n` rounded up to a multiple of four.
pub fn nla_align(n: usize) -> (r: usize)
    requires
        n + 3 <= usize::MAX,
    ensures
        r == align4(n as int),
{
    let misaligned: usize = n % NLA_ALIGNTO;
    if misaligned == 0 {
        n
    } else {
        n + (NLA_ALIGNTO - misaligned)
    }
}

/// The number of bytes that one attribute takes, padding included.
pub fn nla_buffer_len<T: Nla>(nla: &T) -> (r: usize) where T::V: NlaModel
    requires
        nla@.fits(),
    ensures
        r == 4 + align4(nla@.value_len() as int),
{
    proof {
        nla@.lemma_value_len(ByteOrder::LittleEndian);
    }
    NLA_HEADER_SIZE + nla_align(nla.value_len())
}

/// Writes one attribute, padding included, into a buffer of exactly its size.
pub fn emit_nla<T: Nla>(nla: &T, buffer: &mut [u8], order: ByteOrder) where T::V: NlaModel
    requires
        nla@.fits(),
        old(buffer).len() == 4 + align4(nla@.value_len() as int),
    ensures
        final(buffer)@ == attribute_wire(attribute_of(nla@, order), order),
{
    proof {
        reveal(attribute_wire);
        nla@.lemma_value_len(order);
    }
    let value_len: usize = nla.value_len();
    let kind: u16 = nla.kind();
    let (header, body) = buffer.split_at_mut(NLA_HEADER_SIZE);
    order.write_u16(header, 0, (value_len + NLA_HEADER_SIZE) as u16);
    order.write_u16(header, 2, kind);
    let (value, padding) = body.split_at_mut(value_len);
    nla.emit_value(value, order);
    fill_zero(padding);
    assert(buffer@ =~= attribute_wire(attribute_of(nla@, order), order));
}

/// The size of a list grows by the size of the attribute that is appended.
pub proof fn lemma_nlas_wire_len_push<M: NlaModel>(s: Seq<M>, m: M)
    ensures
        nlas_wire_len(s.push(m)) == nlas_wire_len(s) + 4 + align4(m.value_len() as int),
    decreases s.len(),
{
    if s.len() == 0 {
        assert(s.push(m).drop_first() =~= s);
    } else {
        assert(s.push(m).drop_first() =~= s.drop_first().push(m));
        lemma_nlas_wire_len_push(s.drop_first(), m);
    }
}

/// A prefix of a list takes no more bytes than the list.
pub proof fn lemma_nlas_wire_len_take<M: NlaModel>(s: Seq<M>, i: int)
    requires
        0 <= i <= s.len(),
    ensures
        nlas_wire_len(s.take(i)) <= nlas_wire_len(s),
    decreases s.len() - i,
{
    if i == s.len() {
        assert(s.take(i) =~= s);
    } else {
        assert(s.take(i + 1) =~= s.take(i).push(s[i]));
        lemma_nlas_wire_len_push(s.take(i), s[i]);
        lemma_nlas_wire_len_take(s, i + 1);
    }
}

/// The bytes of a stream grow by the bytes of the attribute that is appended.
pub proof fn lemma_attributes_wire_push(s: Seq<Attribute>, a: Attribute, order: ByteOrder)
    ensures
        attributes_wire(s.push(a), order) == attributes_wire(s, order) + attribute_wire(a, order),
    decreases s.len(),
{
    if s.len() == 0 {
        assert(s.push(a).drop_first() =~= s);
        assert(attributes_wire(s.push(a), order) =~= attributes_wire(s, order) + attribute_wire(
            a,
            order,
        ));
    } else {
        assert(s.push(a).drop_first() =~= s.drop_first().push(a));
        lemma_attributes_wire_push(s.drop_first(), a, order);
        assert(attributes_wire(s.push(a), order) =~= attributes_wire(s, order) + attribute_wire(
            a,
            order,
        ));
    }
}

/// The bytes of a list are as many as its size says.
pub proof fn lemma_nlas_wire_len<M: NlaModel>(s: Seq<M>, order: ByteOrder)
    ensures
        nlas_wire(s, order).len() == nlas_wire_len(s),
    decreases s.len(),
{
    reveal(attribute_wire);
    if s.len() > 0 {
        s[0].lemma_value_len(order);
        assert(nlas_attributes(s, order).drop_first() =~= nlas_attributes(s.drop_first(), order));
        lemma_nlas_wire_len(s.drop_first(), order);
        lemma_u16_round_trip(order, (s[0].value_len() + 4) as u16);
        lemma_u16_round_trip(order, s[0].kind());
    }
}

/// The number of bytes that a list of attributes takes.
pub fn nlas_buffer_len<T: Nla>(nlas: &Vec<T>) -> (r: usize) where T::V: NlaModel
    requires
        nlas_fit(views(nlas@)),
        nlas_wire_len(views(nlas@)) <= usize::MAX,
    ensures
        r == nlas_wire_len(views(nlas@)),
{
    let ghost models = views(nlas@);
    let mut total: usize = 0;
    let mut i: usize = 0;
    while i < nlas.len()
        invariant
            i <= nlas.len(),
            models == views(nlas@),
            nlas_fit(models),
            nlas_wire_len(models) <= usize::MAX,
            total == nlas_wire_len(models.take(i as int)),
        decreases nlas.len() - i,
    {
        proof {
            assert(models[i as int].fits());
            assert(models.take(i + 1) =~= models.take(i as int).push(models[i as int]));
            lemma_nlas_wire_len_push(models.take(i as int), models[i as int]);
            lemma_nlas_wire_len_take(models, i + 1);
        }
        let len: usize = nla_buffer_len(&nlas[i]);
        total += len;
        i += 1;
    }
    assert(models.take(i as int) =~= models);
    total
}

/// The number of bytes that a list of attributes takes, if every attribute
/// can be written and the list takes no more than `limit` bytes.
pub fn nlas_checked_len<T: Nla>(nlas: &Vec<T>, limit: usize) -> (r: Option<usize>) where
    T::V: NlaModel,

    ensures
        r == (if nlas_fit(views(nlas@)) && nlas_wire_len(views(nlas@)) <= limit {
            Some(nlas_wire_len(views(nlas@)) as usize)
        } else {
            None
        }),
{
    let ghost models = views(nlas@);
    let mut total: usize = 0;
    let mut i: usize = 0;
    while i < nlas.len()
        invariant
            i <= nlas.len(),
            models == views(nlas@),
            nlas_fit(models.take(i as int)),
            total == nlas_wire_len(models.take(i as int)),
            total <= limit,
        decreases nlas.len() - i,
    {
        proof {
            assert(models[i as int] == nlas@[i as int]@);
            assert(models.take(i + 1) =~= models.take(i as int).push(models[i as int]));
            lemma_nlas_wire_len_push(models.take(i as int), models[i as int]);
            lemma_nlas_wire_len_take(models, i + 1);
        }
        if !nlas[i].fits() {
            return None;
        }
        let len: usize = nla_buffer_len(&nlas[i]);
        if len > limit - total {
            return None;
        }
        total += len;
        i += 1;
        assert(nlas_fit(models.take(i as int))) by {
            assert forall|j: int| 0 <= j < i implies (#[trigger] models.take(
                i as int,
            )[j]).fits() by {
                if j < i - 1 {
                    assert(models.take(i - 1)[j].fits());
                }
            }
        }
    }
    assert(models.take(i as int) =~= models);
    Some(total)
}

/// One attribute takes its header, its value and the padding.
pub proof fn lemma_attribute_wire_len(a: Attribute, order: ByteOrder)
    ensures
        attribute_wire(a, order).len() == 4 + align4(a.value.len() as int),
{
    reveal(attribute_wire);
}

/// Writes one attribute, padding included, at `offset`.
fn emit_nla_at<T: Nla>(nla: &T, buffer: &mut [u8], offset: usize, order: ByteOrder) where
    T::V: NlaModel,

    requires
        nla@.fits(),
        offset + 4 + align4(nla@.value_len() as int) <= old(buffer).len(),
    ensures
        final(buffer)@ == crate::byte_order::splice(
            old(buffer)@,
            offset as int,
            attribute_wire(attribute_of(nla@, order), order),
        ),
{
    proof {
        nla@.lemma_value_len(order);
        lemma_attribute_wire_len(attribute_of(nla@, order), order);
    }
    let len: usize = nla_buffer_len(nla);
    let (_done, rest) = buffer.split_at_mut(offset);
    let (current, _tail) = rest.split_at_mut(len);
    emit_nla(nla, current, order);
}

/// Writes a list of attributes into a buffer of exactly its size.
pub fn emit_nlas<T: Nla>(nlas: &Vec<T>, buffer: &mut [u8], order: ByteOrder) where T::V: NlaModel
    requires
        nlas_fit(views(nlas@)),
        old(buffer).len() == nlas_wire_len(views(nlas@)),
    ensures
        final(buffer)@ == nlas_wire(views(nlas@), order),
{
    let ghost models = views(nlas@);
    let size: usize = buffer.len();
    let mut offset: usize = 0;
    let mut i: usize = 0;
    while i < nlas.len()
        invariant
            i <= nlas.len(),
            models == views(nlas@),
            nlas_fit(models),
            buffer.len() == size,
            size == nlas_wire_len(models),
            offset == nlas_wire_len(models.take(i as int)),
            offset <= size,
            buffer@.subrange(0, offset as int) == nlas_wire(models.take(i as int), order),
        decreases nlas.len() - i,
    {
        let ghost before = buffer@;
        proof {
            assert(models[i as int].fits());
            assert(models[i as int] == nlas@[i as int]@);
            assert(models.take(i + 1) =~= models.take(i as int).push(models[i as int]));
            lemma_nlas_wire_len_push(models.take(i as int), models[i as int]);
            lemma_nlas_wire_len_take(models, i + 1);
            assert(nlas_attributes(models.take(i + 1), order) =~= nlas_attributes(
                models.take(i as int),
                order,
            ).push(attribute_of(models[i as int], order)));
            lemma_attributes_wire_push(
                nlas_attributes(models.take(i as int), order),
                attribute_of(models[i as int], order),
                order,
            );
            models[i as int].lemma_value_len(order);
            lemma_attribute_wire_len(attribute_of(models[i as int], order), order);
        }
        let len: usize = nla_buffer_len(&nlas[i]);
        emit_nla_at(&nlas[i], buffer, offset, order);
        assert(buffer@.subrange(0, offset + len) =~= before.subrange(0, offset as int)
            + attribute_wire(attribute_of(models[i as int], order), order));
        offset += len;
        i += 1;
    }
    assert(models.take(i as int) =~= models);
    assert(buffer@ =~= buffer@.subrange(0, offset as int));
}

/// Reads a stream of attributes as a list of typed attributes. The first
/// error ends the reading, be it one of the framing or of an attribute.
pub fn parse_nlas<T: ParseableNla>(buffer: &[u8], order: ByteOrder) -> (r: Result<
    Vec<T>,
    DecodeError,
>) where T::V: NlaParseModel
    ensures
        parsed_views(r) == nlas_parse::<T::V>(buffer@, order),
{
    let mut nlas: Vec<T> = Vec::new();
    let mut iterator = NlasIterator::new(buffer, order);
    assert(views(nlas@) =~= Seq::<T::V>::empty());
    loop
        invariant
            iterator.order == order,
            prepend(views(nlas@), collect::<T::V>(iterator.remaining(), order)) == nlas_parse::<
                T::V,
            >(buffer@, order),
        decreases iterator.remaining().len(),
    {
        let ghost done = views(nlas@);
        let ghost pending = iterator.remaining();
        match iterator.next() {
            None => {
                assert(done + Seq::<T::V>::empty() =~= done);
                return Ok(nlas);
            },
            Some(Err(e)) => {
                return Err(e);
            },
            Some(Ok(nla)) => {
                match T::parse(&nla, order) {
                    Err(e) => {
                        return Err(e);
                    },
                    Ok(attribute) => {
                        nlas.push(attribute);
                        proof {
                            assert(views(nlas@) =~= done.push(attribute@));
                            match collect::<T::V>(pending.drop_first(), order) {
                                Ok(rest) => {
                                    assert(done + (seq![attribute@] + rest) =~= done.push(
                                        attribute@,
                                    ) + rest);
                                },
                                Err(_) => {},
                            }
                        }
                    },
                }
            },
        }
    }
}

/// An attribute of a kind that is not known: the kind and the raw value.
#[derive(Debug, Clone, PartialEq, Eq)]
pub struct DefaultNla {
    pub kind: u16,
    pub value: Vec<u8>,
}

impl View for DefaultNla {
    type V = Attribute;

    open spec fn view(&self) -> Attribute {
        Attribute { kind: self.kind, value: self.value@ }
    }
}

impl NlaModel for Attribute {
    open spec fn kind(self) -> u16 {
        self.kind
    }

    open spec fn value(self, order: ByteOrder) -> Seq<u8> {
        self.value
    }

    open spec fn value_len(self) -> nat {
        self.value.len()
    }

    open spec fn fits(self) -> bool {
        self.value.len() <= NLA_MAX_VALUE_LEN
    }

    proof fn lemma_value_len(self, order: ByteOrder) {
    }
}

impl NlaParseModel for Attribute {
    open spec fn parse(a: Attribute, order: ByteOrder) -> Result<Self, DecodeError> {
        Ok(a)
    }
}

impl DefaultNla {
    pub fn new(kind: u16, value: Vec<u8>) -> (r: Self)
        ensures
            r@ == (Attribute { kind, value: value@ }),
    {
        DefaultNla { kind, value }
    }
}

impl Nla for DefaultNla {
    fn fits(&self) -> (r: bool) {
        self.value.len() <= NLA_MAX_VALUE_LEN
    }

    fn kind(&self) -> (r: u16) {
        self.kind
    }

    fn value_len(&self) -> (r: usize) {
        self.value.len()
    }

    fn emit_value(&self, buffer: &mut [u8], order: ByteOrder) {
        copy_bytes(buffer, self.value.as_slice());
    }
}

impl ParseableNla for DefaultNla {
    fn parse(nla: &NlaBuffer<'_>, order: ByteOrder) -> (r: Result<Self, DecodeError>) {
        Ok(DefaultNla { kind: nla.kind, value: vstd::slice::slice_to_vec(nla.value) })
    }
}

/// The first byte of a payload, or a length error when there is none.
pub open spec fn byte_of(payload: Seq<u8>) -> Result<u8, DecodeError> {
    if payload.len() >= 1 {
        Ok(payload[0])
    } else {
        Err(DecodeError::Length { expected: 1, actual: payload.len() as usize })
    }
}

/// The 32-bit integer at the front of a payload, or a length error when the
/// payload has fewer than four bytes.
pub open spec fn word_of(payload: Seq<u8>, order: ByteOrder) -> Result<u32, DecodeError> {
    if payload.len() >= 4 {
        Ok(order.u32_from(payload.subrange(0, 4)))
    } else {
        Err(DecodeError::Length { expected: 4, actual: payload.len() as usize })
    }
}

/// Reads the first byte of a payload.
pub fn parse_u8(payload: &[u8]) -> (r: Result<u8, DecodeError>)
    ensures
        r == byte_of(payload@),
{
    if payload.len() >= 1 {
        Ok(payload[0])
    } else {
        Err(DecodeError::Length { expected: 1, actual: payload.len() })
    }
}

/// Reads the 32-bit integer at the front of a payload.
pub fn parse_u32(payload: &[u8], order: ByteOrder) -> (r: Result<u32, DecodeError>)
    ensures
        r == word_of(payload@, order),
{
    if payload.len() >= 4 {
        Ok(order.read_u32(payload, 0))
    } else {
        Err(DecodeError::Length { expected: 4, actual: payload.len() })
    }
}

/// Each attribute of `s` as the item that a walk yields for it.
pub open spec fn oks(s: Seq<Attribute>) -> Seq<Result<Attribute, DecodeError>> {
    Seq::new(s.len(), |i: int| Ok(s[i]))
}

/// Whether every value is short enough for the 16-bit length field.
pub open spec fn attributes_fit(s: Seq<Attribute>) -> bool {
    forall|i: int| 0 <= i < s.len() ==> (#[trigger] s[i]).value.len() <= NLA_MAX_VALUE_LEN
}

/// The attributes of `s` that a walk finds again when `tail_len` bytes follow
/// the stream. The walk stops at an attribute that reaches exactly to the end
/// of the buffer, so the last attribute is found only if padding or other
/// bytes follow its value.
pub open spec fn found_again(s: Seq<Attribute>, tail_len: nat) -> Seq<Attribute> {
    if s.len() > 0 && s.last().value.len() % 4 == 0 && tail_len == 0 {
        s.drop_last()
    } else {
        s
    }
}

/// The bytes of a stream are as many as its size says.
pub proof fn lemma_attributes_wire_len(s: Seq<Attribute>, order: ByteOrder)
    ensures
        attributes_wire(s, order).len() == attributes_wire_len(s),
        s.len() > 0 ==> attributes_wire_len(s) >= 4,
    decreases s.len(),
{
    reveal(attribute_wire);
    if s.len() > 0 {
        lemma_attributes_wire_len(s.drop_first(), order);
        lemma_u16_round_trip(order, (s[0].value.len() + 4) as u16);
        lemma_u16_round_trip(order, s[0].kind);
    }
}

/// A walk from a position is the walk from the next multiple of four.
pub proof fn lemma_attributes_from_aligned(bytes: Seq<u8>, position: int, order: ByteOrder)
    requires
        0 <= position,
    ensures
        attributes_from(bytes, position, order) == attributes_from(
            bytes,
            align4(position),
            order,
        ),
{
    reveal(next_attribute);
    assert(align4(align4(position)) == align4(position));
    assert(next_attribute(bytes, position, order) == next_attribute(
        bytes,
        align4(position),
        order,
    ));
}

/// The step at the place where an attribute was written: it yields the
/// attribute, unless the attribute reaches exactly to the end of the
/// buffer.
proof fn lemma_next_written(
    prefix: Seq<u8>,
    a: Attribute,
    rest: Seq<u8>,
    order: ByteOrder,
)
    requires
        prefix.len() % 4 == 0,
        a.value.len() <= NLA_MAX_VALUE_LEN,
    ensures
        attribute_wire(a, order).len() == 4 + align4(a.value.len() as int),
        next_attribute(prefix + attribute_wire(a, order) + rest, prefix.len() as int, order) == (
        if a.value.len() % 4 == 0 && rest.len() == 0 {
            None
        } else {
            Some(
                (Ok::<Attribute, DecodeError>(a), prefix.len() as int + 4 + a.value.len() as int),
            )
        }),
{
    reveal(attribute_wire);
    reveal(next_attribute);
    let w = attribute_wire(a, order);
    let bytes = prefix + w + rest;
    let start = prefix.len() as int;
    let len = a.value.len() + 4;
    lemma_u16_round_trip(order, len as u16);
    lemma_u16_round_trip(order, a.kind);
    assert(w.len() == 4 + align4(a.value.len() as int));
    assert(align4(start) == start);
    assert(bytes.subrange(start, start + 2) =~= order.u16_bytes(len as u16));
    assert(bytes.subrange(start + 2, start + 4) =~= order.u16_bytes(a.kind));
    assert(bytes.subrange(start + 4, start + len) =~= a.value);
}

/// A walk that starts with an attribute is that attribute and the walk from
/// behind it.
proof fn lemma_walk_cons(
    bytes: Seq<u8>,
    start: int,
    a: Attribute,
    next: int,
    found: Seq<Attribute>,
    order: ByteOrder,
)
    requires
        next_attribute(bytes, start, order) == Some((Ok::<Attribute, DecodeError>(a), next)),
        start < next <= bytes.len(),
        attributes_from(bytes, next, order) == oks(found),
    ensures
        attributes_from(bytes, start, order) == oks(seq![a] + found),
{
    assert(attributes_from(bytes, start, order) =~= seq![Ok::<Attribute, DecodeError>(a)]
        + attributes_from(bytes, next, order));
    assert(seq![Ok::<Attribute, DecodeError>(a)] + oks(found) =~= oks(seq![a] + found));
}

/// A walk that starts where the stream has ended yields nothing.
proof fn lemma_walk_end(bytes: Seq<u8>, start: int, order: ByteOrder)
    requires
        next_attribute(bytes, start, order) is None,
    ensures
        attributes_from(bytes, start, order) == oks(Seq::empty()),
{
    assert(attributes_from(bytes, start, order) =~= oks(Seq::empty()));
}

/// The bytes of a stream are those of its first attribute and those of the
/// rest.
proof fn lemma_attributes_wire_first(s: Seq<Attribute>, order: ByteOrder)
    requires
        s.len() > 0,
    ensures
        attributes_wire(s, order) == attribute_wire(s[0], order) + attributes_wire(
            s.drop_first(),
            order,
        ),
{
}

/// Walking over what was written, from the end of a prefix that ends on a
/// multiple of four, finds the attributes that were written, less the last
/// one where it reaches exactly to the end of the buffer.
proof fn lemma_attributes_found_at(
    prefix: Seq<u8>,
    s: Seq<Attribute>,
    tail: Seq<u8>,
    order: ByteOrder,
)
    requires
        prefix.len() % 4 == 0,
        attributes_fit(s),
        tail.len() < 4,
    ensures
        attributes_from(prefix + attributes_wire(s, order) + tail, prefix.len() as int, order)
            == oks(found_again(s, tail.len())),
    decreases s.len(),
{
    let bytes = prefix + attributes_wire(s, order) + tail;
    let start = prefix.len() as int;
    if s.len() == 0 {
        assert(next_attribute(bytes, start, order) is None) by {
            reveal(next_attribute);
        }
        lemma_walk_end(bytes, start, order);
    } else {
        let a = s[0];
        let rest = s.drop_first();
        let w = attribute_wire(a, order);
        let wrest = attributes_wire(rest, order);
        let after = wrest + tail;
        let next = start + 4 + a.value.len();
        assert(a.value.len() <= NLA_MAX_VALUE_LEN);
        lemma_attributes_wire_first(s, order);
        assert(bytes == prefix + (w + wrest) + tail);
        lemma_concat4(prefix, w, wrest, tail);
        lemma_next_written(prefix, a, after, order);
        lemma_attributes_wire_len(rest, order);
        assert(bytes.len() == prefix.len() + w.len() + wrest.len() + tail.len());
        if rest.len() == 0 && a.value.len() % 4 == 0 && tail.len() == 0 {
            assert(after.len() == 0);
            assert(found_again(s, tail.len()) =~= Seq::<Attribute>::empty());
            lemma_walk_end(bytes, start, order);
        } else {
            assert(after.len() > 0 || a.value.len() % 4 != 0);
            let longer = prefix + w;
            assert(attributes_fit(rest)) by {
                assert forall|i: int| 0 <= i < rest.len() implies (#[trigger] rest[i]).value.len()
                    <= NLA_MAX_VALUE_LEN by {
                    assert(s[i + 1].value.len() <= NLA_MAX_VALUE_LEN);
                }
            }
            lemma_attributes_found_at(longer, rest, tail, order);
            lemma_attributes_from_aligned(bytes, next, order);
            assert(align4(next) == longer.len());
            lemma_found_again_rest(s, tail.len());
            assert(next <= bytes.len());
            lemma_walk_cons(bytes, start, a, next, found_again(rest, tail.len()), order);
            assert(seq![a] + found_again(rest, tail.len()) =~= found_again(s, tail.len()));
        }
    }
}

/// Four sequences in a row, grouped in three ways.
proof fn lemma_concat4(a: Seq<u8>, b: Seq<u8>, c: Seq<u8>, d: Seq<u8>)
    ensures
        a + (b + c) + d == a + b + (c + d),
        a + (b + c) + d == (a + b) + c + d,
        (a + b + (c + d)).len() == a.len() + b.len() + c.len() + d.len(),
{
    assert(a + (b + c) + d =~= a + b + (c + d));
    assert(a + (b + c) + d =~= (a + b) + c + d);
}

/// What is found again of a stream is its first attribute and what is found
/// again of the rest, unless the stream is one attribute that is not found.
proof fn lemma_found_again_rest(s: Seq<Attribute>, tail_len: nat)
    requires
        s.len() > 0,
        !(s.len() == 1 && s[0].value.len() % 4 == 0 && tail_len == 0),
    ensures
        found_again(s, tail_len).len() > 0,
        found_again(s, tail_len)[0] == s[0],
        found_again(s, tail_len).drop_first() == found_again(s.drop_first(), tail_len),
{
    let rest = s.drop_first();
    if rest.len() > 0 {
        assert(rest.last() == s.last());
    }
    assert(found_again(s, tail_len).drop_first() =~= found_again(rest, tail_len));
}

/// Walking over a stream that was written finds the attributes that were
/// written: all of them where padding or up to three other bytes follow the
/// last value, and all but the last where the last value reaches exactly to
/// the end of the buffer.
pub proof fn lemma_attributes_round_trip(s: Seq<Attribute>, tail: Seq<u8>, order: ByteOrder)
    requires
        attributes_fit(s),
        tail.len() < 4,
    ensures
        attributes_from(attributes_wire(s, order) + tail, 0, order) == oks(
            found_again(s, tail.len()),
        ),
{
    lemma_attributes_found_at(Seq::empty(), s, tail, order);
    assert(Seq::<u8>::empty() + attributes_wire(s, order) + tail =~= attributes_wire(s, order)
        + tail);
}

/// A model that can be both written and read, with the values that reading
/// gives back as they were written.
pub trait NlaRoundTrip: NlaModel + NlaParseModel {
    /// Whether the value is one that reading produces: no other value comes
    /// back from the wire as itself.
    spec fn canonical(self) -> bool;

    /// Reading what was written gives the value back.
    proof fn lemma_round_trip(self, order: ByteOrder)
        requires
            self.fits(),
            self.canonical(),
        ensures
            Self::parse(attribute_of(self, order), order) == Ok::<Self, DecodeError>(self),
    ;
}

/// Whether every attribute of the list is canonical.
pub open spec fn nlas_canonical<M: NlaRoundTrip>(s: Seq<M>) -> bool {
    forall|i: int| 0 <= i < s.len() ==> (#[trigger] s[i]).canonical()
}

/// Whether a walk finds the last attribute of the list again when
/// `tail_len` bytes follow the list: at most three bytes follow, and padding
/// or one of them stands behind the last value.
pub open spec fn ends_clean<M: NlaModel>(s: Seq<M>, tail_len: nat) -> bool {
    tail_len < 4 && (s.len() > 0 ==> (s.last().value_len() % 4 != 0 || tail_len > 0))
}

/// The typed reading of the framed forms of canonical attributes gives the
/// attributes back.
pub proof fn lemma_collect_round_trip<M: NlaRoundTrip>(s: Seq<M>, order: ByteOrder)
    requires
        nlas_fit(s),
        nlas_canonical(s),
    ensures
        collect::<M>(oks(nlas_attributes(s, order)), order) == Ok::<Seq<M>, DecodeError>(s),
    decreases s.len(),
{
    let items = oks(nlas_attributes(s, order));
    if s.len() == 0 {
        assert(s =~= Seq::<M>::empty());
    } else {
        let rest = s.drop_first();
        assert(s[0].fits() && s[0].canonical());
        s[0].lemma_round_trip(order);
        assert(items[0] == Ok::<Attribute, DecodeError>(attribute_of(s[0], order)));
        assert(items.drop_first() =~= oks(nlas_attributes(rest, order)));
        assert(nlas_fit(rest) && nlas_canonical(rest)) by {
            assert forall|i: int| 0 <= i < rest.len() implies (#[trigger] rest[i]).fits()
                && rest[i].canonical() by {
                assert(s[i + 1].fits() && s[i + 1].canonical());
            }
        }
        lemma_collect_round_trip(rest, order);
        assert(seq![s[0]] + rest =~= s);
    }
}

/// Reading a list that was written gives the list back, where every
/// attribute fits and is canonical and the last one is found again.
pub proof fn lemma_nlas_round_trip<M: NlaRoundTrip>(s: Seq<M>, tail: Seq<u8>, order: ByteOrder)
    requires
        nlas_fit(s),
        nlas_canonical(s),
        ends_clean(s, tail.len()),
    ensures
        nlas_parse::<M>(nlas_wire(s, order) + tail, order) == Ok::<Seq<M>, DecodeError>(s),
{
    let attributes = nlas_attributes(s, order);
    assert(attributes_fit(attributes)) by {
        assert forall|i: int| 0 <= i < attributes.len() implies (
        #[trigger] attributes[i]).value.len() <= NLA_MAX_VALUE_LEN by {
            assert(s[i].fits());
            s[i].lemma_value_len(order);
        }
    }
    if s.len() > 0 {
        s.last().lemma_value_len(order);
        assert(attributes.last() == attribute_of(s.last(), order));
    }
    assert(found_again(attributes, tail.len()) == attributes);
    lemma_attributes_round_trip(attributes, tail, order);
    lemma_collect_round_trip(s, order);
}

/// An attribute that a walk yields is written again as the bytes that it
/// was read from: the header and the value are the same, byte for byte.
pub proof fn lemma_attribute_reemits(
    bytes: Seq<u8>,
    position: int,
    order: ByteOrder,
    a: Attribute,
    next: int,
)
    requires
        0 <= position,
        next_attribute(bytes, position, order) == Some((Ok::<Attribute, DecodeError>(a), next)),
    ensures
        next == align4(position) + 4 + a.value.len(),
        next < bytes.len(),
        attribute_wire(a, order).subrange(0, 4 + a.value.len() as int) == bytes.subrange(
            align4(position),
            next,
        ),
{
    reveal(next_attribute);
    reveal(attribute_wire);
    let start = align4(position);
    let length = order.u16_from(bytes.subrange(start, start + 2));
    lemma_u16_bytes_of_value(order, bytes.subrange(start, start + 2));
    lemma_u16_bytes_of_value(order, bytes.subrange(start + 2, start + 4));
    assert(a.value.len() + 4 == length);
    assert(attribute_wire(a, order).subrange(0, 4 + a.value.len() as int) =~= bytes.subrange(
        start,
        next,
    ));
}

/// An attribute whose declared length is beyond what is left of the buffer
/// ends the walk: nothing more is yielded, and nothing is an error.
pub proof fn lemma_truncated_ends_walk(bytes: Seq<u8>, position: int, order: ByteOrder)
    requires
        0 <= position,
        align4(position) + 4 <= bytes.len(),
        order.u16_from(bytes.subrange(align4(position), align4(position) + 2)) >= bytes.len()
            - align4(position),
    ensures
        attributes_from(bytes, position, order) == Seq::<Result<Attribute, DecodeError>>::empty(),
{
    reveal(next_attribute);
    assert(attributes_from(bytes, position, order) =~= Seq::<
        Result<Attribute, DecodeError>,
    >::empty());
}

impl NlaRoundTrip for Attribute {
    /// Every generic attribute comes back as it was written.
    open spec fn canonical(self) -> bool {
        true
    }

    proof fn lemma_round_trip(self, order: ByteOrder) {
    }
}

} // verus!
