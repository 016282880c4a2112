//! The routing message: one of a closed set of payloads, told apart by the
//! type code of the message that carries it.
use vstd::prelude::*;
use crate::byte_order::ByteOrder;
use crate::constants::{
    RTM_DELADDR, RTM_DELLINK, RTM_DELQDISC, RTM_DELTCLASS, RTM_DELTFILTER, RTM_GETADDR,
    RTM_GETLINK, RTM_GETQDISC, RTM_GETTCLASS, RTM_GETTFILTER, RTM_NEWADDR, RTM_NEWLINK,
    RTM_NEWQDISC, RTM_NEWTCLASS, RTM_NEWTFILTER, RTM_SETLINK,
};
use crate::errors::DecodeError;
use crate::nla::{ends_clean, parsed_view};
use crate::rtnl::address::{AddressMessage, AddressMessageView};
use crate::rtnl::link::{LinkMessage, LinkMessageView};
use crate::rtnl::tc::{TcMessage, TcMessageView};

verus! {

/// A routing message.
#[derive(Debug, PartialEq, Eq, Clone)]
pub enum RtnlMessage {
    NewLink(LinkMessage),
    DelLink(LinkMessage),
    GetLink(LinkMessage),
    SetLink(LinkMessage),
    NewAddress(AddressMessage),
    DelAddress(AddressMessage),
    GetAddress(AddressMessage),
    NewQueueDiscipline(TcMessage),
    DelQueueDiscipline(TcMessage),
    GetQueueDiscipline(TcMessage),
    NewTrafficClass(TcMessage),
    DelTrafficClass(TcMessage),
    GetTrafficClass(TcMessage),
    NewTrafficFilter(TcMessage),
    DelTrafficFilter(TcMessage),
    GetTrafficFilter(TcMessage),
}

/// What a routing message carries: the three shapes that the payloads have
/// on the wire.
pub enum RtnlBody {
    Link(LinkMessageView),
    Address(AddressMessageView),
    Tc(TcMessageView),
}

/// The model of a routing message: its type code and what it carries.
pub struct RtnlMessageView {
    pub message_type: u16,
    pub body: RtnlBody,
}

/// Whether `code` is the type of a message about a link.
pub open spec fn is_link_type(code: u16) -> bool {
    code == RTM_NEWLINK || code == RTM_DELLINK || code == RTM_GETLINK || code == RTM_SETLINK
}

/// Whether `code` is the type of a message about an address.
pub open spec fn is_address_type(code: u16) -> bool {
    code == RTM_NEWADDR || code == RTM_DELADDR || code == RTM_GETADDR
}

/// Whether `code` is the type of a message about traffic control.
pub open spec fn is_tc_type(code: u16) -> bool {
    code == RTM_NEWQDISC || code == RTM_DELQDISC || code == RTM_GETQDISC || code == RTM_NEWTCLASS
        || code == RTM_DELTCLASS || code == RTM_GETTCLASS || code == RTM_NEWTFILTER || code
        == RTM_DELTFILTER || code == RTM_GETTFILTER
}

impl View for RtnlMessage {
    type V = RtnlMessageView;

    open spec fn view(&self) -> RtnlMessageView {
        match self {
            RtnlMessage::NewLink(m) => RtnlMessageView {
                message_type: RTM_NEWLINK,
                body: RtnlBody::Link(m@),
            },
            RtnlMessage::DelLink(m) => RtnlMessageView {
                message_type: RTM_DELLINK,
                body: RtnlBody::Link(m@),
            },
            RtnlMessage::GetLink(m) => RtnlMessageView {
                message_type: RTM_GETLINK,
                body: RtnlBody::Link(m@),
            },
            RtnlMessage::SetLink(m) => RtnlMessageView {
                message_type: RTM_SETLINK,
                body: RtnlBody::Link(m@),
            },
            RtnlMessage::NewAddress(m) => RtnlMessageView {
                message_type: RTM_NEWADDR,
                body: RtnlBody::Address(m@),
            },
            RtnlMessage::DelAddress(m) => RtnlMessageView {
                message_type: RTM_DELADDR,
                body: RtnlBody::Address(m@),
            },
            RtnlMessage::GetAddress(m) => RtnlMessageView {
                message_type: RTM_GETADDR,
                body: RtnlBody::Address(m@),
            },
            RtnlMessage::NewQueueDiscipline(m) => RtnlMessageView {
                message_type: RTM_NEWQDISC,
                body: RtnlBody::Tc(m@),
            },
            RtnlMessage::DelQueueDiscipline(m) => RtnlMessageView {
                message_type: RTM_DELQDISC,
                body: RtnlBody::Tc(m@),
            },
            RtnlMessage::GetQueueDiscipline(m) => RtnlMessageView {
                message_type: RTM_GETQDISC,
                body: RtnlBody::Tc(m@),
            },
            RtnlMessage::NewTrafficClass(m) => RtnlMessageView {
                message_type: RTM_NEWTCLASS,
                body: RtnlBody::Tc(m@),
            },
            RtnlMessage::DelTrafficClass(m) => RtnlMessageView {
                message_type: RTM_DELTCLASS,
                body: RtnlBody::Tc(m@),
            },
            RtnlMessage::GetTrafficClass(m) => RtnlMessageView {
                message_type: RTM_GETTCLASS,
                body: RtnlBody::Tc(m@),
            },
            RtnlMessage::NewTrafficFilter(m) => RtnlMessageView {
                message_type: RTM_NEWTFILTER,
                body: RtnlBody::Tc(m@),
            },
            RtnlMessage::DelTrafficFilter(m) => RtnlMessageView {
                message_type: RTM_DELTFILTER,
                body: RtnlBody::Tc(m@),
            },
            RtnlMessage::GetTrafficFilter(m) => RtnlMessageView {
                message_type: RTM_GETTFILTER,
                body: RtnlBody::Tc(m@),
            },
        }
    }
}

impl RtnlMessageView {
    /// Whether the type code and the shape of the payload belong together,
    /// as they do in every routing message.
    pub open spec fn well_formed(self) -> bool {
        match self.body {
            RtnlBody::Link(_) => is_link_type(self.message_type),
            RtnlBody::Address(_) => is_address_type(self.message_type),
            RtnlBody::Tc(_) => is_tc_type(self.message_type),
        }
    }

    /// The number of bytes of the payload.
    pub open spec fn wire_len(self) -> nat {
        match self.body {
            RtnlBody::Link(m) => m.wire_len(),
            RtnlBody::Address(m) => m.wire_len(),
            RtnlBody::Tc(m) => m.wire_len(),
        }
    }

    /// The bytes of the payload. The type code is not among them: it
    /// travels in the header of the message.
    pub open spec fn wire(self, order: ByteOrder) -> Seq<u8> {
        match self.body {
            RtnlBody::Link(m) => m.wire(order),
            RtnlBody::Address(m) => m.wire(order),
            RtnlBody::Tc(m) => m.wire(order),
        }
    }

    /// Whether every attribute is short enough to be written.
    pub open spec fn fits(self) -> bool {
        match self.body {
            RtnlBody::Link(m) => m.fits(),
            RtnlBody::Address(m) => m.fits(),
            RtnlBody::Tc(m) => m.fits(),
        }
    }

    /// The routing message of type `message_type` that `b` holds. The type
    /// selects the shape in which `b` is read; a type that is in no table is
    /// an error that names it.
    pub open spec fn parse(message_type: u16, b: Seq<u8>, order: ByteOrder) -> Result<
        RtnlMessageView,
        DecodeError,
    > {
        if is_link_type(message_type) {
            match LinkMessageView::parse(b, order) {
                Ok(m) => Ok(RtnlMessageView { message_type, body: RtnlBody::Link(m) }),
                Err(e) => Err(e),
            }
        } else if is_address_type(message_type) {
            match AddressMessageView::parse(b, order) {
                Ok(m) => Ok(RtnlMessageView { message_type, body: RtnlBody::Address(m) }),
                Err(e) => Err(e),
            }
        } else if is_tc_type(message_type) {
            match TcMessageView::parse(b, order) {
                Ok(m) => Ok(RtnlMessageView { message_type, body: RtnlBody::Tc(m) }),
                Err(e) => Err(e),
            }
        } else {
            Err(DecodeError::UnknownMessageType(message_type))
        }
    }

    /// The bytes of a payload are as many as its size says.
    pub proof fn lemma_wire_len(self, order: ByteOrder)
        ensures
            self.wire(order).len() == self.wire_len(),
    {
        match self.body {
            RtnlBody::Link(m) => m.lemma_wire_len(order),
            RtnlBody::Address(m) => m.lemma_wire_len(order),
            RtnlBody::Tc(m) => m.lemma_wire_len(order),
        }
    }

    /// Whether every attribute is one that comes back as it was written.
    pub open spec fn canonical(self) -> bool {
        match self.body {
            RtnlBody::Link(m) => m.canonical(),
            RtnlBody::Address(m) => m.canonical(),
            RtnlBody::Tc(m) => m.canonical(),
        }
    }

    /// Whether a walk finds the last attribute again when `tail_len` bytes
    /// follow the payload.
    pub open spec fn ends_clean(self, tail_len: nat) -> bool {
        match self.body {
            RtnlBody::Link(m) => ends_clean(m.nlas, tail_len),
            RtnlBody::Address(m) => ends_clean(m.nlas, tail_len),
            RtnlBody::Tc(m) => ends_clean(m.nlas, tail_len),
        }
    }

    /// Reading a routing message that was written, by its own type code,
    /// gives the message back, where every attribute fits and is canonical
    /// and the last one is found again before the `tail`.
    pub proof fn lemma_round_trip(self, tail: Seq<u8>, order: ByteOrder)
        requires
            self.well_formed(),
            self.fits(),
            self.canonical(),
            self.ends_clean(tail.len()),
        ensures
            RtnlMessageView::parse(self.message_type, self.wire(order) + tail, order) == Ok::<
                RtnlMessageView,
                DecodeError,
            >(self),
    {
        match self.body {
            RtnlBody::Link(m) => m.lemma_round_trip(tail, order),
            RtnlBody::Address(m) => m.lemma_round_trip(tail, order),
            RtnlBody::Tc(m) => m.lemma_round_trip(tail, order),
        }
    }

    /// A type code that is in no table is reported by name, whatever the
    /// payload holds.
    pub proof fn lemma_unknown_type(message_type: u16, b: Seq<u8>, order: ByteOrder)
        requires
            !is_link_type(message_type),
            !is_address_type(message_type),
            !is_tc_type(message_type),
        ensures
            RtnlMessageView::parse(message_type, b, order) == Err::<RtnlMessageView, DecodeError>(
                DecodeError::UnknownMessageType(message_type),
            ),
    {
    }
}

impl RtnlMessage {
    /// In every routing message the type code and the shape of the payload
    /// belong together.
    pub proof fn lemma_well_formed(&self)
        ensures
            self@.well_formed(),
    {
    }

    pub fn is_new_link(&self) -> (r: bool)
        ensures
            r == (self@.message_type == RTM_NEWLINK),
            r == (self is NewLink),
    {
        if let RtnlMessage::NewLink(_) = *self {
            true
        } else {
            false
        }
    }

    pub fn is_del_link(&self) -> (r: bool)
        ensures
            r == (self@.message_type == RTM_DELLINK),
            r == (self is DelLink),
    {
        if let RtnlMessage::DelLink(_) = *self {
            true
        } else {
            false
        }
    }

    pub fn is_get_link(&self) -> (r: bool)
        ensures
            r == (self@.message_type == RTM_GETLINK),
            r == (self is GetLink),
    {
        if let RtnlMessage::GetLink(_) = *self {
            true
        } else {
            false
        }
    }

    pub fn is_set_link(&self) -> (r: bool)
        ensures
            r == (self@.message_type == RTM_SETLINK),
            r == (self is SetLink),
    {
        if let RtnlMessage::SetLink(_) = *self {
            true
        } else {
            false
        }
    }

    pub fn is_new_address(&self) -> (r: bool)
        ensures
            r == (self@.message_type == RTM_NEWADDR),
            r == (self is NewAddress),
    {
        if let RtnlMessage::NewAddress(_) = *self {
            true
        } else {
            false
        }
    }

    pub fn is_del_address(&self) -> (r: bool)
        ensures
            r == (self@.message_type == RTM_DELADDR),
            r == (self is DelAddress),
    {
        if let RtnlMessage::DelAddress(_) = *self {
            true
        } else {
            false
        }
    }

    pub fn is_get_address(&self) -> (r: bool)
        ensures
            r == (self@.message_type == RTM_GETADDR),
            r == (self is GetAddress),
    {
        if let RtnlMessage::GetAddress(_) = *self {
            true
        } else {
            false
        }
    }

    pub fn is_new_qdisc(&self) -> (r: bool)
        ensures
            r == (self@.message_type == RTM_NEWQDISC),
            r == (self is NewQueueDiscipline),
    {
        if let RtnlMessage::NewQueueDiscipline(_) = *self {
            true
        } else {
            false
        }
    }

    pub fn is_del_qdisc(&self) -> (r: bool)
        ensures
            r == (self@.message_type == RTM_DELQDISC),
            r == (self is DelQueueDiscipline),
    {
        if let RtnlMessage::DelQueueDiscipline(_) = *self {
            true
        } else {
            false
        }
    }

    pub fn is_get_qdisc(&self) -> (r: bool)
        ensures
            r == (self@.message_type == RTM_GETQDISC),
            r == (self is GetQueueDiscipline),
    {
        if let RtnlMessage::GetQueueDiscipline(_) = *self {
            true
        } else {
            false
        }
    }

    pub fn is_new_class(&self) -> (r: bool)
        ensures
            r == (self@.message_type == RTM_NEWTCLASS),
            r == (self is NewTrafficClass),
    {
        if let RtnlMessage::NewTrafficClass(_) = *self {
            true
        } else {
            false
        }
    }

    pub fn is_del_class(&self) -> (r: bool)
        ensures
            r == (self@.message_type == RTM_DELTCLASS),
            r == (self is DelTrafficClass),
    {
        if let RtnlMessage::DelTrafficClass(_) = *self {
            true
        } else {
            false
        }
    }

    pub fn is_get_class(&self) -> (r: bool)
        ensures
            r == (self@.message_type == RTM_GETTCLASS),
            r == (self is GetTrafficClass),
    {
        if let RtnlMessage::GetTrafficClass(_) = *self {
            true
        } else {
            false
        }
    }

    pub fn is_new_filter(&self) -> (r: bool)
        ensures
            r == (self@.message_type == RTM_NEWTFILTER),
            r == (self is NewTrafficFilter),
    {
        if let RtnlMessage::NewTrafficFilter(_) = *self {
            true
        } else {
            false
        }
    }

    pub fn is_del_filter(&self) -> (r: bool)
        ensures
            r == (self@.message_type == RTM_DELTFILTER),
            r == (self is DelTrafficFilter),
    {
        if let RtnlMessage::DelTrafficFilter(_) = *self {
            true
        } else {
            false
        }
    }

    pub fn is_get_filter(&self) -> (r: bool)
        ensures
            r == (self@.message_type == RTM_GETTFILTER),
            r == (self is GetTrafficFilter),
    {
        if let RtnlMessage::GetTrafficFilter(_) = *self {
            true
        } else {
            false
        }
    }

    /// The type code under which the message travels.
    pub fn message_type(&self) -> (r: u16)
        ensures
            r == self@.message_type,
            self@.well_formed(),
    {
        match self {
            RtnlMessage::NewLink(_) => RTM_NEWLINK,
            RtnlMessage::DelLink(_) => RTM_DELLINK,
            RtnlMessage::GetLink(_) => RTM_GETLINK,
            RtnlMessage::SetLink(_) => RTM_SETLINK,
            RtnlMessage::NewAddress(_) => RTM_NEWADDR,
            RtnlMessage::DelAddress(_) => RTM_DELADDR,
            RtnlMessage::GetAddress(_) => RTM_GETADDR,
            RtnlMessage::NewQueueDiscipline(_) => RTM_NEWQDISC,
            RtnlMessage::DelQueueDiscipline(_) => RTM_DELQDISC,
            RtnlMessage::GetQueueDiscipline(_) => RTM_GETQDISC,
            RtnlMessage::NewTrafficClass(_) => RTM_NEWTCLASS,
            RtnlMessage::DelTrafficClass(_) => RTM_DELTCLASS,
            RtnlMessage::GetTrafficClass(_) => RTM_GETTCLASS,
            RtnlMessage::NewTrafficFilter(_) => RTM_NEWTFILTER,
            RtnlMessage::DelTrafficFilter(_) => RTM_DELTFILTER,
            RtnlMessage::GetTrafficFilter(_) => RTM_GETTFILTER,
        }
    }

    /// Reads the routing message of the given type from the payload of a
    /// message.
    pub fn parse(message_type: u16, buffer: &[u8], order: ByteOrder) -> (r: Result<
        Self,
        DecodeError,
    >)
        ensures
            parsed_view(r) == RtnlMessageView::parse(message_type, buffer@, order),
    {
        if message_type == RTM_NEWLINK || message_type == RTM_GETLINK || message_type
            == RTM_DELLINK || message_type == RTM_SETLINK {
            let msg = match LinkMessage::parse(buffer, order) {
                Ok(msg) => msg,
                Err(e) => {
                    return Err(e);
                },
            };
            if message_type == RTM_NEWLINK {
                Ok(RtnlMessage::NewLink(msg))
            } else if message_type == RTM_GETLINK {
                Ok(RtnlMessage::GetLink(msg))
            } else if message_type == RTM_DELLINK {
                Ok(RtnlMessage::DelLink(msg))
            } else {
                Ok(RtnlMessage::SetLink(msg))
            }
        } else if message_type == RTM_NEWADDR || message_type == RTM_GETADDR || message_type
            == RTM_DELADDR {
            let msg = match AddressMessage::parse(buffer, order) {
                Ok(msg) => msg,
                Err(e) => {
                    return Err(e);
                },
            };
            if message_type == RTM_NEWADDR {
                Ok(RtnlMessage::NewAddress(msg))
            } else if message_type == RTM_GETADDR {
                Ok(RtnlMessage::GetAddress(msg))
            } else {
                Ok(RtnlMessage::DelAddress(msg))
            }
        } else if message_type == RTM_NEWQDISC || message_type == RTM_DELQDISC || message_type
            == RTM_GETQDISC || message_type == RTM_NEWTCLASS || message_type == RTM_DELTCLASS
            || message_type == RTM_GETTCLASS || message_type == RTM_NEWTFILTER || message_type
            == RTM_DELTFILTER || message_type == RTM_GETTFILTER {
            let msg = match TcMessage::parse(buffer, order) {
                Ok(msg) => msg,
                Err(e) => {
                    return Err(e);
                },
            };
            if message_type == RTM_NEWQDISC {
                Ok(RtnlMessage::NewQueueDiscipline(msg))
            } else if message_type == RTM_DELQDISC {
                Ok(RtnlMessage::DelQueueDiscipline(msg))
            } else if message_type == RTM_GETQDISC {
                Ok(RtnlMessage::GetQueueDiscipline(msg))
            } else if message_type == RTM_NEWTCLASS {
                Ok(RtnlMessage::NewTrafficClass(msg))
            } else if message_type == RTM_DELTCLASS {
                Ok(RtnlMessage::DelTrafficClass(msg))
            } else if message_type == RTM_GETTCLASS {
                Ok(RtnlMessage::GetTrafficClass(msg))
            } else if message_type == RTM_NEWTFILTER {
                Ok(RtnlMessage::NewTrafficFilter(msg))
            } else if message_type == RTM_DELTFILTER {
                Ok(RtnlMessage::DelTrafficFilter(msg))
            } else {
                Ok(RtnlMessage::GetTrafficFilter(msg))
            }
        } else {
            Err(DecodeError::UnknownMessageType(message_type))
        }
    }

    /// The number of bytes that the payload takes, if every attribute can be
    /// written and the payload takes no more than `limit` bytes.
    pub fn checked_buffer_len(&self, limit: usize) -> (r: Option<usize>)
        ensures
            r == (if self@.fits() && self@.wire_len() <= limit {
                Some(self@.wire_len() as usize)
            } else {
                None
            }),
    {
        match self {
            RtnlMessage::NewLink(msg)
            | RtnlMessage::DelLink(msg)
            | RtnlMessage::GetLink(msg)
            | RtnlMessage::SetLink(msg) => msg.checked_buffer_len(limit),
            RtnlMessage::NewAddress(msg)
            | RtnlMessage::DelAddress(msg)
            | RtnlMessage::GetAddress(msg) => msg.checked_buffer_len(limit),
            RtnlMessage::NewQueueDiscipline(msg)
            | RtnlMessage::DelQueueDiscipline(msg)
            | RtnlMessage::GetQueueDiscipline(msg)
            | RtnlMessage::NewTrafficClass(msg)
            | RtnlMessage::DelTrafficClass(msg)
            | RtnlMessage::GetTrafficClass(msg)
            | RtnlMessage::NewTrafficFilter(msg)
            | RtnlMessage::DelTrafficFilter(msg)
            | RtnlMessage::GetTrafficFilter(msg) => msg.checked_buffer_len(limit),
        }
    }

    /// The number of bytes that the payload takes.
    pub fn buffer_len(&self) -> (r: usize)
        requires
            self@.fits(),
            self@.wire_len() <= usize::MAX,
        ensures
            r == self@.wire_len(),
    {
        match self {
            RtnlMessage::NewLink(msg)
            | RtnlMessage::DelLink(msg)
            | RtnlMessage::GetLink(msg)
            | RtnlMessage::SetLink(msg) => msg.buffer_len(),
            RtnlMessage::NewAddress(msg)
            | RtnlMessage::DelAddress(msg)
            | RtnlMessage::GetAddress(msg) => msg.buffer_len(),
            RtnlMessage::NewQueueDiscipline(msg)
            | RtnlMessage::DelQueueDiscipline(msg)
            | RtnlMessage::GetQueueDiscipline(msg)
            | RtnlMessage::NewTrafficClass(msg)
            | RtnlMessage::DelTrafficClass(msg)
            | RtnlMessage::GetTrafficClass(msg)
            | RtnlMessage::NewTrafficFilter(msg)
            | RtnlMessage::DelTrafficFilter(msg)
            | RtnlMessage::GetTrafficFilter(msg) => msg.buffer_len(),
        }
    }

    /// Writes the payload into the front of `buffer` and leaves the rest.
    pub fn emit(&self, buffer: &mut [u8], order: ByteOrder)
        requires
            self@.fits(),
            old(buffer).len() >= self@.wire_len(),
        ensures
            final(buffer)@ == self@.wire(order) + old(buffer)@.skip(self@.wire_len() as int),
    {
        match self {
            RtnlMessage::NewLink(msg)
            | RtnlMessage::DelLink(msg)
            | RtnlMessage::GetLink(msg)
            | RtnlMessage::SetLink(msg) => msg.emit(buffer, order),
            RtnlMessage::NewAddress(msg)
            | RtnlMessage::DelAddress(msg)
            | RtnlMessage::GetAddress(msg) => msg.emit(buffer, order),
            RtnlMessage::NewQueueDiscipline(msg)
            | RtnlMessage::DelQueueDiscipline(msg)
            | RtnlMessage::GetQueueDiscipline(msg)
            | RtnlMessage::NewTrafficClass(msg)
            | RtnlMessage::DelTrafficClass(msg)
            | RtnlMessage::GetTrafficClass(msg)
            | RtnlMessage::NewTrafficFilter(msg)
            | RtnlMessage::DelTrafficFilter(msg)
            | RtnlMessage::GetTrafficFilter(msg) => msg.emit(buffer, order),
        }
    }
}

} // verus!
