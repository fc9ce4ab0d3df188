//! The dynamic host configuration protocol.
//!
//! ```text
//! 0                   1                   2                   3
//! 0 1 2 3 4 5 6 7 8 9 0 1 2 3 4 5 6 7 8 9 0 1 2 3 4 5 6 7 8 9 0 1
//! +-+-+-+-+-+-+-+-+-+-+-+-+-+-+-+-+-+-+-+-+-+-+-+-+-+-+-+-+-+-+-+-+
//! |     op (1)    |   htype (1)   |   hlen (1)    |   hops (1)    |
//! +---------------+---------------+---------------+---------------+
//! |                            xid (4)                            |
//! +-------------------------------+-------------------------------+
//! |           secs (2)            |           flags (2)           |
//! +-------------------------------+-------------------------------+
//! |          ciaddr (4), yiaddr (4), siaddr (4), giaddr (4)       |
//! +---------------------------------------------------------------+
//! |                          chaddr  (16)                         |
//! +---------------------------------------------------------------+
//! |                          sname   (64)                         |
//! +---------------------------------------------------------------+
//! |                          file    (128)                        |
//! +---------------------------------------------------------------+
//! |              magic cookie (4), options (variable)             |
//! +---------------------------------------------------------------+
//! ```

pub mod options;

use crate::buffer::{
    be16_at, be16_bytes, be16_round_trip, be32_at, be32_bytes, be32_round_trip, bytes_mut_contents,
    has_room, put_slice, put_u16, put_u32, put_u8, read_be16, read_be32,
};
use crate::common::{outcome, Error, ErrorKind};
use crate::net::{ipv4_at, ipv4_round_trip, Ipv4Addr};
use crate::protocols::ethernet::mac::MacAddr;
use crate::text::{text_from_utf8, utf8_error_text};
use crate::time::{nanos_between, Instant};
use crate::write_to_buffer::WriteToBuffer;
use bytes::BytesMut;
pub use options::{
    decode_option, encode_option, option_code_round_trip, option_round_trip, DHCPMessageType,
    DHCPOption, OptionCode, OptionData, OptionView, OptionsOverload,
};
use vstd::prelude::*;
use vstd::slice::slice_subrange;
use vstd::string::*;
use vstd::utf8::{
    decode_utf8, encode_utf8, encode_utf8_decode_utf8, encode_utf8_valid_utf8, valid_utf8,
};

verus! {

/// Whether a message comes from a client or from a server.
#[derive(Debug, PartialEq, Eq, Clone, Copy, Structural)]
pub enum Operation {
    BootRequest,
    BootReply,
}

impl Operation {
    pub open spec fn decode(code: u8) -> Option<Self> {
        match code {
            1 => Some(Operation::BootRequest),
            2 => Some(Operation::BootReply),
            _ => None,
        }
    }

    pub open spec fn encode(self) -> u8 {
        match self {
            Operation::BootRequest => 1,
            Operation::BootReply => 2,
        }
    }

    /// The code that stands for this operation.
    pub fn code(&self) -> (code: u8)
        ensures
            code == self.encode(),
    {
        match *self {
            Operation::BootRequest => 1,
            Operation::BootReply => 2,
        }
    }
}

/// The flags of a message: one for broadcast, the others are zero.
#[derive(Debug, PartialEq, Eq, Clone, Copy, Structural)]
pub struct Flags {
    pub broadcast: bool,
}

/// The flags that a field of this value holds.
pub open spec fn parse_flags(value: u16) -> Result<Flags, (ErrorKind, Seq<char>)> {
    if value == 0 {
        Ok(Flags { broadcast: false })
    } else if value == 0x8000 {
        Ok(Flags { broadcast: true })
    } else {
        Err((ErrorKind::InvalidData, "Flags has data in reserved"@))
    }
}

impl Flags {
    pub open spec fn encode(self) -> u16 {
        if self.broadcast {
            0x8000
        } else {
            0
        }
    }

    /// The flags that a field of this value holds.
    pub fn try_from(value: u16) -> (result: Result<Self, Error>)
        ensures
            outcome(result) == parse_flags(value),
    {
        match value {
            0 => Ok(Flags { broadcast: false }),
            0x8000 => Ok(Flags { broadcast: true }),
            _ => Err(Error::new(ErrorKind::InvalidData, "Flags has data in reserved")),
        }
    }

    /// The value of the field.
    pub fn value(&self) -> (value: u16)
        ensures
            value == self.encode(),
    {
        if self.broadcast {
            0x8000
        } else {
            0
        }
    }
}

/// The options of a message.
#[derive(Debug)]
pub struct DHCPOptions(pub Vec<DHCPOption>);

/// The views of options.
pub open spec fn option_views(options: Seq<DHCPOption>) -> Seq<OptionView> {
    Seq::new(options.len(), |i: int| options[i]@)
}

impl View for DHCPOptions {
    type V = Seq<OptionView>;

    open spec fn view(&self) -> Seq<OptionView> {
        option_views(self.0@)
    }
}

/// The options that the bytes of a field hold. A zero byte is padding. The byte 255 ends the
/// options, and so does an option behind whose data nothing follows. An option that is not
/// understood is passed over.
pub open spec fn parse_options(bytes: Seq<u8>) -> Seq<OptionView>
    decreases bytes.len(),
{
    if bytes.len() == 0 || bytes[0] == 255 {
        Seq::empty()
    } else if bytes[0] == 0 {
        parse_options(bytes.skip(1))
    } else if bytes.len() < 2 || 2 + bytes[1] >= bytes.len() {
        Seq::empty()
    } else {
        let rest = parse_options(bytes.skip(2 + bytes[1]));
        match decode_option(bytes[0], bytes.subrange(2, 2 + bytes[1])) {
            Some(option) => seq![option] + rest,
            None => rest,
        }
    }
}

/// Options one after the other.
pub open spec fn concat_options(options: Seq<OptionView>) -> Seq<u8>
    decreases options.len(),
{
    if options.len() == 0 {
        Seq::empty()
    } else {
        concat_options(options.drop_last()) + encode_option(options.last())
    }
}

/// The options as they stand in a message: one after the other, and the mark of their end.
pub open spec fn encode_options(options: Seq<OptionView>) -> Seq<u8> {
    concat_options(options) + seq![255u8]
}

/// The first of the options that says which fields hold options.
pub open spec fn first_overload(options: Seq<OptionView>) -> Option<OptionsOverload>
    decreases options.len(),
{
    if options.len() == 0 {
        None
    } else {
        match options[0].1 {
            OptionData::Overload(overload) => Some(overload),
            _ => first_overload(options.skip(1)),
        }
    }
}

impl DHCPOptions {
    /// Appends the options of another field.
    pub fn with(&mut self, other: Self)
        ensures
            final(self)@ == old(self)@ + other@,
    {
        let ghost added = other@;
        let mut other = other;
        self.0.append(&mut other.0);
        assert(self@ =~= old(self)@ + added);
    }

    /// Which fields hold options, if an option says so.
    pub fn options_overload(&self) -> (overload: Option<OptionsOverload>)
        ensures
            overload == first_overload(self@),
    {
        let mut i: usize = 0;
        assert(self@.skip(0) =~= self@);
        while i < self.0.len()
            invariant
                i <= self.0@.len(),
                first_overload(self@.skip(i as int)) == first_overload(self@),
            decreases self.0@.len() - i,
        {
            assert(self@.skip(i as int)[0] == self.0@[i as int]@);
            if let DHCPOption::OptionsOverload(overload) = &self.0[i] {
                return Some(*overload);
            }
            assert(self@.skip(i as int).skip(1) =~= self@.skip(i + 1));
            i = i + 1;
        }
        None
    }

    /// Reads the options that the bytes of a field hold.
    pub fn from(value: &[u8]) -> (options: Self)
        ensures
            options@ == parse_options(value@),
    {
        let total: usize = value.len();
        let mut position: usize = 0;
        let mut options: Vec<DHCPOption> = Vec::new();
        assert(value@.skip(0) =~= value@);
        assert(option_views(options@) + parse_options(value@) =~= parse_options(value@));
        while position < total
            invariant
                position <= total,
                total == value@.len(),
                option_views(options@) + parse_options(value@.skip(position as int))
                    == parse_options(value@),
            ensures
                parse_options(value@.skip(position as int)) == Seq::<OptionView>::empty(),
                position <= value@.len(),
                option_views(options@) == parse_options(value@),
            decreases value@.len() - position,
        {
            let ghost rest = value@.skip(position as int);
            let ghost before = options@;
            let code: u8 = value[position];
            // 255 is the end.
            if code == 255 {
                assert(option_views(options@) + parse_options(rest) =~= option_views(options@));
                break;
            }
            // 0 is padding.
            if code == 0 {
                assert(rest.skip(1) =~= value@.skip(position + 1));
                position = position + 1;
                continue;
            }
            if total - position < 2 {
                assert(option_views(options@) + parse_options(rest) =~= option_views(options@));
                break;
            }
            let length: usize = value[position + 1] as usize;
            if total - position <= 2 + length {
                assert(option_views(options@) + parse_options(rest) =~= option_views(options@));
                break;
            }
            let data = slice_subrange(value, position + 2, position + 2 + length);
            assert(data@ =~= rest.subrange(2, 2 + rest[1]));
            assert(rest.skip(2 + rest[1]) =~= value@.skip(position + 2 + length));
            position = position + 2 + length;
            if let Some(option) = DHCPOption::parse(code, data) {
                options.push(option);
                assert(option_views(options@) =~= option_views(before) + seq![option@]);
            }
            assert(option_views(options@) + parse_options(value@.skip(position as int))
                =~= option_views(before) + parse_options(rest));
        }
        DHCPOptions(options)
    }
}

/// Whether every option has a wire format.
pub open spec fn options_encodable(options: Seq<DHCPOption>) -> bool {
    forall|i: int| 0 <= i < options.len() ==> (#[trigger] options[i]).encodable()
}

/// Fewer options take no more bytes.
proof fn concat_options_prefix(options: Seq<OptionView>, count: int)
    requires
        0 <= count <= options.len(),
    ensures
        concat_options(options.take(count)).len() <= concat_options(options).len(),
        count < options.len() ==> concat_options(options.take(count + 1)) == concat_options(
            options.take(count),
        ) + encode_option(options[count]),
    decreases options.len(),
{
    if count < options.len() {
        assert(options.take(count + 1).drop_last() =~= options.take(count));
        assert(options.drop_last().take(count) =~= options.take(count));
        concat_options_prefix(options.drop_last(), count);
    } else {
        assert(options.take(count) =~= options);
    }
}

impl WriteToBuffer for DHCPOptions {
    open spec fn encoding(&self) -> Seq<u8> {
        encode_options(self@)
    }

    open spec fn reported(&self) -> nat {
        self.encoding().len()
    }

    open spec fn encodable(&self) -> bool {
        options_encodable(self.0@) && concat_options(self@).len() + 1 <= usize::MAX
    }

    fn encoded_length(&self) -> (length: usize) {
        // The mark of the end is always there.
        let mut length: usize = 1;
        let mut i: usize = 0;
        assert(self@.take(0) =~= Seq::<OptionView>::empty());
        while i < self.0.len()
            invariant
                i <= self.0@.len(),
                self.encodable(),
                length == concat_options(self@.take(i as int)).len() + 1,
            decreases self.0@.len() - i,
        {
            proof {
                concat_options_prefix(self@, i as int);
                concat_options_prefix(self@, i + 1);
            }
            length = length + self.0[i].encoded_length();
            i = i + 1;
        }
        assert(self@.take(i as int) =~= self@);
        length
    }

    fn write_to_buffer(&self, buffer: &mut BytesMut) {
        let mut i: usize = 0;
        assert(self@.take(0) =~= Seq::<OptionView>::empty());
        while i < self.0.len()
            invariant
                i <= self.0@.len(),
                self.encodable(),
                has_room(*old(buffer), self.encoding().len()),
                bytes_mut_contents(*buffer) == bytes_mut_contents(*old(buffer)) + concat_options(
                    self@.take(i as int),
                ),
            decreases self.0@.len() - i,
        {
            proof {
                concat_options_prefix(self@, i as int);
                concat_options_prefix(self@, i + 1);
            }
            self.0[i].write_to_buffer(buffer);
            i = i + 1;
            assert(bytes_mut_contents(*buffer) =~= bytes_mut_contents(*old(buffer))
                + concat_options(self@.take(i as int)));
        }
        assert(self@.take(i as int) =~= self@);
        put_u8(buffer, 255);
        assert(bytes_mut_contents(*buffer) =~= bytes_mut_contents(*old(buffer)) + self.encoding());
    }
}

/// Whether each option can be written so that it can be read again: its data is laid out as its
/// code asks, its lists are not empty and its length fits in one byte.
pub open spec fn options_presentable(options: Seq<OptionView>) -> bool {
    forall|i: int|
        0 <= i < options.len() ==> {
            &&& (#[trigger] options[i]).1.presentable()
            &&& options[i].0.format() == options[i].1.format()
        }
}

proof fn concat_options_first(options: Seq<OptionView>)
    requires
        options.len() > 0,
    ensures
        concat_options(options) == encode_option(options[0]) + concat_options(options.skip(1)),
    decreases options.len(),
{
    if options.len() == 1 {
        assert(options.drop_last() =~= Seq::empty());
        assert(options.skip(1) =~= Seq::empty());
        assert(concat_options(options) =~= encode_option(options[0]) + concat_options(
            options.skip(1),
        ));
    } else {
        concat_options_first(options.drop_last());
        assert(options.drop_last().skip(1) =~= options.skip(1).drop_last());
        assert(concat_options(options) =~= encode_option(options[0]) + concat_options(
            options.skip(1),
        ));
    }
}

/// Reading options as they were written, whatever follows their end, gives the options back.
pub proof fn options_round_trip(options: Seq<OptionView>, rest: Seq<u8>)
    requires
        options_presentable(options),
    ensures
        parse_options(encode_options(options) + rest) == options,
    decreases options.len(),
{
    let bytes = encode_options(options) + rest;
    if options.len() == 0 {
        assert(bytes[0] == 255);
        assert(parse_options(bytes) =~= options);
    } else {
        concat_options_first(options);
        option_round_trip(options[0]);
        option_code_round_trip(options[0].0, 0);
        let first = encode_option(options[0]);
        let tail = options.skip(1);
        options_round_trip(tail, rest);
        assert(bytes =~= first + (encode_options(tail) + rest));
        assert(bytes.subrange(2, 2 + bytes[1]) =~= first.skip(2));
        assert(bytes.skip(2 + bytes[1]) =~= encode_options(tail) + rest);
        assert(parse_options(bytes) =~= seq![options[0]] + tail);
        assert(seq![options[0]] + tail =~= options);
    }
}

/// Whether the first zero byte stands at a position.
pub open spec fn first_zero_at(bytes: Seq<u8>, at: int) -> bool {
    0 <= at < bytes.len() && bytes[at] == 0 && forall|i: int| 0 <= i < at ==> bytes[i] != 0
}

/// The text before the first zero byte of a field, if there is any.
pub open spec fn null_terminated(bytes: Seq<u8>) -> Result<
    Option<Seq<char>>,
    (ErrorKind, Seq<char>),
> {
    if exists|at: int| first_zero_at(bytes, at) {
        let at = choose|at: int| first_zero_at(bytes, at);
        let text = bytes.take(at);
        if at == 0 {
            Ok(None)
        } else if valid_utf8(text) {
            Ok(Some(decode_utf8(text)))
        } else {
            Err((ErrorKind::InvalidData, utf8_error_text(text)))
        }
    } else {
        Err((ErrorKind::InvalidData, "invalid data"@))
    }
}

/// The view of a text that may be missing.
pub open spec fn text_view(text: Option<String>) -> Option<Seq<char>> {
    match text {
        Some(text) => Some(text@),
        None => None,
    }
}

/// Reads the text before the first zero byte of a field. An empty text counts as none.
pub fn str_from_null_terminated_utf8(bytes: &[u8]) -> (result: Result<Option<String>, Error>)
    ensures
        match result {
            Ok(text) => null_terminated(bytes@) == Ok::<_, (ErrorKind, Seq<char>)>(text_view(text)),
            Err(error) => null_terminated(bytes@) == Err::<Option<Seq<char>>, _>(error@),
        },
{
    let mut position: usize = 0;
    while position < bytes.len() && bytes[position] != 0
        invariant
            position <= bytes@.len(),
            forall|i: int| 0 <= i < position ==> bytes@[i] != 0,
        decreases bytes@.len() - position,
    {
        position = position + 1;
    }
    if position == bytes.len() {
        return Err(Error::new(ErrorKind::InvalidData, "invalid data"));
    }
    assert(first_zero_at(bytes@, position as int));
    if position == 0 {
        return Ok(None);
    }
    assert(bytes@.subrange(0, position as int) =~= bytes@.take(position as int));
    match text_from_utf8(slice_subrange(bytes, 0, position)) {
        Ok(text) => Ok(Some(text)),
        Err(message) => Err(Error { kind: ErrorKind::InvalidData, message }),
    }
}

/// The bytes of a text in a field of a fixed size: cut off at the size, or followed by zero bytes.
pub open spec fn text_field(text: Option<Seq<char>>, size: nat) -> Seq<u8> {
    let bytes = match text {
        Some(text) => encode_utf8(text),
        None => Seq::empty(),
    };
    Seq::new(
        size,
        |i: int|
            if i < bytes.len() {
                bytes[i]
            } else {
                0
            },
    )
}

/// Whether a text can be read again from a field of a fixed size: there is room for the zero byte
/// behind it, it has none inside, and it is not empty.
pub open spec fn text_fits(text: Option<Seq<char>>, size: nat) -> bool {
    text matches Some(text) ==> {
        &&& 0 < encode_utf8(text).len() < size
        &&& !encode_utf8(text).contains(0)
    }
}

/// Reading a text from a field as it was written gives the text back.
pub proof fn text_field_round_trip(text: Option<Seq<char>>, size: nat)
    requires
        size > 0,
        text_fits(text, size),
    ensures
        null_terminated(text_field(text, size)) == Ok::<_, (ErrorKind, Seq<char>)>(text),
{
    broadcast use encode_utf8_valid_utf8;
    broadcast use encode_utf8_decode_utf8;

    let field = text_field(text, size);
    match text {
        Some(text) => {
            let bytes = encode_utf8(text);
            let at = bytes.len() as int;
            assert forall|i: int| 0 <= i < at implies field[i] != 0 by {
                assert(bytes.contains(bytes[i]));
            }
            assert(first_zero_at(field, at));
            assert(field.take(at) =~= bytes);
        },
        None => {
            assert(first_zero_at(field, 0));
        },
    }
}

/// A message.
#[derive(Debug)]
pub struct DHCP {
    /// Whether the message comes from a client or from a server.
    pub operation: Operation,
    /// Zero in messages of clients; relay agents count here.
    pub hops: u8,
    /// The number by which a client tells the answers to its requests.
    pub transaction_id: u32,
    /// The seconds since the client began to acquire or renew its address.
    pub secs: u16,
    pub flags: Flags,
    /// The address of the client, where it has one.
    pub client_ip_addr: Option<Ipv4Addr>,
    /// The address that the server offers to the client.
    pub your_ip_addr: Option<Ipv4Addr>,
    /// The address of the next server to use in bootstrap.
    pub next_server_ip_addr: Option<Ipv4Addr>,
    /// The address of the relay agent.
    pub relay_agent_ip_addr: Option<Ipv4Addr>,
    /// The link layer address of the client.
    pub client_hardware_addr: [u8; 16],
    /// The name of the server.
    pub server_hostname: Option<String>,
    /// The name of the boot file.
    pub boot_file_name: Option<String>,
    pub options: DHCPOptions,
}

/// What a message says.
pub struct DHCPView {
    pub operation: Operation,
    pub hops: u8,
    pub transaction_id: u32,
    pub secs: u16,
    pub flags: Flags,
    pub client_ip_addr: Option<Ipv4Addr>,
    pub your_ip_addr: Option<Ipv4Addr>,
    pub next_server_ip_addr: Option<Ipv4Addr>,
    pub relay_agent_ip_addr: Option<Ipv4Addr>,
    pub client_hardware_addr: Seq<u8>,
    pub server_hostname: Option<Seq<char>>,
    pub boot_file_name: Option<Seq<char>>,
    pub options: Seq<OptionView>,
}

impl View for DHCP {
    type V = DHCPView;

    open spec fn view(&self) -> DHCPView {
        DHCPView {
            operation: self.operation,
            hops: self.hops,
            transaction_id: self.transaction_id,
            secs: self.secs,
            flags: self.flags,
            client_ip_addr: self.client_ip_addr,
            your_ip_addr: self.your_ip_addr,
            next_server_ip_addr: self.next_server_ip_addr,
            relay_agent_ip_addr: self.relay_agent_ip_addr,
            client_hardware_addr: self.client_hardware_addr@,
            server_hostname: text_view(self.server_hostname),
            boot_file_name: text_view(self.boot_file_name),
            options: self.options@,
        }
    }
}

/// An address of a message, where zero stands for none.
pub open spec fn optional_address(address: Ipv4Addr) -> Option<Ipv4Addr> {
    if address == Ipv4Addr::unspecified() {
        None
    } else {
        Some(address)
    }
}

/// The octets of an address, or zeros for none.
pub open spec fn optional_octets(address: Option<Ipv4Addr>) -> Seq<u8> {
    match address {
        Some(address) => address.spec_octets(),
        None => be32_bytes(0),
    }
}

/// The mark in front of the options.
pub open spec fn magic_cookie() -> Seq<u8> {
    seq![0x63u8, 0x82u8, 0x53u8, 0x63u8]
}

/// The message that the bytes hold.
pub open spec fn parse_dhcp(bytes: Seq<u8>) -> Result<DHCPView, (ErrorKind, Seq<char>)> {
    if bytes.len() < 240 {
        Err((ErrorKind::UnexpectedEof, "unexpected end of file"@))
    } else if bytes.subrange(236, 240) != magic_cookie() {
        Err((ErrorKind::InvalidData, "Invalid magic cookie"@))
    } else if Operation::decode(bytes[0]) is None {
        Err((ErrorKind::InvalidData, "Invalid BOOTP Operation"@))
    } else if bytes[1] != 1 {
        Err((ErrorKind::InvalidData, "Unsupported Hardware Type"@))
    } else {
        let options = parse_options(bytes.skip(240));
        let overload = first_overload(options);
        let name_field = bytes.subrange(44, 108);
        let file_field = bytes.subrange(108, 236);
        let name_overloaded = overload == Some(OptionsOverload::ServerName) || overload == Some(
            OptionsOverload::Both,
        );
        let file_overloaded = overload == Some(OptionsOverload::File) || overload == Some(
            OptionsOverload::Both,
        );
        let name = if name_overloaded {
            Ok(None)
        } else {
            null_terminated(name_field)
        };
        let file = if file_overloaded {
            Ok(None)
        } else {
            null_terminated(file_field)
        };
        match (parse_flags(be16_at(bytes, 10)), name, file) {
            (Err(error), _, _) => Err(error),
            (_, Err(error), _) => Err(error),
            (_, _, Err(error)) => Err(error),
            (Ok(flags), Ok(server_hostname), Ok(boot_file_name)) => Ok(
                DHCPView {
                    operation: Operation::decode(bytes[0])->0,
                    hops: bytes[3],
                    transaction_id: be32_at(bytes, 4),
                    secs: be16_at(bytes, 8),
                    flags,
                    client_ip_addr: optional_address(ipv4_at(bytes, 12)),
                    your_ip_addr: optional_address(ipv4_at(bytes, 16)),
                    next_server_ip_addr: optional_address(ipv4_at(bytes, 20)),
                    relay_agent_ip_addr: optional_address(ipv4_at(bytes, 24)),
                    client_hardware_addr: bytes.subrange(28, 44),
                    server_hostname,
                    boot_file_name,
                    options: options + (if name_overloaded {
                        parse_options(name_field)
                    } else {
                        Seq::empty()
                    }) + (if file_overloaded {
                        parse_options(file_field)
                    } else {
                        Seq::empty()
                    }),
                },
            ),
        }
    }
}

/// The fields of a message up to its addresses.
pub open spec fn encode_head(message: DHCPView) -> Seq<u8> {
    seq![message.operation.encode(), 1u8, 6u8, message.hops] + be32_bytes(message.transaction_id)
        + be16_bytes(message.secs) + be16_bytes(message.flags.encode())
}

/// The addresses of a message.
pub open spec fn encode_addresses(message: DHCPView) -> Seq<u8> {
    optional_octets(message.client_ip_addr) + optional_octets(message.your_ip_addr)
        + optional_octets(message.next_server_ip_addr) + optional_octets(
        message.relay_agent_ip_addr,
    ) + message.client_hardware_addr
}

/// The bytes of a message.
pub open spec fn encode_dhcp(message: DHCPView) -> Seq<u8> {
    encode_head(message) + encode_addresses(message) + text_field(message.server_hostname, 64)
        + text_field(message.boot_file_name, 128) + magic_cookie() + encode_options(message.options)
}

/// Reads one of the addresses of a message.
fn read_optional_address(bytes: &[u8], at: usize) -> (address: Option<Ipv4Addr>)
    requires
        at + 4 <= bytes@.len(),
    ensures
        address == optional_address(ipv4_at(bytes@, at as int)),
{
    let address = Ipv4Addr::read(bytes, at);
    if address.is_unspecified() {
        None
    } else {
        Some(address)
    }
}

/// Appends one of the addresses of a message.
fn put_optional_address(buffer: &mut BytesMut, address: Option<Ipv4Addr>)
    requires
        has_room(*old(buffer), 4),
    ensures
        bytes_mut_contents(*final(buffer)) == bytes_mut_contents(*old(buffer)) + optional_octets(
            address,
        ),
{
    match address {
        Some(address) => put_slice(buffer, &address.octets()),
        None => put_u32(buffer, 0),
    }
}

/// Appends a text in a field of a fixed size.
fn put_text_field(buffer: &mut BytesMut, text: &Option<String>, size: usize)
    requires
        has_room(*old(buffer), size as nat),
    ensures
        bytes_mut_contents(*final(buffer)) == bytes_mut_contents(*old(buffer)) + text_field(
            text_view(*text),
            size as nat,
        ),
{
    let ghost field = text_field(text_view(*text), size as nat);
    let mut written: usize = 0;
    assert(field.take(0) =~= Seq::<u8>::empty());
    if let Some(text) = text {
        let bytes = text.as_str().as_bytes();
        written = if bytes.len() < size {
            bytes.len()
        } else {
            size
        };
        put_slice(buffer, slice_subrange(bytes, 0, written));
        assert(bytes@.subrange(0, written as int) =~= field.take(written as int));
    }
    while written < size
        invariant
            written <= size,
            has_room(*old(buffer), size as nat),
            field == text_field(text_view(*text), size as nat),
            text is Some ==> written >= encode_utf8(text_view(*text)->0).len() || written == size,
            bytes_mut_contents(*buffer) == bytes_mut_contents(*old(buffer)) + field.take(
                written as int,
            ),
        decreases size - written,
    {
        put_u8(buffer, 0);
        assert(field.take(written + 1) =~= field.take(written as int) + seq![0u8]);
        written = written + 1;
        assert(bytes_mut_contents(*buffer) =~= bytes_mut_contents(*old(buffer)) + field.take(
            written as int,
        ));
    }
    assert(field.take(size as int) =~= field);
}

impl DHCP {
    /// The header and the mark in front of the options.
    pub const MIN_LENGTH: usize = 240;

    /// Reads a message.
    pub fn try_from(value: &[u8]) -> (result: Result<Self, Error>)
        ensures
            match result {
                Ok(message) => parse_dhcp(value@) == Ok::<_, (ErrorKind, Seq<char>)>(message@),
                Err(error) => parse_dhcp(value@) == Err::<DHCPView, _>(error@),
            },
    {
        if value.len() < Self::MIN_LENGTH {
            return Err(Error::new(ErrorKind::UnexpectedEof, "unexpected end of file"));
        }
        let ghost cookie = value@.subrange(236, 240);
        if value[236] != 0x63 || value[237] != 0x82 || value[238] != 0x53 || value[239] != 0x63 {
            assert(cookie[0] == value@[236] && cookie[1] == value@[237] && cookie[2] == value@[238]
                && cookie[3] == value@[239]);
            return Err(Error::new(ErrorKind::InvalidData, "Invalid magic cookie"));
        }
        assert(cookie =~= magic_cookie());
        let operation = match value[0] {
            1 => Operation::BootRequest,
            2 => Operation::BootReply,
            _ => {
                return Err(Error::new(ErrorKind::InvalidData, "Invalid BOOTP Operation"));
            },
        };
        if value[1] != 1u8 {
            return Err(Error::new(ErrorKind::InvalidData, "Unsupported Hardware Type"));
        }
        let flags = match Flags::try_from(read_be16(value, 10)) {
            Ok(flags) => flags,
            Err(error) => {
                return Err(error);
            },
        };
        let client_hardware_addr = [
            value[28],
            value[29],
            value[30],
            value[31],
            value[32],
            value[33],
            value[34],
            value[35],
            value[36],
            value[37],
            value[38],
            value[39],
            value[40],
            value[41],
            value[42],
            value[43],
        ];
        assert(client_hardware_addr@ =~= value@.subrange(28, 44));

        let mut options = DHCPOptions::from(slice_subrange(value, 240, value.len()));
        assert(value@.subrange(240, value@.len() as int) =~= value@.skip(240));
        let ghost own = options@;
        let overload = options.options_overload();

        let name_field = slice_subrange(value, 44, 108);
        let mut server_hostname: Option<String> = None;
        if matches!(overload, Some(OptionsOverload::ServerName) | Some(OptionsOverload::Both)) {
            options.with(DHCPOptions::from(name_field));
        } else {
            match str_from_null_terminated_utf8(name_field) {
                Ok(name) => {
                    server_hostname = name;
                },
                Err(error) => {
                    return Err(error);
                },
            }
            assert(options@ =~= own + Seq::<OptionView>::empty());
        }
        let ghost more = options@;

        let file_field = slice_subrange(value, 108, 236);
        let mut boot_file_name: Option<String> = None;
        if matches!(overload, Some(OptionsOverload::File) | Some(OptionsOverload::Both)) {
            options.with(DHCPOptions::from(file_field));
        } else {
            match str_from_null_terminated_utf8(file_field) {
                Ok(name) => {
                    boot_file_name = name;
                },
                Err(error) => {
                    return Err(error);
                },
            }
            assert(options@ =~= more + Seq::<OptionView>::empty());
        }

        Ok(
            DHCP {
                operation,
                hops: value[3],
                transaction_id: read_be32(value, 4),
                secs: read_be16(value, 8),
                flags,
                client_ip_addr: read_optional_address(value, 12),
                your_ip_addr: read_optional_address(value, 16),
                next_server_ip_addr: read_optional_address(value, 20),
                relay_agent_ip_addr: read_optional_address(value, 24),
                client_hardware_addr,
                server_hostname,
                boot_file_name,
                options,
            },
        )
    }

    /// Appends the fields up to the addresses.
    fn put_head(&self, buffer: &mut BytesMut)
        requires
            has_room(*old(buffer), 12),
        ensures
            bytes_mut_contents(*final(buffer)) == bytes_mut_contents(*old(buffer)) + encode_head(
                self@,
            ),
            encode_head(self@).len() == 12,
    {
        put_u8(buffer, self.operation.code());
        put_u8(buffer, 1);  // Ethernet
        put_u8(buffer, 6);  // Ethernet addresses have six octets.
        put_u8(buffer, self.hops);
        put_u32(buffer, self.transaction_id);
        put_u16(buffer, self.secs);
        put_u16(buffer, self.flags.value());
        assert(bytes_mut_contents(*buffer) =~= bytes_mut_contents(*old(buffer)) + encode_head(
            self@,
        ));
    }

    /// Appends the addresses.
    fn put_addresses(&self, buffer: &mut BytesMut)
        requires
            has_room(*old(buffer), 32),
        ensures
            bytes_mut_contents(*final(buffer)) == bytes_mut_contents(*old(buffer))
                + encode_addresses(self@),
            encode_addresses(self@).len() == 32,
    {
        put_optional_address(buffer, self.client_ip_addr);
        put_optional_address(buffer, self.your_ip_addr);
        put_optional_address(buffer, self.next_server_ip_addr);
        put_optional_address(buffer, self.relay_agent_ip_addr);
        put_slice(buffer, &self.client_hardware_addr);
        assert(bytes_mut_contents(*buffer) =~= bytes_mut_contents(*old(buffer)) + encode_addresses(
            self@,
        ));
    }

    /// The broadcast of a client that looks for servers. `started` is when the client began to
    /// acquire its address.
    pub fn discover(transaction_id: u32, started: Instant, now: Instant, mac_addr: MacAddr) -> (message:
        Self)
        ensures
            message@ == (DHCPView {
                operation: Operation::BootRequest,
                hops: 0,
                transaction_id,
                secs: (nanos_between(started, now) as int / 1_000_000_000 % 65536) as u16,
                flags: Flags { broadcast: false },
                client_ip_addr: None,
                your_ip_addr: None,
                next_server_ip_addr: None,
                relay_agent_ip_addr: None,
                client_hardware_addr: mac_addr.spec_octets() + Seq::new(10, |i: int| 0u8),
                server_hostname: None,
                boot_file_name: None,
                options: seq![
                    (
                        OptionCode::DHCPMessageType,
                        OptionData::MessageType(DHCPMessageType::Discover),
                    ),
                ],
            }),
    {
        let client_hardware_addr = [
            mac_addr.0,
            mac_addr.1,
            mac_addr.2,
            mac_addr.3,
            mac_addr.4,
            mac_addr.5,
            0,
            0,
            0,
            0,
            0,
            0,
            0,
            0,
            0,
            0,
        ];
        assert(client_hardware_addr@ =~= mac_addr.spec_octets() + Seq::new(10, |i: int| 0u8));
        let mut options: Vec<DHCPOption> = Vec::new();
        options.push(DHCPOption::DHCPMessageType(DHCPMessageType::Discover));
        assert(option_views(options@) =~= seq![
            (OptionCode::DHCPMessageType, OptionData::MessageType(DHCPMessageType::Discover)),
        ]);
        DHCP {
            operation: Operation::BootRequest,
            hops: 0,
            transaction_id,
            secs: (now.duration_since(started).as_secs() % 65536) as u16,
            flags: Flags { broadcast: false },
            client_ip_addr: None,
            your_ip_addr: None,
            next_server_ip_addr: None,
            relay_agent_ip_addr: None,
            client_hardware_addr,
            server_hostname: None,
            boot_file_name: None,
            options: DHCPOptions(options),
        }
    }
}

impl WriteToBuffer for DHCP {
    open spec fn encoding(&self) -> Seq<u8> {
        encode_dhcp(self@)
    }

    open spec fn reported(&self) -> nat {
        self.encoding().len()
    }

    open spec fn encodable(&self) -> bool {
        self.options.encodable() && 240 + self.options.encoding().len() <= usize::MAX
    }

    fn encoded_length(&self) -> (length: usize) {
        Self::MIN_LENGTH + self.options.encoded_length()
    }

    fn write_to_buffer(&self, buffer: &mut BytesMut) {
        let ghost start = bytes_mut_contents(*buffer);
        self.put_head(buffer);
        self.put_addresses(buffer);
        put_text_field(buffer, &self.server_hostname, 64);
        put_text_field(buffer, &self.boot_file_name, 128);
        put_slice(buffer, &[0x63, 0x82, 0x53, 0x63]);
        self.options.write_to_buffer(buffer);
        assert(bytes_mut_contents(*buffer) =~= start + self.encoding());
    }
}

/// A message takes 240 bytes, the bytes of its options and the mark of their end, and
/// reading what was written gives the message back: where each option and text can be read again,
/// no address is zero, and a field that holds options holds no text.
pub proof fn dhcp_round_trip(message: DHCPView)
    requires
        message.client_hardware_addr.len() == 16,
        options_presentable(message.options),
        text_fits(message.server_hostname, 64),
        text_fits(message.boot_file_name, 128),
        message.client_ip_addr != Some(Ipv4Addr::unspecified()),
        message.your_ip_addr != Some(Ipv4Addr::unspecified()),
        message.next_server_ip_addr != Some(Ipv4Addr::unspecified()),
        message.relay_agent_ip_addr != Some(Ipv4Addr::unspecified()),
        first_overload(message.options) == Some(OptionsOverload::ServerName) || first_overload(
            message.options,
        ) == Some(OptionsOverload::Both) ==> message.server_hostname is None,
        first_overload(message.options) == Some(OptionsOverload::File) || first_overload(
            message.options,
        ) == Some(OptionsOverload::Both) ==> message.boot_file_name is None,
    ensures
        encode_dhcp(message).len() == 241 + concat_options(message.options).len(),
        parse_dhcp(encode_dhcp(message)) == Ok::<_, (ErrorKind, Seq<char>)>(message),
{
    broadcast use be16_round_trip;
    broadcast use be32_round_trip;
    broadcast use ipv4_round_trip;

    let bytes = encode_dhcp(message);
    let head = encode_head(message);
    let addresses = encode_addresses(message);
    let name_field = text_field(message.server_hostname, 64);
    let file_field = text_field(message.boot_file_name, 128);
    assert(head.len() == 12 && addresses.len() == 32);
    assert(bytes.take(12) =~= head);
    assert(bytes.subrange(12, 44) =~= addresses);
    assert(bytes.subrange(44, 108) =~= name_field);
    assert(bytes.subrange(108, 236) =~= file_field);
    assert(bytes.subrange(236, 240) =~= magic_cookie());
    assert(bytes.skip(240) =~= encode_options(message.options) + Seq::<u8>::empty());
    options_round_trip(message.options, Seq::empty());
    text_field_round_trip(message.server_hostname, 64);
    text_field_round_trip(message.boot_file_name, 128);
    if message.server_hostname is None {
        zeros_hold_no_options(name_field);
    }
    if message.boot_file_name is None {
        zeros_hold_no_options(file_field);
    }
    assert(bytes.subrange(28, 44) =~= message.client_hardware_addr) by {
        assert(addresses.skip(16) =~= message.client_hardware_addr);
        assert(bytes.subrange(28, 44) =~= addresses.skip(16));
    }
    assert forall|i: int| 0 <= i < 12 implies bytes[i] == head[i] by {
        assert(bytes.take(12)[i] == bytes[i]);
    }
    assert forall|i: int| 12 <= i < 44 implies bytes[i] == addresses[i - 12] by {
        assert(bytes.subrange(12, 44)[i - 12] == bytes[i]);
    }
    assert(be32_at(bytes, 4) == message.transaction_id) by {
        let field = be32_bytes(message.transaction_id);
        assert(head[4] == field[0] && head[5] == field[1] && head[6] == field[2] && head[7]
            == field[3]);
    }
    assert(be16_at(bytes, 8) == message.secs) by {
        let field = be16_bytes(message.secs);
        assert(head[8] == field[0] && head[9] == field[1]);
    }
    assert(be16_at(bytes, 10) == message.flags.encode()) by {
        let field = be16_bytes(message.flags.encode());
        assert(head[10] == field[0] && head[11] == field[1]);
    }
    optional_octets_round_trip(message.client_ip_addr);
    optional_octets_round_trip(message.your_ip_addr);
    optional_octets_round_trip(message.next_server_ip_addr);
    optional_octets_round_trip(message.relay_agent_ip_addr);
    assert(ipv4_at(bytes, 12) == ipv4_at(optional_octets(message.client_ip_addr), 0)) by {
        let field = optional_octets(message.client_ip_addr);
        assert(addresses[0] == field[0] && addresses[1] == field[1] && addresses[2] == field[2]
            && addresses[3] == field[3]);
    }
    assert(ipv4_at(bytes, 16) == ipv4_at(optional_octets(message.your_ip_addr), 0)) by {
        let field = optional_octets(message.your_ip_addr);
        assert(addresses[4] == field[0] && addresses[5] == field[1] && addresses[6] == field[2]
            && addresses[7] == field[3]);
    }
    assert(ipv4_at(bytes, 20) == ipv4_at(optional_octets(message.next_server_ip_addr), 0)) by {
        let field = optional_octets(message.next_server_ip_addr);
        assert(addresses[8] == field[0] && addresses[9] == field[1] && addresses[10] == field[2]
            && addresses[11] == field[3]);
    }
    assert(ipv4_at(bytes, 24) == ipv4_at(optional_octets(message.relay_agent_ip_addr), 0)) by {
        let field = optional_octets(message.relay_agent_ip_addr);
        assert(addresses[12] == field[0] && addresses[13] == field[1] && addresses[14] == field[2]
            && addresses[15] == field[3]);
    }
    assert(message.options + Seq::<OptionView>::empty() =~= message.options);
    assert(message.options + Seq::<OptionView>::empty() + Seq::<OptionView>::empty()
        =~= message.options);
}

/// Reading an address as it was written gives the address back, unless it is zero.
proof fn optional_octets_round_trip(address: Option<Ipv4Addr>)
    requires
        address != Some(Ipv4Addr::unspecified()),
    ensures
        optional_octets(address).len() == 4,
        optional_address(ipv4_at(optional_octets(address), 0)) == address,
{
    broadcast use ipv4_round_trip;
    broadcast use be32_round_trip;

}

/// A field of zero bytes holds no options.
proof fn zeros_hold_no_options(bytes: Seq<u8>)
    requires
        forall|i: int| 0 <= i < bytes.len() ==> bytes[i] == 0,
    ensures
        parse_options(bytes) == Seq::<OptionView>::empty(),
    decreases bytes.len(),
{
    if bytes.len() > 0 {
        zeros_hold_no_options(bytes.skip(1));
    }
}

/// A message whose only option is its type can be written, in 244 bytes.
pub proof fn discover_is_encodable(message: DHCP)
    requires
        message@.client_hardware_addr.len() == 16,
        message@.options == seq![
            (OptionCode::DHCPMessageType, OptionData::MessageType(DHCPMessageType::Discover)),
        ],
    ensures
        message.encodable(),
        message.encoding().len() == 244,
{
    broadcast use be16_round_trip;
    broadcast use be32_round_trip;
    broadcast use ipv4_round_trip;

    let options = message@.options;
    assert(options.drop_last() =~= Seq::empty());
    assert(concat_options(options.drop_last()) =~= Seq::<u8>::empty());
    assert(concat_options(options).len() == 3);
    assert forall|i: int| 0 <= i < message.options.0@.len() implies (
    #[trigger] message.options.0@[i]).encodable() by {
        assert(message.options@[i] == options[0]);
    }
}

/// The broadcast of a client that looks for servers can be read as it was meant.
pub proof fn discover_round_trip(message: DHCPView)
    requires
        message.client_hardware_addr.len() == 16,
        message.options == seq![
            (OptionCode::DHCPMessageType, OptionData::MessageType(DHCPMessageType::Discover)),
        ],
        message.server_hostname is None,
        message.boot_file_name is None,
        message.client_ip_addr is None,
        message.your_ip_addr is None,
        message.next_server_ip_addr is None,
        message.relay_agent_ip_addr is None,
    ensures
        parse_dhcp(encode_dhcp(message)) == Ok::<_, (ErrorKind, Seq<char>)>(message),
{
    assert(message.options.skip(1) =~= Seq::empty());
    dhcp_round_trip(message);
}

} // verus!
