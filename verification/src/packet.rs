//! DHCP messages, as the wire codec reads and writes them.

use dhcproto::v4::{DhcpOption, Message};
use dhcproto::{Decodable, Decoder, Encodable, Encoder};
use vstd::prelude::*;

verus! {

#[verifier::external_type_specification]
#[verifier::external_body]
pub struct ExMessage(dhcproto::v4::Message);

/// What `Message::decode` makes of a datagram: the message, or `None` where
/// the bytes are not a DHCP message.
pub uninterp spec fn dhcp_decoded(bytes: Seq<u8>) -> Option<Message>;

/// The bytes that `Message::encode` writes for a message.
pub uninterp spec fn dhcp_encoding(message: Message) -> Seq<u8>;

/// Where the options of a datagram begin: after the fixed fields and the
/// magic cookie.
pub const OPTIONS_OFFSET: usize = 240;

/// The option code that ends the options.
pub const OPTION_END: u8 = 255;

/// The option code of a padding byte.
pub const OPTION_PAD: u8 = 0;

/// Whether `total` bytes of value are a length that the option `code` can
/// have. A few options have a fixed or a least length: rapid commit (80) has
/// no value, the client name (81) at least three bytes, the client network
/// interface (94) three, and the four times of a bulk lease query (152 to 155)
/// four each.
pub open spec fn length_fits(code: u8, total: nat) -> bool {
    if code == 80 {
        total == 0
    } else if code == 81 {
        total >= 3
    } else if code == 94 {
        total == 3
    } else if 152 <= code <= 155 {
        total == 4
    } else {
        true
    }
}

/// Whether a whole piece of the option `code` stands at `at`: the code, a
/// length byte, and as many bytes of value as the length says.
pub open spec fn piece_at(bytes: Seq<u8>, at: int, code: u8) -> bool {
    0 <= at && at + 1 < bytes.len() && bytes[at] == code && at + 2 + bytes[at + 1] <= bytes.len()
}

/// Where the run that begins at `at` ends. A run is made of the whole pieces
/// of one code that follow each other: they are the pieces of one long option.
pub open spec fn run_end(bytes: Seq<u8>, at: int, code: u8) -> int
    decreases bytes.len() - at,
{
    if piece_at(bytes, at, code) {
        run_end(bytes, at + 2 + bytes[at + 1], code)
    } else {
        at
    }
}

/// The length of the long option that the run beginning at `at` makes: the
/// lengths of its pieces, added up.
pub open spec fn run_total(bytes: Seq<u8>, at: int, code: u8) -> nat
    decreases bytes.len() - at,
{
    if piece_at(bytes, at, code) {
        bytes[at + 1] as nat + run_total(bytes, at + 2 + bytes[at + 1], code)
    } else {
        0
    }
}

/// The option whose length the codec measures when it reads one option at
/// `at`, with that length. There is none where the datagram has ended, where
/// a padding byte or the end code stands, where the first piece is cut off,
/// and where the run is followed by a cut-off piece of its own code: in the
/// last two cases the codec reports the cut-off piece and reads no option.
pub open spec fn measured_run(bytes: Seq<u8>, at: int) -> Option<(u8, nat)> {
    if at < 0 || at >= bytes.len() {
        None
    } else if bytes[at] == OPTION_PAD || bytes[at] == OPTION_END || !piece_at(
        bytes,
        at,
        bytes[at],
    ) {
        None
    } else {
        let code = bytes[at];
        let end = run_end(bytes, at, code);
        if end < bytes.len() && bytes[end] == code {
            None
        } else {
            Some((code, run_total(bytes, at, code)))
        }
    }
}

/// Whether the option that the codec measures at `at`, if it measures one,
/// has a length that fits its code.
pub open spec fn run_fits_at(bytes: Seq<u8>, at: int) -> bool {
    match measured_run(bytes, at) {
        Some((code, total)) => length_fits(code, total),
        None => true,
    }
}

/// Whether `DhcpOption::decode`, on the bytes of a datagram from `at` on,
/// reads an option.
pub uninterp spec fn dhcp_option_reads(bytes: Seq<u8>, at: int) -> bool;

/// What `DhcpOptions::iter` hands out on the options of a message, with each
/// option told by its kind: for a status option of a bulk lease query the
/// bytes of its text, for any other option `None`. The options come in the
/// order of the codes that they are held under.
pub uninterp spec fn status_texts(message: Message) -> Seq<Option<Seq<u8>>>;

/// Whether the codec, reading the options from `at` on, measures only options
/// whose lengths fit their codes. The codec reads option after option and
/// stops at the end code, at the end of the datagram and at the first option
/// that it fails to read; what stands after that is never measured.
pub open spec fn options_fit_from(bytes: Seq<u8>, at: int) -> bool
    decreases bytes.len() - at,
{
    if at < 0 || at >= bytes.len() {
        true
    } else if bytes[at] == OPTION_END {
        true
    } else if bytes[at] == OPTION_PAD {
        options_fit_from(bytes, at + 1)
    } else {
        match measured_run(bytes, at) {
            None => true,
            Some((code, total)) => if !length_fits(code, total) {
                false
            } else if !dhcp_option_reads(bytes, at) {
                true
            } else if at < run_end(bytes, at, code) <= bytes.len() {
                options_fit_from(bytes, run_end(bytes, at, code))
            } else {
                true
            },
        }
    }
}

/// Whether the codec can read the datagram: it measures no option whose
/// length does not fit its code. A datagram too short to hold the fixed
/// fields is refused by the codec before it looks at any option.
pub open spec fn options_fit(bytes: Seq<u8>) -> bool {
    options_fit_from(bytes, OPTIONS_OFFSET as int)
}

/// What a datagram is read as: the message that the codec makes of it, or
/// `None` where the codec refuses the bytes or cannot read them.
pub open spec fn message_of(bytes: Seq<u8>) -> Option<Message> {
    if options_fit(bytes) {
        dhcp_decoded(bytes)
    } else {
        None
    }
}

/// Whether the codec can write an option, given the text of the option if it
/// is a status option. It cannot where that text is one byte short of a
/// multiple of 256 bytes: the length byte of the option, the text's length
/// and one, then does not come out.
pub open spec fn text_writable(text: Option<Seq<u8>>) -> bool {
    match text {
        Some(t) => t.len() % 256 != 255,
        None => true,
    }
}

/// Whether the codec can write each of the options that `texts` tells of.
pub open spec fn texts_writable(texts: Seq<Option<Seq<u8>>>) -> bool {
    forall|i: int| 0 <= i < texts.len() ==> text_writable(#[trigger] texts[i])
}

/// Whether the codec can write the message: whether it can write every
/// option that the message holds, under whatever code the option is held.
pub open spec fn writable(message: Message) -> bool {
    texts_writable(status_texts(message))
}

/// The texts as plain values.
pub open spec fn text_views(texts: Seq<Option<Vec<u8>>>) -> Seq<Option<Seq<u8>>> {
    Seq::new(
        texts.len(),
        |i: int|
            match texts[i] {
                Some(t) => Some(t@),
                None => None,
            },
    )
}

/// A decoded DHCP message on its way through the relay.
pub struct DHCPMessage(Message);

impl View for DHCPMessage {
    type V = Seq<u8>;

    /// The bytes that the message is on the wire.
    closed spec fn view(&self) -> Seq<u8> {
        dhcp_encoding(self.0)
    }
}

impl DHCPMessage {
    /// The message that the codec works on.
    pub closed spec fn message(&self) -> Message {
        self.0
    }

    /// A copy of the message, made by `Message::clone`: it is the same
    /// message.
    #[verifier::external_body]
    pub fn raw(&self) -> (message: Message)
        ensures
            message == self.message(),
    {
        self.0.clone()
    }

    /// Reads a datagram as a DHCP message. `None` says that the bytes are not
    /// one; such a datagram is passed over, and the relay goes on.
    pub fn decode(datagram: &[u8]) -> (read: Option<DHCPMessage>)
        ensures
            match read {
                Some(m) => message_of(datagram@) == Some(m.message()),
                None => message_of(datagram@) is None,
            },
    {
        if !check_options(datagram) {
            return None;
        }
        match decode_message(datagram) {
            Some(message) => Some(DHCPMessage(message)),
            None => None,
        }
    }

    /// Writes the message as the bytes that go on the wire. `None` says that
    /// the codec cannot write this message.
    pub fn encode(&self) -> (bytes: Option<Vec<u8>>)
        ensures
            match bytes {
                Some(b) => writable(self.message()) && b@ == self@ && b@ == dhcp_encoding(
                    self.message(),
                ),
                None => !writable(self.message()),
            },
    {
        if !can_write(&self.0) {
            return None;
        }
        Some(encode_message(&self.0))
    }
}

impl From<Message> for DHCPMessage {
    fn from(value: Message) -> (made: DHCPMessage)
        ensures
            made.message() == value,
    {
        DHCPMessage(value)
    }
}

impl vstd::std_specs::convert::FromSpecImpl<Message> for DHCPMessage {
    open spec fn obeys_from_spec() -> bool {
        true
    }

    closed spec fn from_spec(v: Message) -> DHCPMessage {
        DHCPMessage(v)
    }
}

/// Tells whether a whole piece of the option `code` stands at `at`.
fn whole_piece(datagram: &[u8], at: usize, code: u8) -> (whole: bool)
    ensures
        whole == piece_at(datagram@, at as int, code),
{
    let n: usize = datagram.len();
    if at >= n || n - at < 2 {
        return false;
    }
    if datagram[at] != code {
        return false;
    }
    let len: usize = datagram[at + 1] as usize;
    n - at - 2 >= len
}

/// Tells whether the codec can read the datagram: whether it measures no
/// option whose length does not fit its code.
pub fn check_options(datagram: &[u8]) -> (fit: bool)
    ensures
        fit == options_fit(datagram@),
{
    let n: usize = datagram.len();
    let mut at: usize = OPTIONS_OFFSET;
    while at < n
        invariant
            n == datagram@.len(),
            OPTIONS_OFFSET <= at,
            options_fit(datagram@) == options_fit_from(datagram@, at as int),
        decreases n - at,
    {
        let code: u8 = datagram[at];
        if code == OPTION_END {
            return true;
        }
        if code == OPTION_PAD {
            at = at + 1;
        } else {
            if !whole_piece(datagram, at, code) {
                return true;
            }
            let mut end: usize = at;
            let mut total: usize = 0;
            while whole_piece(datagram, end, code)
                invariant
                    n == datagram@.len(),
                    at <= end <= n,
                    total <= end,
                    run_end(datagram@, at as int, code) == run_end(datagram@, end as int, code),
                    run_total(datagram@, at as int, code) == total + run_total(
                        datagram@,
                        end as int,
                        code,
                    ),
                decreases n - end,
            {
                let len: usize = datagram[end + 1] as usize;
                total = total + len;
                end = end + 2 + len;
            }
            assert(run_end(datagram@, at as int, code) == end);
            assert(run_total(datagram@, at as int, code) == total);
            assert(at < end);
            if end < n && datagram[end] == code {
                return true;
            }
            if !fits(code, total) {
                return false;
            }
            if !option_reads(datagram, at) {
                return true;
            }
            at = end;
        }
    }
    true
}

/// Tells whether `total` bytes of value are a length that the option `code`
/// can have.
fn fits(code: u8, total: usize) -> (fit: bool)
    ensures
        fit == length_fits(code, total as nat),
{
    if code == 80 {
        total == 0
    } else if code == 81 {
        total >= 3
    } else if code == 94 {
        total == 3
    } else if 152 <= code && code <= 155 {
        total == 4
    } else {
        true
    }
}

/// `DhcpOption::decode` on a `Decoder` over the datagram from `at` on: whether
/// it reads an option. It gathers the pieces of one option and reads their
/// value by the option's code; the result depends on those bytes alone. The
/// codec asserts the lengths of a few options as it reads them, which is why
/// it is only called where the option it measures has a length that fits.
#[verifier::external_body]
fn option_reads(datagram: &[u8], at: usize) -> (reads: bool)
    requires
        at <= datagram@.len(),
        run_fits_at(datagram@, at as int),
    ensures
        reads == dhcp_option_reads(datagram@, at as int),
{
    DhcpOption::decode(&mut Decoder::new(&datagram[at..])).is_ok()
}

/// `Message::decode` on a `Decoder` over the whole datagram. It reads the
/// fixed fields and then the options; where the fixed fields are cut off it
/// returns an error, which becomes `None` here. The result depends on the
/// bytes alone. The codec asserts the lengths of a few options as it reads
/// them, which is why it is only handed datagrams in which it measures no
/// option of another length.
#[verifier::external_body]
fn decode_message(bytes: &[u8]) -> (read: Option<Message>)
    requires
        options_fit(bytes@),
    ensures
        read == dhcp_decoded(bytes@),
{
    Message::decode(&mut Decoder::new(bytes)).ok()
}

/// `DhcpOptions::iter` on what `Message::opts` gives: every option that the
/// message holds, each told by its kind. A status option of a bulk lease
/// query is handed out as the bytes of its text, any other option as `None`.
#[verifier::external_body]
fn held_status_texts(message: &Message) -> (texts: Vec<Option<Vec<u8>>>)
    ensures
        text_views(texts@) == status_texts(*message),
{
    message
        .opts()
        .iter()
        .map(|(_, option)| match option {
            DhcpOption::BulkLeaseQueryStatusCode(_, text) => Some(text.as_bytes().to_vec()),
            _ => None,
        })
        .collect()
}

/// Tells whether the codec can write each of the options that `texts` tells
/// of: whether no status text is one byte short of a multiple of 256 bytes.
pub fn can_write_texts(texts: &Vec<Option<Vec<u8>>>) -> (can: bool)
    ensures
        can == texts_writable(text_views(texts@)),
{
    let mut i: usize = 0;
    while i < texts.len()
        invariant
            i <= texts@.len(),
            forall|j: int| 0 <= j < i ==> text_writable(#[trigger] text_views(texts@)[j]),
        decreases texts@.len() - i,
    {
        match &texts[i] {
            Some(text) => {
                if text.len() % 256 == 255 {
                    assert(!text_writable(text_views(texts@)[i as int]));
                    return false;
                }
            },
            None => {},
        }
        i = i + 1;
    }
    true
}

/// Tells whether the codec can write the message.
fn can_write(message: &Message) -> (can: bool)
    ensures
        can == writable(*message),
{
    let texts = held_status_texts(message);
    can_write_texts(&texts)
}

/// `Message::encode` on an `Encoder` over an empty buffer; what the buffer
/// holds afterwards is handed back, whether or not the call reports an error.
/// The message's options are kept in the order of the codes that they are
/// held under, so the bytes depend on the message alone. The codec writes
/// every option that the message holds, and computes the length byte of a
/// status option as the text's length and one within a byte, which is why it
/// is only handed messages in which that comes out for every such option.
#[verifier::external_body]
fn encode_message(message: &Message) -> (bytes: Vec<u8>)
    requires
        writable(*message),
    ensures
        bytes@ == dhcp_encoding(*message),
{
    let mut buf = Vec::new();
    let mut e = Encoder::new(&mut buf);
    let _ = message.encode(&mut e);
    buf
}

} // verus!
