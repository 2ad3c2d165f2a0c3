//! Responses and the encoder that writes them to the wire.

use crate::text::{
    decimal, is_digit, lemma_decimal_digits, push_bytes, push_decimal, CR, LF, SPACE,
};
use vstd::prelude::*;
use vstd::string::*;
use vstd::utf8::*;

verus! {

/// A stored value as a response shows it: the key it is stored under, the
/// flags of the client, and the data with their length.
#[derive(Debug, PartialEq, Clone)]
pub struct Value {
    pub name: String,
    pub flags: u16,
    pub byte_count: usize,
    pub data_block: Vec<u8>,
}

/// What a value holds.
pub struct ValueView {
    pub name: Seq<char>,
    pub flags: u16,
    pub byte_count: usize,
    pub data_block: Seq<u8>,
}

impl View for Value {
    type V = ValueView;

    open spec fn view(&self) -> ValueView {
        ValueView {
            name: self.name@,
            flags: self.flags,
            byte_count: self.byte_count,
            data_block: self.data_block@,
        }
    }
}

/// A value with the time at which it expires, if it ever does: nanoseconds on
/// the clock of the store that holds it.
#[derive(Debug, PartialEq, Clone)]
pub struct Entry {
    pub data: Value,
    pub expires_at: Option<u128>,
}

/// What an entry holds.
pub struct EntryView {
    pub data: ValueView,
    pub expires_at: Option<u128>,
}

impl View for Entry {
    type V = EntryView;

    open spec fn view(&self) -> EntryView {
        EntryView { data: self.data@, expires_at: self.expires_at }
    }
}

/// The response to a request.
#[derive(Debug, PartialEq)]
pub enum Resp {
    Stored,
    NotStored,
    End,
    Value(Value),
}

/// What a response says.
pub enum RespView {
    Stored,
    NotStored,
    End,
    Value(ValueView),
}

impl View for Resp {
    type V = RespView;

    open spec fn view(&self) -> RespView {
        match self {
            Resp::Stored => RespView::Stored,
            Resp::NotStored => RespView::NotStored,
            Resp::End => RespView::End,
            Resp::Value(v) => RespView::Value(v@),
        }
    }
}

/// What an optional response says.
pub open spec fn reply_view(reply: Option<Resp>) -> Option<RespView> {
    match reply {
        Some(r) => Some(r@),
        None => None,
    }
}

impl ValueView {
    /// The data are as long as the value says.
    pub open spec fn framed(self) -> bool {
        self.byte_count == self.data_block.len()
    }

    /// The bytes that show the value on the wire: a line with the word
    /// `VALUE`, the key, the flags and the length, then the data and a line
    /// end.
    pub open spec fn wire(self) -> Seq<u8> {
        "VALUE ".spec_bytes() + encode_utf8(self.name) + seq![SPACE] + decimal(self.flags as nat)
            + seq![SPACE] + decimal(self.byte_count as nat) + seq![CR, LF] + self.data_block
            + seq![CR, LF]
    }
}

impl RespView {
    /// The bytes that show the response on the wire.
    pub open spec fn wire(self) -> Seq<u8> {
        match self {
            RespView::Stored => "STORED\r\n".spec_bytes(),
            RespView::NotStored => "NOT_STORED\r\n".spec_bytes(),
            RespView::End => "END\r\n".spec_bytes(),
            RespView::Value(v) => v.wire(),
        }
    }
}

/// The bytes that answer a request: those of the response, and none where the
/// response is withheld.
pub open spec fn reply_wire(reply: Option<RespView>) -> Seq<u8> {
    match reply {
        Some(r) => r.wire(),
        None => Seq::empty(),
    }
}

/// The text that `String::from_utf8_lossy` makes of `bytes`.
pub uninterp spec fn utf8_lossy(bytes: Seq<u8>) -> Seq<char>;

/// Calls `String::from_utf8_lossy` and keeps the text it returns. The
/// contract names that text, and says what the documentation of the function
/// says of bytes that are valid UTF-8: the text is the one they encode. Of
/// other bytes it says only that the text depends on the bytes alone.
#[verifier::external_body]
fn lossy_text(bytes: &[u8]) -> (text: String)
    ensures
        text@ == utf8_lossy(bytes@),
        valid_utf8(bytes@) ==> text@ == decode_utf8(bytes@),
{
    String::from_utf8_lossy(bytes).into_owned()
}

impl Value {
    /// Encodes the value for the wire.
    pub fn to_bytes(&self) -> (out: Vec<u8>)
        ensures
            out@ == self@.wire(),
    {
        let mut out: Vec<u8> = Vec::new();
        push_bytes(&mut out, "VALUE ".as_bytes());
        push_bytes(&mut out, self.name.as_str().as_bytes());
        out.push(SPACE);
        push_decimal(&mut out, self.flags as u64);
        out.push(SPACE);
        push_decimal(&mut out, self.byte_count as u64);
        out.push(CR);
        out.push(LF);
        push_bytes(&mut out, self.data_block.as_slice());
        out.push(CR);
        out.push(LF);
        assert(out@ =~= self@.wire());
        out
    }

    /// The wire form of the value as text. Data that are valid UTF-8 appear
    /// as they are; of other data the text is what `String::from_utf8_lossy`
    /// makes of the wire form.
    pub fn to_string(&self) -> (text: String)
        ensures
            text@ == utf8_lossy(self@.wire()),
            valid_utf8(self.data_block@) ==> encode_utf8(text@) == self@.wire(),
    {
        let bytes = self.to_bytes();
        proof {
            if valid_utf8(self.data_block@) {
                lemma_value_wire_is_text(self@);
            }
        }
        lossy_text(bytes.as_slice())
    }
}

impl Resp {
    /// Encodes the response for the wire.
    pub fn to_bytes(&self) -> (out: Vec<u8>)
        ensures
            out@ == self@.wire(),
    {
        match self {
            Resp::Stored => "STORED\r\n".as_bytes_vec(),
            Resp::NotStored => "NOT_STORED\r\n".as_bytes_vec(),
            Resp::End => "END\r\n".as_bytes_vec(),
            Resp::Value(v) => v.to_bytes(),
        }
    }

    /// The wire form of the response as text, as `Value::to_string` gives it
    /// for a value.
    pub fn to_string(&self) -> (text: String)
        ensures
            text@ == utf8_lossy(self@.wire()),
            (self matches Resp::Value(v) ==> valid_utf8(v.data_block@)) ==> encode_utf8(text@)
                == self@.wire(),
    {
        broadcast use {encode_utf8_valid_utf8, decode_utf8_encode_utf8};

        match self {
            Resp::Value(v) => v.to_string(),
            _ => {
                let bytes = self.to_bytes();
                lossy_text(bytes.as_slice())
            },
        }
    }
}

/// Encodes the answer to a request: the response, or nothing where it is
/// withheld.
pub fn encode_reply(reply: &Option<Resp>) -> (out: Vec<u8>)
    ensures
        out@ == reply_wire(reply_view(*reply)),
{
    match reply {
        Some(r) => r.to_bytes(),
        None => Vec::new(),
    }
}

/// Bytes below 128 are valid UTF-8.
pub proof fn lemma_ascii_is_valid(bytes: Seq<u8>)
    requires
        forall|i: int| 0 <= i < bytes.len() ==> #[trigger] bytes[i] <= 0x7f,
    ensures
        valid_utf8(bytes),
{
    assert(bytes.subrange(0, 0) =~= Seq::<u8>::empty());
    assert(partial_valid_utf8(bytes, 0));
    assert forall|i: int| 0 <= 0 <= i < bytes.len() <= bytes.len() implies #[trigger] is_leading_byte_width_1(bytes[i]) by {
        assert(bytes[i] <= 0x7f);
    }
    partial_valid_utf8_extend_ascii_block(bytes, 0, bytes.len() as int);
    assert(bytes.subrange(0, bytes.len() as int) =~= bytes);
}

/// The digits of a number are valid UTF-8.
pub proof fn lemma_decimal_is_valid(n: nat)
    ensures
        valid_utf8(decimal(n)),
{
    lemma_decimal_digits(n);
    assert forall|i: int| 0 <= i < decimal(n).len() implies #[trigger] decimal(n)[i] <= 0x7f by {
        assert(is_digit(decimal(n)[i]));
    }
    lemma_ascii_is_valid(decimal(n));
}

/// The wire form of a value is valid UTF-8 where its data are, so it is the
/// encoding of the text that it decodes to.
pub proof fn lemma_value_wire_is_text(v: ValueView)
    requires
        valid_utf8(v.data_block),
    ensures
        valid_utf8(v.wire()),
        encode_utf8(decode_utf8(v.wire())) == v.wire(),
{
    broadcast use {encode_utf8_valid_utf8, valid_utf8_concat, decode_utf8_encode_utf8};

    lemma_decimal_is_valid(v.flags as nat);
    lemma_decimal_is_valid(v.byte_count as nat);
    lemma_ascii_is_valid(seq![SPACE]);
    lemma_ascii_is_valid(seq![CR, LF]);
    let a = "VALUE ".spec_bytes() + encode_utf8(v.name);
    let b = a + seq![SPACE];
    let c = b + decimal(v.flags as nat);
    let d = c + seq![SPACE];
    let e = d + decimal(v.byte_count as nat);
    let f = e + seq![CR, LF];
    let g = f + v.data_block;
    assert(valid_utf8(a));
    assert(valid_utf8(b));
    assert(valid_utf8(c));
    assert(valid_utf8(d));
    assert(valid_utf8(e));
    assert(valid_utf8(f));
    assert(valid_utf8(g));
    assert(valid_utf8(g + seq![CR, LF]));
}

} // verus!
