//! Requests and the parser that reads them off the wire.
//!
//! A request is a command line that ends in a carriage return and a line
//! feed, followed for the storing commands by a block of data. The words of
//! the command line are separated by blanks.

use crate::error::ParseError;
use crate::strings::{lemma_boundaries_at_ascii, same_text, substring};
use crate::text::{
    find_line_end, find_words, is_blank, lemma_first_crlf, lemma_spans_from, line_end, number,
    read_number, spans, spans_of, words,
};
use vstd::prelude::*;
use vstd::slice::{slice_subrange, slice_to_vec};
use vstd::string::*;
use vstd::utf8::*;

verus! {

/// A storing command: `set`, `add`, `replace`, `append` or `prepend`.
#[derive(Debug, PartialEq)]
pub struct Common {
    pub name: String,
    pub key: String,
    pub flags: u16,
    pub exptime: u64,
    pub byte_count: usize,
    pub no_reply: bool,
    pub data_block: Vec<u8>,
}

/// What a storing command says.
pub struct CommonView {
    pub name: Seq<char>,
    pub key: Seq<char>,
    pub flags: u16,
    pub exptime: u64,
    pub byte_count: usize,
    pub no_reply: bool,
    pub data_block: Seq<u8>,
}

impl View for Common {
    type V = CommonView;

    open spec fn view(&self) -> CommonView {
        CommonView {
            name: self.name@,
            key: self.key@,
            flags: self.flags,
            exptime: self.exptime,
            byte_count: self.byte_count,
            no_reply: self.no_reply,
            data_block: self.data_block@,
        }
    }
}

/// A fetching command.
#[derive(Debug, PartialEq)]
pub struct Get {
    pub name: String,
    pub key: String,
}

/// What a fetching command says.
pub struct GetView {
    pub name: Seq<char>,
    pub key: Seq<char>,
}

impl View for Get {
    type V = GetView;

    open spec fn view(&self) -> GetView {
        GetView { name: self.name@, key: self.key@ }
    }
}

/// A request, by its command.
#[derive(Debug, PartialEq)]
pub enum Req {
    /// The `set` command, which stores without condition.
    Put(Common),
    Get(Get),
    Add(Common),
    Replace(Common),
    Append(Common),
    Prepend(Common),
}

/// What a request says.
pub enum ReqView {
    Put(CommonView),
    Get(GetView),
    Add(CommonView),
    Replace(CommonView),
    Append(CommonView),
    Prepend(CommonView),
}

impl View for Req {
    type V = ReqView;

    open spec fn view(&self) -> ReqView {
        match self {
            Req::Put(c) => ReqView::Put(c@),
            Req::Get(g) => ReqView::Get(g@),
            Req::Add(c) => ReqView::Add(c@),
            Req::Replace(c) => ReqView::Replace(c@),
            Req::Append(c) => ReqView::Append(c@),
            Req::Prepend(c) => ReqView::Prepend(c@),
        }
    }
}

impl ReqView {
    /// The key that the request is about.
    pub open spec fn key(self) -> Seq<char> {
        match self {
            ReqView::Get(g) => g.key,
            ReqView::Put(c) => c.key,
            ReqView::Add(c) => c.key,
            ReqView::Replace(c) => c.key,
            ReqView::Append(c) => c.key,
            ReqView::Prepend(c) => c.key,
        }
    }

    /// The request asks that no response be sent. Only a storing command can.
    pub open spec fn silent(self) -> bool {
        match self {
            ReqView::Get(_) => false,
            ReqView::Put(c) => c.no_reply,
            ReqView::Add(c) => c.no_reply,
            ReqView::Replace(c) => c.no_reply,
            ReqView::Append(c) => c.no_reply,
            ReqView::Prepend(c) => c.no_reply,
        }
    }
}

/// The command line of a request: what stands before the first line end.
pub open spec fn command_line(s: Seq<u8>) -> Seq<u8> {
    s.subrange(0, line_end(s).unwrap())
}

/// What follows the line end of the command line.
pub open spec fn after_line(s: Seq<u8>) -> Seq<u8> {
    s.subrange(line_end(s).unwrap() + 2, s.len() as int)
}

/// What a storing request says, or why it says nothing.
///
/// The command line holds a name, a key, the flags, the time to live in
/// seconds and the length of the data, in this order, and after them at most
/// the word `noreply`. The data are the bytes right after the command line,
/// as many as the length says; what follows them is not read. The name is
/// kept as it is written: which names are commands is for `parse_req` to say.
pub open spec fn parse_common(s: Seq<u8>) -> Result<CommonView, ParseError> {
    if line_end(s) is None {
        Err(ParseError::UnterminatedLine)
    } else {
        let w = words(command_line(s));
        let block = after_line(s);
        if w.len() < 5 || w.len() > 6 || (w.len() == 6 && decode_utf8(w[5]) != "noreply"@) {
            Err(ParseError::WrongArity)
        } else {
            let flags = number(w[2], u16::MAX as nat);
            let exptime = number(w[3], u64::MAX as nat);
            let count = number(w[4], usize::MAX as nat);
            if flags is None || exptime is None || count is None {
                Err(ParseError::InvalidNumber)
            } else if block.len() < count.unwrap() {
                Err(ParseError::TruncatedData)
            } else {
                Ok(
                    CommonView {
                        name: decode_utf8(w[0]),
                        key: decode_utf8(w[1]),
                        flags: flags.unwrap() as u16,
                        exptime: exptime.unwrap() as u64,
                        byte_count: count.unwrap() as usize,
                        no_reply: w.len() == 6,
                        data_block: block.subrange(0, count.unwrap() as int),
                    },
                )
            }
        }
    }
}

/// What a fetching request says, or why it says nothing: its command line
/// holds a name and a key, and nothing else.
pub open spec fn parse_get(s: Seq<u8>) -> Result<GetView, ParseError> {
    if line_end(s) is None {
        Err(ParseError::UnterminatedLine)
    } else {
        let w = words(command_line(s));
        if w.len() != 2 {
            Err(ParseError::WrongArity)
        } else {
            Ok(GetView { name: decode_utf8(w[0]), key: decode_utf8(w[1]) })
        }
    }
}

/// What a request says, or why it says nothing. The first word of the
/// command line names the command, and the rest is read as that command asks.
pub open spec fn parse_req(s: Seq<u8>) -> Result<ReqView, ParseError> {
    if line_end(s) is None {
        Err(ParseError::UnterminatedLine)
    } else if words(command_line(s)).len() == 0 {
        Err(ParseError::UnknownCommand)
    } else {
        let name = decode_utf8(words(command_line(s))[0]);
        if name == "get"@ {
            match parse_get(s) {
                Ok(g) => Ok(ReqView::Get(g)),
                Err(e) => Err(e),
            }
        } else if name == "set"@ {
            match parse_common(s) {
                Ok(c) => Ok(ReqView::Put(c)),
                Err(e) => Err(e),
            }
        } else if name == "add"@ {
            match parse_common(s) {
                Ok(c) => Ok(ReqView::Add(c)),
                Err(e) => Err(e),
            }
        } else if name == "replace"@ {
            match parse_common(s) {
                Ok(c) => Ok(ReqView::Replace(c)),
                Err(e) => Err(e),
            }
        } else if name == "append"@ {
            match parse_common(s) {
                Ok(c) => Ok(ReqView::Append(c)),
                Err(e) => Err(e),
            }
        } else if name == "prepend"@ {
            match parse_common(s) {
                Ok(c) => Ok(ReqView::Prepend(c)),
                Err(e) => Err(e),
            }
        } else {
            Err(ParseError::UnknownCommand)
        }
    }
}

/// The command line of `data`, cut into words: where the line ends and where
/// its words lie, or nothing where no line end closes it.
fn split_line(data: &str) -> (found: Option<(usize, Vec<(usize, usize)>)>)
    ensures
        match found {
            Some((eol, at)) => line_end(data.spec_bytes()) == Some(eol as int) && spans_of(at@)
                == spans(command_line(data.spec_bytes())),
            None => line_end(data.spec_bytes()) is None,
        },
{
    let bytes = data.as_bytes();
    match find_line_end(bytes) {
        None => None,
        Some(eol) => {
            proof {
                lemma_first_crlf(bytes@, 0);
            }
            let at = find_words(bytes, eol);
            Some((eol, at))
        },
    }
}

/// Where the `k`-th word of a command line lies in the request: before the
/// line end, between two character boundaries.
proof fn lemma_word_at(bytes: Seq<u8>, eol: int, at: Seq<(usize, usize)>, k: int)
    requires
        valid_utf8(bytes),
        line_end(bytes) == Some(eol),
        spans_of(at) == spans(command_line(bytes)),
        0 <= k < at.len(),
    ensures
        at[k].0 <= at[k].1 <= eol < bytes.len(),
        bytes.subrange(at[k].0 as int, at[k].1 as int) == words(command_line(bytes))[k],
        is_char_boundary(bytes, at[k].0 as int),
        is_char_boundary(bytes, at[k].1 as int),
{
    let line = command_line(bytes);
    let (a, b) = at[k];
    lemma_first_crlf(bytes, 0);
    lemma_spans_from(line, 0);
    assert(spans_of(at)[k] == spans(line)[k]);
    assert(spans(line)[k] == (a as int, b as int));
    if a > 0 {
        assert(line[a - 1] == bytes[a - 1]);
        lemma_boundaries_at_ascii(bytes, a - 1);
    }
    if b < line.len() {
        assert(line[b as int] == bytes[b as int]);
    }
    lemma_boundaries_at_ascii(bytes, b as int);
    assert(line.subrange(a as int, b as int) =~= bytes.subrange(a as int, b as int));
}

/// The `k`-th word of the command line of `data`, as text.
fn word<'a>(data: &'a str, eol: usize, at: &Vec<(usize, usize)>, k: usize) -> (w: &'a str)
    requires
        line_end(data.spec_bytes()) == Some(eol as int),
        spans_of(at@) == spans(command_line(data.spec_bytes())),
        k < at@.len(),
    ensures
        w@ == decode_utf8(words(command_line(data.spec_bytes()))[k as int]),
{
    broadcast use encode_utf8_valid_utf8;

    proof {
        lemma_word_at(data.spec_bytes(), eol as int, at@, k as int);
    }
    substring(data, at[k].0, at[k].1)
}

impl Common {
    /// Reads a storing request.
    pub fn from(data: &str) -> (result: Result<Common, ParseError>)
        ensures
            match result {
                Ok(c) => parse_common(data.spec_bytes()) == Ok::<CommonView, ParseError>(c@),
                Err(e) => parse_common(data.spec_bytes()) == Err::<CommonView, ParseError>(e),
            },
            result matches Ok(c) ==> c.byte_count == c.data_block@.len(),
    {
        let bytes = data.as_bytes();
        let (eol, at) = match split_line(data) {
            None => { return Err(ParseError::UnterminatedLine); },
            Some(found) => found,
        };
        proof {
            lemma_first_crlf(bytes@, 0);
        }
        let len = bytes.len();
        assert(eol + 2 <= len);
        if at.len() < 5 || at.len() > 6 {
            return Err(ParseError::WrongArity);
        }
        if at.len() == 6 && !same_text(word(data, eol, &at, 5), "noreply") {
            return Err(ParseError::WrongArity);
        }
        let name = word(data, eol, &at, 0);
        let key = word(data, eol, &at, 1);
        proof {
            broadcast use encode_utf8_valid_utf8;

            lemma_word_at(bytes@, eol as int, at@, 2);
            lemma_word_at(bytes@, eol as int, at@, 3);
            lemma_word_at(bytes@, eol as int, at@, 4);
        }
        let flags = read_number(bytes, at[2].0, at[2].1, 0xffff);
        let exptime = read_number(bytes, at[3].0, at[3].1, u64::MAX);
        let count = read_number(bytes, at[4].0, at[4].1, usize::MAX as u64);
        match (flags, exptime, count) {
            (Some(flags), Some(exptime), Some(count)) => {
                let from = eol + 2;
                if count > (len - from) as u64 {
                    return Err(ParseError::TruncatedData);
                }
                let count = count as usize;
                let block = slice_subrange(bytes, from, from + count);
                assert(block@ =~= after_line(bytes@).subrange(0, count as int));
                Ok(
                    Common {
                        name: name.to_owned(),
                        key: key.to_owned(),
                        flags: flags as u16,
                        exptime,
                        byte_count: count,
                        no_reply: at.len() == 6,
                        data_block: slice_to_vec(block),
                    },
                )
            },
            _ => Err(ParseError::InvalidNumber),
        }
    }
}

impl Get {
    /// Reads a fetching request.
    pub fn from(data: &str) -> (result: Result<Get, ParseError>)
        ensures
            match result {
                Ok(g) => parse_get(data.spec_bytes()) == Ok::<GetView, ParseError>(g@),
                Err(e) => parse_get(data.spec_bytes()) == Err::<GetView, ParseError>(e),
            },
    {
        let (eol, at) = match split_line(data) {
            None => { return Err(ParseError::UnterminatedLine); },
            Some(found) => found,
        };
        if at.len() != 2 {
            return Err(ParseError::WrongArity);
        }
        let name = word(data, eol, &at, 0);
        let key = word(data, eol, &at, 1);
        Ok(Get { name: name.to_owned(), key: key.to_owned() })
    }
}

impl Req {
    /// Reads a request.
    pub fn from(data: &str) -> (result: Result<Req, ParseError>)
        ensures
            match result {
                Ok(r) => parse_req(data.spec_bytes()) == Ok::<ReqView, ParseError>(r@),
                Err(e) => parse_req(data.spec_bytes()) == Err::<ReqView, ParseError>(e),
            },
    {
        let (eol, at) = match split_line(data) {
            None => { return Err(ParseError::UnterminatedLine); },
            Some(found) => found,
        };
        if at.len() == 0 {
            return Err(ParseError::UnknownCommand);
        }
        let name = word(data, eol, &at, 0);
        if same_text(name, "get") {
            match Get::from(data) {
                Ok(g) => Ok(Req::Get(g)),
                Err(e) => Err(e),
            }
        } else if same_text(name, "set") {
            match Common::from(data) {
                Ok(c) => Ok(Req::Put(c)),
                Err(e) => Err(e),
            }
        } else if same_text(name, "add") {
            match Common::from(data) {
                Ok(c) => Ok(Req::Add(c)),
                Err(e) => Err(e),
            }
        } else if same_text(name, "replace") {
            match Common::from(data) {
                Ok(c) => Ok(Req::Replace(c)),
                Err(e) => Err(e),
            }
        } else if same_text(name, "append") {
            match Common::from(data) {
                Ok(c) => Ok(Req::Append(c)),
                Err(e) => Err(e),
            }
        } else if same_text(name, "prepend") {
            match Common::from(data) {
                Ok(c) => Ok(Req::Prepend(c)),
                Err(e) => Err(e),
            }
        } else {
            Err(ParseError::UnknownCommand)
        }
    }
}

} // verus!
