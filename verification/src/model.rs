//! What the commands mean: the table of entries as a mathematical map, and
//! each request as a step from one table to the next.

use crate::request::{parse_req, CommonView, ReqView};
use crate::response::{reply_wire, EntryView, RespView, ValueView};
use vstd::prelude::*;

verus! {

/// The length of a second on the clock of a store.
pub const NANOS_PER_SECOND: u128 = 1_000_000_000;

/// The entry has a time of expiry, and the clock has reached it.
pub open spec fn expired(entry: EntryView, now: u128) -> bool {
    entry.expires_at matches Some(at) && at <= now
}

/// The table holds an entry for the key that has not expired.
pub open spec fn live(table: Map<Seq<char>, EntryView>, key: Seq<char>, now: u128) -> bool {
    table.contains_key(key) && !expired(table[key], now)
}

/// The table without the entry of the key, where that entry has expired.
pub open spec fn swept(table: Map<Seq<char>, EntryView>, key: Seq<char>, now: u128) -> Map<
    Seq<char>,
    EntryView,
> {
    if table.contains_key(key) && expired(table[key], now) {
        table.remove(key)
    } else {
        table
    }
}

/// When an entry stored at `now` with the time to live `exptime`, in seconds,
/// expires. Zero seconds mean never. So does a time that the clock cannot
/// show, since the clock never reaches it.
pub open spec fn deadline(exptime: u64, now: u128) -> Option<u128> {
    if exptime == 0 || now + exptime * NANOS_PER_SECOND > u128::MAX {
        None
    } else {
        Some((now + exptime * NANOS_PER_SECOND) as u128)
    }
}

/// The entry that a storing command writes at `now`.
pub open spec fn fresh_entry(c: CommonView, now: u128) -> EntryView {
    EntryView {
        data: ValueView {
            name: c.key,
            flags: c.flags,
            byte_count: c.data_block.len() as usize,
            data_block: c.data_block,
        },
        expires_at: deadline(c.exptime, now),
    }
}

/// The entry with other data: the key, the flags and the time of expiry stay.
pub open spec fn with_data(entry: EntryView, data: Seq<u8>) -> EntryView {
    EntryView {
        data: ValueView {
            name: entry.data.name,
            flags: entry.data.flags,
            byte_count: data.len() as usize,
            data_block: data,
        },
        expires_at: entry.expires_at,
    }
}

/// The response to a storing command, withheld where the command asks for no
/// reply.
pub open spec fn reply(no_reply: bool, response: RespView) -> Option<RespView> {
    if no_reply {
        None
    } else {
        Some(response)
    }
}

/// Every entry of the table names the key it is stored under, and its data
/// are as long as it says.
pub open spec fn well_formed(table: Map<Seq<char>, EntryView>) -> bool {
    forall|key: Seq<char>| #[trigger]
        table.contains_key(key) ==> table[key].data.name == key && table[key].data.framed()
}

/// What a request does at the time `now`: the table after it, and the
/// response to it.
///
/// `set` writes its entry, whatever the key holds. Each other command first
/// drops the entry of its key if that entry has expired. Then `add` writes
/// only where the key has no entry, and `replace` only where it has one;
/// `append` and `prepend` join their data to those of the entry that the key
/// has, after them or before them, and leave the rest of that entry as it is;
/// `get` shows the value of the key.
pub open spec fn step(table: Map<Seq<char>, EntryView>, req: ReqView, now: u128) -> (
    Map<Seq<char>, EntryView>,
    Option<RespView>,
) {
    match req {
        ReqView::Get(g) => {
            let t = swept(table, g.key, now);
            if t.contains_key(g.key) {
                (t, Some(RespView::Value(t[g.key].data)))
            } else {
                (t, Some(RespView::End))
            }
        },
        ReqView::Put(c) => (
            table.insert(c.key, fresh_entry(c, now)),
            reply(c.no_reply, RespView::Stored),
        ),
        ReqView::Add(c) => {
            let t = swept(table, c.key, now);
            if t.contains_key(c.key) {
                (t, reply(c.no_reply, RespView::NotStored))
            } else {
                (t.insert(c.key, fresh_entry(c, now)), reply(c.no_reply, RespView::Stored))
            }
        },
        ReqView::Replace(c) => {
            let t = swept(table, c.key, now);
            if t.contains_key(c.key) {
                (t.insert(c.key, fresh_entry(c, now)), reply(c.no_reply, RespView::Stored))
            } else {
                (t, reply(c.no_reply, RespView::NotStored))
            }
        },
        ReqView::Append(c) => {
            let t = swept(table, c.key, now);
            if t.contains_key(c.key) {
                (
                    t.insert(c.key, with_data(t[c.key], t[c.key].data.data_block + c.data_block)),
                    reply(c.no_reply, RespView::Stored),
                )
            } else {
                (t, reply(c.no_reply, RespView::NotStored))
            }
        },
        ReqView::Prepend(c) => {
            let t = swept(table, c.key, now);
            if t.contains_key(c.key) {
                (
                    t.insert(c.key, with_data(t[c.key], c.data_block + t[c.key].data.data_block)),
                    reply(c.no_reply, RespView::Stored),
                )
            } else {
                (t, reply(c.no_reply, RespView::NotStored))
            }
        },
    }
}

/// What the bytes of a request do at the time `now`: the table after them,
/// and the bytes that answer them. A request that is not understood changes
/// nothing and gets no answer.
pub open spec fn serve(table: Map<Seq<char>, EntryView>, data: Seq<u8>, now: u128) -> (
    Map<Seq<char>, EntryView>,
    Seq<u8>,
) {
    match parse_req(data) {
        Ok(req) => (step(table, req, now).0, reply_wire(step(table, req, now).1)),
        Err(_) => (table, Seq::empty()),
    }
}

/// The table after a history of requests, each with the time at which it was
/// carried out.
pub open spec fn run(table: Map<Seq<char>, EntryView>, history: Seq<(ReqView, u128)>) -> Map<
    Seq<char>,
    EntryView,
>
    decreases history.len(),
{
    if history.len() == 0 {
        table
    } else {
        step(run(table, history.drop_last()), history.last().0, history.last().1).0
    }
}

} // verus!
