//! What holds of every table, request and time.

use crate::model::{
    expired, fresh_entry, live, reply, run, serve, step, swept, well_formed, NANOS_PER_SECOND,
};
use crate::request::{parse_req, CommonView, GetView, ReqView};
use crate::response::{reply_wire, EntryView, RespView, ValueView};
use crate::text::{decimal, lemma_decimal_digits, lemma_decimal_value, number};
use vstd::prelude::*;
use vstd::string::*;

verus! {

/// A request leaves the entries of all keys but its own as they are.
pub proof fn law_other_keys_untouched(
    table: Map<Seq<char>, EntryView>,
    req: ReqView,
    now: u128,
    key: Seq<char>,
)
    requires
        req.key() != key,
    ensures
        step(table, req, now).0.contains_key(key) == table.contains_key(key),
        table.contains_key(key) ==> step(table, req, now).0[key] == table[key],
{
}

/// A `get` changes nothing but to drop the entry of its key where that entry
/// has expired, and it shows a value only of an entry that has not expired:
/// the value of that entry.
pub proof fn law_get_shows_live_entry(table: Map<Seq<char>, EntryView>, g: GetView, now: u128)
    ensures
        step(table, ReqView::Get(g), now).0 == swept(table, g.key, now),
        live(table, g.key, now) ==> step(table, ReqView::Get(g), now).1 == Some(
            RespView::Value(table[g.key].data),
        ),
        !live(table, g.key, now) ==> step(table, ReqView::Get(g), now).1 == Some(RespView::End),
{
}

/// Every request takes a well-formed table to a well-formed table.
pub proof fn law_step_keeps_well_formed(table: Map<Seq<char>, EntryView>, req: ReqView, now: u128)
    requires
        well_formed(table),
        match req {
            ReqView::Get(_) => true,
            ReqView::Put(c) => c.data_block.len() <= usize::MAX,
            ReqView::Add(c) => c.data_block.len() <= usize::MAX,
            ReqView::Replace(c) => c.data_block.len() <= usize::MAX,
            ReqView::Append(c) => live(table, c.key, now) ==> table[c.key].data.data_block.len()
                + c.data_block.len() <= usize::MAX,
            ReqView::Prepend(c) => live(table, c.key, now) ==> table[c.key].data.data_block.len()
                + c.data_block.len() <= usize::MAX,
        },
    ensures
        well_formed(step(table, req, now).0),
{
}

/// A value that `set` stores without a time to live is what a `get` of its
/// key shows right after, at whatever time: the flags and the data of the
/// command, unchanged.
pub proof fn law_set_then_get(
    table: Map<Seq<char>, EntryView>,
    c: CommonView,
    stored_at: u128,
    g: GetView,
    read_at: u128,
)
    requires
        c.exptime == 0,
        g.key == c.key,
    ensures
        ({
            let stored = step(table, ReqView::Put(c), stored_at).0;
            let (after, response) = step(stored, ReqView::Get(g), read_at);
            &&& after == stored
            &&& response matches Some(RespView::Value(v))
            &&& v.name == c.key
            &&& v.flags == c.flags
            &&& v.data_block == c.data_block
        }),
{
}

/// The same on the wire: the bytes that answer the `get` show the key, the
/// flags and the data of the `set`, and the length of those data.
pub proof fn law_set_then_get_on_the_wire(
    table: Map<Seq<char>, EntryView>,
    set: Seq<u8>,
    stored_at: u128,
    get: Seq<u8>,
    read_at: u128,
)
    requires
        parse_req(set) matches Ok(ReqView::Put(c)) && c.exptime == 0 && (parse_req(get) matches Ok(
            ReqView::Get(g),
        ) && g.key == c.key),
    ensures
        ({
            let c = parse_req(set)->Ok_0->Put_0;
            let stored = serve(table, set, stored_at).0;
            serve(stored, get, read_at).1 == (ValueView {
                name: c.key,
                flags: c.flags,
                byte_count: c.data_block.len() as usize,
                data_block: c.data_block,
            }).wire()
        }),
{
    let c = parse_req(set)->Ok_0->Put_0;
    let g = parse_req(get)->Ok_0->Get_0;
    law_set_then_get(table, c, stored_at, g, read_at);
}

/// Requests for other keys do not touch what a key holds.
pub proof fn law_history_of_other_keys(
    table: Map<Seq<char>, EntryView>,
    history: Seq<(ReqView, u128)>,
    key: Seq<char>,
)
    requires
        forall|i: int| 0 <= i < history.len() ==> (#[trigger] history[i]).0.key() != key,
    ensures
        run(table, history).contains_key(key) == table.contains_key(key),
        table.contains_key(key) ==> run(table, history)[key] == table[key],
    decreases history.len(),
{
    if history.len() > 0 {
        let before = history.drop_last();
        assert forall|i: int| 0 <= i < before.len() implies (#[trigger] before[i]).0.key()
            != key by {
            assert(before[i] == history[i]);
        }
        law_history_of_other_keys(table, before, key);
        law_other_keys_untouched(run(table, before), history.last().0, history.last().1, key);
    }
}

/// A value that `set` stores without a time to live is what a later `get` of
/// its key shows, as long as no request in between is about that key.
pub proof fn law_set_round_trip(
    table: Map<Seq<char>, EntryView>,
    c: CommonView,
    stored_at: u128,
    between: Seq<(ReqView, u128)>,
    g: GetView,
    read_at: u128,
)
    requires
        c.exptime == 0,
        g.key == c.key,
        forall|i: int| 0 <= i < between.len() ==> (#[trigger] between[i]).0.key() != c.key,
    ensures
        ({
            let stored = step(table, ReqView::Put(c), stored_at).0;
            let response = step(run(stored, between), ReqView::Get(g), read_at).1;
            &&& response matches Some(RespView::Value(v))
            &&& v.name == c.key
            &&& v.flags == c.flags
            &&& v.data_block == c.data_block
        }),
{
    let stored = step(table, ReqView::Put(c), stored_at).0;
    law_history_of_other_keys(stored, between, c.key);
}

/// A `get` of a key that the table does not hold answers `End`, and changes
/// nothing.
pub proof fn law_get_of_absent_key(table: Map<Seq<char>, EntryView>, g: GetView, now: u128)
    requires
        !table.contains_key(g.key),
    ensures
        step(table, ReqView::Get(g), now) == (table, Some(RespView::End)),
        reply_wire(step(table, ReqView::Get(g), now).1) == "END\r\n".spec_bytes(),
{
}

/// A key that no storing command was ever given is not in the store: after
/// any history that starts with an empty store and holds no request for the
/// key but `get`, a `get` of the key answers `End`.
pub proof fn law_get_of_key_never_stored(history: Seq<(ReqView, u128)>, g: GetView, now: u128)
    requires
        forall|i: int|
            0 <= i < history.len() ==> (#[trigger] history[i]).0 is Get || history[i].0.key()
                != g.key,
    ensures
        !run(Map::empty(), history).contains_key(g.key),
        step(run(Map::empty(), history), ReqView::Get(g), now).1 == Some(RespView::End),
    decreases history.len(),
{
    if history.len() > 0 {
        let before = history.drop_last();
        assert forall|i: int| 0 <= i < before.len() implies (#[trigger] before[i]).0 is Get
            || before[i].0.key() != g.key by {
            assert(before[i] == history[i]);
        }
        law_get_of_key_never_stored(before, g, now);
    }
}

/// `add` for a key whose entry has not expired stores nothing: the table
/// stays as it is, and the response is `NotStored`.
pub proof fn law_add_keeps_entry(table: Map<Seq<char>, EntryView>, c: CommonView, now: u128)
    requires
        live(table, c.key, now),
    ensures
        step(table, ReqView::Add(c), now) == (table, reply(c.no_reply, RespView::NotStored)),
{
}

/// `add` for a key that has no entry, or an expired one, stores its entry.
pub proof fn law_add_fills_gap(table: Map<Seq<char>, EntryView>, c: CommonView, now: u128)
    requires
        !live(table, c.key, now),
    ensures
        step(table, ReqView::Add(c), now) == (
            table.insert(c.key, fresh_entry(c, now)),
            reply(c.no_reply, RespView::Stored),
        ),
{
    assert(swept(table, c.key, now).insert(c.key, fresh_entry(c, now)) =~= table.insert(
        c.key,
        fresh_entry(c, now),
    ));
}

/// `replace` for a key that has no entry, or an expired one, stores nothing
/// and does not create the key: the response is `NotStored`.
pub proof fn law_replace_needs_entry(table: Map<Seq<char>, EntryView>, c: CommonView, now: u128)
    requires
        !live(table, c.key, now),
    ensures
        step(table, ReqView::Replace(c), now).1 == reply(c.no_reply, RespView::NotStored),
        !step(table, ReqView::Replace(c), now).0.contains_key(c.key),
        !table.contains_key(c.key) ==> step(table, ReqView::Replace(c), now).0 == table,
{
}

/// `replace` for a key whose entry has not expired stores its entry in place
/// of that one.
pub proof fn law_replace_overwrites(table: Map<Seq<char>, EntryView>, c: CommonView, now: u128)
    requires
        live(table, c.key, now),
    ensures
        step(table, ReqView::Replace(c), now) == (
            table.insert(c.key, fresh_entry(c, now)),
            reply(c.no_reply, RespView::Stored),
        ),
{
}

/// `append` puts its data after those that the key holds, `prepend` before
/// them. The flags and the time of expiry of the entry stay, and so do the
/// other keys.
pub proof fn law_append_and_prepend_join(
    table: Map<Seq<char>, EntryView>,
    c: CommonView,
    now: u128,
)
    requires
        live(table, c.key, now),
    ensures
        ({
            let (after, response) = step(table, ReqView::Append(c), now);
            &&& response == reply(c.no_reply, RespView::Stored)
            &&& after.dom() == table.dom()
            &&& after[c.key].data.data_block == table[c.key].data.data_block + c.data_block
            &&& after[c.key].data.flags == table[c.key].data.flags
            &&& after[c.key].expires_at == table[c.key].expires_at
        }),
        ({
            let (after, response) = step(table, ReqView::Prepend(c), now);
            &&& response == reply(c.no_reply, RespView::Stored)
            &&& after.dom() == table.dom()
            &&& after[c.key].data.data_block == c.data_block + table[c.key].data.data_block
            &&& after[c.key].data.flags == table[c.key].data.flags
            &&& after[c.key].expires_at == table[c.key].expires_at
        }),
{
    assert(step(table, ReqView::Append(c), now).0.dom() =~= table.dom());
    assert(step(table, ReqView::Prepend(c), now).0.dom() =~= table.dom());
}

/// `append` and `prepend` for a key that has no entry, or an expired one,
/// store nothing and do not create the key: the response is `NotStored`.
pub proof fn law_append_and_prepend_need_entry(
    table: Map<Seq<char>, EntryView>,
    c: CommonView,
    now: u128,
)
    requires
        !live(table, c.key, now),
    ensures
        step(table, ReqView::Append(c), now) == (
            swept(table, c.key, now),
            reply(c.no_reply, RespView::NotStored),
        ),
        step(table, ReqView::Prepend(c), now) == (
            swept(table, c.key, now),
            reply(c.no_reply, RespView::NotStored),
        ),
        !swept(table, c.key, now).contains_key(c.key),
        !table.contains_key(c.key) ==> swept(table, c.key, now) == table,
{
}

/// An entry stored at one time has not expired at another exactly if it has
/// no time to live, or less than its time to live has passed between the two.
pub proof fn law_entry_lives_for_its_time(c: CommonView, stored_at: u128, read_at: u128)
    ensures
        !expired(fresh_entry(c, stored_at), read_at) <==> (c.exptime == 0 || read_at < stored_at
            + c.exptime * NANOS_PER_SECOND),
{
}

/// A value that `set` stores with a time to live is what a `get` of its key
/// shows before that time has passed, and after it the answer is `End`.
pub proof fn law_set_expires(
    table: Map<Seq<char>, EntryView>,
    c: CommonView,
    stored_at: u128,
    g: GetView,
    read_at: u128,
)
    requires
        c.exptime > 0,
        g.key == c.key,
    ensures
        ({
            let stored = step(table, ReqView::Put(c), stored_at).0;
            let response = step(stored, ReqView::Get(g), read_at).1;
            if read_at < stored_at + c.exptime * NANOS_PER_SECOND {
                &&& response matches Some(RespView::Value(v))
                &&& v.flags == c.flags
                &&& v.data_block == c.data_block
            } else {
                response == Some(RespView::End)
            }
        }),
{
}

/// A storing command that asks for no reply gets no response, whether it
/// stored or not, and no byte answers it.
pub proof fn law_no_reply_is_silent(table: Map<Seq<char>, EntryView>, req: ReqView, now: u128)
    requires
        req.silent(),
    ensures
        step(table, req, now).1 is None,
        reply_wire(step(table, req, now).1) == Seq::<u8>::empty(),
{
}

/// The bytes of a storing request that asks for no reply are answered by no
/// byte.
pub proof fn law_no_reply_sends_nothing(
    table: Map<Seq<char>, EntryView>,
    data: Seq<u8>,
    now: u128,
)
    requires
        parse_req(data) matches Ok(req) && req.silent(),
    ensures
        serve(table, data, now).1 == Seq::<u8>::empty(),
{
    law_no_reply_is_silent(table, parse_req(data)->Ok_0, now);
}

/// Every other request is answered: a `get`, and a storing command that does
/// not ask for no reply, get a response.
pub proof fn law_reply_unless_silent(table: Map<Seq<char>, EntryView>, req: ReqView, now: u128)
    requires
        !req.silent(),
    ensures
        step(table, req, now).1 is Some,
{
}

/// Reading back what was written: the decimal digits of a number spell that
/// number, under every limit that the number respects.
pub proof fn law_written_number_reads_back(n: nat, max: nat)
    requires
        n <= max,
    ensures
        number(decimal(n), max) == Some(n),
{
    lemma_decimal_digits(n);
    lemma_decimal_value(n);
}

} // verus!
