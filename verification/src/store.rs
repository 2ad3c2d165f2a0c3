//! The store: a concurrent map from keys to entries with a clock, and the
//! commands that read and write it.

use crate::model::{
    deadline, fresh_entry, live, reply, serve, step, swept, well_formed, with_data,
    NANOS_PER_SECOND,
};
use crate::request::{Common, Req};
use crate::response::{encode_reply, reply_view, Entry, EntryView, Resp, Value};
use crate::text::push_bytes;
use dashmap::DashMap;
use std::time::Instant;
use vstd::prelude::*;
use vstd::string::*;

verus! {

/// `dashmap::DashMap`, whose inside only its own methods see.
#[verifier::external_type_specification]
#[verifier::external_body]
#[verifier::reject_recursive_types(K)]
#[verifier::reject_recursive_types(V)]
#[verifier::reject_recursive_types(S)]
pub struct ExDashMap<K, V, S>(DashMap<K, V, S>);

/// `std::time::Instant`, a reading of the monotonic clock.
#[verifier::external_type_specification]
#[verifier::external_body]
pub struct ExInstant(Instant);

/// The entries that a map holds, by key.
pub uninterp spec fn entries(map: DashMap<String, Entry>) -> Map<Seq<char>, EntryView>;

/// Calls `DashMap::new`, which makes a map that holds nothing.
#[verifier::external_body]
fn map_new() -> (created: DashMap<String, Entry>)
    ensures
        entries(created) =~= Map::empty(),
{
    DashMap::new()
}

/// Calls `DashMap::get` and copies the entry that it finds. The map holds an
/// entry for the key exactly if one comes back, and that is the one.
#[verifier::external_body]
fn map_get(map: &DashMap<String, Entry>, key: &str) -> (found: Option<Entry>)
    ensures
        match found {
            Some(entry) => entries(*map).contains_key(key@) && entries(*map)[key@] == entry@,
            None => !entries(*map).contains_key(key@),
        },
{
    match map.get(key) {
        Some(entry) => Some(entry.value().clone()),
        None => None,
    }
}

/// Calls `DashMap::insert`, which stores the entry under the key in place of
/// what the key had, and leaves the other keys alone. It does not unwind.
#[verifier::external_body]
fn map_insert(map: &mut DashMap<String, Entry>, key: String, entry: Entry)
    ensures
        entries(*final(map)) == entries(*old(map)).insert(key@, entry@),
    no_unwind
{
    map.insert(key, entry);
}

/// Calls `DashMap::remove`, which takes the entry of the key out of the map,
/// if there is one, and leaves the other keys alone. It does not unwind.
#[verifier::external_body]
fn map_remove(map: &mut DashMap<String, Entry>, key: &str)
    ensures
        entries(*final(map)) == entries(*old(map)).remove(key@),
    no_unwind
{
    map.remove(key);
}

/// Calls `Instant::now`. The instant depends on when the call is made, so
/// nothing is said of it.
#[verifier::external_body]
fn clock_start() -> Instant {
    Instant::now()
}

/// Calls `Instant::elapsed` and gives the time in nanoseconds. It depends on
/// when the call is made, so nothing is said of it.
#[verifier::external_body]
fn clock_nanos(epoch: &Instant) -> u128 {
    epoch.elapsed().as_nanos()
}

/// The time at which an entry stored at `now` expires.
pub fn expiry(exptime: u64, now: u128) -> (at: Option<u128>)
    ensures
        at == deadline(exptime, now),
{
    if exptime == 0 {
        None
    } else {
        now.checked_add(exptime as u128 * NANOS_PER_SECOND)
    }
}

/// A map from keys to entries, with the clock that times their expiry. The
/// clock starts when the store is made and counts nanoseconds.
pub struct Store {
    map: DashMap<String, Entry>,
    epoch: Instant,
}

impl View for Store {
    type V = Map<Seq<char>, EntryView>;

    closed spec fn view(&self) -> Map<Seq<char>, EntryView> {
        entries(self.map)
    }
}

impl Store {
    #[verifier::type_invariant]
    spec fn inv(self) -> bool {
        well_formed(entries(self.map))
    }

    /// An empty store, with its clock at zero.
    pub fn new() -> (store: Store)
        ensures
            store@ =~= Map::empty(),
    {
        Store { map: map_new(), epoch: clock_start() }
    }

    /// The time on the clock of the store.
    pub fn now(&self) -> u128 {
        clock_nanos(&self.epoch)
    }

    /// The entry of the key, unless it has expired. An expired entry is
    /// dropped from the store.
    pub fn fetch(&mut self, key: &str, now: u128) -> (found: Option<Entry>)
        ensures
            final(self)@ == swept(old(self)@, key@, now),
            well_formed(final(self)@),
            match found {
                Some(entry) => live(old(self)@, key@, now) && entry@ == old(self)@[key@]
                    && entry@.data.name == key@ && entry@.data.framed(),
                None => !live(old(self)@, key@, now),
            },
    {
        proof {
            use_type_invariant(&*self);
        }
        match map_get(&self.map, key) {
            Some(entry) => {
                let gone = match entry.expires_at {
                    Some(at) => at <= now,
                    None => false,
                };
                if gone {
                    map_remove(&mut self.map, key);
                    None
                } else {
                    Some(entry)
                }
            },
            None => None,
        }
    }

    /// Writes the entry of a storing command, whatever the key holds, and
    /// answers `Stored` unless the command asks for no reply.
    pub fn store(&mut self, common: Common, now: u128) -> (response: Option<Resp>)
        ensures
            final(self)@ == old(self)@.insert(common@.key, fresh_entry(common@, now)),
            well_formed(final(self)@),
            reply_view(response) == reply(common.no_reply, Resp::Stored@),
    {
        proof {
            use_type_invariant(&*self);
        }
        let value = Value {
            name: common.key.clone(),
            flags: common.flags,
            byte_count: common.data_block.len(),
            data_block: common.data_block,
        };
        let entry = Entry { data: value, expires_at: expiry(common.exptime, now) };
        map_insert(&mut self.map, common.key, entry);
        if common.no_reply {
            None
        } else {
            Some(Resp::Stored)
        }
    }

    /// Writes the entry of the key anew with other data, and answers `Stored`
    /// unless the command asks for no reply.
    fn rewrite(&mut self, key: String, entry: Entry, data: Vec<u8>, no_reply: bool) -> (response:
        Option<Resp>)
        requires
            entry@.data.name == key@,
        ensures
            final(self)@ == old(self)@.insert(key@, with_data(entry@, data@)),
            reply_view(response) == reply(no_reply, Resp::Stored@),
    {
        proof {
            use_type_invariant(&*self);
        }
        let value = Value {
            name: entry.data.name,
            flags: entry.data.flags,
            byte_count: data.len(),
            data_block: data,
        };
        map_insert(&mut self.map, key, Entry { data: value, expires_at: entry.expires_at });
        if no_reply {
            None
        } else {
            Some(Resp::Stored)
        }
    }

    /// Carries out a request at the time `now`.
    pub fn execute_at(&mut self, req: Req, now: u128) -> (response: Option<Resp>)
        ensures
            (final(self)@, reply_view(response)) == step(old(self)@, req@, now),
            well_formed(final(self)@),
    {
        let response = match req {
            Req::Get(get) => {
                match self.fetch(get.key.as_str(), now) {
                    Some(entry) => Some(Resp::Value(entry.data)),
                    None => Some(Resp::End),
                }
            },
            Req::Put(common) => self.store(common, now),
            Req::Add(common) => {
                match self.fetch(common.key.as_str(), now) {
                    Some(_) => refusal(common.no_reply),
                    None => self.store(common, now),
                }
            },
            Req::Replace(common) => {
                match self.fetch(common.key.as_str(), now) {
                    Some(_) => self.store(common, now),
                    None => refusal(common.no_reply),
                }
            },
            Req::Append(common) => {
                match self.fetch(common.key.as_str(), now) {
                    Some(entry) => {
                        let mut data: Vec<u8> = Vec::new();
                        push_bytes(&mut data, entry.data.data_block.as_slice());
                        push_bytes(&mut data, common.data_block.as_slice());
                        self.rewrite(common.key, entry, data, common.no_reply)
                    },
                    None => refusal(common.no_reply),
                }
            },
            Req::Prepend(common) => {
                match self.fetch(common.key.as_str(), now) {
                    Some(entry) => {
                        let mut data: Vec<u8> = Vec::new();
                        push_bytes(&mut data, common.data_block.as_slice());
                        push_bytes(&mut data, entry.data.data_block.as_slice());
                        self.rewrite(common.key, entry, data, common.no_reply)
                    },
                    None => refusal(common.no_reply),
                }
            },
        };
        proof {
            use_type_invariant(&*self);
        }
        response
    }

    /// Carries out a request at the time that the clock of the store shows.
    pub fn execute(&mut self, req: Req) -> (response: Option<Resp>)
        ensures
            exists|now: u128| step(old(self)@, req@, now) == (final(self)@, reply_view(response)),
            well_formed(final(self)@),
    {
        let now = self.now();
        self.execute_at(req, now)
    }

    /// Answers the bytes of a request at the time `now`: reads the request,
    /// carries it out and encodes the response. A request that is not
    /// understood is dropped without an answer.
    pub fn serve_at(&mut self, data: &str, now: u128) -> (answer: Vec<u8>)
        ensures
            (final(self)@, answer@) == serve(old(self)@, data.spec_bytes(), now),
            well_formed(final(self)@),
    {
        proof {
            use_type_invariant(&*self);
        }
        match Req::from(data) {
            Ok(req) => {
                let response = self.execute_at(req, now);
                encode_reply(&response)
            },
            Err(_) => Vec::new(),
        }
    }

    /// Answers the bytes of a request at the time that the clock of the store
    /// shows.
    pub fn serve(&mut self, data: &str) -> (answer: Vec<u8>)
        ensures
            exists|now: u128| serve(old(self)@, data.spec_bytes(), now) == (final(self)@, answer@),
            well_formed(final(self)@),
    {
        let now = self.now();
        self.serve_at(data, now)
    }
}

/// The answer to a storing command that stored nothing: `NotStored`, unless
/// the command asks for no reply.
pub fn refusal(no_reply: bool) -> (response: Option<Resp>)
    ensures
        reply_view(response) == reply(no_reply, Resp::NotStored@),
{
    if no_reply {
        None
    } else {
        Some(Resp::NotStored)
    }
}

} // verus!
