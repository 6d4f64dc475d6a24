//! The remote's channel registry, as read during the handshake.
use vstd::prelude::*;
use vstd::string::StringExecFns;

verus! {

/// What a client told the remote about itself.
pub struct ClientInfo {
    pub name: String,
}

/// One entry of the remote's channel registry.
pub struct ChannelInfo {
    pub id: u64,
    pub client: Option<ClientInfo>,
}

pub open spec fn is_named(c: ChannelInfo, name: Seq<char>) -> bool {
    c.client matches Some(info) && info.name@ == name
}

/// The id of the first channel whose client is called `name`, or 0 when none is.
pub open spec fn channel_id_named(chans: Seq<ChannelInfo>, name: Seq<char>) -> u64
    decreases chans.len(),
{
    if chans.len() == 0 {
        0
    } else if is_named(chans[0], name) {
        chans[0].id
    } else {
        channel_id_named(chans.drop_first(), name)
    }
}

/// Finds the id of the first channel whose client is called `name`; 0 when
/// no channel is.
pub fn find_channel_id(chans: &Vec<ChannelInfo>, name: &String) -> (r: u64)
    ensures
        r == channel_id_named(chans@, name@),
{
    let mut i: usize = 0;
    assert(chans@.subrange(0, chans@.len() as int) =~= chans@);
    while i < chans.len()
        invariant
            i <= chans@.len(),
            channel_id_named(chans@.subrange(i as int, chans@.len() as int), name@)
                == channel_id_named(chans@, name@),
        decreases chans@.len() - i,
    {
        let c = &chans[i];
        let ghost rest = chans@.subrange(i as int, chans@.len() as int);
        assert(rest[0] == c);
        assert(rest.drop_first() =~= chans@.subrange(i + 1, chans@.len() as int));
        match &c.client {
            Some(info) => {
                if info.name == *name {
                    return c.id;
                }
            },
            None => {},
        }
        i = i + 1;
    }
    assert(chans@.subrange(i as int, chans@.len() as int).len() == 0);
    0
}

/// The part of an RPC value that channel records are read from.
pub enum MsgValue {
    Nil,
    Boolean(bool),
    /// A non-negative integer.
    UInt(u64),
    Text(String),
    List(Vec<MsgValue>),
    Dict(Vec<(MsgValue, MsgValue)>),
    /// Any other value: a negative integer, a float, binary data, an extension.
    Other,
}

/// The value of the first entry of `entries` whose key is the text `key`.
pub open spec fn lookup(entries: Seq<(MsgValue, MsgValue)>, key: Seq<char>) -> Option<MsgValue>
    decreases entries.len(),
{
    if entries.len() == 0 {
        None
    } else if entries[0].0 matches MsgValue::Text(k) && k@ == key {
        Some(entries[0].1)
    } else {
        lookup(entries.drop_first(), key)
    }
}

/// The client record of a channel: absent unless the `client` entry is a
/// map, and then it must hold a text `name`.
pub open spec fn parse_client(entries: Seq<(MsgValue, MsgValue)>) -> Option<Option<ClientInfo>> {
    match lookup(entries, "client"@) {
        Some(MsgValue::Dict(c)) => match lookup(c@, "name"@) {
            Some(MsgValue::Text(name)) => Some(Some(ClientInfo { name })),
            _ => None,
        },
        _ => Some(None),
    }
}

/// One channel record: a map with a non-negative integer `id` and an
/// optional client record; `None` when malformed.
pub open spec fn parse_channel(v: MsgValue) -> Option<ChannelInfo> {
    match v {
        MsgValue::Dict(entries) => match (lookup(entries@, "id"@), parse_client(entries@)) {
            (Some(MsgValue::UInt(id)), Some(client)) => Some(ChannelInfo { id, client }),
            _ => None,
        },
        _ => None,
    }
}

fn find_entry<'a>(entries: &'a Vec<(MsgValue, MsgValue)>, key: &String) -> (r: Option<
    &'a MsgValue,
>)
    ensures
        match r {
            Some(v) => lookup(entries@, key@) == Some(*v),
            None => lookup(entries@, key@) is None,
        },
{
    let mut i: usize = 0;
    assert(entries@.subrange(0, entries@.len() as int) =~= entries@);
    while i < entries.len()
        invariant
            i <= entries@.len(),
            lookup(entries@.subrange(i as int, entries@.len() as int), key@) == lookup(
                entries@,
                key@,
            ),
        decreases entries@.len() - i,
    {
        let ghost rest = entries@.subrange(i as int, entries@.len() as int);
        assert(rest.drop_first() =~= entries@.subrange(i + 1, entries@.len() as int));
        let entry = &entries[i];
        assert(rest[0] == *entry);
        match &entry.0 {
            MsgValue::Text(k) => {
                if *k == *key {
                    return Some(&entry.1);
                }
            },
            _ => {},
        }
        i = i + 1;
    }
    None
}

fn parse_client_exec(entries: &Vec<(MsgValue, MsgValue)>) -> (r: Option<Option<ClientInfo>>)
    ensures
        r == parse_client(entries@),
{
    let client_key = String::from_str("client");
    proof {
        reveal_strlit("client");
    }
    match find_entry(entries, &client_key) {
        Some(MsgValue::Dict(c)) => {
            let name_key = String::from_str("name");
            match find_entry(c, &name_key) {
                Some(MsgValue::Text(name)) => Some(Some(ClientInfo { name: name.clone() })),
                _ => None,
            }
        },
        _ => Some(None),
    }
}

/// Reads one channel record.
pub fn parse_channel_info(v: &MsgValue) -> (r: Option<ChannelInfo>)
    ensures
        r == parse_channel(*v),
{
    match v {
        MsgValue::Dict(entries) => {
            let id_key = String::from_str("id");
            let id = match find_entry(entries, &id_key) {
                Some(MsgValue::UInt(id)) => *id,
                _ => {
                    return None;
                },
            };
            match parse_client_exec(entries) {
                Some(client) => Some(ChannelInfo { id, client }),
                None => None,
            }
        },
        _ => None,
    }
}

/// Reads the channel list in order; `None` when any record is malformed.
pub fn parse_channel_list(values: &Vec<MsgValue>) -> (r: Option<Vec<ChannelInfo>>)
    ensures
        r is None <==> exists|i: int| 0 <= i < values@.len() && parse_channel(values@[i]) is None,
        r matches Some(list) ==> list@.len() == values@.len() && forall|i: int|
            0 <= i < values@.len() ==> parse_channel(values@[i]) == Some(#[trigger] list@[i]),
{
    let mut list: Vec<ChannelInfo> = Vec::new();
    let mut i: usize = 0;
    while i < values.len()
        invariant
            i <= values@.len(),
            list@.len() == i,
            forall|j: int| 0 <= j < i ==> parse_channel(values@[j]) == Some(#[trigger] list@[j]),
        decreases values@.len() - i,
    {
        match parse_channel_info(&values[i]) {
            Some(c) => list.push(c),
            None => {
                return None;
            },
        }
        i = i + 1;
    }
    assert forall|j: int| 0 <= j < values@.len() implies parse_channel(values@[j]) is Some by {
        assert(parse_channel(values@[j]) == Some(list@[j]));
    }
    Some(list)
}

} // verus!
