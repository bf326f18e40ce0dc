//! The server as the connection reports it, held as plain values, and what
//! the prompt is told of it: the snapshot of the server and the user asking.
use vstd::prelude::*;
use crate::actions::opt_view;
use crate::context::{ChannelInfo, InvokerContext, MessageSource, ServerSnapshot, UserInfo};
use crate::roster::{uid_fits, uid_of, uid_text};
use crate::text::{decimal, push_str, push_u64, str_nonempty, string_of, string_views};
use crate::tickets::copy_opt;

verus! {

/// A server group or channel group: its id and name.
pub struct GroupName {
    pub id: u64,
    pub name: String,
}

/// What a client reports of itself once asked: platform, version and how
/// often it has connected.
pub struct ClientExtras {
    pub platform: String,
    pub version: String,
    pub connections_total: u32,
}

/// A client's connection data. Ping and packet loss come as already
/// formatted numbers (one and two decimals, packet loss in percent).
pub struct ConnectionStats {
    pub ping_text: Option<String>,
    pub idle_secs: i64,
    pub client_address: Option<String>,
    pub packetloss_text: Option<String>,
    pub connected_secs: Option<i64>,
}

/// A client connected to the server.
pub struct ClientState {
    pub id: u16,
    pub name: String,
    pub channel: u64,
    pub uid: Option<Vec<u8>>,
    pub away_message: Option<String>,
    pub input_muted: bool,
    pub output_muted: bool,
    pub is_recording: bool,
    pub country_code: String,
    pub is_priority_speaker: bool,
    pub is_channel_commander: bool,
    pub server_groups: Vec<u64>,
    pub channel_group: u64,
    pub database_id: u64,
    pub description: String,
    pub extras: Option<ClientExtras>,
    pub connection: Option<ConnectionStats>,
}

/// How many clients a channel takes.
pub enum ClientLimit {
    Unlimited,
    Inherited,
    Limited(u16),
}

/// A channel of the server.
pub struct ChannelState {
    pub id: u64,
    pub name: String,
    pub is_permanent: bool,
    pub topic: Option<String>,
    pub max_clients: Option<ClientLimit>,
    pub has_password: Option<bool>,
    pub needed_talk_power: Option<i32>,
}

/// The server's statistics. Packet loss and average ping come as already
/// formatted numbers.
pub struct ServerStats {
    pub uptime_secs: i64,
    pub connections_total: u64,
    pub packetloss_text: String,
    pub avg_ping_text: String,
}

/// The server as the connection sees it. Each list is what the connection
/// keeps by id; the bot itself is the client `own_client`.
pub struct ServerState {
    pub own_client: u16,
    pub name: String,
    pub platform: String,
    pub version: String,
    pub max_clients: u16,
    pub stats: Option<ServerStats>,
    pub clients: Vec<ClientState>,
    pub channels: Vec<ChannelState>,
    pub server_groups: Vec<GroupName>,
    pub channel_groups: Vec<GroupName>,
}

/// Where a message was sent: to the server, to a channel, to a client, or
/// as a poke.
pub enum MessageTargetKind {
    Server,
    Channel,
    Client,
    Poke,
}

// ---------------------------------------------------------------- lookups

/// The name of the first group from position `i` on with id `id`.
pub open spec fn group_from(groups: Seq<GroupName>, id: u64, i: int) -> Option<Seq<char>>
    decreases groups.len() - i,
{
    if i < 0 || i >= groups.len() {
        None
    } else if groups[i].id == id {
        Some(groups[i].name@)
    } else {
        group_from(groups, id, i + 1)
    }
}

/// The name of the group with id `id`.
pub open spec fn group_name(groups: Seq<GroupName>, id: u64) -> Option<Seq<char>> {
    group_from(groups, id, 0)
}

/// Position of the first channel from `i` on with id `id`.
pub open spec fn channel_from(chs: Seq<ChannelState>, id: u64, i: int) -> Option<int>
    decreases chs.len() - i,
{
    if i < 0 || i >= chs.len() {
        None
    } else if chs[i].id == id {
        Some(i)
    } else {
        channel_from(chs, id, i + 1)
    }
}

/// Position of the channel with id `id`.
pub open spec fn channel_pos(chs: Seq<ChannelState>, id: u64) -> Option<int> {
    channel_from(chs, id, 0)
}

/// Position of the first client from `i` on with id `id`.
pub open spec fn client_from(cs: Seq<ClientState>, id: u16, i: int) -> Option<int>
    decreases cs.len() - i,
{
    if i < 0 || i >= cs.len() {
        None
    } else if cs[i].id == id {
        Some(i)
    } else {
        client_from(cs, id, i + 1)
    }
}

/// Position of the client with id `id`.
pub open spec fn client_pos(cs: Seq<ClientState>, id: u16) -> Option<int> {
    client_from(cs, id, 0)
}

proof fn lemma_channel_from_range(chs: Seq<ChannelState>, id: u64, i: int)
    ensures
        channel_from(chs, id, i) matches Some(k) ==> 0 <= k < chs.len() && chs[k].id == id,
    decreases chs.len() - i,
{
    if 0 <= i < chs.len() && chs[i].id != id {
        lemma_channel_from_range(chs, id, i + 1);
    }
}

proof fn lemma_client_from_range(cs: Seq<ClientState>, id: u16, i: int)
    ensures
        client_from(cs, id, i) matches Some(k) ==> 0 <= k < cs.len() && cs[k].id == id,
    decreases cs.len() - i,
{
    if 0 <= i < cs.len() && cs[i].id != id {
        lemma_client_from_range(cs, id, i + 1);
    }
}

/// The name of the group with id `id`, if there is one.
pub fn find_group_name(groups: &Vec<GroupName>, id: u64) -> (r: Option<String>)
    ensures
        opt_view(r) == group_name(groups@, id),
{
    let mut i: usize = 0;
    while i < groups.len()
        invariant
            i <= groups@.len(),
            group_from(groups@, id, 0) == group_from(groups@, id, i as int),
        decreases groups@.len() - i,
    {
        if groups[i].id == id {
            return Some(groups[i].name.clone());
        }
        i += 1;
    }
    None
}

/// The position of the channel with id `id`, if there is one.
pub fn find_channel(chs: &Vec<ChannelState>, id: u64) -> (r: Option<usize>)
    ensures
        r matches Some(k) ==> channel_pos(chs@, id) == Some(k as int) && k < chs@.len(),
        r is None ==> channel_pos(chs@, id) is None,
{
    let mut i: usize = 0;
    while i < chs.len()
        invariant
            i <= chs@.len(),
            channel_from(chs@, id, 0) == channel_from(chs@, id, i as int),
        decreases chs@.len() - i,
    {
        if chs[i].id == id {
            return Some(i);
        }
        i += 1;
    }
    None
}

/// The position of the client with id `id`, if there is one.
pub fn find_client(cs: &Vec<ClientState>, id: u16) -> (r: Option<usize>)
    ensures
        r matches Some(k) ==> client_pos(cs@, id) == Some(k as int) && k < cs@.len(),
        r is None ==> client_pos(cs@, id) is None,
{
    let mut i: usize = 0;
    while i < cs.len()
        invariant
            i <= cs@.len(),
            client_from(cs@, id, 0) == client_from(cs@, id, i as int),
        decreases cs@.len() - i,
    {
        if cs[i].id == id {
            return Some(i);
        }
        i += 1;
    }
    None
}

/// The names of the groups with the given ids, skipping ids with no group.
pub open spec fn resolved_names(ids: Seq<u64>, groups: Seq<GroupName>) -> Seq<Seq<char>>
    decreases ids.len(),
{
    if ids.len() == 0 {
        Seq::empty()
    } else {
        resolved_names(ids.drop_last(), groups) + match group_name(groups, ids.last()) {
            Some(n) => seq![n],
            None => Seq::empty(),
        }
    }
}

/// The names of the groups with the given ids, skipping ids with no group.
pub fn group_names(ids: &Vec<u64>, groups: &Vec<GroupName>) -> (r: Vec<String>)
    ensures
        string_views(r@) == resolved_names(ids@, groups@),
{
    let mut out: Vec<String> = Vec::new();
    let mut i: usize = 0;
    while i < ids.len()
        invariant
            i <= ids@.len(),
            string_views(out@) == resolved_names(ids@.take(i as int), groups@),
        decreases ids@.len() - i,
    {
        assert(ids@.take(i + 1).drop_last() =~= ids@.take(i as int));
        let ghost before = out@;
        match find_group_name(groups, ids[i]) {
            Some(n) => {
                out.push(n);
                assert(string_views(out@) =~= string_views(before) + seq![out@.last()@]);
            },
            None => {},
        }
        i += 1;
    }
    assert(ids@.take(ids@.len() as int) =~= ids@);
    out
}

/// A channel group's name, or `Group <id>` when the group is unknown.
pub open spec fn channel_group_text(groups: Seq<GroupName>, id: u64) -> Seq<char> {
    match group_name(groups, id) {
        Some(n) => n,
        None => "Group "@ + decimal(id as nat),
    }
}

/// A channel group's name, or `Group <id>` when the group is unknown.
pub fn channel_group_label(groups: &Vec<GroupName>, id: u64) -> (r: String)
    ensures
        r@ == channel_group_text(groups@, id),
{
    match find_group_name(groups, id) {
        Some(n) => n,
        None => {
            let mut v: Vec<char> = Vec::new();
            push_str(&mut v, "Group ");
            push_u64(&mut v, id);
            string_of(v.as_slice())
        },
    }
}


// ---------------------------------------------------------------- channels

/// How many clients sit in channel `ch`.
pub open spec fn clients_in(cs: Seq<ClientState>, ch: u64) -> nat
    decreases cs.len(),
{
    if cs.len() == 0 {
        0
    } else {
        clients_in(cs.drop_last(), ch) + if cs.last().channel == ch {
            1nat
        } else {
            0nat
        }
    }
}

proof fn lemma_clients_in_bound(cs: Seq<ClientState>, ch: u64)
    ensures
        clients_in(cs, ch) <= cs.len(),
    decreases cs.len(),
{
    if cs.len() > 0 {
        lemma_clients_in_bound(cs.drop_last(), ch);
    }
}

/// How many clients sit in channel `ch`.
pub fn count_clients_in(cs: &Vec<ClientState>, ch: u64) -> (r: usize)
    ensures
        r == clients_in(cs@, ch),
{
    let mut n: usize = 0;
    let mut i: usize = 0;
    while i < cs.len()
        invariant
            i <= cs@.len(),
            n == clients_in(cs@.take(i as int), ch),
        decreases cs@.len() - i,
    {
        assert(cs@.take(i + 1).drop_last() =~= cs@.take(i as int));
        proof {
            lemma_clients_in_bound(cs@.take(i as int), ch);
        }
        if cs[i].channel == ch {
            n += 1;
        }
        i += 1;
    }
    assert(cs@.take(cs@.len() as int) =~= cs@);
    n
}

/// The client limit shown for a channel: only a set limit.
pub open spec fn limit_of(m: Option<ClientLimit>) -> Option<i32> {
    match m {
        Some(ClientLimit::Limited(n)) => Some(n as i32),
        _ => None,
    }
}

/// A topic is shown only when it is not empty.
pub open spec fn shown_topic(t: Option<String>) -> Option<Seq<char>> {
    match t {
        Some(s) => if s@.len() > 0 {
            Some(s@)
        } else {
            None
        },
        None => None,
    }
}

/// The talk power a channel asks for is shown only when above zero.
pub open spec fn shown_talk_power(p: Option<i32>) -> Option<i32> {
    match p {
        Some(x) => if x > 0 {
            Some(x)
        } else {
            None
        },
        None => None,
    }
}

/// `r` describes channel `c` of a server whose clients are `cs`.
pub open spec fn is_channel_info(r: ChannelInfo, c: ChannelState, cs: Seq<ClientState>) -> bool {
    &&& r.id == c.id
    &&& r.name@ == c.name@
    &&& r.client_count == clients_in(cs, c.id)
    &&& r.is_permanent == c.is_permanent
    &&& opt_view(r.topic) == shown_topic(c.topic)
    &&& r.max_clients == limit_of(c.max_clients)
    &&& r.has_password == (c.has_password == Some(true))
    &&& r.needed_talk_power == shown_talk_power(c.needed_talk_power)
}

/// The channel `c` as the channel tree shows it.
pub fn channel_info(c: &ChannelState, cs: &Vec<ClientState>) -> (r: ChannelInfo)
    ensures
        is_channel_info(r, *c, cs@),
{
    let topic = match &c.topic {
        Some(t) => if str_nonempty(t.as_str()) {
            Some(t.clone())
        } else {
            None
        },
        None => None,
    };
    let max_clients = match &c.max_clients {
        Some(ClientLimit::Limited(n)) => Some(*n as i32),
        _ => None,
    };
    let needed_talk_power = match c.needed_talk_power {
        Some(x) => if x > 0 {
            Some(x)
        } else {
            None
        },
        None => None,
    };
    ChannelInfo {
        id: c.id,
        name: c.name.clone(),
        client_count: count_clients_in(cs, c.id),
        is_permanent: c.is_permanent,
        topic,
        max_clients,
        has_password: match c.has_password {
            Some(b) => b,
            None => false,
        },
        needed_talk_power,
    }
}

/// Where in `order` a channel with id `key` goes: after every channel from
/// `j` on whose id is not above `key`.
pub open spec fn first_above(order: Seq<int>, ids: Seq<u64>, key: u64, j: int) -> int
    decreases order.len() - j,
{
    if j < 0 || j >= order.len() {
        order.len() as int
    } else if ids[order[j]] > key {
        j
    } else {
        first_above(order, ids, key, j + 1)
    }
}

/// The positions of the first `n` channels in the order of the channel
/// tree: each channel goes after every earlier one whose id is not above
/// its own.
pub open spec fn tree_order(ids: Seq<u64>, n: nat) -> Seq<int>
    decreases n,
{
    if n == 0 {
        Seq::empty()
    } else {
        let o = tree_order(ids, (n - 1) as nat);
        o.insert(first_above(o, ids, ids[n - 1], 0), n - 1)
    }
}

/// The ids of the channels.
pub open spec fn channel_ids(chs: Seq<ChannelState>) -> Seq<u64> {
    chs.map_values(|c: ChannelState| c.id)
}

proof fn lemma_first_above(order: Seq<int>, ids: Seq<u64>, key: u64, j: int)
    requires
        0 <= j <= order.len(),
    ensures
        j <= first_above(order, ids, key, j) <= order.len(),
        forall|k: int| j <= k < first_above(order, ids, key, j) ==> ids[order[k]] <= key,
        first_above(order, ids, key, j) < order.len() ==> ids[order[first_above(order, ids, key, j)]] > key,
    decreases order.len() - j,
{
    if j < order.len() && ids[order[j]] <= key {
        lemma_first_above(order, ids, key, j + 1);
    }
}

/// What the order of the channel tree is: the positions `0..n`, each once,
/// by id, and channels with equal ids in the order they were listed.
pub open spec fn is_tree_order(o: Seq<int>, ids: Seq<u64>, n: nat) -> bool {
    &&& o.len() == n
    &&& forall|k: int| 0 <= k < o.len() ==> 0 <= #[trigger] o[k] < n
    &&& forall|a: int, b: int| 0 <= a < b < o.len() ==> o[a] != o[b]
    &&& forall|a: int, b: int| 0 <= a < b < o.len() ==> ids[o[a]] <= ids[o[b]]
    &&& forall|a: int, b: int| 0 <= a < b < o.len() && ids[o[a]] == ids[o[b]] ==> o[a] < o[b]
}

/// The channel tree lists every channel once, sorted by id, and channels
/// with equal ids in the order the server listed them.
pub proof fn law_channel_tree_sorted(ids: Seq<u64>, n: nat)
    requires
        n <= ids.len(),
    ensures
        is_tree_order(tree_order(ids, n), ids, n),
    decreases n,
{
    if n > 0 {
        let m = (n - 1) as nat;
        let o = tree_order(ids, m);
        law_channel_tree_sorted(ids, m);
        let key = ids[n - 1];
        lemma_first_above(o, ids, key, 0);
        let j = first_above(o, ids, key, 0);
        let r = o.insert(j, n - 1);
        assert(r == tree_order(ids, n));
        assert forall|k: int| 0 <= k < r.len() implies 0 <= #[trigger] r[k] < n by {
            if k < j {
                assert(r[k] == o[k]);
            } else if k > j {
                assert(r[k] == o[k - 1]);
            }
        }
        assert forall|a: int, b: int| 0 <= a < b < r.len() implies r[a] != r[b] && ids[r[a]] <= ids[r[b]] && (ids[
            r[a]] == ids[r[b]] ==> r[a] < r[b]) by {
            if b < j {
                assert(r[a] == o[a] && r[b] == o[b]);
            } else if b == j {
                assert(r[a] == o[a]);
            } else if a < j {
                assert(r[a] == o[a] && r[b] == o[b - 1]);
                assert(ids[o[j]] > key);
                if j < b - 1 {
                    assert(ids[o[j]] <= ids[o[b - 1]]);
                }
            } else if a == j {
                assert(r[b] == o[b - 1]);
                if j < b - 1 {
                    assert(ids[o[j]] <= ids[o[b - 1]]);
                }
            } else {
                assert(r[a] == o[a - 1] && r[b] == o[b - 1]);
            }
        }
    }
}

/// The channel tree: every channel, in the order `tree_order` gives.
pub fn channel_tree(chs: &Vec<ChannelState>, cs: &Vec<ClientState>) -> (r: Vec<ChannelInfo>)
    ensures
        r@.len() == chs@.len(),
        forall|k: int|
            0 <= k < r@.len() ==> is_channel_info(
                #[trigger] r@[k],
                chs@[tree_order(channel_ids(chs@), chs@.len())[k]],
                cs@,
            ),
{
    let ghost ids = channel_ids(chs@);
    let mut order: Vec<usize> = Vec::new();
    let mut i: usize = 0;
    while i < chs.len()
        invariant
            i <= chs@.len(),
            ids == channel_ids(chs@),
            order@.map_values(|x: usize| x as int) == tree_order(ids, i as nat),
        decreases chs@.len() - i,
    {
        let ghost o = tree_order(ids, i as nat);
        proof {
            law_channel_tree_sorted(ids, i as nat);
        }
        let key = chs[i].id;
        let mut j: usize = 0;
        while j < order.len() && chs[order[j]].id <= key
            invariant
                j <= order@.len(),
                ids == channel_ids(chs@),
                order@.map_values(|x: usize| x as int) == o,
                is_tree_order(o, ids, i as nat),
                i < chs@.len(),
                key == ids[i as int],
                first_above(o, ids, key, 0) == first_above(o, ids, key, j as int),
            decreases order@.len() - j,
        {
            assert(o[j as int] == order@[j as int] as int);
            j += 1;
        }
        proof {
            if j < order@.len() {
                assert(o[j as int] == order@[j as int] as int);
            }
        }
        order.insert(j, i);
        assert(order@.map_values(|x: usize| x as int) =~= o.insert(j as int, i as int));
        i += 1;
    }
    let ghost o = tree_order(ids, chs@.len());
    proof {
        law_channel_tree_sorted(ids, chs@.len());
    }
    let mut out: Vec<ChannelInfo> = Vec::new();
    let mut k: usize = 0;
    while k < order.len()
        invariant
            k <= order@.len(),
            order@.map_values(|x: usize| x as int) == o,
            is_tree_order(o, ids, chs@.len()),
            ids == channel_ids(chs@),
            out@.len() == k,
            forall|q: int| 0 <= q < k ==> is_channel_info(#[trigger] out@[q], chs@[o[q]], cs@),
        decreases order@.len() - k,
    {
        assert(o[k as int] == order@[k as int] as int);
        let c = &chs[order[k]];
        out.push(channel_info(c, cs));
        k += 1;
    }
    out
}


// ---------------------------------------------------------------- users

/// The clients other than the one with id `own`, in their order.
pub open spec fn other_clients(cs: Seq<ClientState>, own: u16) -> Seq<ClientState>
    decreases cs.len(),
{
    if cs.len() == 0 {
        Seq::empty()
    } else {
        other_clients(cs.drop_last(), own) + if cs.last().id == own {
            Seq::<ClientState>::empty()
        } else {
            seq![cs.last()]
        }
    }
}

/// The name of the channel at `id`, or `missing` when there is none.
pub open spec fn channel_name_or(chs: Seq<ChannelState>, id: u64, missing: Seq<char>) -> Seq<char> {
    match channel_pos(chs, id) {
        Some(i) => chs[i].name@,
        None => missing,
    }
}

/// `u` describes client `c` of the server `s`.
pub open spec fn is_user_info(u: UserInfo, c: ClientState, s: ServerState) -> bool {
    &&& u.name@ == c.name@
    &&& u.channel_name@ == channel_name_or(s.channels@, c.channel, "?"@)
    &&& u.channel_id == c.channel
    &&& u.is_away == c.away_message is Some
    &&& opt_view(u.away_message) == opt_view(c.away_message)
    &&& u.input_muted == c.input_muted
    &&& u.output_muted == c.output_muted
    &&& u.is_recording == c.is_recording
    &&& u.country_code@ == c.country_code@
    &&& u.is_priority_speaker == c.is_priority_speaker
    &&& u.is_channel_commander == c.is_channel_commander
    &&& string_views(u.server_groups@) == resolved_names(c.server_groups@, s.server_groups@)
    &&& u.channel_group@ == channel_group_text(s.channel_groups@, c.channel_group)
    &&& u.database_id == c.database_id
    &&& u.description@ == c.description@
    &&& opt_view(u.platform) == match c.extras {
        Some(e) => Some(e.platform@),
        None => None,
    }
    &&& opt_view(u.version) == match c.extras {
        Some(e) => Some(e.version@),
        None => None,
    }
    &&& u.connections_total == match c.extras {
        Some(e) => Some(e.connections_total),
        None => None,
    }
    &&& opt_view(u.ping_text) == match c.connection {
        Some(d) => opt_view(d.ping_text),
        None => None,
    }
    &&& u.idle_secs == match c.connection {
        Some(d) => Some(d.idle_secs),
        None => None,
    }
    &&& opt_view(u.client_address) == match c.connection {
        Some(d) => opt_view(d.client_address),
        None => None,
    }
    &&& opt_view(u.packetloss_text) == match c.connection {
        Some(d) => opt_view(d.packetloss_text),
        None => None,
    }
    &&& u.connected_secs == match c.connection {
        Some(d) => d.connected_secs,
        None => None,
    }
}

/// The name of the channel with id `id`, or `missing`.
fn channel_name_of(chs: &Vec<ChannelState>, id: u64, missing: &str) -> (r: String)
    ensures
        r@ == channel_name_or(chs@, id, missing@),
{
    match find_channel(chs, id) {
        Some(i) => chs[i].name.clone(),
        None => missing.to_string(),
    }
}

/// The client `c` as the list of online users shows it.
pub fn user_info(c: &ClientState, s: &ServerState) -> (r: UserInfo)
    ensures
        is_user_info(r, *c, *s),
{
    let (platform, version, connections_total) = match &c.extras {
        Some(e) => (Some(e.platform.clone()), Some(e.version.clone()), Some(e.connections_total)),
        None => (None, None, None),
    };
    let (ping_text, idle_secs, client_address, packetloss_text, connected_secs) = match &c.connection {
        Some(d) => (
            copy_opt(&d.ping_text),
            Some(d.idle_secs),
            copy_opt(&d.client_address),
            copy_opt(&d.packetloss_text),
            d.connected_secs,
        ),
        None => (None, None, None, None, None),
    };
    UserInfo {
        name: c.name.clone(),
        channel_name: channel_name_of(&s.channels, c.channel, "?"),
        channel_id: c.channel,
        is_away: c.away_message.is_some(),
        away_message: copy_opt(&c.away_message),
        input_muted: c.input_muted,
        output_muted: c.output_muted,
        is_recording: c.is_recording,
        country_code: c.country_code.clone(),
        is_priority_speaker: c.is_priority_speaker,
        is_channel_commander: c.is_channel_commander,
        server_groups: group_names(&c.server_groups, &s.server_groups),
        channel_group: channel_group_label(&s.channel_groups, c.channel_group),
        database_id: c.database_id,
        description: c.description.clone(),
        platform,
        version,
        connections_total,
        ping_text,
        idle_secs,
        client_address,
        packetloss_text,
        connected_secs,
    }
}

/// Every client but the bot, as the list of online users shows them.
pub fn online_users(s: &ServerState) -> (r: Vec<UserInfo>)
    ensures
        r@.len() == other_clients(s.clients@, s.own_client).len(),
        forall|k: int|
            0 <= k < r@.len() ==> is_user_info(#[trigger] r@[k], other_clients(s.clients@, s.own_client)[k], *s),
{
    let mut out: Vec<UserInfo> = Vec::new();
    let mut i: usize = 0;
    while i < s.clients.len()
        invariant
            i <= s.clients@.len(),
            out@.len() == other_clients(s.clients@.take(i as int), s.own_client).len(),
            forall|k: int|
                0 <= k < out@.len() ==> is_user_info(
                    #[trigger] out@[k],
                    other_clients(s.clients@.take(i as int), s.own_client)[k],
                    *s,
                ),
        decreases s.clients@.len() - i,
    {
        let ghost prev = other_clients(s.clients@.take(i as int), s.own_client);
        assert(s.clients@.take(i + 1).drop_last() =~= s.clients@.take(i as int));
        assert(s.clients@.take(i + 1).last() == s.clients@[i as int]);
        let c = &s.clients[i];
        if c.id != s.own_client {
            out.push(user_info(c, s));
            let ghost next = other_clients(s.clients@.take(i + 1), s.own_client);
            assert(next =~= prev + seq![s.clients@[i as int]]);
            assert forall|k: int| 0 <= k < out@.len() implies is_user_info(#[trigger] out@[k], next[k], *s) by {
                if k < prev.len() {
                    assert(next[k] == prev[k]);
                }
            }
        } else {
            assert(other_clients(s.clients@.take(i + 1), s.own_client) =~= prev);
        }
        i += 1;
    }
    assert(s.clients@.take(s.clients@.len() as int) =~= s.clients@);
    out
}

// ---------------------------------------------------------------- snapshot and invoker

/// Every client's UID is short enough to be written out.
pub open spec fn uids_fit(s: ServerState) -> bool {
    forall|i: int| 0 <= i < s.clients@.len() ==> uid_fits(#[trigger] s.clients@[i].uid)
}

/// `r` is the snapshot of server `s`, whose bot is the client `own`.
pub open spec fn is_snapshot_of(r: ServerSnapshot, s: ServerState, own: ClientState) -> bool {
    &&& r.server_name@ == s.name@
    &&& r.bot_name@ == own.name@
    &&& r.bot_channel@ == channel_name_or(s.channels@, own.channel, "(ID "@ + decimal(own.channel as nat) + ")"@)
    &&& r.bot_uid@ == match uid_of(own.uid) {
        Some(t) => t,
        None => Seq::empty(),
    }
    &&& r.platform@ == s.platform@
    &&& r.version@ == s.version@
    &&& r.max_clients == s.max_clients
    &&& r.uptime_secs == match s.stats {
        Some(st) => Some(st.uptime_secs),
        None => None,
    }
    &&& r.connections_total == match s.stats {
        Some(st) => Some(st.connections_total),
        None => None,
    }
    &&& opt_view(r.packetloss_text) == match s.stats {
        Some(st) => Some(st.packetloss_text@),
        None => None,
    }
    &&& opt_view(r.avg_ping_text) == match s.stats {
        Some(st) => Some(st.avg_ping_text@),
        None => None,
    }
    &&& r.online_users@.len() == other_clients(s.clients@, s.own_client).len()
    &&& forall|k: int|
        0 <= k < r.online_users@.len() ==> is_user_info(
            #[trigger] r.online_users@[k],
            other_clients(s.clients@, s.own_client)[k],
            s,
        )
    &&& r.channel_tree@.len() == s.channels@.len()
    &&& forall|k: int|
        0 <= k < r.channel_tree@.len() ==> is_channel_info(
            #[trigger] r.channel_tree@[k],
            s.channels@[tree_order(channel_ids(s.channels@), s.channels@.len())[k]],
            s.clients@,
        )
}

/// The snapshot of the server for the prompt, none when the bot itself is
/// not among the clients.
pub fn snapshot_from_state(s: &ServerState) -> (r: Option<ServerSnapshot>)
    requires
        uids_fit(*s),
    ensures
        r is None <==> client_pos(s.clients@, s.own_client) is None,
        r matches Some(snap) ==> is_snapshot_of(snap, *s, s.clients@[client_pos(s.clients@, s.own_client)->0]),
{
    let o = match find_client(&s.clients, s.own_client) {
        Some(o) => o,
        None => return None,
    };
    let own = &s.clients[o];
    let mut label: Vec<char> = Vec::new();
    push_str(&mut label, "(ID ");
    push_u64(&mut label, own.channel);
    push_str(&mut label, ")");
    let missing = string_of(label.as_slice());
    let (uptime_secs, connections_total, packetloss_text, avg_ping_text) = match &s.stats {
        Some(st) => (
            Some(st.uptime_secs),
            Some(st.connections_total),
            Some(st.packetloss_text.clone()),
            Some(st.avg_ping_text.clone()),
        ),
        None => (None, None, None, None),
    };
    let snap = ServerSnapshot {
        server_name: s.name.clone(),
        bot_name: own.name.clone(),
        bot_channel: channel_name_of(&s.channels, own.channel, missing.as_str()),
        bot_uid: uid_text(&own.uid, ""),
        platform: s.platform.clone(),
        version: s.version.clone(),
        max_clients: s.max_clients,
        uptime_secs,
        connections_total,
        packetloss_text,
        avg_ping_text,
        online_users: online_users(s),
        channel_tree: channel_tree(&s.channels, &s.clients),
    };
    proof {
        reveal_strlit("");
    }
    assert(snap.bot_uid@ == match uid_of(own.uid) {
        Some(t) => t,
        None => Seq::empty(),
    });
    assert(snap.bot_channel@ == channel_name_or(s.channels@, own.channel, "(ID "@ + decimal(own.channel as nat) + ")"@));
    assert(opt_view(snap.avg_ping_text) == match s.stats {
        Some(st) => Some(st.avg_ping_text@),
        None => None,
    });
    assert(snap.connections_total == match s.stats {
        Some(st) => Some(st.connections_total),
        None => None,
    });
    assert(snap.online_users@.len() == other_clients(s.clients@, s.own_client).len());
    assert(snap.channel_tree@.len() == s.channels@.len());
    assert(forall|k: int|
        0 <= k < snap.online_users@.len() ==> is_user_info(
            #[trigger] snap.online_users@[k],
            other_clients(s.clients@, s.own_client)[k],
            *s,
        ));
    assert(forall|k: int|
        0 <= k < snap.channel_tree@.len() ==> is_channel_info(
            #[trigger] snap.channel_tree@[k],
            s.channels@[tree_order(channel_ids(s.channels@), s.channels@.len())[k]],
            s.clients@,
        ));
    Some(snap)
}


/// The client that sent a request, when the server state is known and
/// lists it.
pub open spec fn invoker_client(state: Option<ServerState>, id: u16) -> Option<ClientState> {
    match state {
        Some(s) => match client_pos(s.clients@, id) {
            Some(i) => Some(s.clients@[i]),
            None => None,
        },
        None => None,
    }
}

/// Where a message came from, as its target says: a channel message names
/// the channel, a message to the server is server-wide, and anything sent to
/// a client is direct.
pub open spec fn source_for(m: MessageSource, target: MessageTargetKind, channel_name: Seq<char>) -> bool {
    match target {
        MessageTargetKind::Channel => m matches MessageSource::Channel { channel_name: n } && n@ == channel_name,
        MessageTargetKind::Server => m is Server,
        _ => m is Direct,
    }
}

/// `r` describes the user `name` with UID `uid` and client id `id`, who sent
/// a message to `target`, on the server `state` (when known).
pub open spec fn is_invoker(
    r: InvokerContext,
    state: Option<ServerState>,
    id: u16,
    name: Seq<char>,
    uid: Seq<char>,
    target: MessageTargetKind,
) -> bool {
    &&& r.name@ == name
    &&& r.uid@ == uid
    &&& match invoker_client(state, id) {
        None => {
            &&& r.channel_name@ == Seq::<char>::empty()
            &&& r.channel_id == 0
            &&& r.country_code@ == Seq::<char>::empty()
            &&& r.server_groups@.len() == 0
            &&& r.channel_group@ == Seq::<char>::empty()
            &&& !r.is_away
            &&& r.away_message is None
            &&& !r.input_muted
            &&& r.platform is None
            &&& r.description@ == Seq::<char>::empty()
            &&& r.database_id == 0
        },
        Some(c) => {
            let s = state->0;
            &&& r.channel_name@ == channel_name_or(s.channels@, c.channel, Seq::empty())
            &&& r.channel_id == c.channel
            &&& r.country_code@ == c.country_code@
            &&& string_views(r.server_groups@) == resolved_names(c.server_groups@, s.server_groups@)
            &&& r.channel_group@ == match group_name(s.channel_groups@, c.channel_group) {
                Some(n) => n,
                None => Seq::empty(),
            }
            &&& r.is_away == c.away_message is Some
            &&& opt_view(r.away_message) == opt_view(c.away_message)
            &&& r.input_muted == c.input_muted
            &&& opt_view(r.platform) == match c.extras {
                Some(e) => Some(e.platform@),
                None => None,
            }
            &&& r.description@ == c.description@
            &&& r.database_id == c.database_id
        },
    }
    &&& source_for(r.message_source, target, r.channel_name@)
}

/// The user who sent a request, with what the server state (when known)
/// says of them.
pub fn invoker_from_state(
    state: &Option<ServerState>,
    invoker_id: u16,
    name: &str,
    uid: &str,
    target: MessageTargetKind,
) -> (r: InvokerContext)
    ensures
        is_invoker(r, *state, invoker_id, name@, uid@, target),
{
    let mut ctx = InvokerContext {
        name: name.to_string(),
        uid: uid.to_string(),
        channel_name: String::new(),
        channel_id: 0,
        message_source: MessageSource::Direct,
        country_code: String::new(),
        server_groups: Vec::new(),
        channel_group: String::new(),
        is_away: false,
        away_message: None,
        input_muted: false,
        platform: None,
        description: String::new(),
        database_id: 0,
    };
    proof {
        reveal_strlit("");
        assert(""@ =~= Seq::<char>::empty());
    }
    if let Some(s) = state {
        if let Some(i) = find_client(&s.clients, invoker_id) {
            let c = &s.clients[i];
            ctx.channel_id = c.channel;
            ctx.channel_name = channel_name_of(&s.channels, c.channel, "");
            ctx.country_code = c.country_code.clone();
            ctx.is_away = c.away_message.is_some();
            ctx.away_message = copy_opt(&c.away_message);
            ctx.input_muted = c.input_muted;
            ctx.description = c.description.clone();
            ctx.database_id = c.database_id;
            ctx.server_groups = group_names(&c.server_groups, &s.server_groups);
            if let Some(g) = find_group_name(&s.channel_groups, c.channel_group) {
                ctx.channel_group = g;
            }
            if let Some(e) = &c.extras {
                ctx.platform = Some(e.platform.clone());
            }
        }
    }
    ctx.message_source = match target {
        MessageTargetKind::Channel => MessageSource::Channel { channel_name: ctx.channel_name.clone() },
        MessageTargetKind::Server => MessageSource::Server,
        _ => MessageSource::Direct,
    };
    ctx
}

} // verus!
