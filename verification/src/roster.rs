//! The online clients as the bot tells them apart: by the base64 text of
//! their identity, which is how UIDs are written in the configuration and
//! in the stores.
use vstd::prelude::*;
use crate::config::views;
use crate::permissions::list_contains;
use crate::text::{str_eq, trim, trim_str};

verus! {

/// An online client: its id on the server and the bytes of its identity,
/// when the server has sent them.
pub struct OnlineClient {
    pub id: u16,
    pub uid: Option<Vec<u8>>,
}

/// The padded standard-alphabet base64 text of some bytes.
pub uninterp spec fn base64_standard(bytes: Seq<u8>) -> Seq<char>;

/// base64's `engine::general_purpose::STANDARD.encode`. Claimed: the result
/// is the standard padded encoding of the bytes, a function of them alone.
/// The encoder panics when the encoded length overflows `usize`, so the
/// input is kept below half of `usize::MAX`.
#[verifier::external_body]
fn encode_base64(bytes: &[u8]) -> (r: String)
    requires
        bytes@.len() <= usize::MAX / 2,
    ensures
        r@ == base64_standard(bytes@),
{
    base64::Engine::encode(&base64::engine::general_purpose::STANDARD, bytes)
}

/// Identities short enough to encode (every real one is 20 bytes).
pub open spec fn uid_fits(uid: Option<Vec<u8>>) -> bool {
    match uid {
        Some(b) => b@.len() <= usize::MAX / 2,
        None => true,
    }
}

pub open spec fn uids_fit(cs: Seq<OnlineClient>) -> bool {
    forall|i: int| 0 <= i < cs.len() ==> uid_fits(#[trigger] cs[i].uid)
}

/// The UID text of an identity, if known.
pub open spec fn uid_of(uid: Option<Vec<u8>>) -> Option<Seq<char>> {
    match uid {
        Some(b) => Some(base64_standard(b@)),
        None => None,
    }
}

/// The UID text of an identity, or `missing` when it is not known.
pub fn uid_text(uid: &Option<Vec<u8>>, missing: &str) -> (r: String)
    requires
        uid_fits(*uid),
    ensures
        r@ == match uid_of(*uid) {
            Some(t) => t,
            None => missing@,
        },
{
    match uid {
        Some(b) => encode_base64(b.as_slice()),
        None => missing.to_string(),
    }
}

/// The first client whose UID text is `uid`.
pub open spec fn uid_match(cs: Seq<OnlineClient>, uid: Seq<char>) -> Option<int>
    decreases cs.len(),
{
    if cs.len() == 0 {
        None
    } else {
        match uid_match(cs.drop_last(), uid) {
            Some(i) => Some(i),
            None => if uid_of(cs.last().uid) == Some(uid) {
                Some(cs.len() - 1)
            } else {
                None
            },
        }
    }
}

proof fn lemma_uid_match_range(cs: Seq<OnlineClient>, uid: Seq<char>)
    ensures
        uid_match(cs, uid) matches Some(i) ==> 0 <= i < cs.len() && uid_of(cs[i].uid) == Some(uid),
    decreases cs.len(),
{
    if cs.len() > 0 {
        lemma_uid_match_range(cs.drop_last(), uid);
    }
}

/// The id of the first online client whose UID is `uid`.
pub fn find_client_by_uid(clients: &Vec<OnlineClient>, uid: &str) -> (r: Option<u16>)
    requires
        uids_fit(clients@),
    ensures
        r == match uid_match(clients@, uid@) {
            Some(i) => Some(clients@[i].id),
            None => None::<u16>,
        },
{
    let mut i: usize = 0;
    while i < clients.len()
        invariant
            i <= clients@.len(),
            uids_fit(clients@),
            uid_match(clients@.take(i as int), uid@) is None,
        decreases clients@.len() - i,
    {
        assert(clients@.take(i + 1).drop_last() =~= clients@.take(i as int));
        let hit = match &clients[i].uid {
            Some(b) => {
                assert(uid_fits(clients@[i as int].uid));
                let t = encode_base64(b.as_slice());
                str_eq(t.as_str(), uid)
            },
            None => false,
        };
        if hit {
            proof {
                lemma_uid_match_prefix(clients@, i as int + 1, uid@);
            }
            return Some(clients[i].id);
        }
        i = i + 1;
    }
    assert(clients@.take(i as int) =~= clients@);
    None
}

proof fn lemma_uid_match_prefix(cs: Seq<OnlineClient>, k: int, uid: Seq<char>)
    requires
        0 < k <= cs.len(),
        uid_match(cs.take(k - 1), uid) is None,
        uid_of(cs[k - 1].uid) == Some(uid),
    ensures
        uid_match(cs, uid) == Some(k - 1),
    decreases cs.len(),
{
    assert(cs.take(k).drop_last() =~= cs.take(k - 1));
    if k < cs.len() {
        assert(cs.drop_last().take(k) =~= cs.take(k));
        assert(cs.drop_last().take(k - 1) =~= cs.take(k - 1));
        lemma_uid_match_prefix(cs.drop_last(), k, uid);
    } else {
        assert(cs.take(k) =~= cs);
    }
}

/// The client a stored UID refers to: none for a blank UID or the
/// placeholder `unknown`, else the first online client with that UID.
pub open spec fn resolve_spec(cs: Seq<OnlineClient>, target: Seq<char>) -> Option<u16> {
    let uid = trim(target);
    if uid.len() == 0 || uid == "unknown"@ {
        None
    } else {
        match uid_match(cs, uid) {
            Some(i) => Some(cs[i].id),
            None => None,
        }
    }
}

pub fn resolve_client_id_by_uid(clients: &Vec<OnlineClient>, target_uid: &str) -> (r: Option<u16>)
    requires
        uids_fit(clients@),
    ensures
        r == resolve_spec(clients@, target_uid@),
{
    let uid = trim_str(target_uid);
    if uid.as_str().is_empty() || str_eq(uid.as_str(), "unknown") {
        proof {
            reveal_strlit("");
        }
        return None;
    }
    proof {
        reveal_strlit("");
    }
    find_client_by_uid(clients, uid.as_str())
}

/// Whether a client's UID is one of the administrators'.
pub open spec fn has_admin_uid(c: OnlineClient, admins: Seq<Seq<char>>) -> bool {
    match uid_of(c.uid) {
        Some(u) => admins.contains(u),
        None => false,
    }
}

/// The ids of the online administrators, in the order given, leaving out
/// the client `skip` when there is one.
pub open spec fn admin_ids(cs: Seq<OnlineClient>, admins: Seq<Seq<char>>, skip: Option<u16>) -> Seq<u16>
    decreases cs.len(),
{
    if cs.len() == 0 {
        Seq::empty()
    } else {
        let rest = admin_ids(cs.drop_last(), admins, skip);
        let c = cs.last();
        if skip != Some(c.id) && has_admin_uid(c, admins) {
            rest.push(c.id)
        } else {
            rest
        }
    }
}

pub fn online_admin_ids(clients: &Vec<OnlineClient>, admin_uids: &Vec<String>, skip: Option<u16>) -> (r: Vec<u16>)
    requires
        uids_fit(clients@),
    ensures
        r@ == admin_ids(clients@, views(admin_uids@), skip),
{
    let mut out: Vec<u16> = Vec::new();
    let mut i: usize = 0;
    while i < clients.len()
        invariant
            i <= clients@.len(),
            uids_fit(clients@),
            out@ == admin_ids(clients@.take(i as int), views(admin_uids@), skip),
        decreases clients@.len() - i,
    {
        assert(clients@.take(i + 1).drop_last() =~= clients@.take(i as int));
        let c = &clients[i];
        let skipped = match skip {
            Some(s) => s == c.id,
            None => false,
        };
        if !skipped {
            match &c.uid {
                Some(b) => {
                    assert(uid_fits(clients@[i as int].uid));
                    let t = encode_base64(b.as_slice());
                    if list_contains(admin_uids, t.as_str()) {
                        out.push(c.id);
                    }
                },
                None => {},
            }
        }
        i = i + 1;
    }
    assert(clients@.take(i as int) =~= clients@);
    out
}

/// No client listed as an online administrator is the one left out, and
/// each of them has an administrator's UID.
pub proof fn law_admin_ids_are_admins(cs: Seq<OnlineClient>, admins: Seq<Seq<char>>, skip: Option<u16>, k: int)
    requires
        0 <= k < admin_ids(cs, admins, skip).len(),
    ensures
        skip != Some(admin_ids(cs, admins, skip)[k]),
        exists|i: int|
            0 <= i < cs.len() && cs[i].id == admin_ids(cs, admins, skip)[k] && has_admin_uid(#[trigger] cs[i], admins),
    decreases cs.len(),
{
    let rest = admin_ids(cs.drop_last(), admins, skip);
    if k < rest.len() {
        law_admin_ids_are_admins(cs.drop_last(), admins, skip, k);
        let i = choose|i: int|
            0 <= i < cs.drop_last().len() && cs.drop_last()[i].id == rest[k] && has_admin_uid(
                #[trigger] cs.drop_last()[i],
                admins,
            );
        assert(cs[i] == cs.drop_last()[i]);
    } else {
        let j = cs.len() - 1;
        assert(has_admin_uid(cs[j], admins));
    }
}

/// The UID text of the first source that knows the identity.
pub open spec fn first_uid_spec(sources: Seq<Option<Vec<u8>>>) -> Option<Seq<char>>
    decreases sources.len(),
{
    if sources.len() == 0 {
        None
    } else {
        match uid_of(sources[0]) {
            Some(t) => Some(t),
            None => first_uid_spec(sources.drop_first()),
        }
    }
}

/// The invoker's UID from the first source that has it (the server's view
/// of the invoker, then of the first user with the invoker's name, then the
/// message event), if any has.
pub fn first_known_uid(sources: &Vec<Option<Vec<u8>>>) -> (r: Option<String>)
    requires
        forall|i: int| 0 <= i < sources@.len() ==> uid_fits(#[trigger] sources@[i]),
    ensures
        crate::actions::opt_view(r) == first_uid_spec(sources@),
{
    let mut i: usize = 0;
    assert(sources@.skip(0) =~= sources@);
    while i < sources.len()
        invariant
            i <= sources@.len(),
            forall|k: int| 0 <= k < sources@.len() ==> uid_fits(#[trigger] sources@[k]),
            first_uid_spec(sources@) == first_uid_spec(sources@.skip(i as int)),
        decreases sources@.len() - i,
    {
        assert(sources@.skip(i as int)[0] == sources@[i as int]);
        assert(sources@.skip(i as int).drop_first() =~= sources@.skip(i + 1));
        match &sources[i] {
            Some(b) => {
                assert(uid_fits(sources@[i as int]));
                return Some(encode_base64(b.as_slice()));
            },
            None => {},
        }
        i = i + 1;
    }
    None
}

} // verus!
