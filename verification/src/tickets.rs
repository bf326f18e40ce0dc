//! Support tickets: creation, replies, claims and closing.
use vstd::prelude::*;
use vstd::string::StringExecFns;
use crate::actions::opt_view;
use crate::text::{lowercase, str_eq, to_lowercase};

verus! {

#[derive(Debug, Clone, Copy, PartialEq, Eq, Structural)]
pub enum TicketStatus {
    Open,
    Answered,
    Closed,
}

pub struct Ticket {
    pub id: u64,
    pub creator_uid: String,
    pub creator_name: String,
    pub content: String,
    pub status: TicketStatus,
    pub created_at: String,
    pub response: Option<String>,
    pub claimed_by: Option<String>,
}

/// A ticket with its strings seen as character sequences.
pub ghost struct TicketView {
    pub id: u64,
    pub creator_uid: Seq<char>,
    pub creator_name: Seq<char>,
    pub content: Seq<char>,
    pub status: TicketStatus,
    pub created_at: Seq<char>,
    pub response: Option<Seq<char>>,
    pub claimed_by: Option<Seq<char>>,
}

impl View for Ticket {
    type V = TicketView;

    open spec fn view(&self) -> TicketView {
        TicketView {
            id: self.id,
            creator_uid: self.creator_uid@,
            creator_name: self.creator_name@,
            content: self.content@,
            status: self.status,
            created_at: self.created_at@,
            response: opt_view(self.response),
            claimed_by: opt_view(self.claimed_by),
        }
    }
}

pub(crate) fn copy_opt(o: &Option<String>) -> (r: Option<String>)
    ensures
        opt_view(r) == opt_view(*o),
{
    match o {
        Some(s) => Some(s.clone()),
        None => None,
    }
}

impl Ticket {
    /// A copy of the ticket.
    pub fn duplicate(&self) -> (r: Ticket)
        ensures
            r@ == self@,
    {
        Ticket {
            id: self.id,
            creator_uid: self.creator_uid.clone(),
            creator_name: self.creator_name.clone(),
            content: self.content.clone(),
            status: self.status,
            created_at: self.created_at.clone(),
            response: copy_opt(&self.response),
            claimed_by: copy_opt(&self.claimed_by),
        }
    }
}

pub struct TicketStoreData {
    pub next_id: u64,
    pub tickets: Vec<Ticket>,
}

impl TicketStoreData {
    /// An empty store; the first ticket gets id 1.
    pub fn new() -> (r: Self)
        ensures
            r.next_id == 1,
            r.tickets@.len() == 0,
    {
        TicketStoreData { next_id: 1, tickets: Vec::new() }
    }
}

pub open spec fn tickets_view(v: Seq<Ticket>) -> Seq<TicketView> {
    v.map_values(|t: Ticket| t@)
}

/// The position of the first ticket with id `id`.
pub open spec fn first_with_id(ts: Seq<TicketView>, id: u64) -> Option<int>
    decreases ts.len(),
{
    if ts.len() == 0 {
        None
    } else {
        match first_with_id(ts.drop_last(), id) {
            Some(i) => Some(i),
            None => if ts.last().id == id {
                Some(ts.len() - 1)
            } else {
                None
            },
        }
    }
}

/// Ids are distinct and below the next id to hand out.
pub open spec fn ids_ok(ts: Seq<TicketView>, next_id: u64) -> bool {
    &&& forall|i: int| 0 <= i < ts.len() ==> (#[trigger] ts[i]).id < next_id
    &&& forall|i: int, j: int| 0 <= i < j < ts.len() ==> (#[trigger] ts[i]).id != (#[trigger] ts[j]).id
}

/// Which tickets a listing keeps: active ones (0), answered ones of the
/// creator `key` (1), or closed ones of the creator named or identified by `key` (2).
pub open spec fn keeps(which: u8, key: Seq<char>, t: TicketView) -> bool {
    if which == 0 {
        is_active(t)
    } else if which == 1 {
        is_unread_for(t, key)
    } else {
        in_history_of(t, key)
    }
}

/// The tickets, in order, that a listing keeps.
pub open spec fn select(ts: Seq<TicketView>, which: u8, key: Seq<char>) -> Seq<TicketView>
    decreases ts.len(),
{
    if ts.len() == 0 {
        Seq::empty()
    } else {
        let prev = select(ts.drop_last(), which, key);
        if keeps(which, key, ts.last()) {
            prev.push(ts.last())
        } else {
            prev
        }
    }
}

pub open spec fn active_tickets(ts: Seq<TicketView>) -> Seq<TicketView> {
    select(ts, 0, Seq::empty())
}

pub open spec fn unread_tickets(ts: Seq<TicketView>, uid: Seq<char>) -> Seq<TicketView> {
    select(ts, 1, uid)
}

pub open spec fn history_tickets(ts: Seq<TicketView>, who: Seq<char>) -> Seq<TicketView> {
    select(ts, 2, who)
}

pub open spec fn is_active(t: TicketView) -> bool {
    t.status == TicketStatus::Open || t.status == TicketStatus::Answered
}

pub open spec fn is_unread_for(t: TicketView, uid: Seq<char>) -> bool {
    t.creator_uid == uid && t.status == TicketStatus::Answered
}

pub open spec fn in_history_of(t: TicketView, who: Seq<char>) -> bool {
    t.status == TicketStatus::Closed && (lowercase(t.creator_name) == lowercase(who) || t.creator_uid
        == who)
}

/// The response text after one more reply: the first reply stands alone,
/// later ones follow a blank line and the speaker's tag.
pub open spec fn appended_response(previous: Option<Seq<char>>, response: Seq<char>, from_admin: bool) -> Seq<char> {
    let prev = match previous {
        Some(p) => p,
        None => Seq::empty(),
    };
    if prev.len() == 0 {
        response
    } else {
        prev + if from_admin {
            "\n\n**Admin:** "@
        } else {
            "\n\n**User:** "@
        } + response
    }
}

/// The ticket opened under `id`: open, unanswered and unclaimed.
pub open spec fn opened_ticket(
    id: u64,
    uid: Seq<char>,
    name: Seq<char>,
    content: Seq<char>,
    created_at: Seq<char>,
) -> TicketView {
    TicketView {
        id,
        creator_uid: uid,
        creator_name: name,
        content,
        status: TicketStatus::Open,
        created_at,
        response: None,
        claimed_by: None,
    }
}

/// A request to open a ticket: creator UID, creator name, content and the
/// time it is opened.
pub type TicketRequest = (Seq<char>, Seq<char>, Seq<char>, Seq<char>);

/// The tickets and the next id of a new store (no tickets, next id 1) once
/// `create_ticket` has opened a ticket for each request in turn.
pub open spec fn opened_from_new(reqs: Seq<TicketRequest>) -> (Seq<TicketView>, int)
    decreases reqs.len(),
{
    if reqs.len() == 0 {
        (Seq::empty(), 1)
    } else {
        let (ts, n) = opened_from_new(reqs.drop_last());
        let q = reqs.last();
        (ts.push(opened_ticket(n as u64, q.0, q.1, q.2, q.3)), n + 1)
    }
}

/// Ticket store; `file_path` is where its data is kept.
pub struct TicketStore {
    pub data: TicketStoreData,
    pub file_path: String,
}

impl TicketStore {
    pub open spec fn tickets(&self) -> Seq<TicketView> {
        tickets_view(self.data.tickets@)
    }

    /// Ids are distinct and below the next id.
    pub open spec fn wf(&self) -> bool {
        ids_ok(self.tickets(), self.data.next_id)
    }

    /// A store over loaded data.
    pub fn with_data(file_path: String, data: TicketStoreData) -> (r: Self)
        ensures
            r.data == data,
            r.file_path == file_path,
    {
        TicketStore { data, file_path }
    }

    fn position(&self, id: u64) -> (r: Option<usize>)
        ensures
            r matches Some(i) ==> first_with_id(self.tickets(), id) == Some(i as int),
            r is None ==> first_with_id(self.tickets(), id) is None,
            r matches Some(i) ==> i < self.data.tickets@.len() && self.tickets()[i as int].id == id,
    {
        let mut i: usize = 0;
        while i < self.data.tickets.len()
            invariant
                i <= self.data.tickets@.len(),
                first_with_id(self.tickets().take(i as int), id) is None,
            decreases self.data.tickets@.len() - i,
        {
            assert(self.tickets().take(i + 1).drop_last() =~= self.tickets().take(i as int));
            if self.data.tickets[i].id == id {
                proof {
                    lemma_first_with_id_prefix(self.tickets(), i as int + 1, id);
                }
                return Some(i);
            }
            i = i + 1;
        }
        assert(self.tickets().take(i as int) =~= self.tickets());
        None
    }

    /// Open a ticket created at `created_at`; returns its id.
    pub fn create_ticket(&mut self, uid: String, name: String, content: String, created_at: String) -> (r: u64)
        requires
            old(self).data.next_id < u64::MAX,
        ensures
            r == old(self).data.next_id,
            final(self).data.next_id == old(self).data.next_id + 1,
            final(self).file_path == old(self).file_path,
            final(self).tickets() == old(self).tickets().push(opened_ticket(r, uid@, name@, content@, created_at@)),
            old(self).wf() ==> final(self).wf(),
    {
        let id = self.data.next_id;
        self.data.next_id = self.data.next_id + 1;
        let ticket = Ticket {
            id,
            creator_uid: uid,
            creator_name: name,
            content,
            status: TicketStatus::Open,
            created_at,
            response: None,
            claimed_by: None,
        };
        let ghost before = self.tickets();
        self.data.tickets.push(ticket);
        assert(self.tickets() =~= before.push(ticket@));
        id
    }

    fn collect(&self, which: u8, key: &str) -> (r: Vec<Ticket>)
        requires
            which <= 2,
        ensures
            tickets_view(r@) == select(self.tickets(), which, key@),
    {
        let lkey = to_lowercase(key);
        let mut out: Vec<Ticket> = Vec::new();
        let mut i: usize = 0;
        while i < self.data.tickets.len()
            invariant
                i <= self.data.tickets@.len(),
                which <= 2,
                lkey@ == lowercase(key@),
                tickets_view(out@) == select(self.tickets().take(i as int), which, key@),
            decreases self.data.tickets@.len() - i,
        {
            assert(self.tickets().take(i + 1).drop_last() =~= self.tickets().take(i as int));
            let t = &self.data.tickets[i];
            assert(self.tickets()[i as int] == t@);
            let kept = if which == 0 {
                t.status == TicketStatus::Open || t.status == TicketStatus::Answered
            } else if which == 1 {
                str_eq(t.creator_uid.as_str(), key) && t.status == TicketStatus::Answered
            } else {
                let lname = to_lowercase(t.creator_name.as_str());
                t.status == TicketStatus::Closed && (str_eq(lname.as_str(), lkey.as_str()) || str_eq(
                    t.creator_uid.as_str(),
                    key,
                ))
            };
            assert(kept == keeps(which, key@, t@));
            if kept {
                let ghost prev = tickets_view(out@);
                out.push(t.duplicate());
                assert(tickets_view(out@) =~= prev.push(t@));
            }
            i = i + 1;
        }
        assert(self.tickets().take(i as int) =~= self.tickets());
        out
    }

    /// Tickets still waiting on someone (open or answered).
    pub fn get_open_tickets(&self) -> (r: Vec<Ticket>)
        ensures
            tickets_view(r@) == active_tickets(self.tickets()),
    {
        let r = self.collect(0, "");
        assert(select(self.tickets(), 0, ""@) == active_tickets(self.tickets())) by {
            lemma_select_key_irrelevant(self.tickets(), ""@, Seq::empty());
        }
        r
    }

    /// Answered tickets of the creator `uid`.
    pub fn get_unread_tickets(&self, uid: &str) -> (r: Vec<Ticket>)
        ensures
            tickets_view(r@) == unread_tickets(self.tickets(), uid@),
    {
        self.collect(1, uid)
    }

    /// Closed tickets whose creator has this name (in any case) or this UID.
    pub fn get_user_history(&self, name_or_uid: &str) -> (r: Vec<Ticket>)
        ensures
            tickets_view(r@) == history_tickets(self.tickets(), name_or_uid@),
    {
        self.collect(2, name_or_uid)
    }

    /// The first ticket with this id.
    pub fn get_ticket(&self, id: u64) -> (r: Option<Ticket>)
        ensures
            match r {
                Some(t) => first_with_id(self.tickets(), id) matches Some(i) && self.tickets()[i] == t@,
                None => first_with_id(self.tickets(), id) is None,
            },
    {
        match self.position(id) {
            Some(i) => Some(self.data.tickets[i].duplicate()),
            None => None,
        }
    }

    /// Add a reply to ticket `id`: an administrator's reply marks it answered,
    /// the creator's reopens it. Returns the updated ticket.
    pub fn reply_ticket(&mut self, id: u64, response: String, from_admin: bool) -> (r: Option<Ticket>)
        ensures
            final(self).data.next_id == old(self).data.next_id,
            final(self).file_path == old(self).file_path,
            match first_with_id(old(self).tickets(), id) {
                None => r is None && final(self).tickets() == old(self).tickets(),
                Some(i) => {
                    let t = old(self).tickets()[i];
                    let nt = TicketView {
                        response: Some(appended_response(t.response, response@, from_admin)),
                        status: if from_admin {
                            TicketStatus::Answered
                        } else {
                            TicketStatus::Open
                        },
                        ..t
                    };
                    &&& r matches Some(x) && x@ == nt
                    &&& final(self).tickets() == old(self).tickets().update(i, nt)
                },
            },
            old(self).wf() ==> final(self).wf(),
    {
        match self.position(id) {
            None => None,
            Some(i) => {
                let ghost before = self.tickets();
                let mut t = self.data.tickets.remove(i);
                let new_response = match &t.response {
                    Some(p) => if p.as_str().is_empty() {
                        response
                    } else {
                        let mut s = p.clone();
                        if from_admin {
                            s.append("\n\n**Admin:** ");
                        } else {
                            s.append("\n\n**User:** ");
                        }
                        s.append(response.as_str());
                        s
                    },
                    None => response,
                };
                proof {
                    reveal_strlit("");
                }
                t.response = Some(new_response);
                t.status = if from_admin {
                    TicketStatus::Answered
                } else {
                    TicketStatus::Open
                };
                let out = t.duplicate();
                self.data.tickets.insert(i, t);
                assert(self.tickets() =~= before.update(i as int, out@));
                Some(out)
            },
        }
    }

    /// Mark ticket `id` as claimed by an administrator. Returns the updated ticket.
    pub fn claim_ticket(&mut self, id: u64, admin_name: String) -> (r: Option<Ticket>)
        ensures
            final(self).data.next_id == old(self).data.next_id,
            final(self).file_path == old(self).file_path,
            match first_with_id(old(self).tickets(), id) {
                None => r is None && final(self).tickets() == old(self).tickets(),
                Some(i) => {
                    let nt = TicketView { claimed_by: Some(admin_name@), ..old(self).tickets()[i] };
                    &&& r matches Some(x) && x@ == nt
                    &&& final(self).tickets() == old(self).tickets().update(i, nt)
                },
            },
            old(self).wf() ==> final(self).wf(),
    {
        match self.position(id) {
            None => None,
            Some(i) => {
                let ghost before = self.tickets();
                let mut t = self.data.tickets.remove(i);
                t.claimed_by = Some(admin_name);
                let out = t.duplicate();
                self.data.tickets.insert(i, t);
                assert(self.tickets() =~= before.update(i as int, out@));
                Some(out)
            },
        }
    }

    /// Close ticket `id`; false when there is none.
    pub fn close_ticket(&mut self, id: u64) -> (r: bool)
        ensures
            final(self).data.next_id == old(self).data.next_id,
            final(self).file_path == old(self).file_path,
            match first_with_id(old(self).tickets(), id) {
                None => !r && final(self).tickets() == old(self).tickets(),
                Some(i) => r && final(self).tickets() == closed_at(old(self).tickets(), i),
            },
            old(self).wf() ==> final(self).wf(),
    {
        match self.position(id) {
            None => false,
            Some(i) => {
                let ghost before = self.tickets();
                let mut t = self.data.tickets.remove(i);
                t.status = TicketStatus::Closed;
                let ghost nt = t@;
                self.data.tickets.insert(i, t);
                assert(self.tickets() =~= before.update(i as int, nt));
                true
            },
        }
    }
}

pub proof fn lemma_first_with_id_prefix(ts: Seq<TicketView>, k: int, id: u64)
    requires
        0 < k <= ts.len(),
        first_with_id(ts.take(k - 1), id) is None,
        ts[k - 1].id == id,
    ensures
        first_with_id(ts, id) == Some(k - 1),
    decreases ts.len(),
{
    assert(ts.take(k).drop_last() =~= ts.take(k - 1));
    if k < ts.len() {
        assert(ts.drop_last().take(k) =~= ts.take(k));
        assert(ts.drop_last().take(k - 1) =~= ts.take(k - 1));
        lemma_first_with_id_prefix(ts.drop_last(), k, id);
    } else {
        assert(ts.take(k) =~= ts);
    }
}

/// Where `first_with_id` points, the id is found.
pub proof fn lemma_first_with_id_found(ts: Seq<TicketView>, id: u64)
    ensures
        first_with_id(ts, id) matches Some(i) ==> 0 <= i < ts.len() && ts[i].id == id,
        first_with_id(ts, id) is None ==> forall|j: int| 0 <= j < ts.len() ==> ts[j].id != id,
    decreases ts.len(),
{
    if ts.len() > 0 {
        lemma_first_with_id_found(ts.drop_last(), id);
        assert forall|j: int| 0 <= j < ts.len() - 1 implies ts.drop_last()[j] == ts[j] by {}
    }
}

/// A created ticket is found under its id, open and unanswered.
pub proof fn law_created_ticket_is_found(old_tickets: Seq<TicketView>, next_id: u64, t: TicketView)
    requires
        ids_ok(old_tickets, next_id),
        t.id == next_id,
    ensures
        first_with_id(old_tickets.push(t), next_id) == Some(old_tickets.len() as int),
{
    lemma_first_with_id_found(old_tickets, next_id);
    assert(old_tickets.push(t).drop_last() =~= old_tickets);
}

/// The active listing does not depend on the key it is given.
proof fn lemma_select_key_irrelevant(ts: Seq<TicketView>, k1: Seq<char>, k2: Seq<char>)
    ensures
        select(ts, 0, k1) == select(ts, 0, k2),
    decreases ts.len(),
{
    if ts.len() > 0 {
        lemma_select_key_irrelevant(ts.drop_last(), k1, k2);
    }
}

/// Each listed ticket is one of the tickets and is kept by the listing.
#[verifier::spinoff_prover]
pub proof fn lemma_select_members(ts: Seq<TicketView>, which: u8, key: Seq<char>)
    ensures
        forall|j: int|
            0 <= j < select(ts, which, key).len() ==> exists|k: int|
                0 <= k < ts.len() && ts[k] == #[trigger] select(ts, which, key)[j] && keeps(which, key, ts[k]),
    decreases ts.len(),
{
    if ts.len() > 0 {
        lemma_select_members(ts.drop_last(), which, key);
        let prev = select(ts.drop_last(), which, key);
        assert forall|j: int| 0 <= j < select(ts, which, key).len() implies exists|k: int|
            0 <= k < ts.len() && ts[k] == #[trigger] select(ts, which, key)[j] && keeps(which, key, ts[k]) by {
            if j < prev.len() {
                let k = choose|k: int|
                    0 <= k < ts.drop_last().len() && ts.drop_last()[k] == prev[j] && keeps(which, key, ts.drop_last()[k]);
                assert(ts[k] == ts.drop_last()[k]);
            } else {
                assert(ts[ts.len() - 1] == select(ts, which, key)[j]);
            }
        }
    }
}

/// The tickets after ticket `i` is closed.
pub open spec fn closed_at(ts: Seq<TicketView>, i: int) -> Seq<TicketView> {
    ts.update(i, TicketView { status: TicketStatus::Closed, ..ts[i] })
}

/// Once a ticket is closed, no active ticket carries its id.
pub proof fn law_closed_ticket_not_active(ts: Seq<TicketView>, next_id: u64, i: int)
    requires
        ids_ok(ts, next_id),
        0 <= i < ts.len(),
    ensures
        forall|j: int|
            0 <= j < active_tickets(closed_at(ts, i)).len()
                ==> (#[trigger] active_tickets(closed_at(ts, i))[j]).id != ts[i].id,
{
    let u = closed_at(ts, i);
    lemma_select_members(u, 0, Seq::empty());
    assert forall|j: int| 0 <= j < active_tickets(u).len() implies (#[trigger] active_tickets(u)[j]).id != ts[i].id by {
        let k = choose|k: int|
            0 <= k < u.len() && u[k] == select(u, 0, Seq::empty())[j] && keeps(0, Seq::empty(), u[k]);
        if k != i {
            assert(u[k] == ts[k]);
            if k < i {
                assert(ts[k].id != ts[i].id);
            } else {
                assert(ts[i].id != ts[k].id);
            }
        }
    }
}

/// An administrator's reply puts the ticket among its creator's unread ones.
pub proof fn law_admin_reply_is_unread(ts: Seq<TicketView>, i: int, nt: TicketView)
    requires
        0 <= i < ts.len(),
        nt.status == TicketStatus::Answered,
    ensures
        exists|j: int| 0 <= j < unread_tickets(ts.update(i, nt), nt.creator_uid).len()
            && #[trigger] unread_tickets(ts.update(i, nt), nt.creator_uid)[j] == nt,
{
    let u = ts.update(i, nt);
    assert(u[i] == nt);
    assert(keeps(1, nt.creator_uid, u[i]));
    lemma_select_contains(u, 1, nt.creator_uid, i);
    let j = choose|j: int| 0 <= j < select(u, 1, nt.creator_uid).len()
        && #[trigger] select(u, 1, nt.creator_uid)[j] == u[i];
    assert(unread_tickets(u, nt.creator_uid)[j] == nt);
}

/// A ticket the listing keeps is listed.
pub proof fn lemma_select_contains(ts: Seq<TicketView>, which: u8, key: Seq<char>, i: int)
    requires
        0 <= i < ts.len(),
        keeps(which, key, ts[i]),
    ensures
        exists|j: int| 0 <= j < select(ts, which, key).len() && #[trigger] select(ts, which, key)[j] == ts[i],
    decreases ts.len(),
{
    if i == ts.len() - 1 {
        let j = select(ts, which, key).len() - 1;
        assert(select(ts, which, key)[j] == ts[i]);
    } else {
        lemma_select_contains(ts.drop_last(), which, key, i);
        let j = choose|j: int| 0 <= j < select(ts.drop_last(), which, key).len()
            && #[trigger] select(ts.drop_last(), which, key)[j] == ts.drop_last()[i];
        assert(select(ts, which, key)[j] == ts[i]);
    }
}


/// A new store numbers its tickets 1, 2, 3, ... in the order they are
/// opened: after `k` openings the ticket at position `i` has id `i + 1` and
/// holds the `i`-th request, the ids are distinct and below the next id, and
/// the next ticket gets id `k + 1`.
pub proof fn law_ticket_ids_count_up(reqs: Seq<TicketRequest>)
    requires
        reqs.len() < u64::MAX,
    ensures
        opened_from_new(reqs).1 == reqs.len() + 1,
        opened_from_new(reqs).0.len() == reqs.len(),
        forall|i: int|
            0 <= i < reqs.len() ==> #[trigger] opened_from_new(reqs).0[i] == opened_ticket(
                (i + 1) as u64,
                reqs[i].0,
                reqs[i].1,
                reqs[i].2,
                reqs[i].3,
            ),
        ids_ok(opened_from_new(reqs).0, opened_from_new(reqs).1 as u64),
    decreases reqs.len(),
{
    if reqs.len() > 0 {
        let d = reqs.drop_last();
        law_ticket_ids_count_up(d);
        let (ts, n) = opened_from_new(d);
        let r = opened_from_new(reqs).0;
        assert forall|i: int| 0 <= i < reqs.len() implies #[trigger] r[i] == opened_ticket(
            (i + 1) as u64,
            reqs[i].0,
            reqs[i].1,
            reqs[i].2,
            reqs[i].3,
        ) by {
            if i < d.len() {
                assert(r[i] == ts[i]);
                assert(d[i] == reqs[i]);
            }
        }
        assert forall|i: int| 0 <= i < r.len() implies (#[trigger] r[i]).id < opened_from_new(reqs).1 as u64 by {
            assert(r[i].id == i + 1);
        }
        assert forall|i: int, j: int| 0 <= i < j < r.len() implies (#[trigger] r[i]).id != (#[trigger] r[j]).id by {
            assert(r[i].id == i + 1);
            assert(r[j].id == j + 1);
        }
    }
}

} // verus!
