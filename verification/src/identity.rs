//! The names each client UID has been seen under, oldest first.
use vstd::prelude::*;
use crate::text::{str_eq, string_views};

verus! {

/// One entry per UID: the UID and the names it has used, in order.
pub struct IdentityStoreData {
    pub identities: Vec<(String, Vec<String>)>,
}

/// An entry as plain character sequences.
pub open spec fn entry_view(e: (String, Vec<String>)) -> (Seq<char>, Seq<Seq<char>>) {
    (e.0@, string_views(e.1@))
}

pub open spec fn entries_view(es: Seq<(String, Vec<String>)>) -> Seq<(Seq<char>, Seq<Seq<char>>)> {
    es.map_values(|e: (String, Vec<String>)| entry_view(e))
}

/// The position of the first entry for `uid`.
pub open spec fn find_uid(es: Seq<(Seq<char>, Seq<Seq<char>>)>, uid: Seq<char>) -> Option<int>
    decreases es.len(),
{
    if es.len() == 0 {
        None
    } else {
        match find_uid(es.drop_last(), uid) {
            Some(i) => Some(i),
            None => if es.last().0 == uid {
                Some(es.len() - 1)
            } else {
                None
            },
        }
    }
}

/// The names recorded for `uid`, if it has an entry.
pub open spec fn history_of(es: Seq<(Seq<char>, Seq<Seq<char>>)>, uid: Seq<char>) -> Option<Seq<Seq<char>>> {
    match find_uid(es, uid) {
        Some(i) => Some(es[i].1),
        None => None,
    }
}

/// Whether recording `name` for `uid` adds it: it does unless it is already
/// the last name recorded for that UID.
pub open spec fn record_adds(es: Seq<(Seq<char>, Seq<Seq<char>>)>, uid: Seq<char>, name: Seq<char>) -> bool {
    match history_of(es, uid) {
        Some(h) => h.len() == 0 || h.last() != name,
        None => true,
    }
}

/// The entries after recording `name` for `uid`.
pub open spec fn recorded(es: Seq<(Seq<char>, Seq<Seq<char>>)>, uid: Seq<char>, name: Seq<char>) -> Seq<
    (Seq<char>, Seq<Seq<char>>),
> {
    match find_uid(es, uid) {
        None => es.push((uid, seq![name])),
        Some(i) => if record_adds(es, uid, name) {
            es.update(i, (uid, es[i].1.push(name)))
        } else {
            es
        },
    }
}

/// Name history of clients, keyed by UID; `file_path` is where it is kept.
pub struct IdentityStore {
    pub data: IdentityStoreData,
    pub file_path: String,
}

impl IdentityStore {
    pub open spec fn entries(&self) -> Seq<(Seq<char>, Seq<Seq<char>>)> {
        entries_view(self.data.identities@)
    }

    /// A store over loaded data.
    pub fn with_data(file_path: String, data: IdentityStoreData) -> (r: Self)
        ensures
            r.data == data,
            r.file_path == file_path,
    {
        IdentityStore { data, file_path }
    }

    /// An empty store.
    pub fn empty(file_path: String) -> (r: Self)
        ensures
            r.entries().len() == 0,
            r.file_path == file_path,
    {
        let r = IdentityStore { data: IdentityStoreData { identities: Vec::new() }, file_path };
        assert(r.entries() =~= Seq::empty());
        r
    }

    fn position(&self, uid: &str) -> (r: Option<usize>)
        ensures
            r matches Some(i) ==> find_uid(self.entries(), uid@) == Some(i as int) && i
                < self.data.identities@.len(),
            r is None ==> find_uid(self.entries(), uid@) is None,
    {
        let mut i: usize = 0;
        while i < self.data.identities.len()
            invariant
                i <= self.data.identities@.len(),
                find_uid(self.entries().take(i as int), uid@) is None,
            decreases self.data.identities@.len() - i,
        {
            assert(self.entries().take(i + 1).drop_last() =~= self.entries().take(i as int));
            if str_eq(self.data.identities[i].0.as_str(), uid) {
                proof {
                    lemma_find_uid_prefix(self.entries(), i as int + 1, uid@);
                }
                return Some(i);
            }
            i = i + 1;
        }
        assert(self.entries().take(i as int) =~= self.entries());
        None
    }

    /// Record that `uid` was seen as `name`. Returns true when the name was
    /// added, which is unless it already was the last name of that UID.
    pub fn record_name(&mut self, uid: &str, name: &str) -> (r: bool)
        ensures
            r == record_adds(old(self).entries(), uid@, name@),
            final(self).entries() == recorded(old(self).entries(), uid@, name@),
            final(self).file_path == old(self).file_path,
    {
        match self.position(uid) {
            None => {
                let ghost before = self.entries();
                let mut names: Vec<String> = Vec::new();
                names.push(name.to_string());
                self.data.identities.push((uid.to_string(), names));
                assert(string_views(names@) =~= seq![name@]);
                assert(self.entries() =~= before.push((uid@, seq![name@])));
                true
            },
            Some(i) => {
                let ghost before = self.entries();
                let adds = {
                    let names = &self.data.identities[i].1;
                    if names.len() == 0 {
                        true
                    } else {
                        !str_eq(names[names.len() - 1].as_str(), name)
                    }
                };
                assert(before[i as int] == entry_view(self.data.identities@[i as int]));
                proof {
                    lemma_find_uid_found(before, uid@);
                }
                if adds {
                    let (u, mut names) = self.data.identities.remove(i);
                    let ghost old_names = string_views(names@);
                    names.push(name.to_string());
                    assert(string_views(names@) =~= old_names.push(name@));
                    self.data.identities.insert(i, (u, names));
                    assert(self.entries() =~= before.update(
                        i as int,
                        (uid@, before[i as int].1.push(name@)),
                    ));
                }
                adds
            },
        }
    }

    /// The names recorded for `uid`, oldest first.
    pub fn get_history(&self, uid: &str) -> (r: Option<Vec<String>>)
        ensures
            match r {
                Some(v) => history_of(self.entries(), uid@) == Some(string_views(v@)),
                None => history_of(self.entries(), uid@) is None,
            },
    {
        match self.position(uid) {
            None => None,
            Some(i) => {
                let names = &self.data.identities[i].1;
                let mut out: Vec<String> = Vec::new();
                let mut k: usize = 0;
                while k < names.len()
                    invariant
                        k <= names@.len(),
                        string_views(out@) == string_views(names@).take(k as int),
                    decreases names@.len() - k,
                {
                    let ghost prev = out@;
                    let c = names[k].clone();
                    out.push(c);
                    assert(out@ == prev.push(c));
                    assert(string_views(names@).take(k + 1) =~= string_views(names@).take(k as int).push(
                        names@[k as int]@,
                    ));
                    assert(string_views(out@) =~= string_views(prev).push(c@));
                    k = k + 1;
                }
                assert(string_views(names@).take(k as int) =~= string_views(names@));
                assert(self.entries()[i as int] == entry_view(self.data.identities@[i as int]));
                Some(out)
            },
        }
    }
}

pub proof fn lemma_find_uid_prefix(es: Seq<(Seq<char>, Seq<Seq<char>>)>, k: int, uid: Seq<char>)
    requires
        0 < k <= es.len(),
        find_uid(es.take(k - 1), uid) is None,
        es[k - 1].0 == uid,
    ensures
        find_uid(es, uid) == Some(k - 1),
    decreases es.len(),
{
    assert(es.take(k).drop_last() =~= es.take(k - 1));
    if k < es.len() {
        assert(es.drop_last().take(k) =~= es.take(k));
        assert(es.drop_last().take(k - 1) =~= es.take(k - 1));
        lemma_find_uid_prefix(es.drop_last(), k, uid);
    } else {
        assert(es.take(k) =~= es);
    }
}

/// Where `find_uid` points, the entry has that UID; where it finds none, no entry has it.
pub proof fn lemma_find_uid_found(es: Seq<(Seq<char>, Seq<Seq<char>>)>, uid: Seq<char>)
    ensures
        find_uid(es, uid) matches Some(i) ==> 0 <= i < es.len() && es[i].0 == uid,
        find_uid(es, uid) is None ==> forall|j: int| 0 <= j < es.len() ==> es[j].0 != uid,
    decreases es.len(),
{
    if es.len() > 0 {
        lemma_find_uid_found(es.drop_last(), uid);
        assert forall|j: int| 0 <= j < es.len() - 1 implies es.drop_last()[j] == es[j] by {}
    }
}

/// The first match stays the first match when entries after it change or are added.
proof fn lemma_find_uid_stable(
    es: Seq<(Seq<char>, Seq<Seq<char>>)>,
    fs: Seq<(Seq<char>, Seq<Seq<char>>)>,
    uid: Seq<char>,
    i: int,
)
    requires
        find_uid(es, uid) == Some(i),
        i < fs.len(),
        fs[i].0 == uid,
        forall|j: int| 0 <= j < i ==> (#[trigger] fs[j]).0 == es[j].0,
    ensures
        find_uid(fs, uid) == Some(i),
{
    lemma_find_uid_found(es, uid);
    lemma_find_uid_first(es, uid);
    assert(find_uid(fs.take(i), uid) is None) by {
        lemma_find_uid_found(fs.take(i), uid);
        if find_uid(fs.take(i), uid) is Some {
            let j = find_uid(fs.take(i), uid)->0;
            assert(fs.take(i)[j] == fs[j]);
        }
    }
    lemma_find_uid_prefix(fs, i + 1, uid);
}

/// No entry before the first match has the UID.
proof fn lemma_find_uid_first(es: Seq<(Seq<char>, Seq<Seq<char>>)>, uid: Seq<char>)
    ensures
        find_uid(es, uid) matches Some(i) ==> forall|j: int| 0 <= j < i ==> es[j].0 != uid,
    decreases es.len(),
{
    if es.len() > 0 {
        lemma_find_uid_first(es.drop_last(), uid);
        lemma_find_uid_found(es.drop_last(), uid);
        assert forall|j: int| 0 <= j < es.len() - 1 implies es.drop_last()[j] == es[j] by {}
    }
}

/// After a name is recorded for a UID, it is the last name in that UID's history.
pub proof fn law_recorded_name_is_last(es: Seq<(Seq<char>, Seq<Seq<char>>)>, uid: Seq<char>, name: Seq<char>)
    ensures
        history_of(recorded(es, uid, name), uid) matches Some(h) && h.len() > 0 && h.last() == name,
{
    let fs = recorded(es, uid, name);
    lemma_find_uid_found(es, uid);
    match find_uid(es, uid) {
        None => {
            assert(fs.take(es.len() as int) =~= es);
            lemma_find_uid_prefix(fs, es.len() as int + 1, uid);
        },
        Some(i) => {
            if record_adds(es, uid, name) {
                lemma_find_uid_stable(es, fs, uid, i);
            }
        },
    }
}

/// Recording the same name twice in a row adds it once: the second call
/// reports no change and leaves the entries as they were.
pub proof fn law_record_is_idempotent(es: Seq<(Seq<char>, Seq<Seq<char>>)>, uid: Seq<char>, name: Seq<char>)
    ensures
        !record_adds(recorded(es, uid, name), uid, name),
        recorded(recorded(es, uid, name), uid, name) == recorded(es, uid, name),
{
    law_recorded_name_is_last(es, uid, name);
    let fs = recorded(es, uid, name);
    lemma_find_uid_found(fs, uid);
}

/// Recording a name for one UID leaves every other UID's history as it was.
pub proof fn law_record_leaves_others(
    es: Seq<(Seq<char>, Seq<Seq<char>>)>,
    uid: Seq<char>,
    name: Seq<char>,
    other: Seq<char>,
)
    requires
        other != uid,
    ensures
        history_of(recorded(es, uid, name), other) == history_of(es, other),
{
    let fs = recorded(es, uid, name);
    lemma_find_uid_found(es, other);
    lemma_find_uid_first(es, other);
    lemma_find_uid_found(fs, other);
    lemma_find_uid_first(fs, other);
    lemma_find_uid_found(es, uid);
    match find_uid(es, other) {
        Some(i) => {
            assert(fs[i] == es[i]);
            lemma_find_uid_stable(es, fs, other, i);
        },
        None => {
            if find_uid(fs, other) is Some {
                let j = find_uid(fs, other)->0;
                if j < es.len() {
                    assert(fs[j].0 == es[j].0);
                }
            }
        },
    }
}


/// No history holds the same name twice in a row.
pub open spec fn no_repeats(es: Seq<(Seq<char>, Seq<Seq<char>>)>) -> bool {
    forall|i: int, j: int| 0 <= i < es.len() && 0 <= j < es[i].1.len() - 1 ==> #[trigger] es[i].1[j] != es[i].1[j + 1]
}

/// A new store has no history for any UID, and recording names one after
/// another never puts the same name twice in a row into a history.
pub proof fn law_histories_never_repeat_a_name(
    es: Seq<(Seq<char>, Seq<Seq<char>>)>,
    uid: Seq<char>,
    name: Seq<char>,
)
    requires
        no_repeats(es),
    ensures
        history_of(Seq::empty(), uid) is None,
        no_repeats(Seq::empty()),
        no_repeats(recorded(es, uid, name)),
{
    let fs = recorded(es, uid, name);
    lemma_find_uid_found(es, uid);
    match find_uid(es, uid) {
        None => {
            assert forall|i: int, j: int| 0 <= i < fs.len() && 0 <= j < fs[i].1.len() - 1 implies #[trigger] fs[i].1[j]
                != fs[i].1[j + 1] by {
                if i < es.len() {
                    assert(fs[i] == es[i]);
                }
            }
        },
        Some(k) => {
            if record_adds(es, uid, name) {
                assert forall|i: int, j: int| 0 <= i < fs.len() && 0 <= j < fs[i].1.len() - 1 implies #[trigger] fs[i].1[j]
                    != fs[i].1[j + 1] by {
                    if i != k {
                        assert(fs[i] == es[i]);
                    } else {
                        let h = es[k].1;
                        assert(fs[k].1 == h.push(name));
                        if j + 1 < h.len() {
                            assert(fs[k].1[j] == h[j]);
                            assert(fs[k].1[j + 1] == h[j + 1]);
                        } else {
                            assert(h.len() > 0 && j == h.len() - 1);
                            assert(fs[k].1[j] == h.last());
                        }
                    }
                }
            }
        },
    }
}

} // verus!
