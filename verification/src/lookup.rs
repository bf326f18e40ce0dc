//! Finding channels and users by the name someone typed: an exact match
//! ignoring case first, then the closest partial match.
use vstd::prelude::*;
use crate::text::{byte_len, byte_len_wide, chars_of, contains, find, find_exec, lowercase, str_eq, to_lowercase};

verus! {

/// Longest channel name, in UTF-8 bytes.
pub const MAX_CHANNEL_NAME_BYTES: usize = 100;

pub open spec fn channel_name_error() -> Seq<char> {
    "Channel name must be between 1 and 100 characters"@
}

/// A new channel's name must be 1 to 100 bytes long.
pub fn validate_channel_name(name: &str) -> (r: Result<(), String>)
    ensures
        r is Ok <==> (name@.len() > 0 && byte_len(name@) <= MAX_CHANNEL_NAME_BYTES),
        r matches Err(e) ==> e@ == channel_name_error(),
{
    let v = chars_of(name);
    if v.len() == 0 || byte_len_wide(v.as_slice()) > 100 {
        Err("Channel name must be between 1 and 100 characters".to_string())
    } else {
        Ok(())
    }
}

/// The first entry whose name equals `lname` once lowercased.
pub open spec fn exact_match(names: Seq<Seq<char>>, lname: Seq<char>) -> Option<int>
    decreases names.len(),
{
    if names.len() == 0 {
        None
    } else {
        match exact_match(names.drop_last(), lname) {
            Some(i) => Some(i),
            None => if lowercase(names.last()) == lname {
                Some(names.len() - 1)
            } else {
                None
            },
        }
    }
}

/// Where `lname` occurs in the lowercased name (in bytes) and the name's
/// length (in bytes), for a name that contains it.
pub open spec fn fuzzy_key(name: Seq<char>, lname: Seq<char>) -> Option<(nat, nat)> {
    match find(lowercase(name), lname) {
        Some(p) => Some((byte_len(lowercase(name).take(p)), byte_len(name))),
        None => None,
    }
}

pub open spec fn key_less(a: (nat, nat), b: (nat, nat)) -> bool {
    a.0 < b.0 || (a.0 == b.0 && a.1 < b.1)
}

/// The entry whose match comes earliest in its name, the shortest name
/// among those, the first listed among equals.
pub open spec fn best_fuzzy(names: Seq<Seq<char>>, lname: Seq<char>) -> Option<int>
    decreases names.len(),
{
    if names.len() == 0 {
        None
    } else {
        let prev = best_fuzzy(names.drop_last(), lname);
        match fuzzy_key(names.last(), lname) {
            None => prev,
            Some(k) => match prev {
                None => Some(names.len() - 1),
                Some(b) => if key_less(k, fuzzy_key(names[b], lname)->0) {
                    Some(names.len() - 1)
                } else {
                    Some(b)
                },
            },
        }
    }
}

/// The entry a typed name refers to: the exact match, else the best partial match.
pub open spec fn name_match(names: Seq<Seq<char>>, name: Seq<char>) -> Option<int> {
    match exact_match(names, lowercase(name)) {
        Some(i) => Some(i),
        None => best_fuzzy(names, lowercase(name)),
    }
}

pub open spec fn channel_names(cs: Seq<(u64, String)>) -> Seq<Seq<char>> {
    cs.map_values(|c: (u64, String)| c.1@)
}

pub open spec fn client_names(cs: Seq<(u16, u64, String)>) -> Seq<Seq<char>> {
    cs.map_values(|c: (u16, u64, String)| c.2@)
}

fn exact_index(names: &Vec<String>, lname: &str) -> (r: Option<usize>)
    ensures
        r matches Some(i) ==> exact_match(crate::text::string_views(names@), lname@) == Some(i as int),
        r is None ==> exact_match(crate::text::string_views(names@), lname@) is None,
{
    let ghost nv = crate::text::string_views(names@);
    let mut i: usize = 0;
    while i < names.len()
        invariant
            i <= names@.len(),
            nv == crate::text::string_views(names@),
            exact_match(nv.take(i as int), lname@) is None,
        decreases names@.len() - i,
    {
        assert(nv.take(i + 1).drop_last() =~= nv.take(i as int));
        let l = to_lowercase(names[i].as_str());
        if str_eq(l.as_str(), lname) {
            proof {
                lemma_exact_prefix(nv, i as int + 1, lname@);
            }
            return Some(i);
        }
        i = i + 1;
    }
    assert(nv.take(i as int) =~= nv);
    None
}

proof fn lemma_exact_prefix(names: Seq<Seq<char>>, k: int, lname: Seq<char>)
    requires
        0 < k <= names.len(),
        exact_match(names.take(k - 1), lname) is None,
        lowercase(names[k - 1]) == lname,
    ensures
        exact_match(names, lname) == Some(k - 1),
    decreases names.len(),
{
    assert(names.take(k).drop_last() =~= names.take(k - 1));
    if k < names.len() {
        assert(names.drop_last().take(k) =~= names.take(k));
        assert(names.drop_last().take(k - 1) =~= names.take(k - 1));
        lemma_exact_prefix(names.drop_last(), k, lname);
    } else {
        assert(names.take(k) =~= names);
    }
}

fn fuzzy_key_exec(name: &str, lname: &[char]) -> (r: Option<(u128, u128)>)
    ensures
        match r {
            Some((p, l)) => fuzzy_key(name@, lname@) == Some((p as nat, l as nat)),
            None => fuzzy_key(name@, lname@) is None,
        },
{
    let low = to_lowercase(name);
    let lv = chars_of(low.as_str());
    match find_exec(lv.as_slice(), lname, 0) {
        Some(p) => {
            proof {
                crate::text::lemma_find_from(lv@, lname@, 0);
            }
            let pre = crate::text::slice_chars(lv.as_slice(), 0, p);
            assert(pre@ =~= lv@.take(p as int));
            let nv = chars_of(name);
            Some((byte_len_wide(pre.as_slice()), byte_len_wide(nv.as_slice())))
        },
        None => None,
    }
}

fn best_index(names: &Vec<String>, lname: &[char]) -> (r: Option<usize>)
    ensures
        r matches Some(i) ==> best_fuzzy(crate::text::string_views(names@), lname@) == Some(i as int),
        r is None ==> best_fuzzy(crate::text::string_views(names@), lname@) is None,
{
    let ghost nv = crate::text::string_views(names@);
    let mut best: Option<(usize, u128, u128)> = None;
    let mut i: usize = 0;
    while i < names.len()
        invariant
            i <= names@.len(),
            nv == crate::text::string_views(names@),
            match best {
                Some((b, p, l)) => best_fuzzy(nv.take(i as int), lname@) == Some(b as int) && b < i
                    && fuzzy_key(nv[b as int], lname@) == Some((p as nat, l as nat)),
                None => best_fuzzy(nv.take(i as int), lname@) is None,
            },
        decreases names@.len() - i,
    {
        assert(nv.take(i + 1).drop_last() =~= nv.take(i as int));
        assert(nv.take(i + 1).last() == names@[i as int]@);
        match fuzzy_key_exec(names[i].as_str(), lname) {
            None => {},
            Some((p, l)) => {
                match best {
                    None => {
                        best = Some((i, p, l));
                    },
                    Some((b, bp, bl)) => {
                        assert(nv.take(i + 1)[b as int] == nv[b as int]);
                        if p < bp || (p == bp && l < bl) {
                            best = Some((i, p, l));
                        }
                    },
                }
            },
        }
        i = i + 1;
    }
    assert(nv.take(i as int) =~= nv);
    match best {
        Some((b, _, _)) => Some(b),
        None => None,
    }
}

fn match_index(names: &Vec<String>, name: &str) -> (r: Option<usize>)
    ensures
        r matches Some(i) ==> name_match(crate::text::string_views(names@), name@) == Some(i as int) && i < names@.len(),
        r is None ==> name_match(crate::text::string_views(names@), name@) is None,
{
    let lname = to_lowercase(name);
    match exact_index(names, lname.as_str()) {
        Some(i) => {
            proof {
                lemma_match_in_range(crate::text::string_views(names@), lname@);
            }
            Some(i)
        },
        None => {
            let lv = chars_of(lname.as_str());
            let r = best_index(names, lv.as_slice());
            proof {
                lemma_match_in_range(crate::text::string_views(names@), lname@);
            }
            r
        },
    }
}

proof fn lemma_match_in_range(names: Seq<Seq<char>>, lname: Seq<char>)
    ensures
        exact_match(names, lname) matches Some(i) ==> 0 <= i < names.len(),
        best_fuzzy(names, lname) matches Some(i) ==> 0 <= i < names.len(),
    decreases names.len(),
{
    if names.len() > 0 {
        lemma_match_in_range(names.drop_last(), lname);
    }
}

/// The id of the channel a typed name refers to.
pub fn find_channel_by_name(channels: &Vec<(u64, String)>, name: &str) -> (r: Result<u64, String>)
    ensures
        match name_match(channel_names(channels@), name@) {
            Some(i) => r == Ok::<u64, String>(channels@[i].0),
            None => r matches Err(e) && e@ == "Could not find a channel named '"@ + name@
                + "'. Please check the exact name and try again."@,
        },
{
    let mut names: Vec<String> = Vec::new();
    let mut k: usize = 0;
    while k < channels.len()
        invariant
            k <= channels@.len(),
            crate::text::string_views(names@) == channel_names(channels@).take(k as int),
        decreases channels@.len() - k,
    {
        let ghost prev = names@;
        let n = channels[k].1.clone();
        names.push(n);
        assert(names@ == prev.push(n));
        assert(n@ == channels@[k as int].1@);
        assert(crate::text::string_views(names@) =~= crate::text::string_views(prev).push(n@));
        assert(channel_names(channels@).take(k + 1) =~= channel_names(channels@).take(k as int).push(n@));
        k = k + 1;
    }
    assert(channel_names(channels@).take(k as int) =~= channel_names(channels@));
    match match_index(&names, name) {
        Some(i) => Ok(channels[i].0),
        None => {
            let mut e = "Could not find a channel named '".to_string();
            e.append(name);
            e.append("'. Please check the exact name and try again.");
            Err(e)
        },
    }
}

/// An exact match ignoring case, else the first name containing the typed
/// one ignoring case.
pub open spec fn first_containing(names: Seq<Seq<char>>, lname: Seq<char>) -> Option<int>
    decreases names.len(),
{
    if names.len() == 0 {
        None
    } else {
        match first_containing(names.drop_last(), lname) {
            Some(i) => Some(i),
            None => if contains(lowercase(names.last()), lname) {
                Some(names.len() - 1)
            } else {
                None
            },
        }
    }
}

pub open spec fn client_match(names: Seq<Seq<char>>, name: Seq<char>) -> Option<int> {
    match exact_match(names, lowercase(name)) {
        Some(i) => Some(i),
        None => first_containing(names, lowercase(name)),
    }
}

fn containing_index(names: &Vec<String>, lname: &str) -> (r: Option<usize>)
    ensures
        r matches Some(i) ==> first_containing(crate::text::string_views(names@), lname@) == Some(i as int) && i
            < names@.len(),
        r is None ==> first_containing(crate::text::string_views(names@), lname@) is None,
{
    let ghost nv = crate::text::string_views(names@);
    let mut i: usize = 0;
    while i < names.len()
        invariant
            i <= names@.len(),
            nv == crate::text::string_views(names@),
            first_containing(nv.take(i as int), lname@) is None,
        decreases names@.len() - i,
    {
        assert(nv.take(i + 1).drop_last() =~= nv.take(i as int));
        let l = to_lowercase(names[i].as_str());
        if crate::text::str_contains(l.as_str(), lname) {
            proof {
                lemma_containing_prefix(nv, i as int + 1, lname@);
            }
            return Some(i);
        }
        i = i + 1;
    }
    assert(nv.take(i as int) =~= nv);
    None
}

proof fn lemma_containing_prefix(names: Seq<Seq<char>>, k: int, lname: Seq<char>)
    requires
        0 < k <= names.len(),
        first_containing(names.take(k - 1), lname) is None,
        contains(lowercase(names[k - 1]), lname),
    ensures
        first_containing(names, lname) == Some(k - 1),
    decreases names.len(),
{
    assert(names.take(k).drop_last() =~= names.take(k - 1));
    if k < names.len() {
        assert(names.drop_last().take(k) =~= names.take(k));
        assert(names.drop_last().take(k - 1) =~= names.take(k - 1));
        lemma_containing_prefix(names.drop_last(), k, lname);
    } else {
        assert(names.take(k) =~= names);
    }
}

/// The client id and database id of the user a typed name refers to.
pub fn find_client_by_name(clients: &Vec<(u16, u64, String)>, name: &str) -> (r: Result<(u16, u64), String>)
    ensures
        match client_match(client_names(clients@), name@) {
            Some(i) => r == Ok::<(u16, u64), String>((clients@[i].0, clients@[i].1)),
            None => r matches Err(e) && e@ == "Could not find a user named '"@ + name@
                + "'. Please check the name and try again."@,
        },
{
    let mut names: Vec<String> = Vec::new();
    let mut k: usize = 0;
    while k < clients.len()
        invariant
            k <= clients@.len(),
            crate::text::string_views(names@) == client_names(clients@).take(k as int),
        decreases clients@.len() - k,
    {
        let ghost prev = names@;
        let n = clients[k].2.clone();
        names.push(n);
        assert(names@ == prev.push(n));
        assert(n@ == clients@[k as int].2@);
        assert(crate::text::string_views(names@) =~= crate::text::string_views(prev).push(n@));
        assert(client_names(clients@).take(k + 1) =~= client_names(clients@).take(k as int).push(n@));
        k = k + 1;
    }
    assert(client_names(clients@).take(k as int) =~= client_names(clients@));
    let lname = to_lowercase(name);
    let found = match exact_index(&names, lname.as_str()) {
        Some(i) => {
            proof {
                lemma_match_in_range(crate::text::string_views(names@), lname@);
            }
            Some(i)
        },
        None => containing_index(&names, lname.as_str()),
    };
    match found {
        Some(i) => Ok((clients[i].0, clients[i].1)),
        None => {
            let mut e = "Could not find a user named '".to_string();
            e.append(name);
            e.append("'. Please check the name and try again.");
            Err(e)
        },
    }
}

/// An exact match (ignoring case) always wins over a partial one.
pub proof fn law_exact_match_wins(names: Seq<Seq<char>>, name: Seq<char>, i: int)
    requires
        0 <= i < names.len(),
        lowercase(names[i]) == lowercase(name),
        forall|j: int| 0 <= j < i ==> lowercase(#[trigger] names[j]) != lowercase(name),
    ensures
        name_match(names, name) == Some(i),
        client_match(names, name) == Some(i),
{
    assert forall|j: int| 0 <= j < i implies lowercase(#[trigger] names.take(i)[j]) != lowercase(name) by {
        assert(names.take(i)[j] == names[j]);
    }
    lemma_exact_none(names.take(i), lowercase(name));
    lemma_exact_prefix(names, i + 1, lowercase(name));
}

proof fn lemma_exact_none(names: Seq<Seq<char>>, lname: Seq<char>)
    requires
        forall|j: int| 0 <= j < names.len() ==> lowercase(#[trigger] names[j]) != lname,
    ensures
        exact_match(names, lname) is None,
    decreases names.len(),
{
    if names.len() > 0 {
        assert forall|j: int| 0 <= j < names.drop_last().len() implies lowercase(#[trigger] names.drop_last()[j]) != lname by {
            assert(names.drop_last()[j] == names[j]);
        }
        lemma_exact_none(names.drop_last(), lname);
        assert(lowercase(names[names.len() - 1]) != lname);
    }
}

} // verus!
