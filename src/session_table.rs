//! The live sessions, stored as a sequence with distinct ids and read as a
//! map from session id to session.
use vstd::prelude::*;

use crate::session::PubSession;

verus! {

/// No two sessions in `s` share an id.
pub open spec fn ids_unique(s: Seq<PubSession>) -> bool {
    forall|i: int, j: int|
        0 <= i < s.len() && 0 <= j < s.len() && i != j ==> s[i].session_id@ != s[j].session_id@
}

/// Some session in `s` has the id `sid`.
pub open spec fn holds_id(s: Seq<PubSession>, sid: Seq<char>) -> bool {
    exists|i: int| 0 <= i < s.len() && s[i].session_id@ == sid
}

/// The position of the session with id `sid` in `s`.
pub open spec fn index_of(s: Seq<PubSession>, sid: Seq<char>) -> int {
    choose|i: int| 0 <= i < s.len() && s[i].session_id@ == sid
}

/// `s` read as a map from session id to session.
pub open spec fn table(s: Seq<PubSession>) -> Map<Seq<char>, PubSession> {
    Map::new(|sid: Seq<char>| holds_id(s, sid), |sid: Seq<char>| s[index_of(s, sid)])
}

pub proof fn lemma_table_index(s: Seq<PubSession>, i: int)
    requires
        ids_unique(s),
        0 <= i < s.len(),
    ensures
        table(s).contains_key(s[i].session_id@),
        table(s)[s[i].session_id@] == s[i],
        index_of(s, s[i].session_id@) == i,
{
    assert(holds_id(s, s[i].session_id@));
}

pub proof fn lemma_table_update(s: Seq<PubSession>, i: int, x: PubSession)
    requires
        ids_unique(s),
        0 <= i < s.len(),
        x.session_id@ == s[i].session_id@,
    ensures
        ids_unique(s.update(i, x)),
        table(s.update(i, x)) == table(s).insert(x.session_id@, x),
{
    let t = s.update(i, x);
    assert(ids_unique(t));
    lemma_table_index(t, i);
    assert forall|sid: Seq<char>| sid != x.session_id@ implies (holds_id(t, sid) == holds_id(s, sid)
        && (holds_id(s, sid) ==> t[index_of(t, sid)] == s[index_of(s, sid)])) by {
        if holds_id(s, sid) {
            let j = index_of(s, sid);
            assert(t[j] == s[j]);
            lemma_table_index(t, j);
        }
        if holds_id(t, sid) {
            let j = index_of(t, sid);
            assert(t[j] == s[j]);
        }
    }
    assert(table(t) =~= table(s).insert(x.session_id@, x));
}

pub proof fn lemma_table_remove(s: Seq<PubSession>, i: int)
    requires
        ids_unique(s),
        0 <= i < s.len(),
    ensures
        ids_unique(s.remove(i)),
        table(s.remove(i)) == table(s).remove(s[i].session_id@),
{
    let t = s.remove(i);
    assert forall|a: int, b: int|
        0 <= a < t.len() && 0 <= b < t.len() && a != b implies t[a].session_id@ != t[b].session_id@ by {
        let a2 = if a < i { a } else { a + 1 };
        let b2 = if b < i { b } else { b + 1 };
        assert(t[a] == s[a2]);
        assert(t[b] == s[b2]);
    }
    assert forall|sid: Seq<char>| sid != s[i].session_id@ implies (holds_id(t, sid) == holds_id(s, sid)
        && (holds_id(s, sid) ==> t[index_of(t, sid)] == s[index_of(s, sid)])) by {
        if holds_id(s, sid) {
            let j = index_of(s, sid);
            let j2 = if j < i { j } else { j - 1 };
            assert(j != i);
            assert(t[j2] == s[j]);
            lemma_table_index(t, j2);
        }
        if holds_id(t, sid) {
            let j = index_of(t, sid);
            let j2 = if j < i { j } else { j + 1 };
            assert(t[j] == s[j2]);
        }
    }
    assert(!holds_id(t, s[i].session_id@)) by {
        if holds_id(t, s[i].session_id@) {
            let j = index_of(t, s[i].session_id@);
            let j2 = if j < i { j } else { j + 1 };
            assert(t[j] == s[j2]);
        }
    }
    assert(table(t) =~= table(s).remove(s[i].session_id@));
}

pub proof fn lemma_table_push(s: Seq<PubSession>, x: PubSession)
    requires
        ids_unique(s),
        !table(s).contains_key(x.session_id@),
    ensures
        ids_unique(s.push(x)),
        table(s.push(x)) == table(s).insert(x.session_id@, x),
{
    let t = s.push(x);
    assert forall|a: int, b: int|
        0 <= a < t.len() && 0 <= b < t.len() && a != b implies t[a].session_id@ != t[b].session_id@ by {
        if a < s.len() && b < s.len() {
            assert(t[a] == s[a] && t[b] == s[b]);
        } else if a < s.len() {
            assert(t[a] == s[a]);
            assert(holds_id(s, t[a].session_id@));
        } else if b < s.len() {
            assert(t[b] == s[b]);
            assert(holds_id(s, t[b].session_id@));
        }
    }
    lemma_table_index(t, s.len() as int);
    assert forall|sid: Seq<char>| sid != x.session_id@ implies (holds_id(t, sid) == holds_id(s, sid)
        && (holds_id(s, sid) ==> t[index_of(t, sid)] == s[index_of(s, sid)])) by {
        if holds_id(s, sid) {
            let j = index_of(s, sid);
            assert(t[j] == s[j]);
            lemma_table_index(t, j);
        }
        if holds_id(t, sid) {
            let j = index_of(t, sid);
            assert(j != s.len());
            assert(t[j] == s[j]);
        }
    }
    assert(table(t) =~= table(s).insert(x.session_id@, x));
}

/// Finds the position of the session with id `sid`.
pub fn find_index(s: &Vec<PubSession>, sid: &String) -> (r: Option<usize>)
    requires
        ids_unique(s@),
    ensures
        r is Some == table(s@).contains_key(sid@),
        r is Some ==> r->0 < s@.len() && s@[r->0 as int].session_id@ == sid@ && index_of(s@, sid@)
            == r->0,
{
    let mut i: usize = 0;
    while i < s.len()
        invariant
            i <= s@.len(),
            ids_unique(s@),
            forall|j: int| 0 <= j < i ==> s@[j].session_id@ != sid@,
        decreases s@.len() - i,
    {
        if s[i].session_id == *sid {
            proof {
                lemma_table_index(s@, i as int);
            }
            return Some(i);
        }
        i = i + 1;
    }
    None
}

} // verus!
