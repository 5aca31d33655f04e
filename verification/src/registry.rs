//! The abstract connection registry: connections keyed by id, and the index
//! from each user to the ids of its connections. The facts here say which
//! edits keep the index consistent with the connections' user bindings.

use crate::connection::ConnectionInfoView;
use vstd::prelude::*;

verus! {

/// Connections by id.
pub type ConnTable = Map<Seq<char>, ConnectionInfoView>;

/// Connection ids by user, in binding order.
pub type UserIndex = Map<Seq<char>, Seq<Seq<char>>>;

/// The user index lists exactly the connections bound to each user:
/// every bound connection appears under its user, every listed id is a
/// connection bound to that user, lists are non-empty and repeat no id.
pub open spec fn index_consistent(conns: ConnTable, users: UserIndex) -> bool {
    &&& forall|k: Seq<char>|
        #![trigger conns[k]]
        conns.contains_key(k) && conns[k].user_id is Some ==> users.contains_key(
            conns[k].user_id->0,
        ) && users[conns[k].user_id->0].contains(k)
    &&& forall|u: Seq<char>|
        #![trigger users[u]]
        users.contains_key(u) ==> users[u].len() > 0 && users[u].no_duplicates()
    &&& forall|u: Seq<char>, j: int|
        #![trigger users[u][j]]
        users.contains_key(u) && 0 <= j < users[u].len() ==> conns.contains_key(users[u][j])
            && conns[users[u][j]].user_id == Some(u)
}

/// `l` without `c`.
pub open spec fn list_without(l: Seq<Seq<char>>, c: Seq<char>) -> Seq<Seq<char>> {
    if l.contains(c) {
        l.remove(l.index_of(c))
    } else {
        l
    }
}

/// Records that `c` belongs to `u` (appended to `u`'s list unless present).
pub open spec fn user_insert(users: UserIndex, u: Seq<char>, c: Seq<char>) -> UserIndex {
    if users.contains_key(u) {
        if users[u].contains(c) {
            users
        } else {
            users.insert(u, users[u].push(c))
        }
    } else {
        users.insert(u, seq![c])
    }
}

/// Forgets that `c` belongs to `u`; a user left without connections is dropped.
pub open spec fn user_remove(users: UserIndex, u: Seq<char>, c: Seq<char>) -> UserIndex {
    if users.contains_key(u) {
        let l = list_without(users[u], c);
        if l.len() == 0 {
            users.remove(u)
        } else {
            users.insert(u, l)
        }
    } else {
        users
    }
}

/// [`user_remove`] when the connection has a user, else no change.
pub open spec fn user_remove_opt(users: UserIndex, u: Option<Seq<char>>, c: Seq<char>) -> UserIndex {
    match u {
        Some(x) => user_remove(users, x, c),
        None => users,
    }
}

/// Dropping an id from a list that repeats none keeps it repeating none,
/// drops exactly that id, and shortens it by one when the id was there.
pub proof fn lemma_list_without(l: Seq<Seq<char>>, c: Seq<char>)
    requires
        l.no_duplicates(),
    ensures
        list_without(l, c).no_duplicates(),
        forall|x: Seq<char>| #[trigger] list_without(l, c).contains(x) <==> (l.contains(x) && x != c),
        l.contains(c) ==> list_without(l, c).len() == l.len() - 1,
{
    if l.contains(c) {
        let i = l.index_of(c);
        let r = l.remove(i);
        l.remove_ensures(i);
        assert(r.no_duplicates()) by {
            assert forall|a: int, b: int| 0 <= a < r.len() && 0 <= b < r.len() && a != b implies r[a]
                != r[b] by {
                let aa = if a < i { a } else { a + 1 };
                let bb = if b < i { b } else { b + 1 };
                assert(r[a] == l[aa] && r[b] == l[bb]);
            }
        }
        assert forall|x: Seq<char>| #[trigger] r.contains(x) <==> (l.contains(x) && x != c) by {
            if r.contains(x) {
                let a = choose|a: int| 0 <= a < r.len() && r[a] == x;
                let aa = if a < i { a } else { a + 1 };
                assert(l[aa] == x);
                assert(aa != i);
            }
            if l.contains(x) && x != c {
                let a = choose|a: int| 0 <= a < l.len() && l[a] == x;
                assert(a != i);
                if a < i {
                    assert(r[a] == x);
                } else {
                    assert(r[a - 1] == x);
                }
            }
        }
    }
}

/// Adding an unbound connection keeps the index consistent.
pub proof fn lemma_add_unbound(conns: ConnTable, users: UserIndex, k: Seq<char>, info: ConnectionInfoView)
    requires
        index_consistent(conns, users),
        !conns.contains_key(k),
        info.user_id is None,
    ensures
        index_consistent(conns.insert(k, info), users),
{
    let c2 = conns.insert(k, info);
    assert forall|u: Seq<char>, j: int| #![trigger users[u][j]]
        users.contains_key(u) && 0 <= j < users[u].len() implies c2.contains_key(users[u][j])
        && c2[users[u][j]].user_id == Some(u) by {
        assert(users[u][j] != k);
    }
}

/// Adding a connection bound to `u` and listing it under `u` keeps the
/// index consistent.
pub proof fn lemma_add_bound(conns: ConnTable, users: UserIndex, k: Seq<char>, info: ConnectionInfoView, u: Seq<char>)
    requires
        index_consistent(conns, users),
        !conns.contains_key(k),
        info.user_id == Some(u),
    ensures
        index_consistent(conns.insert(k, info), user_insert(users, u, k)),
{
    let c2 = conns.insert(k, info);
    let u2 = user_insert(users, u, k);
    if users.contains_key(u) {
        assert(!users[u].contains(k)) by {
            if users[u].contains(k) {
                let j = choose|j: int| 0 <= j < users[u].len() && users[u][j] == k;
                assert(conns.contains_key(users[u][j]));
            }
        }
        let l = users[u].push(k);
        assert(l.no_duplicates()) by {
            assert forall|a: int, b: int| 0 <= a < l.len() && 0 <= b < l.len() && a != b implies l[a]
                != l[b] by {
                if a < users[u].len() && b < users[u].len() {
                    assert(users[u][a] != users[u][b]);
                } else if a == users[u].len() {
                    assert(l[b] == users[u][b]);
                } else {
                    assert(l[a] == users[u][a]);
                }
            }
        }
    }
    assert forall|x: Seq<char>|
        #![trigger c2[x]]
        c2.contains_key(x) && c2[x].user_id is Some implies u2.contains_key(c2[x].user_id->0)
        && u2[c2[x].user_id->0].contains(x) by {
        if x == k {
            if users.contains_key(u) {
                assert(u2[u][users[u].len() as int] == k);
            } else {
                assert(u2[u][0] == k);
            }
        } else {
            let v = conns[x].user_id->0;
            assert(users.contains_key(v) && users[v].contains(x));
            let j = choose|j: int| 0 <= j < users[v].len() && users[v][j] == x;
            if v == u {
                assert(u2[u][j] == x);
            }
        }
    }
    assert forall|w: Seq<char>, j: int|
        #![trigger u2[w][j]]
        u2.contains_key(w) && 0 <= j < u2[w].len() implies c2.contains_key(u2[w][j])
        && c2[u2[w][j]].user_id == Some(w) by {
        if w == u {
            if users.contains_key(u) && j < users[u].len() {
                assert(u2[w][j] == users[u][j]);
                assert(users[u][j] != k);
            }
        } else {
            assert(u2[w][j] == users[w][j]);
            assert(users[w][j] != k);
        }
    }
}

/// Removing a connection and its index entry keeps the index consistent.
pub proof fn lemma_remove(conns: ConnTable, users: UserIndex, k: Seq<char>)
    requires
        index_consistent(conns, users),
        conns.contains_key(k),
    ensures
        index_consistent(conns.remove(k), user_remove_opt(users, conns[k].user_id, k)),
{
    let c2 = conns.remove(k);
    let u2 = user_remove_opt(users, conns[k].user_id, k);
    if let Some(u) = conns[k].user_id {
        assert(users.contains_key(u));
        lemma_list_without(users[u], k);
    }
    assert forall|x: Seq<char>|
        #![trigger c2[x]]
        c2.contains_key(x) && c2[x].user_id is Some implies u2.contains_key(c2[x].user_id->0)
        && u2[c2[x].user_id->0].contains(x) by {
        let v = conns[x].user_id->0;
        assert(users.contains_key(v) && users[v].contains(x));
        if conns[k].user_id == Some(v) {
            lemma_list_without(users[v], k);
            assert(list_without(users[v], k).contains(x));
        }
    }
    assert forall|w: Seq<char>|
        #![trigger u2[w]]
        u2.contains_key(w) implies u2[w].len() > 0 && u2[w].no_duplicates() by {
        if conns[k].user_id == Some(w) {
            lemma_list_without(users[w], k);
        }
    }
    assert forall|w: Seq<char>, j: int|
        #![trigger u2[w][j]]
        u2.contains_key(w) && 0 <= j < u2[w].len() implies c2.contains_key(u2[w][j])
        && c2[u2[w][j]].user_id == Some(w) by {
        if conns[k].user_id == Some(w) {
            lemma_list_without(users[w], k);
            let l2 = list_without(users[w], k);
            assert(l2.contains(l2[j]));
            assert(users[w].contains(l2[j]) && l2[j] != k);
            let jj = choose|jj: int| 0 <= jj < users[w].len() && users[w][jj] == l2[j];
            assert(conns[users[w][jj]].user_id == Some(w));
        } else {
            assert(u2[w] == users[w]);
            if users[w][j] == k {
                assert(conns[k].user_id == Some(w));
            }
        }
    }
}

/// Changing a connection's state without changing its user keeps the index
/// consistent.
pub proof fn lemma_same_user(conns: ConnTable, users: UserIndex, k: Seq<char>, info: ConnectionInfoView)
    requires
        index_consistent(conns, users),
        conns.contains_key(k),
        info.user_id == conns[k].user_id,
    ensures
        index_consistent(conns.insert(k, info), users),
{
    let c2 = conns.insert(k, info);
    assert forall|w: Seq<char>, j: int|
        #![trigger users[w][j]]
        users.contains_key(w) && 0 <= j < users[w].len() implies c2.contains_key(users[w][j])
        && c2[users[w][j]].user_id == Some(w) by {
        if users[w][j] == k {
        }
    }
}

/// Recording a connection already listed under its user changes nothing.
pub proof fn lemma_insert_present(conns: ConnTable, users: UserIndex, k: Seq<char>, u: Seq<char>)
    requires
        index_consistent(conns, users),
        conns.contains_key(k),
        conns[k].user_id == Some(u),
    ensures
        user_insert(users, u, k) == users,
{
}

/// Rebinding a connection to `u`: forget the old binding, then record the new
/// one; the index stays consistent.
pub proof fn lemma_rebind(conns: ConnTable, users: UserIndex, k: Seq<char>, info: ConnectionInfoView, u: Seq<char>)
    requires
        index_consistent(conns, users),
        conns.contains_key(k),
        info.user_id == Some(u),
    ensures
        index_consistent(conns.insert(k, info), user_insert(user_remove_opt(users, conns[k].user_id, k), u, k)),
{
    lemma_remove(conns, users, k);
    let c1 = conns.remove(k);
    let u1 = user_remove_opt(users, conns[k].user_id, k);
    lemma_add_bound(c1, u1, k, info, u);
    assert(c1.insert(k, info) =~= conns.insert(k, info));
}


/// Two connections of one user make one user: recording them adds exactly
/// that user to the index.
pub proof fn lemma_one_user_many_connections(users: UserIndex, u: Seq<char>, c1: Seq<char>, c2: Seq<char>)
    ensures
        user_insert(user_insert(users, u, c1), u, c2).dom() == users.dom().insert(u),
        user_insert(user_insert(users, u, c1), u, c2)[u].contains(c1),
        user_insert(user_insert(users, u, c1), u, c2)[u].contains(c2),
{
    let a = user_insert(users, u, c1);
    assert(a.contains_key(u) && a[u].contains(c1)) by {
        if users.contains_key(u) && !users[u].contains(c1) {
            assert(users[u].push(c1)[users[u].len() as int] == c1);
        } else if !users.contains_key(u) {
            assert(seq![c1][0] == c1);
        }
    }
    if !a[u].contains(c2) {
        assert(a[u].push(c2)[a[u].len() as int] == c2);
        assert(a[u].contains(c1));
        let q = choose|q: int| 0 <= q < a[u].len() && a[u][q] == c1;
        assert(a[u].push(c2)[q] == c1);
    }
    assert(user_insert(a, u, c2).dom() =~= users.dom().insert(u));
}

/// Forgetting a connection takes it out of its user's list.
pub proof fn lemma_forgotten_connection_unlisted(users: UserIndex, u: Seq<char>, c: Seq<char>)
    requires
        users.contains_key(u) ==> users[u].no_duplicates(),
    ensures
        user_remove(users, u, c).contains_key(u) ==> !user_remove(users, u, c)[u].contains(c),
        forall|w: Seq<char>| w != u ==> (#[trigger] user_remove(users, u, c).contains_key(w) == users.contains_key(w)),
{
    if users.contains_key(u) {
        lemma_list_without(users[u], c);
    }
}

} // verus!
