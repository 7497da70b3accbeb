//! The members of an object as a mapping by their keys.

use crate::json::{member_views, JsonView, Member};
use crate::text::{
    lemma_text_lt_irreflexive, lemma_text_lt_total, lemma_text_lt_transitive, text_before,
    text_lt,
};
use vstd::prelude::*;

verus! {

/// What the members of an object stand for: their keys and the views of their values.
pub type MemberViews = Seq<(Seq<char>, JsonView)>;

/// The place of the member with this key, the last one where several have it.
pub open spec fn key_position(members: MemberViews, key: Seq<char>) -> Option<int>
    decreases members.len(),
{
    if members.len() == 0 {
        None
    } else if members.last().0 == key {
        Some(members.len() - 1)
    } else {
        key_position(members.drop_last(), key)
    }
}

/// Where a member with this key goes among members whose keys ascend: behind the last
/// one whose key comes before it, at the front where there is none.
pub open spec fn key_place(members: MemberViews, key: Seq<char>) -> int
    decreases members.len(),
{
    if members.len() == 0 || text_lt(members.last().0, key) {
        members.len() as int
    } else {
        key_place(members.drop_last(), key)
    }
}

/// The members with `m` among them: in the place of the member that has its key, and
/// where none has it, where its key goes in the order of texts.
pub open spec fn put_member(members: MemberViews, m: (Seq<char>, JsonView)) -> MemberViews {
    match key_position(members, m.0) {
        Some(i) => members.update(i, m),
        None => members.insert(key_place(members, m.0), m),
    }
}

/// Whether the keys of the members ascend in the order of texts, each one coming
/// before the next.
pub open spec fn ascending_keys(members: MemberViews) -> bool {
    forall|i: int, j: int|
        0 <= i < j < members.len() ==> text_lt(
            (#[trigger] members[i]).0,
            (#[trigger] members[j]).0,
        )
}

/// Whether two objects hold the same members: each member of the one is a member
/// of the other.
pub open spec fn same_members(a: MemberViews, b: MemberViews) -> bool {
    &&& forall|i: int| 0 <= i < a.len() ==> b.contains(#[trigger] a[i])
    &&& forall|j: int| 0 <= j < b.len() ==> a.contains(#[trigger] b[j])
}

/// The members as a mapping by their keys: of several with one key the last is kept, and
/// the keys ascend in the order of texts.
pub open spec fn keyed_members(members: MemberViews) -> MemberViews
    decreases members.len(),
{
    if members.len() == 0 {
        members
    } else {
        put_member(keyed_members(members.drop_last()), members.last())
    }
}

/// The place of the member with this key.
fn member_position(members: &Vec<Member>, key: &String) -> (r: Option<usize>)
    ensures
        r is Some <==> key_position(member_views(members@), key@) is Some,
        r is Some ==> r->0 < members.len() && key_position(member_views(members@), key@)
            == Some(r->0 as int),
{
    let ghost all = member_views(members@);
    let mut i: usize = members.len();
    assert(all.take(i as int) =~= all);
    while i > 0
        invariant
            i <= members.len(),
            all == member_views(members@),
            key_position(all, key@) == key_position(all.take(i as int), key@),
        decreases i,
    {
        i = i - 1;
        assert(all.take(i + 1).drop_last() =~= all.take(i as int));
        if members[i].key == *key {
            return Some(i);
        }
    }
    None
}

/// Where a member with this key goes among the members.
fn member_place(members: &Vec<Member>, key: &String) -> (r: usize)
    ensures
        r == key_place(member_views(members@), key@),
        r <= members.len(),
{
    let ghost all = member_views(members@);
    let mut k: usize = members.len();
    assert(all.take(k as int) =~= all);
    while k > 0 && !text_before(members[k - 1].key.as_str(), key.as_str())
        invariant
            k <= members.len(),
            all == member_views(members@),
            key_place(all, key@) == key_place(all.take(k as int), key@),
        decreases k,
    {
        assert(all.take(k as int).drop_last() =~= all.take(k - 1));
        assert(all.take(k as int).last() == (members@[k - 1].key@, members@[k - 1].value@));
        k = k - 1;
    }
    proof {
        if k > 0 {
            assert(all.take(k as int).last() == (members@[k - 1].key@, members@[k - 1].value@));
        }
    }
    k
}

/// Copies of the members as a mapping by their keys.
pub fn keyed_members_copy(members: &Vec<Member>) -> (r: Vec<Member>)
    ensures
        member_views(r@) == keyed_members(member_views(members@)),
{
    let ghost all = member_views(members@);
    let mut r: Vec<Member> = Vec::new();
    let mut i: usize = 0;
    while i < members.len()
        invariant
            i <= members.len(),
            all == member_views(members@),
            member_views(r@) == keyed_members(all.take(i as int)),
        decreases members.len() - i,
    {
        let m = Member { key: members[i].key.clone(), value: members[i].value.duplicate() };
        proof {
            assert(all.take(i + 1).drop_last() =~= all.take(i as int));
        }
        match member_position(&r, &m.key) {
            Some(at) => r.set(at, m),
            None => {
                let at = member_place(&r, &m.key);
                r.insert(at, m);
            },
        }
        i = i + 1;
    }
    assert(all.take(i as int) =~= all);
    r
}

/// Where a member with the key is found it has that key, and where none is found no
/// member has it.
pub proof fn lemma_key_position(members: MemberViews, key: Seq<char>)
    ensures
        match key_position(members, key) {
            Some(i) => 0 <= i < members.len() && members[i].0 == key,
            None => forall|j: int| 0 <= j < members.len() ==> (#[trigger] members[j]).0 != key,
        },
    decreases members.len(),
{
    if members.len() > 0 && members.last().0 != key {
        let front = members.drop_last();
        lemma_key_position(front, key);
        if key_position(front, key) is None {
            assert forall|j: int| 0 <= j < members.len() implies (#[trigger] members[j]).0
                != key by {
                if j < front.len() {
                    assert(front[j] == members[j]);
                }
            }
        }
    }
}

/// What [`key_place`] gives: a place in the sequence, behind a member whose key comes
/// before the key and before all members whose keys do not.
pub proof fn lemma_key_place(members: MemberViews, key: Seq<char>)
    ensures
        0 <= key_place(members, key) <= members.len(),
        key_place(members, key) > 0 ==> text_lt(members[key_place(members, key) - 1].0, key),
        forall|j: int|
            key_place(members, key) <= j < members.len() ==> !text_lt(
                (#[trigger] members[j]).0,
                key,
            ),
    decreases members.len(),
{
    if members.len() == 0 || text_lt(members.last().0, key) {
    } else {
        let front = members.drop_last();
        lemma_key_place(front, key);
        assert forall|j: int| key_place(members, key) <= j < members.len() implies !text_lt(
            (#[trigger] members[j]).0,
            key,
        ) by {
            if j < front.len() {
                assert(members[j] == front[j]);
            }
        }
    }
}

/// Members whose keys ascend stay so when a member is put among them.
pub proof fn lemma_put_member_ascending(members: MemberViews, m: (Seq<char>, JsonView))
    requires
        ascending_keys(members),
    ensures
        ascending_keys(put_member(members, m)),
{
    let after = put_member(members, m);
    lemma_key_position(members, m.0);
    match key_position(members, m.0) {
        Some(at) => {
            assert forall|i: int, j: int| 0 <= i < j < after.len() implies text_lt(
                (#[trigger] after[i]).0,
                (#[trigger] after[j]).0,
            ) by {
                assert(after[i].0 == members[i].0 && after[j].0 == members[j].0);
            }
        },
        None => {
            let k = key_place(members, m.0);
            lemma_key_place(members, m.0);
            assert forall|i: int, j: int| 0 <= i < j < after.len() implies text_lt(
                (#[trigger] after[i]).0,
                (#[trigger] after[j]).0,
            ) by {
                if j < k {
                    assert(after[i] == members[i] && after[j] == members[j]);
                } else if j == k {
                    assert(after[i] == members[i]);
                    if i < k - 1 {
                        lemma_text_lt_transitive(members[i].0, members[k - 1].0, m.0);
                    }
                } else if i == k {
                    assert(after[j] == members[j - 1]);
                    lemma_text_lt_total(m.0, members[j - 1].0);
                } else if i < k {
                    assert(after[i] == members[i] && after[j] == members[j - 1]);
                } else {
                    assert(after[i] == members[i - 1] && after[j] == members[j - 1]);
                }
            }
        },
    }
}

/// The keys of keyed members ascend.
pub proof fn lemma_keyed_members_ascending(members: MemberViews)
    ensures
        ascending_keys(keyed_members(members)),
    decreases members.len(),
{
    if members.len() > 0 {
        lemma_keyed_members_ascending(members.drop_last());
        lemma_put_member_ascending(keyed_members(members.drop_last()), members.last());
    }
}

/// An object is fixed by its members: two sequences of the same members, each with
/// ascending keys, are the same sequence.
pub proof fn lemma_same_members_same_sequence(a: MemberViews, b: MemberViews)
    requires
        ascending_keys(a),
        ascending_keys(b),
        same_members(a, b),
    ensures
        a == b,
    decreases a.len(),
{
    if a.len() == 0 {
        if b.len() > 0 {
            assert(a.contains(b[0]));
        }
        assert(a =~= b);
    } else if b.len() == 0 {
        assert(b.contains(a[0]));
    } else {
        let m = a.len() - 1;
        let n = b.len() - 1;
        assert(b.contains(a[m]));
        assert(a.contains(b[n]));
        let j = choose|j: int| 0 <= j < b.len() && b[j] == a[m];
        let i = choose|i: int| 0 <= i < a.len() && a[i] == b[n];
        lemma_text_lt_irreflexive(a[m].0);
        // The last member of each object is a member of the other, so neither of
        // the two last keys comes before the other.
        if i < m && j < n {
            lemma_text_lt_transitive(a[m].0, b[n].0, a[m].0);
        }
        assert(a[m] == b[n]);
        let front_a = a.drop_last();
        let front_b = b.drop_last();
        assert forall|x: int| 0 <= x < front_a.len() implies front_b.contains(
            #[trigger] front_a[x],
        ) by {
            assert(front_a[x] == a[x]);
            assert(b.contains(a[x]));
            let y = choose|y: int| 0 <= y < b.len() && b[y] == a[x];
            assert(text_lt(a[x].0, a[m].0));
            assert(y < n);
            assert(front_b[y] == a[x]);
        }
        assert forall|y: int| 0 <= y < front_b.len() implies front_a.contains(
            #[trigger] front_b[y],
        ) by {
            assert(front_b[y] == b[y]);
            assert(a.contains(b[y]));
            let x = choose|x: int| 0 <= x < a.len() && a[x] == b[y];
            assert(text_lt(b[y].0, b[n].0));
            assert(x < m);
            assert(front_a[x] == b[y]);
        }
        assert forall|x: int, y: int| 0 <= x < y < front_a.len() implies text_lt(
            (#[trigger] front_a[x]).0,
            (#[trigger] front_a[y]).0,
        ) by {
            assert(front_a[x] == a[x] && front_a[y] == a[y]);
        }
        assert forall|x: int, y: int| 0 <= x < y < front_b.len() implies text_lt(
            (#[trigger] front_b[x]).0,
            (#[trigger] front_b[y]).0,
        ) by {
            assert(front_b[x] == b[x] && front_b[y] == b[y]);
        }
        lemma_same_members_same_sequence(front_a, front_b);
        assert(a =~= front_a.push(a[m]));
        assert(b =~= front_b.push(b[n]));
    }
}

} // verus!
