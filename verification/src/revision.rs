//! The revision and mutation model: a sphere's state as an immutable,
//! content-addressed node; ordered map operations replayed over a parent's
//! maps to produce a new revision; and the bundle of blocks that carries a
//! slice of history.

use vstd::prelude::*;

use crate::alist::alist_drop_key;
use crate::alist::alist_get;
use crate::alist::alist_put;
use crate::alist::lemma_alist_drop_key_get;
use crate::alist::lemma_alist_drop_key_push;
use crate::alist::lemma_alist_get_first_match;
use crate::alist::lemma_alist_get_none;
use crate::alist::lemma_alist_get_push;
use crate::alist::lemma_alist_get_update;
use crate::alist::lemma_alist_put_push;
use crate::alist::lemma_alist_put_update;
use crate::authority::Authorization;
use crate::data::Cid;
use crate::data::Did;
use crate::data::Jwt;

verus! {

/// One ordered operation against a named map: bind a key to a value, or
/// unbind a key. The operation set is closed; there are no other kinds.
pub enum MapOperation<K, V> {
    Add { key: K, value: V },
    Remove { key: K },
}

/// The mathematical form of a map operation, over the views of its key and
/// value.
pub ghost enum MapOpView<K, V> {
    Add { key: K, value: V },
    Remove { key: K },
}

impl View for MapOperation<String, Did> {
    type V = MapOpView<Seq<char>, Seq<char>>;

    open spec fn view(&self) -> MapOpView<Seq<char>, Seq<char>> {
        match self {
            MapOperation::Add { key, value } => MapOpView::Add { key: key@, value: value@ },
            MapOperation::Remove { key } => MapOpView::Remove { key: key@ },
        }
    }
}

impl View for MapOperation<Did, Cid> {
    type V = MapOpView<Seq<char>, Cid>;

    open spec fn view(&self) -> MapOpView<Seq<char>, Cid> {
        match self {
            MapOperation::Add { key, value } => MapOpView::Add { key: key@, value: *value },
            MapOperation::Remove { key } => MapOpView::Remove { key: key@ },
        }
    }
}

/// The view of a DID-keyed map of content identifiers.
pub open spec fn did_cid_view(s: Seq<(Did, Cid)>) -> Seq<(Seq<char>, Cid)> {
    Seq::new(s.len(), |i: int| (s[i].0@, s[i].1))
}

/// The view of a petname-keyed address book map.
pub open spec fn name_did_view(s: Seq<(String, Did)>) -> Seq<(Seq<char>, Seq<char>)> {
    Seq::new(s.len(), |i: int| (s[i].0@, s[i].1@))
}

/// The view of a sequence of link operations.
pub open spec fn link_ops_view(s: Seq<MapOperation<Did, Cid>>) -> Seq<MapOpView<Seq<char>, Cid>> {
    Seq::new(s.len(), |i: int| s[i]@)
}

/// The view of a sequence of address book operations.
pub open spec fn name_ops_view(s: Seq<MapOperation<String, Did>>) -> Seq<
    MapOpView<Seq<char>, Seq<char>>,
> {
    Seq::new(s.len(), |i: int| s[i]@)
}

/// What an ordered run of operations decides about key `k`, read from the
/// last deciding operation: not mentioned, bound to a value, or unbound.
pub open spec fn ops_effect<K, V>(ops: Seq<MapOpView<K, V>>, k: K) -> Option<Option<V>>
    decreases ops.len(),
{
    if ops.len() == 0 {
        None
    } else {
        match ops.last() {
            MapOpView::Add { key, value } => if key == k {
                Some(Some(value))
            } else {
                ops_effect(ops.drop_last(), k)
            },
            MapOpView::Remove { key } => if key == k {
                Some(None)
            } else {
                ops_effect(ops.drop_last(), k)
            },
        }
    }
}

/// The binding of `k` after replaying `ops`, in order, over a map that
/// started as `base`.
pub open spec fn replay_get<K, V>(
    base: Seq<(K, V)>,
    ops: Seq<MapOpView<K, V>>,
    k: K,
) -> Option<V> {
    match ops_effect(ops, k) {
        Some(decided) => decided,
        None => alist_get(base, k),
    }
}

/// Looks a DID up in a DID-keyed map.
pub fn did_cid_get(map: &Vec<(Did, Cid)>, k: &Did) -> (r: Option<Cid>)
    ensures
        r == alist_get(did_cid_view(map@), k@),
{
    let ghost sv = did_cid_view(map@);
    let mut i: usize = 0;
    while i < map.len()
        invariant
            0 <= i <= map.len(),
            sv == did_cid_view(map@),
            forall|j: int| 0 <= j < i ==> sv[j].0 != k@,
        decreases map.len() - i,
    {
        if map[i].0 == *k {
            proof {
                lemma_alist_get_first_match(sv, k@, i as int);
            }
            return Some(map[i].1);
        }
        i += 1;
    }
    proof {
        lemma_alist_get_none(sv, k@);
    }
    None
}

/// Binds a DID to a content identifier, overwriting an existing binding.
pub fn did_cid_set(map: &mut Vec<(Did, Cid)>, k: &Did, value: &Cid)
    ensures
        did_cid_view(final(map)@) == alist_put(did_cid_view(old(map)@), k@, *value),
        forall|k2: Seq<char>|
            alist_get(did_cid_view(final(map)@), k2) == (if k2 == k@ {
                Some(*value)
            } else {
                alist_get(did_cid_view(old(map)@), k2)
            }),
{
    let ghost sv = did_cid_view(map@);
    let mut i: usize = 0;
    while i < map.len()
        invariant
            0 <= i <= map.len(),
            map@ == old(map)@,
            sv == did_cid_view(map@),
            forall|j: int| 0 <= j < i ==> sv[j].0 != k@,
        decreases map.len() - i,
    {
        if map[i].0 == *k {
            map.set(i, (k.clone(), *value));
            proof {
                assert(did_cid_view(map@) =~= sv.update(i as int, (k@, *value)));
                lemma_alist_put_update(sv, k@, *value, i as int);
                assert forall|k2: Seq<char>|
                    alist_get(did_cid_view(map@), k2) == (if k2 == k@ {
                        Some(*value)
                    } else {
                        alist_get(sv, k2)
                    }) by {
                    lemma_alist_get_update(sv, i as int, (k@, *value), k2);
                }
            }
            return ;
        }
        i += 1;
    }
    map.push((k.clone(), *value));
    proof {
        assert(did_cid_view(map@) =~= sv.push((k@, *value)));
        lemma_alist_put_push(sv, k@, *value);
        assert forall|k2: Seq<char>|
            alist_get(did_cid_view(map@), k2) == (if k2 == k@ {
                Some(*value)
            } else {
                alist_get(sv, k2)
            }) by {
            lemma_alist_get_push(sv, (k@, *value), k2);
            if k2 == k@ {
                lemma_alist_get_none(sv, k2);
            }
        }
    }
}

/// Unbinds a DID: afterwards no pair of the map bears it.
pub fn did_cid_drop(map: &mut Vec<(Did, Cid)>, k: &Did)
    ensures
        forall|k2: Seq<char>|
            alist_get(did_cid_view(final(map)@), k2) == (if k2 == k@ {
                None::<Cid>
            } else {
                alist_get(did_cid_view(old(map)@), k2)
            }),
{
    let ghost sv = did_cid_view(map@);
    let mut out: Vec<(Did, Cid)> = Vec::new();
    let mut i: usize = 0;
    while i < map.len()
        invariant
            0 <= i <= map.len(),
            map@ == old(map)@,
            sv == did_cid_view(map@),
            did_cid_view(out@) == alist_drop_key(did_cid_view(map@.take(i as int)), k@),
        decreases map.len() - i,
    {
        let ghost prefix = did_cid_view(map@.take(i as int));
        if !(map[i].0 == *k) {
            out.push((map[i].0.clone(), map[i].1));
        }
        proof {
            assert(did_cid_view(map@.take(i + 1 as int)) =~= prefix.push((map@[i as int].0@, map@[i as int].1)));
            lemma_alist_drop_key_push(prefix, (map@[i as int].0@, map@[i as int].1), k@);
            if !(map@[i as int].0@ == k@) {
                assert(did_cid_view(out@) =~= alist_drop_key(prefix, k@).push(
                    (map@[i as int].0@, map@[i as int].1),
                ));
            }
        }
        i += 1;
    }
    proof {
        assert(map@.take(map@.len() as int) =~= map@);
    }
    *map = out;
    proof {
        assert forall|k2: Seq<char>|
            alist_get(did_cid_view(map@), k2) == (if k2 == k@ {
                None::<Cid>
            } else {
                alist_get(sv, k2)
            }) by {
            lemma_alist_drop_key_get(sv, k@, k2);
        }
    }
}

/// Binds a petname to a sphere identity, overwriting an existing binding.
pub fn name_did_set(map: &mut Vec<(String, Did)>, k: &String, value: &Did)
    ensures
        forall|k2: Seq<char>|
            alist_get(name_did_view(final(map)@), k2) == (if k2 == k@ {
                Some(value@)
            } else {
                alist_get(name_did_view(old(map)@), k2)
            }),
{
    let ghost sv = name_did_view(map@);
    let mut i: usize = 0;
    while i < map.len()
        invariant
            0 <= i <= map.len(),
            map@ == old(map)@,
            sv == name_did_view(map@),
            forall|j: int| 0 <= j < i ==> sv[j].0 != k@,
        decreases map.len() - i,
    {
        if map[i].0 == *k {
            map.set(i, (k.clone(), value.clone()));
            proof {
                assert(name_did_view(map@) =~= sv.update(i as int, (k@, value@)));
                assert forall|k2: Seq<char>|
                    alist_get(name_did_view(map@), k2) == (if k2 == k@ {
                        Some(value@)
                    } else {
                        alist_get(sv, k2)
                    }) by {
                    lemma_alist_get_update(sv, i as int, (k@, value@), k2);
                }
            }
            return ;
        }
        i += 1;
    }
    map.push((k.clone(), value.clone()));
    proof {
        assert(name_did_view(map@) =~= sv.push((k@, value@)));
        assert forall|k2: Seq<char>|
            alist_get(name_did_view(map@), k2) == (if k2 == k@ {
                Some(value@)
            } else {
                alist_get(sv, k2)
            }) by {
            lemma_alist_get_push(sv, (k@, value@), k2);
            if k2 == k@ {
                lemma_alist_get_none(sv, k2);
            }
        }
    }
}

/// Unbinds a petname: afterwards no pair of the address book bears it.
pub fn name_did_drop(map: &mut Vec<(String, Did)>, k: &String)
    ensures
        forall|k2: Seq<char>|
            alist_get(name_did_view(final(map)@), k2) == (if k2 == k@ {
                None::<Seq<char>>
            } else {
                alist_get(name_did_view(old(map)@), k2)
            }),
{
    let ghost sv = name_did_view(map@);
    let mut out: Vec<(String, Did)> = Vec::new();
    let mut i: usize = 0;
    while i < map.len()
        invariant
            0 <= i <= map.len(),
            map@ == old(map)@,
            sv == name_did_view(map@),
            name_did_view(out@) == alist_drop_key(name_did_view(map@.take(i as int)), k@),
        decreases map.len() - i,
    {
        let ghost prefix = name_did_view(map@.take(i as int));
        if !(map[i].0 == *k) {
            out.push((map[i].0.clone(), map[i].1.clone()));
        }
        proof {
            assert(name_did_view(map@.take(i + 1 as int)) =~= prefix.push((map@[i as int].0@, map@[i as int].1@)));
            lemma_alist_drop_key_push(prefix, (map@[i as int].0@, map@[i as int].1@), k@);
            if !(map@[i as int].0@ == k@) {
                assert(name_did_view(out@) =~= alist_drop_key(prefix, k@).push(
                    (map@[i as int].0@, map@[i as int].1@),
                ));
            }
        }
        i += 1;
    }
    proof {
        assert(map@.take(map@.len() as int) =~= map@);
    }
    *map = out;
    proof {
        assert forall|k2: Seq<char>|
            alist_get(name_did_view(map@), k2) == (if k2 == k@ {
                None::<Seq<char>>
            } else {
                alist_get(sv, k2)
            }) by {
            lemma_alist_drop_key_get(sv, k@, k2);
        }
    }
}

/// Replays ordered link operations over a map, in place.
pub fn apply_link_ops(map: &mut Vec<(Did, Cid)>, ops: &Vec<MapOperation<Did, Cid>>)
    ensures
        forall|k: Seq<char>|
            alist_get(did_cid_view(final(map)@), k) == replay_get(
                did_cid_view(old(map)@),
                link_ops_view(ops@),
                k,
            ),
{
    let ghost base = did_cid_view(old(map)@);
    let ghost lov = link_ops_view(ops@);
    let mut i: usize = 0;
    while i < ops.len()
        invariant
            0 <= i <= ops.len(),
            lov == link_ops_view(ops@),
            lov.len() == ops@.len(),
            forall|j: int| 0 <= j < ops@.len() ==> lov[j] == ops@[j]@,
            forall|k: Seq<char>|
                alist_get(did_cid_view(map@), k) == replay_get(base, lov.take(i as int), k),
        decreases ops.len() - i,
    {
        let ghost before = did_cid_view(map@);
        match &ops[i] {
            MapOperation::Add { key, value } => {
                did_cid_set(map, key, value);
            },
            MapOperation::Remove { key } => {
                did_cid_drop(map, key);
            },
        }
        proof {
            assert(lov.take(i + 1 as int).drop_last() =~= lov.take(i as int));
            assert(lov.take(i + 1 as int).last() == lov[i as int]);
        }
        i += 1;
    }
    proof {
        assert(lov.take(ops@.len() as int) =~= lov);
    }
}

/// Replays ordered address book operations over a map, in place.
pub fn apply_name_ops(map: &mut Vec<(String, Did)>, ops: &Vec<MapOperation<String, Did>>)
    ensures
        forall|k: Seq<char>|
            alist_get(name_did_view(final(map)@), k) == replay_get(
                name_did_view(old(map)@),
                name_ops_view(ops@),
                k,
            ),
{
    let ghost base = name_did_view(old(map)@);
    let ghost nov = name_ops_view(ops@);
    let mut i: usize = 0;
    while i < ops.len()
        invariant
            0 <= i <= ops.len(),
            nov == name_ops_view(ops@),
            nov.len() == ops@.len(),
            forall|j: int| 0 <= j < ops@.len() ==> nov[j] == ops@[j]@,
            forall|k: Seq<char>|
                alist_get(name_did_view(map@), k) == replay_get(base, nov.take(i as int), k),
        decreases ops.len() - i,
    {
        match &ops[i] {
            MapOperation::Add { key, value } => {
                name_did_set(map, key, value);
            },
            MapOperation::Remove { key } => {
                name_did_drop(map, key);
            },
        }
        proof {
            assert(nov.take(i + 1 as int).drop_last() =~= nov.take(i as int));
            assert(nov.take(i + 1 as int).last() == nov[i as int]);
        }
        i += 1;
    }
    proof {
        assert(nov.take(ops@.len() as int) =~= nov);
    }
}

/// Copies a DID-keyed map, preserving its view.
pub fn clone_links(map: &Vec<(Did, Cid)>) -> (r: Vec<(Did, Cid)>)
    ensures
        did_cid_view(r@) == did_cid_view(map@),
{
    let mut out: Vec<(Did, Cid)> = Vec::new();
    let mut i: usize = 0;
    while i < map.len()
        invariant
            0 <= i <= map.len(),
            out@.len() == i,
            forall|j: int| 0 <= j < i ==> out@[j].0@ == map@[j].0@ && out@[j].1 == map@[j].1,
        decreases map.len() - i,
    {
        out.push((map[i].0.clone(), map[i].1));
        i += 1;
    }
    proof {
        assert(did_cid_view(out@) =~= did_cid_view(map@));
    }
    out
}

/// Copies an address book map, preserving its view.
pub fn clone_names(map: &Vec<(String, Did)>) -> (r: Vec<(String, Did)>)
    ensures
        name_did_view(r@) == name_did_view(map@),
{
    let mut out: Vec<(String, Did)> = Vec::new();
    let mut i: usize = 0;
    while i < map.len()
        invariant
            0 <= i <= map.len(),
            out@.len() == i,
            forall|j: int| 0 <= j < i ==> out@[j].0@ == map@[j].0@ && out@[j].1@ == map@[j].1@,
        decreases map.len() - i,
    {
        out.push((map[i].0.clone(), map[i].1.clone()));
        i += 1;
    }
    proof {
        assert(name_did_view(out@) =~= name_did_view(map@));
    }
    out
}

/// Copies a run of address book operations, preserving its view.
pub fn clone_name_ops(ops: &Vec<MapOperation<String, Did>>) -> (r: Vec<
    MapOperation<String, Did>,
>)
    ensures
        name_ops_view(r@) == name_ops_view(ops@),
{
    let mut out: Vec<MapOperation<String, Did>> = Vec::new();
    let mut i: usize = 0;
    while i < ops.len()
        invariant
            0 <= i <= ops.len(),
            out@.len() == i,
            forall|j: int| 0 <= j < i ==> out@[j]@ == ops@[j]@,
        decreases ops.len() - i,
    {
        let copy = match &ops[i] {
            MapOperation::Add { key, value } => MapOperation::Add {
                key: key.clone(),
                value: value.clone(),
            },
            MapOperation::Remove { key } => MapOperation::Remove { key: key.clone() },
        };
        out.push(copy);
        i += 1;
    }
    proof {
        assert(name_ops_view(out@) =~= name_ops_view(ops@));
    }
    out
}

/// One content-addressed snapshot of a sphere: its parent pointer, its maps,
/// the changelog of its address book against its parent, and — once signed —
/// the signature and authorization reference bound to it. Immutable once
/// stored.
pub struct Revision {
    /// The revision this one descends from, or nothing at the root.
    pub parent: Option<Cid>,
    /// The DID of the author of the change.
    pub author: Did,
    /// The link map: names (DIDs) bound to content identifiers.
    pub links: Vec<(Did, Cid)>,
    /// The address book: petnames bound to sphere identities.
    pub names: Vec<(String, Did)>,
    /// The ordered operations by which `names` differs from the parent's.
    pub name_changes: Vec<MapOperation<String, Did>>,
    /// The signature bound at signing time, or nothing while unsigned.
    pub signature: Option<Jwt>,
    /// The authorization reference bound at signing time.
    pub authorization: Option<Authorization>,
}

/// The mathematical form of a revision.
pub ghost struct RevisionView {
    pub parent: Option<Cid>,
    pub author: Seq<char>,
    pub links: Seq<(Seq<char>, Cid)>,
    pub names: Seq<(Seq<char>, Seq<char>)>,
    pub name_changes: Seq<MapOpView<Seq<char>, Seq<char>>>,
    pub signature: Option<Seq<char>>,
    pub authorization: Option<Seq<char>>,
}

impl View for Revision {
    type V = RevisionView;

    open spec fn view(&self) -> RevisionView {
        RevisionView {
            parent: self.parent,
            author: self.author@,
            links: did_cid_view(self.links@),
            names: name_did_view(self.names@),
            name_changes: name_ops_view(self.name_changes@),
            signature: match self.signature {
                Some(jwt) => Some(jwt@),
                None => None,
            },
            authorization: match self.authorization {
                Some(authorization) => Some(authorization@),
                None => None,
            },
        }
    }
}

impl Clone for Revision {
    fn clone(&self) -> (r: Self)
        ensures
            r@ == self@,
    {
        Revision {
            parent: self.parent,
            author: self.author.clone(),
            links: clone_links(&self.links),
            names: clone_names(&self.names),
            name_changes: clone_name_ops(&self.name_changes),
            signature: match &self.signature {
                Some(jwt) => Some(jwt.clone()),
                None => None,
            },
            authorization: match &self.authorization {
                Some(authorization) => Some(authorization.clone()),
                None => None,
            },
        }
    }
}

/// The view of a sequence of addressed blocks.
pub open spec fn block_pairs_view(s: Seq<(Cid, Revision)>) -> Seq<(Cid, RevisionView)> {
    Seq::new(s.len(), |i: int| (s[i].0, s[i].1@))
}

/// A delta set of addressed blocks, sufficient to reconstruct one revision
/// back to some stated ancestor.
pub struct Bundle {
    pub blocks: Vec<(Cid, Revision)>,
}

impl View for Bundle {
    type V = Seq<(Cid, RevisionView)>;

    open spec fn view(&self) -> Seq<(Cid, RevisionView)> {
        block_pairs_view(self.blocks@)
    }
}

/// A pending, not yet committed set of map operations against a sphere,
/// applied atomically to a parent revision to produce one new unsigned
/// revision.
pub struct SphereMutation {
    /// The DID of the author of the mutation.
    pub author: Did,
    /// Ordered operations against the link map.
    pub links: Vec<MapOperation<Did, Cid>>,
    /// Ordered operations against the address book.
    pub names: Vec<MapOperation<String, Did>>,
}

impl SphereMutation {
    /// A mutation with no operations yet, authored by `author`.
    pub fn new(author: &Did) -> (r: SphereMutation)
        ensures
            r.author@ == author@,
            link_ops_view(r.links@) =~= Seq::<MapOpView<Seq<char>, Cid>>::empty(),
            name_ops_view(r.names@) =~= Seq::<MapOpView<Seq<char>, Seq<char>>>::empty(),
    {
        SphereMutation { author: author.clone(), links: Vec::new(), names: Vec::new() }
    }

    /// Appends an operation binding `key` to `value` in the link map.
    pub fn set_link(&mut self, key: &Did, value: &Cid)
        ensures
            final(self).author@ == old(self).author@,
            link_ops_view(final(self).links@) == link_ops_view(old(self).links@).push(
                MapOpView::Add { key: key@, value: *value },
            ),
            final(self).names@ == old(self).names@,
    {
        self.links.push(MapOperation::Add { key: key.clone(), value: *value });
        proof {
            assert(link_ops_view(self.links@) =~= link_ops_view(old(self).links@).push(
                MapOpView::Add { key: key@, value: *value },
            ));
        }
    }

    /// Appends an operation unbinding `key` from the link map.
    pub fn remove_link(&mut self, key: &Did)
        ensures
            final(self).author@ == old(self).author@,
            link_ops_view(final(self).links@) == link_ops_view(old(self).links@).push(
                MapOpView::Remove { key: key@ },
            ),
            final(self).names@ == old(self).names@,
    {
        self.links.push(MapOperation::Remove { key: key.clone() });
        proof {
            assert(link_ops_view(self.links@) =~= link_ops_view(old(self).links@).push(
                MapOpView::Remove { key: key@ },
            ));
        }
    }

    /// Appends an operation binding petname `key` to identity `value` in the
    /// address book.
    pub fn set_name(&mut self, key: &String, value: &Did)
        ensures
            final(self).author@ == old(self).author@,
            name_ops_view(final(self).names@) == name_ops_view(old(self).names@).push(
                MapOpView::Add { key: key@, value: value@ },
            ),
            final(self).links@ == old(self).links@,
    {
        self.names.push(MapOperation::Add { key: key.clone(), value: value.clone() });
        proof {
            assert(name_ops_view(self.names@) =~= name_ops_view(old(self).names@).push(
                MapOpView::Add { key: key@, value: value@ },
            ));
        }
    }

    /// Appends an operation unbinding petname `key` from the address book.
    pub fn remove_name(&mut self, key: &String)
        ensures
            final(self).author@ == old(self).author@,
            name_ops_view(final(self).names@) == name_ops_view(old(self).names@).push(
                MapOpView::Remove { key: key@ },
            ),
            final(self).links@ == old(self).links@,
    {
        self.names.push(MapOperation::Remove { key: key.clone() });
        proof {
            assert(name_ops_view(self.names@) =~= name_ops_view(old(self).names@).push(
                MapOpView::Remove { key: key@ },
            ));
        }
    }
}

} // verus!
