//! The registry of managed VMs, keyed by the caller's VM id and kept in id
//! order so that listings come out sorted.

use vstd::prelude::*;
use crate::text::{
    chars_of, lemma_lex_irreflexive, lemma_lex_transitive, lemma_lex_trichotomy, lex_less,
    lex_less_exec,
};

verus! {

/// A reversible move of QEMU's real QMP socket path.
pub struct SocketMove {
    /// Original path clients expect to use.
    pub original: String,
    /// Generated backend path that only the manager uses while registered.
    pub backend: String,
}

/// The mathematical value of a [`SocketMove`].
pub struct SocketMoveView {
    pub original: Seq<char>,
    pub backend: Seq<char>,
}

impl View for SocketMove {
    type V = SocketMoveView;

    open spec fn view(&self) -> SocketMoveView {
        SocketMoveView { original: self.original@, backend: self.backend@ }
    }
}

impl SocketMove {
    /// A copy of this move.
    pub fn duplicate(&self) -> (r: SocketMove)
        ensures
            r@ == self@,
    {
        SocketMove { original: self.original.clone(), backend: self.backend.clone() }
    }
}

/// The socket paths of one managed QEMU instance.
pub struct VmRecord {
    /// Public QEMU monitor socket path supplied at registration time.
    pub qmp_socket: String,
    /// Real QEMU monitor socket path used by the backend worker.
    pub backend_qmp_socket: String,
    /// Manager-owned socket exposed to QMP clients.
    pub client_socket: String,
    /// Socket rename state when the manager hides the real QEMU socket.
    pub socket_move: Option<SocketMove>,
}

/// The mathematical value of a [`VmRecord`].
pub struct VmRecordView {
    pub qmp_socket: Seq<char>,
    pub backend_qmp_socket: Seq<char>,
    pub client_socket: Seq<char>,
    pub socket_move: Option<SocketMoveView>,
}

impl View for VmRecord {
    type V = VmRecordView;

    open spec fn view(&self) -> VmRecordView {
        VmRecordView {
            qmp_socket: self.qmp_socket@,
            backend_qmp_socket: self.backend_qmp_socket@,
            client_socket: self.client_socket@,
            socket_move: match self.socket_move {
                Some(m) => Some(m@),
                None => None,
            },
        }
    }
}

/// Public representation of one registered VM.
pub struct VmInfo {
    pub id: String,
    pub qmp_socket: String,
    pub client_socket: String,
    pub moved_qmp_socket: bool,
}

/// The mathematical value of a [`VmInfo`].
pub struct VmInfoView {
    pub id: Seq<char>,
    pub qmp_socket: Seq<char>,
    pub client_socket: Seq<char>,
    pub moved_qmp_socket: bool,
}

impl View for VmInfo {
    type V = VmInfoView;

    open spec fn view(&self) -> VmInfoView {
        VmInfoView {
            id: self.id@,
            qmp_socket: self.qmp_socket@,
            client_socket: self.client_socket@,
            moved_qmp_socket: self.moved_qmp_socket,
        }
    }
}

/// What the listing shows of VM `id` with record `r`.
pub open spec fn info_of(id: Seq<char>, r: VmRecordView) -> VmInfoView {
    VmInfoView {
        id,
        qmp_socket: r.qmp_socket,
        client_socket: r.client_socket,
        moved_qmp_socket: r.socket_move is Some,
    }
}

/// One registered VM: its id, its paths, and the caller's runtime handle.
pub struct VmEntry<H> {
    pub id: String,
    pub record: VmRecord,
    pub handle: H,
}

/// Ids strictly increase along the sequence.
pub open spec fn ids_increasing<H>(s: Seq<VmEntry<H>>) -> bool {
    forall|i: int, j: int| 0 <= i < j < s.len() ==> lex_less(#[trigger] s[i].id@, #[trigger] s[j].id@)
}

/// Whether some entry has id `k`.
pub open spec fn has_id<H>(s: Seq<VmEntry<H>>, k: Seq<char>) -> bool {
    exists|i: int| 0 <= i < s.len() && #[trigger] s[i].id@ == k
}

/// The index of an entry with id `k`.
pub open spec fn entry_index<H>(s: Seq<VmEntry<H>>, k: Seq<char>) -> int {
    choose|i: int| 0 <= i < s.len() && #[trigger] s[i].id@ == k
}

/// The record and handle of an entry with id `k`.
pub open spec fn entry_value<H>(s: Seq<VmEntry<H>>, k: Seq<char>) -> (VmRecordView, H) {
    let i = entry_index(s, k);
    (s[i].record@, s[i].handle)
}

/// The map from id to record and handle that a sequence of entries holds.
pub open spec fn entries_map<H>(s: Seq<VmEntry<H>>) -> Map<Seq<char>, (VmRecordView, H)> {
    Map::new(|k: Seq<char>| has_id(s, k), |k: Seq<char>| entry_value(s, k))
}

/// In increasing order, the entry at `i` is the one the map gives for its id.
proof fn lemma_entries_map_at<H>(s: Seq<VmEntry<H>>, i: int)
    requires
        ids_increasing(s),
        0 <= i < s.len(),
    ensures
        entries_map(s).contains_key(s[i].id@),
        entries_map(s)[s[i].id@] == (s[i].record@, s[i].handle),
{
    let k = s[i].id@;
    assert(exists|j: int| 0 <= j < s.len() && #[trigger] s[j].id@ == k);
    let j = entry_index(s, k);
    assert(0 <= j < s.len() && s[j].id@ == k);
    assert(entries_map(s).contains_key(k));
    assert(entries_map(s)[k] == entry_value(s, k));
    if j != i {
        lemma_lex_irreflexive(k);
        if j < i {
            assert(lex_less(s[j].id@, s[i].id@));
        } else {
            assert(lex_less(s[i].id@, s[j].id@));
        }
    }
}

/// Inserting a new id at its place in the order adds exactly that id.
proof fn lemma_map_insert<H>(old: Seq<VmEntry<H>>, new: Seq<VmEntry<H>>, pos: int, e: VmEntry<H>)
    requires
        ids_increasing(old),
        ids_increasing(new),
        0 <= pos <= old.len(),
        new == old.insert(pos, e),
        !has_id(old, e.id@),
    ensures
        entries_map(new) == entries_map(old).insert(e.id@, (e.record@, e.handle)),
{
    let nm = entries_map(new);
    let om = entries_map(old).insert(e.id@, (e.record@, e.handle));
    assert forall|k: Seq<char>| #[trigger] nm.contains_key(k) == om.contains_key(k) by {
        if nm.contains_key(k) {
            let i = entry_index(new, k);
            if i != pos {
                let j = if i < pos { i } else { i - 1 };
                assert(old[j] == new[i]);
                lemma_entries_map_at(old, j);
            }
        }
        if om.contains_key(k) && k != e.id@ {
            let j = entry_index(old, k);
            let i = if j < pos { j } else { j + 1 };
            assert(old[j] == new[i]);
            lemma_entries_map_at(new, i);
        }
        if k == e.id@ {
            lemma_entries_map_at(new, pos);
        }
    }
    assert forall|k: Seq<char>| #[trigger] nm.contains_key(k) implies nm[k] == om[k] by {
        let i = entry_index(new, k);
        lemma_entries_map_at(new, i);
        if i != pos {
            let j = if i < pos { i } else { i - 1 };
            assert(old[j] == new[i]);
            lemma_entries_map_at(old, j);
        }
    }
    assert(nm =~= om);
}

/// Replacing the entry of an id already present changes only that id's value.
proof fn lemma_map_update<H>(old: Seq<VmEntry<H>>, new: Seq<VmEntry<H>>, pos: int, e: VmEntry<H>)
    requires
        ids_increasing(old),
        ids_increasing(new),
        0 <= pos < old.len(),
        old[pos].id@ == e.id@,
        new == old.update(pos, e),
    ensures
        entries_map(new) == entries_map(old).insert(e.id@, (e.record@, e.handle)),
{
    let nm = entries_map(new);
    let om = entries_map(old).insert(e.id@, (e.record@, e.handle));
    assert forall|k: Seq<char>| #[trigger] nm.contains_key(k) == om.contains_key(k) by {
        if nm.contains_key(k) {
            let i = entry_index(new, k);
            if i != pos {
                assert(old[i] == new[i]);
                lemma_entries_map_at(old, i);
            }
        }
        if om.contains_key(k) {
            if k == e.id@ {
                lemma_entries_map_at(new, pos);
            } else {
                let j = entry_index(old, k);
                assert(old[j] == new[j]);
                lemma_entries_map_at(new, j);
            }
        }
    }
    assert forall|k: Seq<char>| #[trigger] nm.contains_key(k) implies nm[k] == om[k] by {
        assert(has_id(new, k));
        let i = entry_index(new, k);
        lemma_entries_map_at(new, i);
        if i != pos {
            assert(old[i] == new[i]);
            lemma_entries_map_at(old, i);
            lemma_lex_irreflexive(e.id@);
            if i < pos {
                assert(lex_less(old[i].id@, old[pos].id@));
            } else {
                assert(lex_less(old[pos].id@, old[i].id@));
            }
        }
    }
    assert(nm =~= om);
}

/// Removing the entry at `pos` removes exactly its id.
proof fn lemma_map_remove<H>(old: Seq<VmEntry<H>>, new: Seq<VmEntry<H>>, pos: int)
    requires
        ids_increasing(old),
        ids_increasing(new),
        0 <= pos < old.len(),
        new == old.remove(pos),
    ensures
        entries_map(new) == entries_map(old).remove(old[pos].id@),
{
    let nm = entries_map(new);
    let om = entries_map(old).remove(old[pos].id@);
    lemma_lex_irreflexive(old[pos].id@);
    assert forall|k: Seq<char>| #[trigger] nm.contains_key(k) == om.contains_key(k) by {
        if nm.contains_key(k) {
            let i = entry_index(new, k);
            let j = if i < pos { i } else { i + 1 };
            assert(old[j] == new[i]);
            lemma_entries_map_at(old, j);
            if j < pos {
                assert(lex_less(old[j].id@, old[pos].id@));
            } else {
                assert(lex_less(old[pos].id@, old[j].id@));
            }
        }
        if om.contains_key(k) {
            let j = entry_index(old, k);
            assert(j != pos);
            let i = if j < pos { j } else { j - 1 };
            assert(old[j] == new[i]);
            lemma_entries_map_at(new, i);
        }
    }
    assert forall|k: Seq<char>| #[trigger] nm.contains_key(k) implies nm[k] == om[k] by {
        assert(has_id(new, k));
        let i = entry_index(new, k);
        assert(new[i].id@ == k);
        lemma_entries_map_at(new, i);
        let j = if i < pos { i } else { i + 1 };
        assert(old[j] == new[i]);
        lemma_entries_map_at(old, j);
        if j < pos {
            assert(lex_less(old[j].id@, old[pos].id@));
        } else {
            assert(lex_less(old[pos].id@, old[j].id@));
        }
    }
    assert(nm =~= om);
}

/// The registry of managed VMs. Each id occurs once; `H` is whatever runtime
/// handle the caller keeps with a VM.
pub struct VmRegistry<H> {
    entries: Vec<VmEntry<H>>,
}

impl<H> View for VmRegistry<H> {
    type V = Map<Seq<char>, (VmRecordView, H)>;

    closed spec fn view(&self) -> Map<Seq<char>, (VmRecordView, H)> {
        entries_map(self.entries@)
    }
}

impl<H> VmRegistry<H> {
    #[verifier::type_invariant]
    closed spec fn in_id_order(self) -> bool {
        ids_increasing(self.entries@)
    }

    /// An empty registry.
    pub fn new() -> (r: VmRegistry<H>)
        ensures
            r@ == Map::<Seq<char>, (VmRecordView, H)>::empty(),
    {
        let r = VmRegistry { entries: Vec::new() };
        assert(r@ =~= Map::<Seq<char>, (VmRecordView, H)>::empty());
        r
    }

    /// Where `id` is or would go: every entry before the position has a
    /// smaller id, and the entry at the position, if any, has an id that is
    /// not smaller.
    fn position(&self, id: &[char]) -> (r: (usize, bool))
        ensures
            r.0 <= self.entries@.len(),
            forall|j: int| 0 <= j < r.0 ==> lex_less(#[trigger] self.entries@[j].id@, id@),
            r.1 ==> r.0 < self.entries@.len() && self.entries@[r.0 as int].id@ == id@,
            !r.1 ==> r.0 == self.entries@.len() || lex_less(id@, self.entries@[r.0 as int].id@),
    {
        let mut i: usize = 0;
        while i < self.entries.len()
            invariant
                i <= self.entries@.len(),
                forall|j: int| 0 <= j < i ==> lex_less(#[trigger] self.entries@[j].id@, id@),
            decreases self.entries.len() - i,
        {
            let cur = chars_of(self.entries[i].id.as_str());
            if !lex_less_exec(cur.as_slice(), id) {
                proof {
                    lemma_lex_trichotomy(cur@, id@);
                }
                let same = lex_less_exec(id, cur.as_slice());
                return (i, !same);
            }
            i = i + 1;
        }
        (i, false)
    }

    /// Whether VM `id` is registered.
    pub fn contains(&self, id: &str) -> (r: bool)
        ensures
            r == self@.contains_key(id@),
    {
        proof {
            use_type_invariant(self);
        }
        let key = chars_of(id);
        let (pos, found) = self.position(key.as_slice());
        proof {
            if found {
                lemma_entries_map_at(self.entries@, pos as int);
            } else {
                self.lemma_absent(id@, pos as int);
            }
        }
        found
    }

    proof fn lemma_absent(&self, id: Seq<char>, pos: int)
        requires
            ids_increasing(self.entries@),
            0 <= pos <= self.entries@.len(),
            forall|j: int| 0 <= j < pos ==> lex_less(#[trigger] self.entries@[j].id@, id),
            pos == self.entries@.len() || lex_less(id, self.entries@[pos].id@),
        ensures
            !self@.contains_key(id),
    {
        if self@.contains_key(id) {
            let j = choose|j: int| 0 <= j < self.entries@.len() && #[trigger] self.entries@[j].id@
                == id;
            lemma_lex_irreflexive(id);
            if j < pos {
                assert(lex_less(self.entries@[j].id@, id));
            } else if j > pos {
                assert(lex_less(self.entries@[pos].id@, self.entries@[j].id@));
                lemma_lex_transitive(id, self.entries@[pos].id@, id);
            }
        }
    }

    /// The runtime handle of VM `id`, if it is registered.
    pub fn handle(&self, id: &str) -> (r: Option<&H>)
        ensures
            r matches Some(h) ==> self@.contains_key(id@) && *h == self@[id@].1,
            r is None ==> !self@.contains_key(id@),
    {
        proof {
            use_type_invariant(self);
        }
        let key = chars_of(id);
        let (pos, found) = self.position(key.as_slice());
        if found {
            proof {
                lemma_entries_map_at(self.entries@, pos as int);
            }
            Some(&self.entries[pos].handle)
        } else {
            proof {
                self.lemma_absent(id@, pos as int);
            }
            None
        }
    }
}


impl<H> VmRegistry<H> {
    /// Register VM `id`, replacing and handing back what an earlier
    /// registration of the same id held (`HashMap::insert`).
    pub fn insert(&mut self, id: String, record: VmRecord, handle: H) -> (r: Option<(VmRecord, H)>)
        ensures
            final(self)@ == old(self)@.insert(id@, (record@, handle)),
            old(self)@.contains_key(id@) ==> (r matches Some(prev) && (prev.0@, prev.1) == old(
                self,
            )@[id@]),
            !old(self)@.contains_key(id@) ==> r is None,
    {
        proof {
            use_type_invariant(&*self);
        }
        let key = chars_of(id.as_str());
        let (pos, found) = self.position(key.as_slice());
        proof {
            if !found {
                self.lemma_absent(id@, pos as int);
            }
        }
        let mut entries: Vec<VmEntry<H>> = Vec::new();
        std::mem::swap(&mut entries, &mut self.entries);
        let ghost before = entries@;
        let ghost kid = id@;
        let ghost value = (record@, handle);
        let e = VmEntry { id, record, handle };
        if found {
            let prev = entries.remove(pos);
            entries.insert(pos, e);
            proof {
                assert(entries@ =~= before.update(pos as int, e));
                assert(ids_increasing(entries@)) by {
                    assert forall|i: int, j: int| 0 <= i < j < entries@.len() implies lex_less(
                        #[trigger] entries@[i].id@,
                        #[trigger] entries@[j].id@,
                    ) by {
                        assert(lex_less(before[i].id@, before[j].id@));
                    }
                }
                lemma_entries_map_at(before, pos as int);
                lemma_map_update(before, entries@, pos as int, e);
            }
            self.entries = entries;
            Some((prev.record, prev.handle))
        } else {
            entries.insert(pos, e);
            proof {
                assert(ids_increasing(entries@)) by {
                    assert forall|i: int, j: int| 0 <= i < j < entries@.len() implies lex_less(
                        #[trigger] entries@[i].id@,
                        #[trigger] entries@[j].id@,
                    ) by {
                        if j < pos {
                            assert(lex_less(before[i].id@, before[j].id@));
                        } else if j == pos {
                            assert(lex_less(before[i].id@, kid));
                        } else if i == pos {
                            if j - 1 > pos {
                                assert(lex_less(before[pos as int].id@, before[j - 1].id@));
                                lemma_lex_transitive(kid, before[pos as int].id@, before[j - 1].id@);
                            }
                        } else if i < pos {
                            assert(lex_less(before[i].id@, before[j - 1].id@));
                        } else {
                            assert(lex_less(before[i - 1].id@, before[j - 1].id@));
                        }
                    }
                }
                lemma_map_insert(before, entries@, pos as int, e);
            }
            self.entries = entries;
            None
        }
    }

    /// Unregister VM `id`, handing back what it held (`HashMap::remove`).
    pub fn remove(&mut self, id: &str) -> (r: Option<(VmRecord, H)>)
        ensures
            final(self)@ == old(self)@.remove(id@),
            old(self)@.contains_key(id@) ==> (r matches Some(prev) && (prev.0@, prev.1) == old(
                self,
            )@[id@]),
            !old(self)@.contains_key(id@) ==> r is None,
    {
        proof {
            use_type_invariant(&*self);
        }
        let key = chars_of(id);
        let (pos, found) = self.position(key.as_slice());
        if !found {
            proof {
                self.lemma_absent(id@, pos as int);
                assert(self@.remove(id@) =~= self@);
            }
            return None;
        }
        let mut entries: Vec<VmEntry<H>> = Vec::new();
        std::mem::swap(&mut entries, &mut self.entries);
        let ghost before = entries@;
        let prev = entries.remove(pos);
        proof {
            assert(ids_increasing(entries@)) by {
                assert forall|i: int, j: int| 0 <= i < j < entries@.len() implies lex_less(
                    #[trigger] entries@[i].id@,
                    #[trigger] entries@[j].id@,
                ) by {
                    let oi = if i < pos { i } else { i + 1 };
                    let oj = if j < pos { j } else { j + 1 };
                    assert(lex_less(before[oi].id@, before[oj].id@));
                }
            }
            lemma_entries_map_at(before, pos as int);
            lemma_map_remove(before, entries@, pos as int);
        }
        self.entries = entries;
        Some((prev.record, prev.handle))
    }

    /// The registered VMs in increasing id order.
    pub fn list(&self) -> (r: Vec<VmInfo>)
        ensures
            forall|i: int, j: int|
                0 <= i < j < r@.len() ==> lex_less(#[trigger] r@[i].id@, #[trigger] r@[j].id@),
            forall|i: int|
                0 <= i < r@.len() ==> self@.contains_key(#[trigger] r@[i].id@) && r@[i]@
                    == info_of(r@[i].id@, self@[r@[i].id@].0),
            forall|i: int|
                0 <= i < r@.len() ==> {
                    let rec = self@[#[trigger] r@[i].id@].0;
                    &&& r@[i].qmp_socket@ == rec.qmp_socket
                    &&& r@[i].client_socket@ == rec.client_socket
                    &&& r@[i].moved_qmp_socket == (rec.socket_move is Some)
                },
            forall|k: Seq<char>|
                #[trigger] self@.contains_key(k) ==> exists|i: int|
                    0 <= i < r@.len() && #[trigger] r@[i].id@ == k,
    {
        proof {
            use_type_invariant(self);
        }
        let mut out: Vec<VmInfo> = Vec::new();
        let mut i: usize = 0;
        while i < self.entries.len()
            invariant
                i <= self.entries@.len(),
                ids_increasing(self.entries@),
                out@.len() == i,
                forall|j: int| 0 <= j < i ==> #[trigger] out@[j].id@ == self.entries@[j].id@,
                forall|j: int|
                    0 <= j < i ==> #[trigger] out@[j]@ == info_of(
                        self.entries@[j].id@,
                        self.entries@[j].record@,
                    ),
            decreases self.entries.len() - i,
        {
            let e = &self.entries[i];
            out.push(
                VmInfo {
                    id: e.id.clone(),
                    qmp_socket: e.record.qmp_socket.clone(),
                    client_socket: e.record.client_socket.clone(),
                    moved_qmp_socket: e.record.socket_move.is_some(),
                },
            );
            i = i + 1;
        }
        proof {
            assert forall|j: int| 0 <= j < out@.len() implies self@.contains_key(
                #[trigger] out@[j].id@,
            ) && out@[j]@ == info_of(out@[j].id@, self@[out@[j].id@].0) by {
                lemma_entries_map_at(self.entries@, j);
            }
            assert forall|k: Seq<char>| #[trigger] self@.contains_key(k) implies exists|j: int|
                0 <= j < out@.len() && #[trigger] out@[j].id@ == k by {
                let j = entry_index(self.entries@, k);
                assert(out@[j].id@ == k);
            }
        }
        out
    }
}


/// Unregistering a VM right after registering it hands back exactly what was
/// registered and leaves the registry as it was before: `registered` is the
/// registry as `insert(id, ..)` leaves `before`, and `after` as `remove(id)`
/// (or `take_vm`) leaves `registered`.
pub proof fn law_register_then_unregister<H>(
    before: VmRegistry<H>,
    registered: VmRegistry<H>,
    after: VmRegistry<H>,
    id: Seq<char>,
    record: VmRecordView,
    handle: H,
)
    requires
        !before@.contains_key(id),
        registered@ == before@.insert(id, (record, handle)),
        after@ == registered@.remove(id),
    ensures
        registered@.contains_key(id),
        registered@[id] == (record, handle),
        after@ == before@,
{
    assert(before@.insert(id, (record, handle)).remove(id) =~= before@);
}

/// Registering or unregistering one VM changes nothing about any other:
/// `after` is the registry as `insert(id, ..)` or `remove(id)` leaves
/// `before`.
pub proof fn law_registrations_independent<H>(
    before: VmRegistry<H>,
    after: VmRegistry<H>,
    id: Seq<char>,
    other: Seq<char>,
    entry: (VmRecordView, H),
)
    requires
        id != other,
        after@ == before@.insert(id, entry) || after@ == before@.remove(id),
    ensures
        after@.contains_key(other) == before@.contains_key(other),
        before@.contains_key(other) ==> after@[other] == before@[other],
{
}

} // verus!
