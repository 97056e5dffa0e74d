//! Per-connection security state and the table of connections.

use vstd::prelude::*;

verus! {

/// The AEAD algorithm that a connection uses for application data.
#[derive(Clone, Copy, Debug, PartialEq, Eq, Structural)]
pub enum Encryption {
    Aes,
    Spongent,
}

impl Encryption {
    /// The algorithm that the selector byte `b` names, if any.
    pub open spec fn spec_from_u8(b: u8) -> Option<Encryption> {
        if b == 0 {
            Some(Encryption::Aes)
        } else if b == 1 {
            Some(Encryption::Spongent)
        } else {
            None
        }
    }

    pub fn from_u8(b: u8) -> (r: Option<Encryption>)
        ensures
            r == Self::spec_from_u8(b),
    {
        if b == 0 {
            Some(Encryption::Aes)
        } else if b == 1 {
            Some(Encryption::Spongent)
        } else {
            None
        }
    }
}

/// Abstract state of one connection.
pub struct ConnectionView {
    pub index: u16,
    pub nonce: u16,
    pub key: Seq<u8>,
    pub encryption: Encryption,
}

/// Security state of one channel: the logical port it is bound to, its
/// nonce counter, its session key and its algorithm.
pub struct Connection {
    index: u16,
    nonce: u16,
    key: Vec<u8>,
    encryption: Encryption,
}

impl View for Connection {
    type V = ConnectionView;

    closed spec fn view(&self) -> ConnectionView {
        ConnectionView {
            index: self.index,
            nonce: self.nonce,
            key: self.key@,
            encryption: self.encryption,
        }
    }
}

impl Connection {
    pub fn new(index: u16, nonce: u16, key: Vec<u8>, encryption: Encryption) -> (r: Connection)
        ensures
            r@ == (ConnectionView { index, nonce, key: key@, encryption }),
    {
        Connection { index, nonce, key, encryption }
    }

    pub fn get_index(&self) -> (r: u16)
        ensures
            r == self@.index,
    {
        self.index
    }

    pub fn get_nonce(&self) -> (r: u16)
        ensures
            r == self@.nonce,
    {
        self.nonce
    }

    /// Advances the nonce by one; the largest nonce cannot be advanced.
    pub fn increment_nonce(&mut self)
        requires
            old(self)@.nonce < u16::MAX,
        ensures
            final(self)@ == (ConnectionView { nonce: (old(self)@.nonce + 1) as u16, ..old(self)@ }),
    {
        self.nonce = self.nonce + 1;
    }

    pub fn get_key(&self) -> (r: &Vec<u8>)
        ensures
            r@ == self@.key,
    {
        &self.key
    }

    pub fn get_encryption(&self) -> (r: &Encryption)
        ensures
            *r == self@.encryption,
    {
        &self.encryption
    }
}


/// The connections of the module, keyed by connection id. Ids are unique;
/// entries keep the order in which they were first inserted.
pub struct ConnectionTable {
    ids: Vec<u16>,
    conns: Vec<Connection>,
}

impl ConnectionTable {
    #[verifier::type_invariant]
    closed spec fn inv(&self) -> bool {
        &&& self.ids.len() == self.conns.len()
        &&& self.ids@.no_duplicates()
    }

    /// The table as a map from connection id to connection state.
    pub closed spec fn view(&self) -> Map<u16, ConnectionView> {
        Map::new(
            |k: u16| self.ids@.contains(k),
            |k: u16| self.conns@[self.ids@.index_of(k)]@,
        )
    }

    proof fn lemma_slot(&self, i: int)
        requires
            self.inv(),
            0 <= i < self.ids.len(),
        ensures
            self.ids@.index_of(self.ids@[i]) == i,
            self@.contains_key(self.ids@[i]),
            self@[self.ids@[i]] == self.conns@[i]@,
    {
        let k = self.ids@[i];
        assert(self.ids@.contains(k));
        let j = self.ids@.index_of(k);
        assert(0 <= j < self.ids.len() && self.ids@[j] == k);
    }

    pub fn new() -> (r: ConnectionTable)
        ensures
            r@ == Map::<u16, ConnectionView>::empty(),
    {
        let r = ConnectionTable { ids: Vec::new(), conns: Vec::new() };
        assert(r@ =~= Map::<u16, ConnectionView>::empty());
        r
    }

    /// The slot that holds `id`, if any.
    fn position(&self, id: u16) -> (r: Option<usize>)
        ensures
            match r {
                Some(i) => i < self.ids.len() && self.ids@[i as int] == id,
                None => !self.ids@.contains(id),
            },
    {
        let mut i: usize = 0;
        while i < self.ids.len()
            invariant
                i <= self.ids.len(),
                forall|j: int| 0 <= j < i ==> self.ids@[j] != id,
            decreases self.ids.len() - i,
        {
            if self.ids[i] == id {
                return Some(i);
            }
            i = i + 1;
        }
        None
    }

    /// The connection stored under `id`, if any.
    pub fn get(&self, id: u16) -> (r: Option<&Connection>)
        ensures
            match r {
                Some(c) => self@.contains_key(id) && c@ == self@[id],
                None => !self@.contains_key(id),
            },
    {
        proof { use_type_invariant(self); }
        match self.position(id) {
            Some(i) => {
                proof { self.lemma_slot(i as int); }
                Some(&self.conns[i])
            },
            None => None,
        }
    }

    /// Takes the table apart, leaving an empty one in its place.
    fn take_parts(&mut self) -> (r: (Vec<u16>, Vec<Connection>))
        ensures
            r.0.len() == r.1.len(),
            r.0@.no_duplicates(),
            r.0 == old(self).ids,
            r.1 == old(self).conns,
    {
        proof { use_type_invariant(&*self); }
        let mut other = ConnectionTable::new();
        std::mem::swap(self, &mut other);
        proof { use_type_invariant(&other); }
        let ConnectionTable { ids, conns } = other;
        (ids, conns)
    }

    /// Stores `conn` under `id`, replacing any connection stored there.
    pub fn insert(&mut self, id: u16, conn: Connection)
        ensures
            final(self)@ == old(self)@.insert(id, conn@),
    {
        let ghost want = old(self)@.insert(id, conn@);
        let pos = self.position(id);
        let (mut ids, mut conns) = self.take_parts();
        let ghost pre = ConnectionTable { ids, conns };
        match pos {
            Some(i) => {
                conns.set(i, conn);
                let t = ConnectionTable { ids, conns };
                proof {
                    assert forall|k: u16| #[trigger] t@.contains_key(k) == want.contains_key(k) by {}
                    assert forall|k: u16| t@.contains_key(k) implies #[trigger] t@[k] == want[k] by {
                        let j = t.ids@.index_of(k);
                        pre.lemma_slot(j);
                        t.lemma_slot(j);
                    }
                    assert(t@ =~= want);
                }
                *self = t;
            },
            None => {
                ids.push(id);
                conns.push(conn);
                proof {
                    assert forall|a: int, b: int|
                        0 <= a < ids.len() && 0 <= b < ids.len() && a != b
                        implies ids@[a] != ids@[b] by {
                        if a == pre.ids.len() { assert(pre.ids@.contains(ids@[b]) || b == a); }
                        if b == pre.ids.len() { assert(pre.ids@.contains(ids@[a]) || b == a); }
                    }
                }
                let t = ConnectionTable { ids, conns };
                proof {
                    assert(t.ids@ == pre.ids@.push(id));
                    assert forall|k: u16| #[trigger] t@.contains_key(k) == want.contains_key(k) by {
                        if t.ids@.contains(k) {
                            let j = t.ids@.index_of(k);
                            if j < pre.ids.len() {
                                assert(pre.ids@[j] == k);
                            }
                        }
                        if pre.ids@.contains(k) {
                            let j = pre.ids@.index_of(k);
                            assert(t.ids@[j] == k);
                        }
                        assert(t.ids@[pre.ids.len() as int] == id);
                    }
                    assert forall|k: u16| t@.contains_key(k) implies #[trigger] t@[k] == want[k] by {
                        let j = t.ids@.index_of(k);
                        t.lemma_slot(j);
                        if k != id {
                            pre.lemma_slot(j);
                        }
                    }
                    assert(t@ =~= want);
                }
                *self = t;
            },
        }
    }

    /// Advances the nonce of the connection stored under `id`.
    pub fn increment_nonce(&mut self, id: u16)
        requires
            old(self)@.contains_key(id),
            old(self)@[id].nonce < u16::MAX,
        ensures
            final(self)@ == old(self)@.insert(
                id,
                ConnectionView { nonce: (old(self)@[id].nonce + 1) as u16, ..old(self)@[id] },
            ),
    {
        let ghost newc = ConnectionView { nonce: (old(self)@[id].nonce + 1) as u16, ..old(self)@[id] };
        let ghost want = old(self)@.insert(id, newc);
        let i = self.position(id).unwrap();
        let (ids, mut conns) = self.take_parts();
        let ghost pre = ConnectionTable { ids, conns };
        proof { pre.lemma_slot(i as int); }
        let mut c = conns.remove(i);
        c.increment_nonce();
        conns.insert(i, c);
        let t = ConnectionTable { ids, conns };
        proof {
            assert(t.conns@ =~= pre.conns@.update(i as int, c));
            assert forall|k: u16| #[trigger] t@.contains_key(k) == want.contains_key(k) by {}
            assert forall|k: u16| t@.contains_key(k) implies #[trigger] t@[k] == want[k] by {
                let j = t.ids@.index_of(k);
                pre.lemma_slot(j);
                t.lemma_slot(j);
            }
            assert(t@ =~= want);
        }
        *self = t;
    }

    /// The ids of all stored connections, each once.
    pub fn ids(&self) -> (r: Vec<u16>)
        ensures
            r@.no_duplicates(),
            forall|k: u16| self@.contains_key(k) <==> r@.contains(k),
    {
        proof { use_type_invariant(self); }
        self.ids.clone()
    }
}

} // verus!
