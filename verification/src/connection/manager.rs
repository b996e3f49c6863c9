//! The table of live connections, keyed by the connection IDs that the
//! server issued, and the choices made over it.
use vstd::prelude::*;
use ring::rand::SecureRandom;

verus! {

/// The length of the connection IDs that the server issues (quiche's
/// `MAX_CONN_ID_LEN`).
pub const MAX_CONN_ID_LEN: usize = 20;

#[verifier::external_type_specification]
#[verifier::external_body]
pub struct ExSystemRandom(ring::rand::SystemRandom);

/// A source of random bytes from the operating system
/// (`ring::rand::SystemRandom::new`); nothing of its state is known.
#[verifier::external_body]
fn system_random() -> ring::rand::SystemRandom {
    ring::rand::SystemRandom::new()
}

/// `n` random bytes from `rng` (`SecureRandom::fill`), or `None` where the
/// operating system fails to supply them. What the bytes are is chance;
/// only their number is stated.
#[verifier::external_body]
fn random_bytes(rng: &ring::rand::SystemRandom, n: usize) -> (r: Option<Vec<u8>>)
    ensures
        r matches Some(v) ==> v@.len() == n,
{
    let mut buf = vec![0u8; n];
    match rng.fill(&mut buf) {
        Ok(()) => Some(buf),
        Err(_) => None,
    }
}

/// The elements of `s` whose flag in `drop` is not set, in order.
pub open spec fn kept<T>(s: Seq<T>, drop: Seq<bool>) -> Seq<T>
    decreases s.len(),
{
    if s.len() == 0 {
        Seq::<T>::empty()
    } else {
        let k = kept(s.drop_last(), drop.take(s.len() - 1));
        if drop[s.len() - 1] {
            k
        } else {
            k.push(s.last())
        }
    }
}

/// Every element kept is an element of the original.
pub proof fn lemma_kept_from<T>(s: Seq<T>, drop: Seq<bool>)
    requires
        drop.len() == s.len(),
    ensures
        forall|i: int| 0 <= i < kept(s, drop).len() ==> s.contains(#[trigger] kept(s, drop)[i]),
        kept(s, drop).len() <= s.len(),
    decreases s.len(),
{
    if s.len() > 0 {
        let t = drop.take(s.len() - 1);
        lemma_kept_from(s.drop_last(), t);
        let k = kept(s.drop_last(), t);
        assert forall|i: int| 0 <= i < kept(s, drop).len() implies s.contains(
            #[trigger] kept(s, drop)[i],
        ) by {
            if i < k.len() {
                let x = k[i];
                assert(s.drop_last().contains(x));
                let j = choose|j: int| 0 <= j < s.drop_last().len() && s.drop_last()[j] == x;
                assert(s[j] == x);
            } else {
                assert(s[s.len() - 1] == s.last());
            }
        }
    }
}

/// Keeping some elements of a sequence without repeats gives one without repeats.
pub proof fn lemma_kept_no_duplicates<T>(s: Seq<T>, drop: Seq<bool>)
    requires
        drop.len() == s.len(),
        s.no_duplicates(),
    ensures
        kept(s, drop).no_duplicates(),
    decreases s.len(),
{
    if s.len() > 0 {
        let t = drop.take(s.len() - 1);
        let p = s.drop_last();
        assert(p.no_duplicates());
        lemma_kept_no_duplicates(p, t);
        lemma_kept_from(p, t);
        let k = kept(p, t);
        if !drop[s.len() - 1] {
            assert forall|i: int| 0 <= i < k.len() implies k[i] != s.last() by {
                assert(p.contains(k[i]));
                let j = choose|j: int| 0 <= j < p.len() && p[j] == k[i];
                assert(s[j] == k[i]);
            }
        }
    }
}

/// Keeping commutes with mapping.
pub proof fn lemma_kept_map<T, U>(s: Seq<T>, drop: Seq<bool>, f: spec_fn(T) -> U)
    requires
        drop.len() == s.len(),
    ensures
        kept(s.map_values(f), drop) == kept(s, drop).map_values(f),
    decreases s.len(),
{
    if s.len() > 0 {
        let t = drop.take(s.len() - 1);
        lemma_kept_map(s.drop_last(), t, f);
        assert(s.map_values(f).drop_last() =~= s.drop_last().map_values(f));
        assert(kept(s.map_values(f), drop) =~= kept(s, drop).map_values(f));
    } else {
        assert(kept(s.map_values(f), drop) =~= kept(s, drop).map_values(f));
    }
}

/// What is kept depends only on the flags, not on the elements.
pub proof fn lemma_kept_len<T, U>(s: Seq<T>, t: Seq<U>, drop: Seq<bool>)
    requires
        s.len() == t.len(),
    ensures
        kept(s, drop).len() == kept(t, drop).len(),
    decreases s.len(),
{
    if s.len() > 0 {
        lemma_kept_len(s.drop_last(), t.drop_last(), drop.take(s.len() - 1));
    }
}

/// Removes from `v` the elements whose flag in `drop` is set, keeping the
/// order of the others.
fn retain_unflagged<T>(v: &mut Vec<T>, drop: &Vec<bool>)
    requires
        drop@.len() == old(v)@.len(),
    ensures
        final(v)@ == kept(old(v)@, drop@),
{
    let ghost s = v@;
    let n = drop.len();
    let mut i: usize = 0;
    let mut j: usize = 0;
    assert(s.take(0) =~= Seq::<T>::empty());
    assert(drop@.take(0) =~= Seq::<bool>::empty());
    assert(v@ =~= kept(s.take(0), drop@.take(0)) + s.skip(0));
    while j < n
        invariant
            n == drop@.len() == s.len(),
            0 <= j <= n,
            i <= j,
            i == kept(s.take(j as int), drop@.take(j as int)).len(),
            v@ == kept(s.take(j as int), drop@.take(j as int)) + s.skip(j as int),
        decreases n - j,
    {
        let ghost k = kept(s.take(j as int), drop@.take(j as int));
        assert(s.take(j + 1).drop_last() =~= s.take(j as int));
        assert(drop@.take(j + 1).take(j as int) =~= drop@.take(j as int));
        assert(s.skip(j as int) =~= seq![s[j as int]] + s.skip(j + 1));
        assert(v@[i as int] == s[j as int]);
        if drop[j] {
            v.remove(i);
            assert(v@ =~= k + s.skip(j + 1));
        } else {
            assert(v@ =~= k.push(s[j as int]) + s.skip(j + 1));
            i = i + 1;
        }
        j = j + 1;
    }
    assert(s.take(n as int) =~= s);
    assert(drop@.take(n as int) =~= drop@);
    assert(v@ =~= kept(s, drop@));
}

/// The view of a connection ID.
pub open spec fn id_view(v: Vec<u8>) -> Seq<u8> {
    v@
}

/// The first position of `key` in `keys`, or -1.
pub open spec fn key_position(keys: Seq<Seq<u8>>, key: Seq<u8>) -> int
    decreases keys.len(),
{
    if keys.len() == 0 {
        -1
    } else if key_position(keys.drop_last(), key) >= 0 {
        key_position(keys.drop_last(), key)
    } else if keys.last() == key {
        keys.len() - 1
    } else {
        -1
    }
}

/// `key_position` finds the key exactly where it stands.
pub proof fn lemma_key_position<T>(keys: Seq<Seq<u8>>, key: Seq<u8>)
    ensures
        -1 <= key_position(keys, key) < keys.len(),
        key_position(keys, key) >= 0 ==> keys[key_position(keys, key)] == key,
        key_position(keys, key) < 0 <==> !keys.contains(key),
        keys.no_duplicates() && keys.contains(key) ==> forall|i: int|
            0 <= i < keys.len() && keys[i] == key ==> i == key_position(keys, key),
    decreases keys.len(),
{
    if keys.len() > 0 {
        let p = keys.drop_last();
        lemma_key_position::<T>(p, key);
        if keys.contains(key) {
            let i = choose|i: int| 0 <= i < keys.len() && keys[i] == key;
            if i < keys.len() - 1 {
                assert(p[i] == key);
            }
        }
        if p.contains(key) {
            let i = choose|i: int| 0 <= i < p.len() && p[i] == key;
            assert(keys[i] == key);
        }
    }
}

/// The value kept under `key` in the table of `keys` and `values`, if any.
pub open spec fn entry_for<C>(keys: Seq<Seq<u8>>, values: Seq<C>, key: Seq<u8>) -> Option<C> {
    let i = key_position(keys, key);
    if i >= 0 {
        Some(values[i])
    } else {
        None
    }
}

/// The keys after `key` is inserted: unchanged where it stands already,
/// else with it added last.
pub open spec fn inserted_keys(keys: Seq<Seq<u8>>, key: Seq<u8>) -> Seq<Seq<u8>> {
    if key_position(keys, key) >= 0 {
        keys
    } else {
        keys.push(key)
    }
}

/// The values after `value` is inserted under `key`: it replaces the value
/// kept under `key` where there is one, else it is added last.
pub open spec fn inserted_values<C>(keys: Seq<Seq<u8>>, values: Seq<C>, key: Seq<u8>, value: C) -> Seq<C> {
    let i = key_position(keys, key);
    if i >= 0 {
        values.update(i, value)
    } else {
        values.push(value)
    }
}

/// The connections that the server keeps, keyed by the connection IDs that
/// it issued, in the order in which they were added.
pub struct ClientMap<C> {
    table: Table<C>,
    rng: ring::rand::SystemRandom,
}

/// The connection IDs and the connections, side by side.
struct Table<C> {
    ids: Vec<Vec<u8>>,
    clients: Vec<C>,
}

/// The views of a list of connection IDs.
pub open spec fn id_views(ids: Seq<Vec<u8>>) -> Seq<Seq<u8>> {
    ids.map_values(|v: Vec<u8>| id_view(v))
}

/// Where `conn_id` stands among `ids`, if it does.
fn find_id(ids: &Vec<Vec<u8>>, conn_id: &[u8]) -> (r: Option<usize>)
    requires
        id_views(ids@).no_duplicates(),
    ensures
        match r {
            Some(i) => i == key_position(id_views(ids@), conn_id@) && i < ids@.len(),
            None => key_position(id_views(ids@), conn_id@) < 0,
        },
{
    let ghost keys = id_views(ids@);
    proof {
        lemma_key_position::<u8>(keys, conn_id@);
    }
    let mut i: usize = 0;
    while i < ids.len()
        invariant
            keys == id_views(ids@),
            keys.no_duplicates(),
            0 <= i <= keys.len(),
            forall|j: int| 0 <= j < i ==> keys[j] != conn_id@,
            key_position(keys, conn_id@) < 0 <==> !keys.contains(conn_id@),
        decreases keys.len() - i,
    {
        if bytes_equal(ids[i].as_slice(), conn_id) {
            assert(keys[i as int] == conn_id@);
            proof {
                lemma_key_position::<u8>(keys, conn_id@);
            }
            return Some(i);
        }
        i = i + 1;
    }
    None
}

impl<C> ClientMap<C> {
    /// The connection IDs, in order.
    pub closed spec fn keys(&self) -> Seq<Seq<u8>> {
        id_views(self.table.ids@)
    }

    /// The connections, in the order of their IDs.
    pub closed spec fn values(&self) -> Seq<C> {
        self.table.clients@
    }

    /// Each ID stands once, beside exactly one connection.
    #[verifier::type_invariant]
    spec fn wf(&self) -> bool {
        &&& self.keys().len() == self.values().len()
        &&& self.keys().no_duplicates()
    }

    /// The connection kept under `key`, if any.
    pub open spec fn lookup(&self, key: Seq<u8>) -> Option<C> {
        entry_for(self.keys(), self.values(), key)
    }

    pub fn new() -> (m: Self)
        ensures
            m.keys() == Seq::<Seq<u8>>::empty(),
            m.values() == Seq::<C>::empty(),
    {
        let m = ClientMap { table: Table { ids: Vec::new(), clients: Vec::new() }, rng: system_random() };
        assert(m.keys() =~= Seq::<Seq<u8>>::empty());
        m
    }

    /// The number of connections.
    pub fn len(&self) -> (n: usize)
        ensures
            n == self.keys().len(),
    {
        proof {
            use_type_invariant(&*self);
        }
        self.table.ids.len()
    }

    /// Whether there are no connections.
    pub fn is_empty(&self) -> (b: bool)
        ensures
            b == (self.keys().len() == 0),
    {
        proof {
            use_type_invariant(&*self);
        }
        self.table.ids.len() == 0
    }

    /// Where the connection with ID `conn_id` stands, if there is one.
    pub fn position(&self, conn_id: &[u8]) -> (r: Option<usize>)
        ensures
            match r {
                Some(i) => i == key_position(self.keys(), conn_id@) && i < self.keys().len(),
                None => key_position(self.keys(), conn_id@) < 0,
            },
    {
        proof {
            use_type_invariant(&*self);
        }
        find_id(&self.table.ids, conn_id)
    }

    /// The connection at position `i`.
    pub fn client_at(&self, i: usize) -> (c: &C)
        requires
            i < self.keys().len(),
        ensures
            *c == self.values()[i as int],
    {
        proof {
            use_type_invariant(&*self);
        }
        &self.table.clients[i]
    }

    /// The connection ID at position `i`.
    pub fn id_at(&self, i: usize) -> (id: &Vec<u8>)
        requires
            i < self.keys().len(),
        ensures
            id@ == self.keys()[i as int],
    {
        proof {
            use_type_invariant(&*self);
        }
        &self.table.ids[i]
    }

    /// The connection at position `i`, to change it in place.
    pub fn client_at_mut(&mut self, i: usize) -> (c: &mut C)
        requires
            i < old(self).keys().len(),
        ensures
            *c == old(self).values()[i as int],
            final(self).keys() == old(self).keys(),
            final(self).values() == old(self).values().update(i as int, *final(c)),
    {
        proof {
            use_type_invariant(&*self);
        }
        &mut self.table.clients[i]
    }

    /// Keeps `client` under `conn_id`: the connection that was kept under
    /// that ID is replaced where there was one; otherwise the pair is added
    /// last.
    pub fn insert(&mut self, conn_id: Vec<u8>, client: C)
        ensures
            final(self).keys() == inserted_keys(old(self).keys(), conn_id@),
            final(self).values() == inserted_values(
                old(self).keys(),
                old(self).values(),
                conn_id@,
                client,
            ),
    {
        proof {
            use_type_invariant(&*self);
        }
        proof {
            lemma_key_position::<C>(self.keys(), conn_id@);
        }
        let mut t = Table { ids: Vec::new(), clients: Vec::new() };
        std::mem::swap(&mut t, &mut self.table);
        let ghost old_keys = id_views(t.ids@);
        match find_id(&t.ids, conn_id.as_slice()) {
            Some(i) => {
                t.clients.set(i, client);
            },
            None => {
                t.ids.push(conn_id);
                t.clients.push(client);
                assert(id_views(t.ids@) =~= old_keys.push(conn_id@));
                assert(old_keys.push(conn_id@).no_duplicates()) by {
                    let nk = old_keys.push(conn_id@);
                    assert forall|a: int, b: int|
                        0 <= a < nk.len() && 0 <= b < nk.len() && a != b implies nk[a] != nk[b] by {
                        if a == old_keys.len() as int {
                            assert(nk[b] == old_keys[b]);
                        } else if b == old_keys.len() as int {
                            assert(nk[a] == old_keys[a]);
                        }
                    }
                }
            },
        }
        self.table = t;
    }

    /// Drops the connections whose flag in `closed` is set (one flag per
    /// position), keeping the others in order.
    pub fn retain_open(&mut self, closed: &Vec<bool>)
        requires
            closed@.len() == old(self).keys().len(),
        ensures
            final(self).keys() == kept(old(self).keys(), closed@),
            final(self).values() == kept(old(self).values(), closed@),
    {
        proof {
            use_type_invariant(&*self);
        }
        let mut t = Table { ids: Vec::new(), clients: Vec::new() };
        std::mem::swap(&mut t, &mut self.table);
        let ghost old_ids = t.ids@;
        let ghost old_keys = id_views(t.ids@);
        let ghost old_values = t.clients@;
        retain_unflagged(&mut t.ids, closed);
        retain_unflagged(&mut t.clients, closed);
        proof {
            lemma_kept_map(old_ids, closed@, |v: Vec<u8>| id_view(v));
            lemma_kept_no_duplicates(old_keys, closed@);
            lemma_kept_len(old_keys, old_values, closed@);
            assert(id_views(t.ids@) == kept(old_keys, closed@));
        }
        self.table = t;
    }

    /// A fresh random connection ID, or `None` where the operating system
    /// fails to supply random bytes.
    pub fn generate_cid(&self) -> (r: Option<Vec<u8>>)
        ensures
            r matches Some(v) ==> v@.len() == MAX_CONN_ID_LEN,
    {
        proof {
            use_type_invariant(&*self);
        }
        random_bytes(&self.rng, MAX_CONN_ID_LEN)
    }
}

/// `a` and `b` hold the same bytes.
pub fn bytes_equal(a: &[u8], b: &[u8]) -> (r: bool)
    ensures
        r == (a@ == b@),
{
    if a.len() != b.len() {
        return false;
    }
    let mut i: usize = 0;
    while i < a.len()
        invariant
            a@.len() == b@.len(),
            0 <= i <= a@.len(),
            forall|j: int| 0 <= j < i ==> a@[j] == b@[j],
        decreases a@.len() - i,
    {
        if a[i] != b[i] {
            return false;
        }
        i = i + 1;
    }
    assert(a@ =~= b@);
    true
}

/// The first of `candidates` that equals `conn_id`: the connection whose
/// source ID matches the destination ID of a packet.
pub fn first_match(candidates: &Vec<Vec<u8>>, conn_id: &[u8]) -> (r: Option<usize>)
    ensures
        match r {
            Some(i) => i < candidates@.len() && candidates@[i as int]@ == conn_id@ && forall|
                j: int,
            | 0 <= j < i ==> candidates@[j]@ != conn_id@,
            None => forall|j: int| 0 <= j < candidates@.len() ==> candidates@[j]@ != conn_id@,
        },
{
    let mut i: usize = 0;
    while i < candidates.len()
        invariant
            0 <= i <= candidates@.len(),
            forall|j: int| 0 <= j < i ==> candidates@[j]@ != conn_id@,
        decreases candidates@.len() - i,
    {
        if bytes_equal(candidates[i].as_slice(), conn_id) {
            return Some(i);
        }
        i = i + 1;
    }
    None
}

/// The earliest of the timeouts that are set (in nanoseconds), if any is.
pub fn earliest_timeout(timeouts: &Vec<Option<u128>>) -> (r: Option<u128>)
    ensures
        match r {
            Some(t) => (exists|i: int| 0 <= i < timeouts@.len() && timeouts@[i] == Some(t))
                && forall|i: int|
                0 <= i < timeouts@.len() && (#[trigger] timeouts@[i]) is Some ==> t
                    <= timeouts@[i]->0,
            None => forall|i: int| 0 <= i < timeouts@.len() ==> (#[trigger] timeouts@[i]) is None,
        },
{
    let mut best: Option<u128> = None;
    let mut i: usize = 0;
    while i < timeouts.len()
        invariant
            0 <= i <= timeouts@.len(),
            match best {
                Some(t) => (exists|k: int| 0 <= k < i && timeouts@[k] == Some(t)) && forall|
                    k: int,
                | 0 <= k < i && (#[trigger] timeouts@[k]) is Some ==> t <= timeouts@[k]->0,
                None => forall|k: int| 0 <= k < i ==> (#[trigger] timeouts@[k]) is None,
            },
        decreases timeouts@.len() - i,
    {
        match timeouts[i] {
            Some(t) => {
                match best {
                    Some(b) => {
                        if t < b {
                            best = Some(t);
                        }
                    },
                    None => {
                        best = Some(t);
                    },
                }
            },
            None => {},
        }
        i = i + 1;
    }
    best
}

/// After inserting `value` under `key`, `key` finds `value`.
pub proof fn law_insert_then_lookup<C>(keys: Seq<Seq<u8>>, values: Seq<C>, key: Seq<u8>, value: C)
    requires
        keys.no_duplicates(),
        keys.len() == values.len(),
    ensures
        entry_for(inserted_keys(keys, key), inserted_values(keys, values, key, value), key) == Some(
            value,
        ),
{
    lemma_key_position::<C>(keys, key);
    let nk = inserted_keys(keys, key);
    lemma_key_position::<C>(nk, key);
    if key_position(keys, key) < 0 {
        assert(nk.no_duplicates()) by {
            assert forall|i: int, j: int|
                0 <= i < nk.len() && 0 <= j < nk.len() && i != j implies nk[i] != nk[j] by {
                if i == keys.len() as int {
                    assert(nk[j] == keys[j]);
                } else if j == keys.len() as int {
                    assert(nk[i] == keys[i]);
                }
            }
        }
        assert(nk[keys.len() as int] == key);
    }
}

/// Inserting under `key` leaves what every other key finds unchanged.
pub proof fn law_insert_keeps_others<C>(
    keys: Seq<Seq<u8>>,
    values: Seq<C>,
    key: Seq<u8>,
    value: C,
    other: Seq<u8>,
)
    requires
        keys.no_duplicates(),
        keys.len() == values.len(),
        other != key,
    ensures
        entry_for(inserted_keys(keys, key), inserted_values(keys, values, key, value), other)
            == entry_for(keys, values, other),
{
    lemma_key_position::<C>(keys, key);
    lemma_key_position::<C>(keys, other);
    let nk = inserted_keys(keys, key);
    lemma_key_position::<C>(nk, other);
    if key_position(keys, key) < 0 {
        assert(nk.drop_last() =~= keys);
        assert(key_position(nk, other) == key_position(keys, other));
    }
}

/// After the closed connections are dropped, a key finds its connection
/// exactly when that connection was kept and is open.
pub proof fn law_retain_keeps_open<C>(
    keys: Seq<Seq<u8>>,
    values: Seq<C>,
    closed: Seq<bool>,
    key: Seq<u8>,
)
    requires
        keys.no_duplicates(),
        keys.len() == values.len(),
        closed.len() == keys.len(),
    ensures
        entry_for(kept(keys, closed), kept(values, closed), key) == (if key_position(keys, key)
            >= 0 && !closed[key_position(keys, key)] {
            Some(values[key_position(keys, key)])
        } else {
            None
        }),
    decreases keys.len(),
{
    lemma_key_position::<C>(keys, key);
    if keys.len() > 0 {
        let n = keys.len() - 1;
        let p = keys.drop_last();
        let vp = values.drop_last();
        let t = closed.take(n);
        assert(p.no_duplicates());
        law_retain_keeps_open(p, vp, t, key);
        lemma_key_position::<C>(p, key);
        lemma_kept_len(p, vp, t);
        lemma_kept_from(p, t);
        let kp = kept(p, t);
        let kv = kept(vp, t);
        assert(values.drop_last() == vp);
        if key_position(p, key) >= 0 {
            assert(key_position(keys, key) == key_position(p, key));
            assert(closed[key_position(p, key)] == t[key_position(p, key)]);
            assert(values[key_position(p, key)] == vp[key_position(p, key)]);
        } else {
            if keys.last() == key {
                assert(key_position(keys, key) == n);
            } else {
                assert(key_position(keys, key) < 0);
            }
            if !closed[n] {
                assert(kept(keys, closed).drop_last() =~= kp);
                assert(kept(values, closed).drop_last() =~= kv);
                lemma_key_position::<C>(kp, key);
            }
        }
        lemma_key_position::<C>(kp, key);
        if !closed[n] {
            let kk = kept(keys, closed);
            assert(kk.drop_last() =~= kp);
            assert(kk.last() == keys.last());
            assert(kept(values, closed) == kv.push(values.last()));
            if key_position(kp, key) >= 0 {
                assert(key_position(kk, key) == key_position(kp, key));
                assert(kept(values, closed)[key_position(kp, key)] == kv[key_position(kp, key)]);
            }
        }
    }
}

} // verus!
