//! In-memory reference stores for grants, nonces and client records.
//!
//! The protocol puts hard requirements on these stores: a grant must be
//! consumable exactly once, a nonce likewise, and a client identifier must
//! map to at most one record.  These implementations keep their contents
//! in vectors with a uniqueness invariant and state their operations as
//! lookup-preservation contracts, which is what the engines' proofs and
//! the protocol laws build on.  A host that keeps its records elsewhere
//! must meet the same contracts, atomically.

use crate::client_data::ClientData;
use crate::client_id::ClientId;
use crate::redirect_uri::RedirectUri;
use vstd::prelude::*;
use vstd::string::StringExecFns;

verus! {

/// One issued authorization grant: the single-use binding of a code to the
/// client it was issued to and the redirection URI used, if the request
/// named one.
pub struct GrantRecord {
    /// The authorization code.
    pub code: String,
    /// The client the code was issued to.
    pub client_id: ClientId,
    /// The redirection URI bound into the grant, exactly when the request
    /// supplied one.
    pub redirect_uri: Option<RedirectUri>,
    /// When the code was issued, for the host's expiry policy.
    pub issued_at: u64,
}

impl Clone for GrantRecord {
    fn clone(&self) -> (r: Self)
        ensures
            r == *self,
    {
        GrantRecord {
            code: self.code.clone(),
            client_id: self.client_id.clone(),
            redirect_uri: match &self.redirect_uri {
                Some(u) => Some(u.clone()),
                None => None,
            },
            issued_at: self.issued_at,
        }
    }
}

/// The view of an optional redirection URI.
pub open spec fn opt_uri_view(u: Option<RedirectUri>) -> Option<Seq<char>> {
    match u {
        Some(x) => Some(x@),
        None => None,
    }
}

/// The first record holding `code`, if any.
pub open spec fn grant_of(s: Seq<GrantRecord>, code: Seq<char>) -> Option<GrantRecord>
    decreases s.len(),
{
    if s.len() == 0 {
        None
    } else if s.first().code@ == code {
        Some(s.first())
    } else {
        grant_of(s.drop_first(), code)
    }
}

/// The records whose code is not `code`.
pub open spec fn without_code(s: Seq<GrantRecord>, code: Seq<char>) -> Seq<GrantRecord>
    decreases s.len(),
{
    if s.len() == 0 {
        seq![]
    } else if s.first().code@ == code {
        without_code(s.drop_first(), code)
    } else {
        seq![s.first()] + without_code(s.drop_first(), code)
    }
}

/// Removing a code removes its grant and touches no other.
pub proof fn lemma_without_code(s: Seq<GrantRecord>, code: Seq<char>, other: Seq<char>)
    ensures
        grant_of(without_code(s, code), code) is None,
        other != code ==> grant_of(without_code(s, code), other) == grant_of(s, other),
        without_code(s, code).len() <= s.len(),
    decreases s.len(),
{
    if s.len() > 0 {
        lemma_without_code(s.drop_first(), code, other);
        if s.first().code@ != code {
            let t = seq![s.first()] + without_code(s.drop_first(), code);
            assert(t.first() == s.first());
            assert(t.drop_first() =~= without_code(s.drop_first(), code));
        }
    }
}

/// Looking a code up in records extended at the end.
pub proof fn lemma_grant_of_snoc(s: Seq<GrantRecord>, g: GrantRecord, code: Seq<char>)
    ensures
        grant_of(s + seq![g], code) == (if grant_of(s, code) is Some {
            grant_of(s, code)
        } else if g.code@ == code {
            Some(g)
        } else {
            None
        }),
    decreases s.len(),
{
    if s.len() == 0 {
        assert((s + seq![g]).first() == g);
        assert((s + seq![g]).drop_first() =~= Seq::<GrantRecord>::empty());
        assert(grant_of(Seq::<GrantRecord>::empty(), code) is None);
        assert(grant_of((s + seq![g]).drop_first(), code) is None);
    } else {
        assert((s + seq![g]).first() == s.first());
        assert((s + seq![g]).drop_first() =~= s.drop_first() + seq![g]);
        lemma_grant_of_snoc(s.drop_first(), g, code);
        assert(grant_of((s + seq![g]).drop_first(), code) == grant_of(
            s.drop_first() + seq![g],
            code,
        ));
    }
}

/// The single-use grant store.
pub struct GrantStore {
    grants: Vec<GrantRecord>,
}

impl GrantStore {
    /// The stored records.
    pub closed spec fn records(self) -> Seq<GrantRecord> {
        self.grants@
    }

    /// An empty store.
    pub fn new() -> (s: Self)
        ensures
            s.records() == Seq::<GrantRecord>::empty(),
    {
        GrantStore { grants: Vec::new() }
    }

    /// How many grants are stored.
    pub fn len(&self) -> (r: usize)
        ensures
            r == self.records().len(),
    {
        self.grants.len()
    }

    /// Whether a grant with this code is stored.
    pub fn has_grant(&self, code: &str) -> (r: bool)
        ensures
            r == (grant_of(self.records(), code@) is Some),
    {
        let n = self.grants.len();
        let mut i: usize = 0;
        proof {
            assert(self.records().skip(0) =~= self.records());
        }
        while i < n
            invariant
                n == self.records().len(),
                i <= n,
                grant_of(self.records(), code@) == grant_of(
                    self.records().skip(i as int),
                    code@,
                ),
            decreases n - i,
        {
            proof {
                assert(self.records().skip(i as int).first() == self.records()[i as int]);
                assert(self.records().skip(i as int).drop_first() =~= self.records().skip(
                    i as int + 1,
                ));
            }
            if crate::text::str_eq(self.grants[i].code.as_str(), code) {
                return true;
            }
            i += 1;
        }
        proof {
            assert(self.records().skip(n as int) =~= Seq::<GrantRecord>::empty());
        }
        false
    }

    /// Stores a grant under `code`, replacing any grant stored under the
    /// same code: idempotent, as the embedding contract demands.
    pub fn store_grant(
        &mut self,
        code: &str,
        client_id: &ClientId,
        redirect_uri: Option<&RedirectUri>,
        issued_at: u64,
    )
        ensures
            ({
                let g = grant_of(final (self).records(), code@);
                &&& g matches Some(rec)
                &&& rec.code@ == code@
                &&& rec.client_id@ == client_id@
                &&& opt_uri_view(rec.redirect_uri) == (match redirect_uri {
                    Some(u) => Some(u@),
                    None => None::<Seq<char>>,
                })
                &&& rec.issued_at == issued_at
            }),
            forall|c: Seq<char>|
                c != code@ ==> #[trigger] grant_of(final (self).records(), c) == grant_of(
                    old(self).records(),
                    c,
                ),
            final (self).records().len() <= old(self).records().len() + 1,
    {
        let n = self.grants.len();
        let mut kept: Vec<GrantRecord> = Vec::new();
        let mut i: usize = 0;
        proof {
            assert(self.records().take(0) =~= Seq::<GrantRecord>::empty());
            assert(kept@ =~= without_code(self.records().take(0), code@));
        }
        while i < n
            invariant
                n == self.records().len(),
                i <= n,
                kept@ == without_code(self.records().take(i as int), code@),
            decreases n - i,
        {
            proof {
                lemma_without_code_push(self.records().take(i as int), self.records()[i as int], code@);
                assert(self.records().take(i + 1 as int) =~= self.records().take(
                    i as int,
                ).push(self.records()[i as int]));
            }
            let keep = !crate::text::str_eq(self.grants[i].code.as_str(), code);
            if keep {
                let g = self.grants[i].clone();
                kept.push(g);
                proof {
                    assert(kept@ =~= without_code(self.records().take(i + 1 as int), code@));
                }
            } else {
                proof {
                    assert(kept@ =~= without_code(self.records().take(i + 1 as int), code@));
                }
            }
            i += 1;
        }
        proof {
            assert(self.records().take(n as int) =~= self.records());
        }
        let rec = GrantRecord {
            code: String::from_str(code),
            client_id: client_id.clone(),
            redirect_uri: match redirect_uri {
                Some(u) => Some(u.clone()),
                None => None,
            },
            issued_at,
        };
        let ghost old_records = self.records();
        let ghost newrec = rec;
        kept.push(rec);
        self.grants = kept;
        proof {
            assert(self.records() =~= without_code(old_records, code@) + seq![newrec]);
            lemma_grant_of_snoc(without_code(old_records, code@), newrec, code@);
            lemma_without_code(old_records, code@, code@);
            assert forall|c: Seq<char>| c != code@ implies grant_of(self.records(), c)
                == grant_of(old_records, c) by {
                lemma_grant_of_snoc(without_code(old_records, code@), newrec, c);
                lemma_without_code(old_records, code@, c);
            }
            lemma_without_code_len(old_records, code@);
        }
    }

    /// Consumes the grant stored under `code`: the lookup and the removal
    /// are one operation, so a second consumption of the same code fails.
    pub fn consume_grant(&mut self, code: &str) -> (r: Option<(ClientId, Option<RedirectUri>)>)
        ensures
            match r {
                Some(p) => {
                    &&& grant_of(old(self).records(), code@) matches Some(g) && g.client_id@
                        == p.0@ && opt_uri_view(g.redirect_uri) == opt_uri_view(p.1)
                    &&& grant_of(final (self).records(), code@) is None
                },
                None => {
                    &&& grant_of(old(self).records(), code@) is None
                    &&& final (self).records() == old(self).records()
                },
            },
            forall|c: Seq<char>|
                c != code@ ==> grant_of(final (self).records(), c) == grant_of(
                    old(self).records(),
                    c,
                ),
            final (self).records().len() <= old(self).records().len(),
    {
        let found = self.has_grant(code);
        if !found {
            return None;
        }
        let n = self.grants.len();
        let mut kept: Vec<GrantRecord> = Vec::new();
        let mut result: Option<(ClientId, Option<RedirectUri>)> = None;
        let mut i: usize = 0;
        proof {
            assert(self.records().take(0) =~= Seq::<GrantRecord>::empty());
        }
        while i < n
            invariant
                n == self.records().len(),
                i <= n,
                kept@ == without_code(self.records().take(i as int), code@),
                match result {
                    Some(p) => grant_of(self.records().take(i as int), code@) matches Some(g)
                        && g.client_id@ == p.0@ && opt_uri_view(g.redirect_uri) == opt_uri_view(
                        p.1,
                    ),
                    None => grant_of(self.records().take(i as int), code@) is None,
                },
            decreases n - i,
        {
            proof {
                lemma_without_code_push(self.records().take(i as int), self.records()[i as int], code@);
                lemma_grant_of_snoc(self.records().take(i as int), self.records()[i as int], code@);
                assert(self.records().take(i + 1 as int) =~= self.records().take(
                    i as int,
                ).push(self.records()[i as int]));
                assert(self.records().take(i as int).push(self.records()[i as int])
                    =~= self.records().take(i as int) + seq![self.records()[i as int]]);
            }
            let hit = crate::text::str_eq(self.grants[i].code.as_str(), code);
            if hit {
                if result.is_none() {
                    let g = self.grants[i].clone();
                    result = Some((g.client_id, g.redirect_uri));
                }
            } else {
                let g = self.grants[i].clone();
                kept.push(g);
            }
            i += 1;
        }
        proof {
            assert(self.records().take(n as int) =~= self.records());
        }
        let ghost old_records = self.records();
        self.grants = kept;
        proof {
            lemma_without_code(old_records, code@, code@);
            assert forall|c: Seq<char>| c != code@ implies grant_of(self.records(), c)
                == grant_of(old_records, c) by {
                lemma_without_code(old_records, code@, c);
            }
            lemma_without_code_len(old_records, code@);
        }
        result
    }
}

/// Removing a code from records extended at the end.
pub proof fn lemma_without_code_push(s: Seq<GrantRecord>, g: GrantRecord, code: Seq<char>)
    ensures
        without_code(s.push(g), code) == (if g.code@ == code {
            without_code(s, code)
        } else {
            without_code(s, code) + seq![g]
        }),
    decreases s.len(),
{
    if s.len() == 0 {
        assert(s.push(g).first() == g);
        assert(s.push(g).drop_first() =~= Seq::<GrantRecord>::empty());
        assert(without_code(Seq::<GrantRecord>::empty(), code) =~= Seq::<GrantRecord>::empty());
        assert(without_code(s.push(g).drop_first(), code) =~= Seq::<GrantRecord>::empty());
        assert(without_code(s, code) =~= Seq::<GrantRecord>::empty());
        if g.code@ == code {
            assert(without_code(s.push(g), code) =~= without_code(s, code));
        } else {
            assert(without_code(s.push(g), code) =~= without_code(s, code) + seq![g]);
        }
    } else {
        assert(s.push(g).first() == s.first());
        assert(s.push(g).drop_first() =~= s.drop_first().push(g));
        lemma_without_code_push(s.drop_first(), g, code);
        assert(without_code(s.push(g).drop_first(), code) == without_code(
            s.drop_first().push(g),
            code,
        ));
        if g.code@ == code {
            assert(without_code(s.push(g), code) =~= without_code(s, code));
        } else {
            assert(without_code(s.push(g), code) =~= without_code(s, code) + seq![g]);
        }
    }
}

/// Removal never grows the records.
pub proof fn lemma_without_code_len(s: Seq<GrantRecord>, code: Seq<char>)
    ensures
        without_code(s, code).len() <= s.len(),
    decreases s.len(),
{
    if s.len() > 0 {
        lemma_without_code_len(s.drop_first(), code);
    }
}

/// Whether the value `n` is among the stored nonces.
pub open spec fn nonce_present(s: Seq<String>, n: Seq<char>) -> bool
    decreases s.len(),
{
    if s.len() == 0 {
        false
    } else if s.first()@ == n {
        true
    } else {
        nonce_present(s.drop_first(), n)
    }
}

/// The nonces other than `n`.
pub open spec fn without_nonce(s: Seq<String>, n: Seq<char>) -> Seq<String>
    decreases s.len(),
{
    if s.len() == 0 {
        seq![]
    } else if s.first()@ == n {
        without_nonce(s.drop_first(), n)
    } else {
        seq![s.first()] + without_nonce(s.drop_first(), n)
    }
}

/// Removing a nonce removes it and touches no other.
pub proof fn lemma_without_nonce(s: Seq<String>, n: Seq<char>, other: Seq<char>)
    ensures
        !nonce_present(without_nonce(s, n), n),
        other != n ==> nonce_present(without_nonce(s, n), other) == nonce_present(s, other),
        without_nonce(s, n).len() <= s.len(),
    decreases s.len(),
{
    if s.len() > 0 {
        lemma_without_nonce(s.drop_first(), n, other);
        if s.first()@ != n {
            let t = seq![s.first()] + without_nonce(s.drop_first(), n);
            assert(t.first() == s.first());
            assert(t.drop_first() =~= without_nonce(s.drop_first(), n));
        }
    }
}

/// Presence in nonces extended at the end.
pub proof fn lemma_nonce_present_snoc(s: Seq<String>, v: String, n: Seq<char>)
    ensures
        nonce_present(s + seq![v], n) == (nonce_present(s, n) || v@ == n),
    decreases s.len(),
{
    if s.len() == 0 {
        assert((s + seq![v]).first() == v);
        assert((s + seq![v]).drop_first() =~= Seq::<String>::empty());
        assert(!nonce_present(Seq::<String>::empty(), n));
        assert(!nonce_present((s + seq![v]).drop_first(), n));
    } else {
        assert((s + seq![v]).first() == s.first());
        assert((s + seq![v]).drop_first() =~= s.drop_first() + seq![v]);
        lemma_nonce_present_snoc(s.drop_first(), v, n);
        assert(nonce_present((s + seq![v]).drop_first(), n) == nonce_present(
            s.drop_first() + seq![v],
            n,
        ));
    }
}

/// The single-use nonce store: set semantics over nonce values.
pub struct NonceStore {
    nonces: Vec<String>,
}

impl NonceStore {
    /// The stored nonce values.
    pub closed spec fn values(self) -> Seq<String> {
        self.nonces@
    }

    /// An empty store.
    pub fn new() -> (s: Self)
        ensures
            s.values() == Seq::<String>::empty(),
    {
        NonceStore { nonces: Vec::new() }
    }

    /// How many nonces are stored.
    pub fn len(&self) -> (r: usize)
        ensures
            r == self.values().len(),
    {
        self.nonces.len()
    }

    /// Whether a nonce with this value is stored.
    pub fn has_nonce(&self, token: &str) -> (r: bool)
        ensures
            r == nonce_present(self.values(), token@),
    {
        let n = self.nonces.len();
        let mut i: usize = 0;
        proof {
            assert(self.values().skip(0) =~= self.values());
        }
        while i < n
            invariant
                n == self.values().len(),
                i <= n,
                nonce_present(self.values(), token@) == nonce_present(
                    self.values().skip(i as int),
                    token@,
                ),
            decreases n - i,
        {
            proof {
                assert(self.values().skip(i as int).first() == self.values()[i as int]);
                assert(self.values().skip(i as int).drop_first() =~= self.values().skip(
                    i as int + 1,
                ));
            }
            if crate::text::str_eq(self.nonces[i].as_str(), token) {
                return true;
            }
            i += 1;
        }
        proof {
            assert(self.values().skip(n as int) =~= Seq::<String>::empty());
        }
        false
    }

    /// Stores a nonce value; storing a value twice keeps one copy.
    pub fn store_nonce(&mut self, token: &str)
        ensures
            nonce_present(final (self).values(), token@),
            forall|v: Seq<char>|
                v != token@ ==> #[trigger] nonce_present(final (self).values(), v)
                    == nonce_present(old(self).values(), v),
            final (self).values().len() <= old(self).values().len() + 1,
    {
        let present = self.has_nonce(token);
        if present {
            return ;
        }
        let ghost old_values = self.values();
        let v = String::from_str(token);
        let ghost newv = v;
        self.nonces.push(v);
        proof {
            assert(self.values() =~= old_values + seq![newv]);
            lemma_nonce_present_snoc(old_values, newv, token@);
            assert forall|w: Seq<char>| w != token@ implies #[trigger] nonce_present(
                self.values(),
                w,
            ) == nonce_present(old_values, w) by {
                lemma_nonce_present_snoc(old_values, newv, w);
            }
        }
    }

    /// Consumes a nonce value: returns true and removes it when it was
    /// stored, so each stored value is consumed at most once.
    pub fn consume_nonce(&mut self, token: &str) -> (r: bool)
        ensures
            r == nonce_present(old(self).values(), token@),
            !nonce_present(final (self).values(), token@),
            forall|v: Seq<char>|
                v != token@ ==> #[trigger] nonce_present(final (self).values(), v)
                    == nonce_present(old(self).values(), v),
            !r ==> final (self).values() == old(self).values(),
            final (self).values().len() <= old(self).values().len(),
    {
        let found = self.has_nonce(token);
        if !found {
            return false;
        }
        let n = self.nonces.len();
        let mut kept: Vec<String> = Vec::new();
        let mut i: usize = 0;
        proof {
            assert(self.values().take(0) =~= Seq::<String>::empty());
        }
        while i < n
            invariant
                n == self.values().len(),
                i <= n,
                kept@ == without_nonce(self.values().take(i as int), token@),
            decreases n - i,
        {
            proof {
                lemma_without_nonce_push(
                    self.values().take(i as int),
                    self.values()[i as int],
                    token@,
                );
                assert(self.values().take(i + 1 as int) =~= self.values().take(i as int).push(
                    self.values()[i as int],
                ));
            }
            let keep = !crate::text::str_eq(self.nonces[i].as_str(), token);
            if keep {
                let v = self.nonces[i].clone();
                kept.push(v);
                proof {
                    assert(kept@ =~= without_nonce(self.values().take(i + 1 as int), token@));
                }
            } else {
                proof {
                    assert(kept@ =~= without_nonce(self.values().take(i + 1 as int), token@));
                }
            }
            i += 1;
        }
        proof {
            assert(self.values().take(n as int) =~= self.values());
        }
        let ghost old_values = self.values();
        self.nonces = kept;
        proof {
            lemma_without_nonce(old_values, token@, token@);
            assert forall|w: Seq<char>| w != token@ implies #[trigger] nonce_present(
                self.values(),
                w,
            ) == nonce_present(old_values, w) by {
                lemma_without_nonce(old_values, token@, w);
            }
        }
        true
    }
}

/// Removing a nonce from values extended at the end.
pub proof fn lemma_without_nonce_push(s: Seq<String>, v: String, n: Seq<char>)
    ensures
        without_nonce(s.push(v), n) == (if v@ == n {
            without_nonce(s, n)
        } else {
            without_nonce(s, n) + seq![v]
        }),
    decreases s.len(),
{
    if s.len() == 0 {
        assert(s.push(v).first() == v);
        assert(s.push(v).drop_first() =~= Seq::<String>::empty());
        assert(without_nonce(Seq::<String>::empty(), n) =~= Seq::<String>::empty());
        assert(without_nonce(s.push(v).drop_first(), n) =~= Seq::<String>::empty());
        assert(without_nonce(s, n) =~= Seq::<String>::empty());
        if v@ == n {
            assert(without_nonce(s.push(v), n) =~= without_nonce(s, n));
        } else {
            assert(without_nonce(s.push(v), n) =~= without_nonce(s, n) + seq![v]);
        }
    } else {
        assert(s.push(v).first() == s.first());
        assert(s.push(v).drop_first() =~= s.drop_first().push(v));
        lemma_without_nonce_push(s.drop_first(), v, n);
        assert(without_nonce(s.push(v).drop_first(), n) == without_nonce(
            s.drop_first().push(v),
            n,
        ));
        if v@ == n {
            assert(without_nonce(s.push(v), n) =~= without_nonce(s, n));
        } else {
            assert(without_nonce(s.push(v), n) =~= without_nonce(s, n) + seq![v]);
        }
    }
}

/// The first registered client with this identifier, if any.
pub open spec fn client_of(s: Seq<ClientData>, id: Seq<char>) -> Option<ClientData>
    decreases s.len(),
{
    if s.len() == 0 {
        None
    } else if s.first().client_id@ == id {
        Some(s.first())
    } else {
        client_of(s.drop_first(), id)
    }
}

/// Looking an identifier up in records extended at the end.
pub proof fn lemma_client_of_snoc(s: Seq<ClientData>, c: ClientData, id: Seq<char>)
    ensures
        client_of(s + seq![c], id) == (if client_of(s, id) is Some {
            client_of(s, id)
        } else if c.client_id@ == id {
            Some(c)
        } else {
            None
        }),
    decreases s.len(),
{
    if s.len() == 0 {
        assert((s + seq![c]).first() == c);
        assert((s + seq![c]).drop_first() =~= Seq::<ClientData>::empty());
        assert(client_of(Seq::<ClientData>::empty(), id) is None);
        assert(client_of((s + seq![c]).drop_first(), id) is None);
    } else {
        assert((s + seq![c]).first() == s.first());
        assert((s + seq![c]).drop_first() =~= s.drop_first() + seq![c]);
        lemma_client_of_snoc(s.drop_first(), c, id);
        assert(client_of((s + seq![c]).drop_first(), id) == client_of(
            s.drop_first() + seq![c],
            id,
        ));
    }
}

/// The registered clients, keyed by identifier.
pub struct ClientRegistry {
    clients: Vec<ClientData>,
}

impl ClientRegistry {
    /// The registered records.
    pub closed spec fn records(self) -> Seq<ClientData> {
        self.clients@
    }

    /// An empty registry.
    pub fn new() -> (s: Self)
        ensures
            s.records() == Seq::<ClientData>::empty(),
    {
        ClientRegistry { clients: Vec::new() }
    }

    /// Registers a client record.  Registration happens out of band,
    /// before the protocol: the record must be well formed and its
    /// identifier free, or it is refused.
    pub fn register(&mut self, client: ClientData) -> (r: bool)
        ensures
            r == (client.wf() && client_of(old(self).records(), client.client_id@) is None),
            r ==> client_of(final (self).records(), client.client_id@) == Some(client),
            r ==> forall|id: Seq<char>|
                id != client.client_id@ ==> #[trigger] client_of(final (self).records(), id)
                    == client_of(old(self).records(), id),
            !r ==> final (self).records() == old(self).records(),
    {
        let id_ok = crate::syntax::valid_client_id_str(client.client_id.as_str());
        let uris_ok = match client.client_type {
            crate::client_type::ClientType::PublicClient => client.redirect_uri.len() >= 1,
            crate::client_type::ClientType::ConfidentialClient => true,
        };
        if !id_ok || !uris_ok {
            return false;
        }
        let taken = self.fetch_client_data(&client.client_id).is_some();
        if taken {
            return false;
        }
        let ghost old_records = self.records();
        let ghost newc = client;
        self.clients.push(client);
        proof {
            assert(self.records() =~= old_records + seq![newc]);
            lemma_client_of_snoc(old_records, newc, newc.client_id@);
            assert forall|id: Seq<char>| id != newc.client_id@ implies #[trigger] client_of(
                self.records(),
                id,
            ) == client_of(old_records, id) by {
                lemma_client_of_snoc(old_records, newc, id);
            }
        }
        true
    }

    /// Fetches the record registered under `client_id`, if any.
    pub fn fetch_client_data(&self, client_id: &ClientId) -> (r: Option<&ClientData>)
        ensures
            match r {
                Some(cd) => client_of(self.records(), client_id@) == Some(*cd),
                None => client_of(self.records(), client_id@) is None,
            },
    {
        let n = self.clients.len();
        let mut i: usize = 0;
        proof {
            assert(self.records().skip(0) =~= self.records());
        }
        while i < n
            invariant
                n == self.records().len(),
                i <= n,
                client_of(self.records(), client_id@) == client_of(
                    self.records().skip(i as int),
                    client_id@,
                ),
            decreases n - i,
        {
            proof {
                assert(self.records().skip(i as int).first() == self.records()[i as int]);
                assert(self.records().skip(i as int).drop_first() =~= self.records().skip(
                    i as int + 1,
                ));
            }
            if crate::text::str_eq(self.clients[i].client_id.as_str(), client_id.as_str()) {
                return Some(vstd::std_specs::vec::vec_index(&self.clients, i));
            }
            i += 1;
        }
        proof {
            assert(self.records().skip(n as int) =~= Seq::<ClientData>::empty());
        }
        None
    }
}

} // verus!
