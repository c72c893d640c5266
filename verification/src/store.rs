//! Progress store: durable cursors and the seen-signature table.
//!
//! The store is a key-value map for per-stream cursors plus an idempotent
//! signature-seen table.  This module verifies the store semantics — what
//! `get`, `insert`, `set` and `mark_signature` do to the stored state — over
//! an in-memory representation; the database transport that persists the same
//! state is unverified I/O around the library.

use vstd::prelude::*;

use crate::errors::AppErr;
use crate::text::dec_seq;
use crate::text::push_u64_decimal;

verus! {

/// The closed set of durable cursor slots, one per chain/stream.
#[derive(Debug, Clone, Copy, PartialEq, Eq, Structural)]
pub enum Setting {
    /// Highest EVM block already scanned on the given chain.
    EvmScannedBlock(u64),
    /// Most recent chain-B signature already scanned.
    SolCurrentScannedSignature,
}

/// The stable string key under which a cursor slot is persisted.
pub open spec fn spec_setting_key(s: Setting) -> Seq<char> {
    match s {
        Setting::EvmScannedBlock(chain) => "evm_scanned_block_chain_"@ + dec_seq(chain as nat),
        Setting::SolCurrentScannedSignature => "sol_current_scanned_signature"@,
    }
}

impl Setting {
    /// The stable string key under which this cursor slot is persisted.
    pub fn to_str_key(self) -> (key: String)
        ensures
            key@ == spec_setting_key(self),
    {
        match self {
            Setting::EvmScannedBlock(chain) => {
                let mut key = "evm_scanned_block_chain_".to_owned();
                push_u64_decimal(&mut key, chain);
                key
            },
            Setting::SolCurrentScannedSignature => "sol_current_scanned_signature".to_owned(),
        }
    }
}

/// The environment variables the services read at startup.
#[derive(Debug, Clone, Copy, PartialEq, Eq, Structural)]
pub enum Env {
    /// Connection URL for the relational store.
    DatabaseUrl,
    /// HMAC key for HTTP authentication.
    AccessTokenKey,
    /// Chain-B HTTP RPC endpoint.
    SolanaRpc,
    /// Chain-B WebSocket RPC endpoint.
    SolanaWsRpc,
    /// EVM WebSocket endpoint for the given chain.
    EvmWsRpc(u64),
    /// Public EVM HTTP RPC endpoint for the given chain.
    PubEvmRpc(u64),
    /// Private EVM HTTP RPC endpoint for the given chain.
    PriEvmRpc(u64),
}

/// The environment variable name for a configuration value.
pub open spec fn spec_env_key(e: Env) -> Seq<char> {
    match e {
        Env::DatabaseUrl => "DATABASE_URL"@,
        Env::AccessTokenKey => "ACCESS_TOKEN_KEY"@,
        Env::SolanaRpc => "SOLANA_RPC"@,
        Env::SolanaWsRpc => "SOLANA_WS_RPC"@,
        Env::EvmWsRpc(chain) => "WS_RPC_CHAIN_"@ + dec_seq(chain as nat),
        Env::PubEvmRpc(chain) => "PUBLIC_RPC_CHAIN_"@ + dec_seq(chain as nat),
        Env::PriEvmRpc(chain) => "PRIVATE_RPC_CHAIN_"@ + dec_seq(chain as nat),
    }
}

impl Env {
    /// The environment variable name for this configuration value.
    pub fn key(&self) -> (key: String)
        ensures
            key@ == spec_env_key(*self),
    {
        match self {
            Env::DatabaseUrl => "DATABASE_URL".to_owned(),
            Env::AccessTokenKey => "ACCESS_TOKEN_KEY".to_owned(),
            Env::SolanaRpc => "SOLANA_RPC".to_owned(),
            Env::SolanaWsRpc => "SOLANA_WS_RPC".to_owned(),
            Env::EvmWsRpc(chain) => {
                let mut key = "WS_RPC_CHAIN_".to_owned();
                push_u64_decimal(&mut key, *chain);
                key
            },
            Env::PubEvmRpc(chain) => {
                let mut key = "PUBLIC_RPC_CHAIN_".to_owned();
                push_u64_decimal(&mut key, *chain);
                key
            },
            Env::PriEvmRpc(chain) => {
                let mut key = "PRIVATE_RPC_CHAIN_".to_owned();
                push_u64_decimal(&mut key, *chain);
                key
            },
        }
    }
}

/// The cursor map denoted by a list of setting rows, later rows winning.
pub open spec fn settings_map_of(rows: Seq<(Setting, String)>) -> Map<Setting, Seq<char>>
    decreases rows.len(),
{
    if rows.len() == 0 {
        Map::empty()
    } else {
        settings_map_of(rows.drop_last()).insert(rows.last().0, rows.last().1@)
    }
}

/// The signature table denoted by a list of signature rows.
pub open spec fn sig_map_of(rows: Seq<(String, i64)>) -> Map<Seq<char>, i64>
    decreases rows.len(),
{
    if rows.len() == 0 {
        Map::empty()
    } else {
        sig_map_of(rows.drop_last()).insert(rows.last().0@, rows.last().1)
    }
}

/// What an idempotent signature insert does to the signature table:
/// a signature already present keeps its first timestamp.
pub open spec fn spec_mark(m: Map<Seq<char>, i64>, sig: Seq<char>, ts: i64) -> Map<Seq<char>, i64> {
    if m.contains_key(sig) {
        m
    } else {
        m.insert(sig, ts)
    }
}

/// Marking a signature any further time is a no-op: the table keeps exactly
/// one row per signature, with the timestamp of the first mark.
pub proof fn lemma_mark_signature_idempotent(
    m: Map<Seq<char>, i64>,
    sig: Seq<char>,
    ts1: i64,
    ts2: i64,
)
    ensures
        spec_mark(spec_mark(m, sig, ts1), sig, ts2) == spec_mark(m, sig, ts1),
        spec_mark(m, sig, ts1).contains_key(sig),
{
}

/// Per-chain cursors and the seen-signature table, as one value.
pub struct ProgressStore {
    settings: Vec<(Setting, String)>,
    signatures: Vec<(String, i64)>,
}

impl ProgressStore {
    /// No two rows share a key; lookups are then unambiguous.
    pub closed spec fn wf(self) -> bool {
        &&& forall|i: int, j: int|
            0 <= i < j < self.settings@.len() ==> #[trigger] self.settings@[i].0 != #[trigger] self.settings@[j].0
        &&& forall|i: int, j: int|
            0 <= i < j < self.signatures@.len() ==> #[trigger] self.signatures@[i].0@ != #[trigger] self.signatures@[j].0@
    }

    /// The cursor map this store holds.
    pub closed spec fn settings_map(self) -> Map<Setting, Seq<char>> {
        settings_map_of(self.settings@)
    }

    /// The signature table this store holds.
    pub closed spec fn sig_map(self) -> Map<Seq<char>, i64> {
        sig_map_of(self.signatures@)
    }

    /// An empty store, the state of a first run.
    pub fn new() -> (store: ProgressStore)
        ensures
            store.wf(),
            store.settings_map() == Map::<Setting, Seq<char>>::empty(),
            store.sig_map() == Map::<Seq<char>, i64>::empty(),
    {
        ProgressStore { settings: Vec::new(), signatures: Vec::new() }
    }

    /// Point read of a cursor slot.
    pub fn get(&self, key: Setting) -> (r: Option<String>)
        requires
            self.wf(),
        ensures
            r is Some <==> self.settings_map().contains_key(key),
            r matches Some(v) ==> v@ == self.settings_map()[key],
    {
        let n = self.settings.len();
        let mut i: usize = 0;
        while i < n
            invariant
                0 <= i <= n,
                n == self.settings@.len(),
                self.wf(),
                forall|j: int| 0 <= j < i ==> #[trigger] self.settings@[j].0 != key,
            decreases n - i,
        {
            if self.settings[i].0 == key {
                proof {
                    lemma_settings_map_covers(self.settings@, i as int);
                }
                return Some(self.settings[i].1.clone());
            }
            i = i + 1;
        }
        proof {
            if self.settings_map().contains_key(key) {
                lemma_settings_map_domain(self.settings@, key);
            }
        }
        None
    }

    /// First-run initialization of a cursor slot.
    ///
    /// Fails, leaving the store unchanged, when the slot already exists;
    /// callers treat an existing slot as the normal case and read it instead.
    pub fn insert(&mut self, key: Setting, value: String) -> (r: Result<(), AppErr>)
        requires
            old(self).wf(),
        ensures
            final(self).wf(),
            final(self).sig_map() == old(self).sig_map(),
            r is Ok <==> !old(self).settings_map().contains_key(key),
            r is Ok ==> final(self).settings_map() == old(self).settings_map().insert(
                key,
                value@,
            ),
            r is Err ==> *final(self) == *old(self) && r == Err::<(), AppErr>(
                AppErr::DatabaseFailure,
            ),
    {
        let n = self.settings.len();
        let mut i: usize = 0;
        while i < n
            invariant
                0 <= i <= n,
                n == self.settings@.len(),
                self.wf(),
                forall|j: int| 0 <= j < i ==> #[trigger] self.settings@[j].0 != key,
            decreases n - i,
        {
            if self.settings[i].0 == key {
                proof {
                    lemma_settings_map_covers(self.settings@, i as int);
                }
                return Err(AppErr::DatabaseFailure);
            }
            i = i + 1;
        }
        proof {
            if self.settings_map().contains_key(key) {
                lemma_settings_map_domain(self.settings@, key);
            }
            assert(self.settings@.push((key, value)).drop_last() =~= self.settings@);
        }
        self.settings.push((key, value));
        Ok(())
    }

    /// Unconditional update of an existing cursor slot.
    ///
    /// Mirrors an SQL `UPDATE`: a slot that was never initialized is left
    /// absent rather than created.
    pub fn set(&mut self, key: Setting, value: String)
        requires
            old(self).wf(),
        ensures
            final(self).wf(),
            final(self).sig_map() == old(self).sig_map(),
            old(self).settings_map().contains_key(key) ==> final(self).settings_map() == old(
                self,
            ).settings_map().insert(key, value@),
            !old(self).settings_map().contains_key(key) ==> *final(self) == *old(self),
    {
        let n = self.settings.len();
        let mut i: usize = 0;
        while i < n
            invariant
                0 <= i <= n,
                n == self.settings@.len(),
                old(self) == self,
                self.wf(),
                forall|j: int| 0 <= j < i ==> #[trigger] self.settings@[j].0 != key,
            decreases n - i,
        {
            if self.settings[i].0 == key {
                proof {
                    lemma_settings_map_covers(self.settings@, i as int);
                    lemma_settings_map_update(self.settings@, i as int, value);
                }
                self.settings.set(i, (key, value));
                return ;
            }
            i = i + 1;
        }
        proof {
            if self.settings_map().contains_key(key) {
                lemma_settings_map_domain(self.settings@, key);
            }
        }
    }

    /// Idempotent insert into the signature-seen table.
    ///
    /// Recording a signature that is already present is a no-op, so the table
    /// holds exactly one row per signature however often one is re-ingested.
    pub fn mark_signature(&mut self, sig: String, ts: i64)
        requires
            old(self).wf(),
        ensures
            final(self).wf(),
            final(self).settings_map() == old(self).settings_map(),
            final(self).sig_map() == spec_mark(old(self).sig_map(), sig@, ts),
            final(self).sig_map().contains_key(sig@),
    {
        let n = self.signatures.len();
        let mut i: usize = 0;
        while i < n
            invariant
                0 <= i <= n,
                n == self.signatures@.len(),
                old(self) == self,
                self.wf(),
                forall|j: int| 0 <= j < i ==> #[trigger] self.signatures@[j].0@ != sig@,
            decreases n - i,
        {
            if self.signatures[i].0 == sig {
                proof {
                    lemma_sig_map_covers(self.signatures@, i as int);
                }
                return ;
            }
            i = i + 1;
        }
        proof {
            if self.sig_map().contains_key(sig@) {
                lemma_sig_map_domain(self.signatures@, sig@);
            }
            assert(self.signatures@.push((sig, ts)).drop_last() =~= self.signatures@);
        }
        let ghost before = self.signatures@;
        self.signatures.push((sig, ts));
        proof {
            assert forall|i: int, j: int|
                0 <= i < j < self.signatures@.len() implies #[trigger] self.signatures@[i].0@
                    != #[trigger] self.signatures@[j].0@ by {
                assert(self.signatures@[i] == before[i]);
                if j < before.len() {
                    assert(self.signatures@[j] == before[j]);
                    assert(before[i].0@ != before[j].0@);
                } else {
                    assert(self.signatures@[j].0@ == sig@);
                    assert(before[i].0@ != sig@);
                }
            }
        }
    }

    /// Whether a signature is already recorded in the seen table.
    pub fn has_signature(&self, sig: &String) -> (r: bool)
        requires
            self.wf(),
        ensures
            r == self.sig_map().contains_key(sig@),
    {
        let n = self.signatures.len();
        let mut i: usize = 0;
        while i < n
            invariant
                0 <= i <= n,
                n == self.signatures@.len(),
                self.wf(),
                forall|j: int| 0 <= j < i ==> #[trigger] self.signatures@[j].0@ != sig@,
            decreases n - i,
        {
            if self.signatures[i].0 == *sig {
                proof {
                    lemma_sig_map_covers(self.signatures@, i as int);
                }
                return true;
            }
            i = i + 1;
        }
        proof {
            if self.sig_map().contains_key(sig@) {
                lemma_sig_map_domain(self.signatures@, sig@);
            }
        }
        false
    }

    /// How many rows the seen table holds: exactly one per signature.
    pub fn signature_count(&self) -> (n: usize)
        requires
            self.wf(),
        ensures
            n == self.sig_map().dom().len(),
    {
        proof {
            lemma_sig_map_count(self.signatures@);
        }
        self.signatures.len()
    }
}

/// A row of the settings list is visible in the map it denotes.
proof fn lemma_settings_map_covers(rows: Seq<(Setting, String)>, i: int)
    requires
        0 <= i < rows.len(),
        forall|p: int, q: int|
            0 <= p < q < rows.len() ==> #[trigger] rows[p].0 != #[trigger] rows[q].0,
    ensures
        settings_map_of(rows).contains_key(rows[i].0),
        settings_map_of(rows)[rows[i].0] == rows[i].1@,
    decreases rows.len(),
{
    if i < rows.len() - 1 {
        let head = rows.drop_last();
        assert(forall|p: int| 0 <= p < head.len() ==> #[trigger] head[p] == rows[p]);
        lemma_settings_map_covers(head, i);
        assert(rows[i].0 != rows.last().0);
    }
}

/// A key in the map denoted by the settings list stands in some row.
proof fn lemma_settings_map_domain(rows: Seq<(Setting, String)>, key: Setting)
    requires
        settings_map_of(rows).contains_key(key),
    ensures
        exists|i: int| 0 <= i < rows.len() && #[trigger] rows[i].0 == key,
    decreases rows.len(),
{
    if rows.len() > 0 {
        if rows.last().0 == key {
            assert(rows[rows.len() - 1].0 == key);
        } else {
            lemma_settings_map_domain(rows.drop_last(), key);
            let i = choose|i: int|
                0 <= i < rows.drop_last().len() && #[trigger] rows.drop_last()[i].0 == key;
            assert(rows[i].0 == key);
        }
    }
}

/// Updating the row that holds a key updates just that key in the map.
proof fn lemma_settings_map_update(rows: Seq<(Setting, String)>, i: int, value: String)
    requires
        0 <= i < rows.len(),
        forall|p: int, q: int|
            0 <= p < q < rows.len() ==> #[trigger] rows[p].0 != #[trigger] rows[q].0,
    ensures
        settings_map_of(rows.update(i, (rows[i].0, value))) == settings_map_of(rows).insert(
            rows[i].0,
            value@,
        ),
    decreases rows.len(),
{
    let rows2 = rows.update(i, (rows[i].0, value));
    if i == rows.len() - 1 {
        assert(rows2.drop_last() =~= rows.drop_last());
        assert(settings_map_of(rows2) =~= settings_map_of(rows).insert(rows[i].0, value@));
    } else {
        assert(rows2.drop_last() =~= rows.drop_last().update(i, (rows[i].0, value)));
        let head = rows.drop_last();
        assert(forall|p: int| 0 <= p < head.len() ==> #[trigger] head[p] == rows[p]);
        lemma_settings_map_update(head, i, value);
        assert(rows2.last() == rows.last());
        assert(rows[i].0 != rows.last().0);
        assert(settings_map_of(rows2) =~= settings_map_of(rows).insert(rows[i].0, value@));
    }
}

/// A row of the signature list is visible in the table it denotes.
proof fn lemma_sig_map_covers(rows: Seq<(String, i64)>, i: int)
    requires
        0 <= i < rows.len(),
        forall|p: int, q: int|
            0 <= p < q < rows.len() ==> #[trigger] rows[p].0@ != #[trigger] rows[q].0@,
    ensures
        sig_map_of(rows).contains_key(rows[i].0@),
        sig_map_of(rows)[rows[i].0@] == rows[i].1,
    decreases rows.len(),
{
    if i < rows.len() - 1 {
        let head = rows.drop_last();
        assert(forall|p: int| 0 <= p < head.len() ==> #[trigger] head[p] == rows[p]);
        assert forall|p: int, q: int|
            0 <= p < q < head.len() implies #[trigger] head[p].0@ != #[trigger] head[q].0@ by {
            assert(head[p] == rows[p]);
            assert(head[q] == rows[q]);
            assert(rows[p].0@ != rows[q].0@);
        }
        lemma_sig_map_covers(head, i);
        assert(rows[i].0@ != rows.last().0@);
    }
}


/// A signature table with unique rows has exactly as many keys as rows.
proof fn lemma_sig_map_count(rows: Seq<(String, i64)>)
    requires
        forall|p: int, q: int|
            0 <= p < q < rows.len() ==> #[trigger] rows[p].0@ != #[trigger] rows[q].0@,
    ensures
        sig_map_of(rows).dom().len() == rows.len(),
        sig_map_of(rows).dom().finite(),
    decreases rows.len(),
{
    if rows.len() == 0 {
        assert(sig_map_of(rows).dom() =~= Set::<Seq<char>>::empty());
    } else {
        let head = rows.drop_last();
        assert(forall|p: int| 0 <= p < head.len() ==> #[trigger] head[p] == rows[p]);
        assert forall|p: int, q: int|
            0 <= p < q < head.len() implies #[trigger] head[p].0@ != #[trigger] head[q].0@ by {
            assert(head[p] == rows[p]);
            assert(head[q] == rows[q]);
            assert(rows[p].0@ != rows[q].0@);
        }
        lemma_sig_map_count(head);
        if sig_map_of(head).contains_key(rows.last().0@) {
            lemma_sig_map_domain(head, rows.last().0@);
            let i = choose|i: int| 0 <= i < head.len() && #[trigger] head[i].0@ == rows.last().0@;
            assert(rows[i].0@ != rows[rows.len() - 1].0@);
            assert(false);
        }
        assert(sig_map_of(rows).dom() =~= sig_map_of(head).dom().insert(rows.last().0@));
    }
}

/// A signature in the denoted table stands in some row.
proof fn lemma_sig_map_domain(rows: Seq<(String, i64)>, sig: Seq<char>)
    requires
        sig_map_of(rows).contains_key(sig),
    ensures
        exists|i: int| 0 <= i < rows.len() && #[trigger] rows[i].0@ == sig,
    decreases rows.len(),
{
    if rows.len() > 0 {
        if rows.last().0@ == sig {
            assert(rows[rows.len() - 1].0@ == sig);
        } else {
            lemma_sig_map_domain(rows.drop_last(), sig);
            let i = choose|i: int|
                0 <= i < rows.drop_last().len() && #[trigger] rows.drop_last()[i].0@ == sig;
            assert(rows[i].0@ == sig);
        }
    }
}

} // verus!
