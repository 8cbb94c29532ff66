use vstd::prelude::*;
use vstd::seq_lib::group_seq_properties;
use crate::digest::{content_hash, is_content_hash, md5_hex_of};
use crate::text::{append_signed, decimal_text, lemma_filter_step};

verus! {

broadcast use group_seq_properties;

/// Why an upstream request gave no value.
#[derive(Debug, Clone, Copy, PartialEq, Eq, Structural)]
pub enum ApiError {
    /// The transport failed.
    RequestError,
    /// The body or the file was malformed.
    ParseError,
    /// Every client was tried, or there is none.
    NotExists,
}

/// What a JSON request comes to: no response at all, a body that did not
/// deserialize, or the value.
pub fn get_json_result<T>(response: Option<Option<T>>) -> (r: Result<T, ApiError>)
    ensures
        response is None ==> r == Err::<T, ApiError>(ApiError::NotExists),
        response matches Some(None) ==> r == Err::<T, ApiError>(ApiError::ParseError),
        response matches Some(Some(v)) ==> r == Ok::<T, ApiError>(v),
{
    match response {
        None => Err(ApiError::NotExists),
        Some(None) => Err(ApiError::ParseError),
        Some(Some(v)) => Ok(v),
    }
}

/// A downloaded beatmap: the parsed handle, the content hash and the raw bytes.
pub struct Downloaded<B> {
    pub beatmap: B,
    pub md5: String,
    pub bytes: Vec<u8>,
}

/// Finishes a download of `bytes`: an error when the parser refused them, else the
/// handle with the md5 of exactly those bytes.
pub fn downloaded_beatmap<B>(bytes: Vec<u8>, parsed: Option<B>) -> (r: Result<Downloaded<B>, ApiError>)
    ensures
        parsed is None ==> (r matches Err(e) && e == ApiError::ParseError),
        parsed matches Some(b) ==> (r matches Ok(d) && d.beatmap == b && d.bytes@ == bytes@ && d.md5@
            == md5_hex_of(bytes@) && is_content_hash(d.md5@)),
{
    match parsed {
        None => Err(ApiError::ParseError),
        Some(b) => {
            let md5 = content_hash(&bytes);
            Ok(Downloaded { beatmap: b, md5, bytes })
        },
    }
}

/// The upstream endpoint that lists beatmaps.
pub const GET_BEATMAPS_URL: &'static str = "https://old.ppy.sh/api/get_beatmaps";

/// The upstream address of the `.osu` file of beatmap `bid`.
pub fn beatmap_file_url(bid: i32) -> (r: String)
    ensures
        r@ == "https://old.ppy.sh/osu/"@ + decimal_text(bid as int),
{
    let mut s = String::from_str("https://old.ppy.sh/osu/");
    append_signed(&mut s, bid as i64);
    s
}

/// How many passes over the clients one request may make.
pub const MAX_PASSES: u64 = 3;

/// One upstream API key and its health counters.
#[derive(Debug)]
pub struct ApiClient {
    pub key: String,
    pub success_count: u64,
    pub failed_count: u64,
}

/// The pool of upstream API clients, in order, with pool-wide counters and the
/// latency of the last request in milliseconds.
#[derive(Debug)]
pub struct OsuApi {
    pub api_clients: Vec<ApiClient>,
    pub delay: u64,
    pub success_count: u64,
    pub failed_count: u64,
}

/// The texts of a sequence of strings.
pub open spec fn texts(v: Seq<String>) -> Seq<Seq<char>> {
    v.map_values(|s: String| s@)
}

/// The keys of a sequence of clients.
pub open spec fn client_keys(v: Seq<ApiClient>) -> Seq<Seq<char>> {
    v.map_values(|c: ApiClient| c.key@)
}

/// The keys after a reload: the old keys that are still wanted, in their order,
/// then the wanted keys that were not there, in theirs.
pub open spec fn reloaded_keys(old_keys: Seq<Seq<char>>, new_keys: Seq<Seq<char>>) -> Seq<Seq<char>> {
    old_keys.filter(|k: Seq<char>| new_keys.contains(k)) + new_keys.filter(
        |k: Seq<char>| !old_keys.contains(k),
    )
}

/// A counter after one more event; it stops at the largest value.
pub open spec fn bumped(n: u64) -> u64 {
    if n < u64::MAX {
        (n + 1) as u64
    } else {
        n
    }
}

fn bump(n: u64) -> (r: u64)
    ensures
        r == bumped(n),
{
    if n < u64::MAX {
        n + 1
    } else {
        n
    }
}

/// Which client attempt number `attempt` (from 0) goes to: the clients in turn,
/// for at most `MAX_PASSES` passes; `None` once they are used up.
pub open spec fn attempt_client(n: nat, attempt: nat) -> Option<nat> {
    if n == 0 || attempt >= MAX_PASSES * n {
        None
    } else {
        Some(attempt % n)
    }
}

fn contains_text(v: &Vec<String>, s: &String) -> (r: bool)
    ensures
        r == texts(v@).contains(s@),
{
    let mut i: usize = 0;
    while i < v.len()
        invariant
            i <= v@.len(),
            forall|j: int| 0 <= j < i ==> v@[j]@ != s@,
        decreases v@.len() - i,
    {
        if v[i] == *s {
            assert(texts(v@)[i as int] == s@);
            return true;
        }
        i = i + 1;
    }
    proof {
        if texts(v@).contains(s@) {
            let j = choose|j: int| 0 <= j < texts(v@).len() && texts(v@)[j] == s@;
            assert(v@[j]@ == s@);
        }
    }
    false
}

fn has_client_key(v: &Vec<ApiClient>, s: &String) -> (r: bool)
    ensures
        r == client_keys(v@).contains(s@),
{
    let mut i: usize = 0;
    while i < v.len()
        invariant
            i <= v@.len(),
            forall|j: int| 0 <= j < i ==> v@[j].key@ != s@,
        decreases v@.len() - i,
    {
        if v[i].key == *s {
            assert(client_keys(v@)[i as int] == s@);
            return true;
        }
        i = i + 1;
    }
    proof {
        if client_keys(v@).contains(s@) {
            let j = choose|j: int| 0 <= j < client_keys(v@).len() && client_keys(v@)[j] == s@;
            assert(v@[j].key@ == s@);
        }
    }
    false
}

impl ApiClient {
    /// A field-for-field copy.
    pub fn duplicate(&self) -> (r: ApiClient)
        ensures
            r == *self,
    {
        ApiClient { key: self.key.clone(), success_count: self.success_count, failed_count: self.failed_count }
    }

    pub fn new(key: String) -> (r: ApiClient)
        ensures
            r.key == key,
            r.success_count == 0,
            r.failed_count == 0,
    {
        ApiClient { key, success_count: 0, failed_count: 0 }
    }
}

impl OsuApi {
    /// A pool with one client per key, in order, all counters at zero.
    pub fn new(api_keys: &Vec<String>) -> (r: OsuApi)
        ensures
            client_keys(r.api_clients@) == texts(api_keys@),
            forall|i: int|
                0 <= i < r.api_clients@.len() ==> #[trigger] r.api_clients@[i].success_count == 0
                    && r.api_clients@[i].failed_count == 0,
            r.delay == 0,
            r.success_count == 0,
            r.failed_count == 0,
    {
        let mut clients: Vec<ApiClient> = Vec::new();
        let mut i: usize = 0;
        while i < api_keys.len()
            invariant
                i <= api_keys@.len(),
                client_keys(clients@) == texts(api_keys@).take(i as int),
                forall|j: int|
                    0 <= j < clients@.len() ==> #[trigger] clients@[j].success_count == 0
                        && clients@[j].failed_count == 0,
            decreases api_keys@.len() - i,
        {
            let k = api_keys[i].clone();
            let ghost prev = client_keys(clients@);
            assert(k@ == texts(api_keys@)[i as int]);
            clients.push(ApiClient::new(k));
            assert(client_keys(clients@) =~= prev.push(k@));
            assert(texts(api_keys@).take(i + 1) =~= texts(api_keys@).take(i as int).push(k@));
            i = i + 1;
        }
        assert(texts(api_keys@).take(api_keys@.len() as int) =~= texts(api_keys@));
        OsuApi { api_clients: clients, delay: 0, success_count: 0, failed_count: 0 }
    }

    /// Counts a successful request that took `delay` milliseconds.
    pub fn success(&mut self, delay: u64)
        ensures
            final(self).success_count == bumped(old(self).success_count),
            final(self).delay == delay,
            final(self).failed_count == old(self).failed_count,
            final(self).api_clients == old(self).api_clients,
    {
        self.success_count = bump(self.success_count);
        self.delay = delay;
    }

    /// Counts a failed request that took `delay` milliseconds.
    pub fn failed(&mut self, delay: u64)
        ensures
            final(self).failed_count == bumped(old(self).failed_count),
            final(self).delay == delay,
            final(self).success_count == old(self).success_count,
            final(self).api_clients == old(self).api_clients,
    {
        self.failed_count = bump(self.failed_count);
        self.delay = delay;
    }

    /// The client that attempt number `attempt` of one request goes to.
    pub fn attempt_target(&self, attempt: u64) -> (r: Option<usize>)
        ensures
            r matches Some(i) ==> attempt_client(self.api_clients@.len(), attempt as nat) == Some(i as nat),
            r is None ==> attempt_client(self.api_clients@.len(), attempt as nat) is None,
    {
        let n = self.api_clients.len();
        if n == 0 {
            return None;
        }
        let limit: u128 = (n as u128) + (n as u128) + (n as u128);
        if (attempt as u128) >= limit {
            return None;
        }
        Some((attempt % (n as u64)) as usize)
    }

    /// Counts a successful request by client `idx`, on the client and on the pool.
    pub fn record_success(&mut self, idx: usize, delay: u64)
        requires
            idx < old(self).api_clients@.len(),
        ensures
            final(self).api_clients@ == old(self).api_clients@.update(
                idx as int,
                ApiClient {
                    key: old(self).api_clients@[idx as int].key,
                    success_count: bumped(old(self).api_clients@[idx as int].success_count),
                    failed_count: old(self).api_clients@[idx as int].failed_count,
                },
            ),
            final(self).success_count == bumped(old(self).success_count),
            final(self).failed_count == old(self).failed_count,
            final(self).delay == delay,
    {
        let s = bump(self.api_clients[idx].success_count);
        let f = self.api_clients[idx].failed_count;
        let key = self.api_clients[idx].key.clone();
        self.api_clients.set(idx, ApiClient { key, success_count: s, failed_count: f });
        self.success(delay);
    }

    /// Counts a failed request by client `idx`, on the client and on the pool.
    pub fn record_failure(&mut self, idx: usize, delay: u64)
        requires
            idx < old(self).api_clients@.len(),
        ensures
            final(self).api_clients@ == old(self).api_clients@.update(
                idx as int,
                ApiClient {
                    key: old(self).api_clients@[idx as int].key,
                    success_count: old(self).api_clients@[idx as int].success_count,
                    failed_count: bumped(old(self).api_clients@[idx as int].failed_count),
                },
            ),
            final(self).failed_count == bumped(old(self).failed_count),
            final(self).success_count == old(self).success_count,
            final(self).delay == delay,
    {
        let s = self.api_clients[idx].success_count;
        let f = bump(self.api_clients[idx].failed_count);
        let key = self.api_clients[idx].key.clone();
        self.api_clients.set(idx, ApiClient { key, success_count: s, failed_count: f });
        self.failed(delay);
    }

    /// Brings the clients in line with `new_keys`: clients whose key is gone are
    /// dropped, the others keep their order and counters, and a client is added,
    /// in order, for each wanted key that had none.
    pub fn reload_clients(&mut self, new_keys: &Vec<String>)
        ensures
            client_keys(final(self).api_clients@) == reloaded_keys(
                client_keys(old(self).api_clients@),
                texts(new_keys@),
            ),
            forall|i: int|
                0 <= i < old(self).api_clients@.len() && texts(new_keys@).contains(
                    #[trigger] old(self).api_clients@[i].key@,
                ) ==> final(self).api_clients@.contains(old(self).api_clients@[i]),
            forall|j: int|
                0 <= j < final(self).api_clients@.len() && client_keys(old(self).api_clients@).contains(
                    #[trigger] final(self).api_clients@[j].key@,
                ) ==> old(self).api_clients@.contains(final(self).api_clients@[j]),
            final(self).delay == old(self).delay,
            final(self).success_count == old(self).success_count,
            final(self).failed_count == old(self).failed_count,
    {
        let ghost olds = self.api_clients@;
        let ghost ok = client_keys(olds);
        let ghost nk = texts(new_keys@);
        let ghost keep = |k: Seq<char>| nk.contains(k);
        let ghost add = |k: Seq<char>| !ok.contains(k);
        let mut kept: Vec<ApiClient> = Vec::new();
        let n = self.api_clients.len();
        let mut i: usize = 0;
        while i < n
            invariant
                n == olds.len(),
                i <= n,
                self.api_clients@ == olds,
                ok == client_keys(olds),
                nk == texts(new_keys@),
                keep == (|k: Seq<char>| nk.contains(k)),
                client_keys(kept@) == ok.take(i as int).filter(keep),
                forall|j: int| 0 <= j < kept@.len() ==> olds.contains(#[trigger] kept@[j]),
                forall|m: int| 0 <= m < i && nk.contains(#[trigger] olds[m].key@) ==> kept@.contains(olds[m]),
            decreases n - i,
        {
            let c = &self.api_clients[i];
            assert(ok[i as int] == c.key@);
            proof {
                lemma_filter_step(ok, i as int, keep);
            }
            let ghost prev = kept@;
            if contains_text(new_keys, &c.key) {
                kept.push(c.duplicate());
                assert(client_keys(kept@) =~= client_keys(prev).push(ok[i as int]));
            }
            assert forall|m: int| 0 <= m < i + 1 && nk.contains(#[trigger] olds[m].key@) implies kept@.contains(olds[m]) by {
                if m < i {
                    let j = choose|j: int| 0 <= j < prev.len() && prev[j] == olds[m];
                    assert(kept@[j] == prev[j]);
                } else {
                    assert(kept@[kept@.len() - 1] == olds[m]);
                }
            }
            i = i + 1;
        }
        assert(ok.take(n as int) =~= ok);
        let ghost kept0 = kept@;
        let ghost kept_keys = client_keys(kept@);
        let mut j: usize = 0;
        while j < new_keys.len()
            invariant
                j <= new_keys@.len(),
                self.api_clients@ == olds,
                ok == client_keys(olds),
                nk == texts(new_keys@),
                add == (|k: Seq<char>| !ok.contains(k)),
                kept_keys == client_keys(kept0),
                client_keys(kept@) == kept_keys + nk.take(j as int).filter(add),
                kept0.len() <= kept@.len(),
                forall|m: int| 0 <= m < kept0.len() ==> #[trigger] kept@[m] == kept0[m],
                forall|m: int| kept0.len() <= m < kept@.len() ==> !ok.contains(#[trigger] kept@[m].key@),
            decreases new_keys@.len() - j,
        {
            proof {
                lemma_filter_step(nk, j as int, add);
            }
            let ghost prev = client_keys(kept@);
            assert(nk[j as int] == new_keys@[j as int]@);
            if !has_client_key(&self.api_clients, &new_keys[j]) {
                kept.push(ApiClient::new(new_keys[j].clone()));
                assert(client_keys(kept@) =~= prev.push(nk[j as int]));
            }
            assert(client_keys(kept@) =~= kept_keys + nk.take(j + 1).filter(add));
            j = j + 1;
        }
        assert(nk.take(new_keys@.len() as int) =~= nk);
        proof {
            assert forall|m: int|
                0 <= m < kept@.len() && ok.contains(#[trigger] kept@[m].key@) implies olds.contains(kept@[m]) by {
                if m < kept0.len() {
                    assert(kept@[m] == kept0[m]);
                }
            }
            assert forall|q: int|
                0 <= q < olds.len() && nk.contains(#[trigger] olds[q].key@) implies kept@.contains(olds[q]) by {
                let w = choose|w: int| 0 <= w < kept0.len() && kept0[w] == olds[q];
                assert(kept@[w] == kept0[w]);
            }
        }
        self.api_clients = kept;
    }
}

proof fn lemma_filter_no_duplicates<A>(s: Seq<A>, p: spec_fn(A) -> bool)
    requires
        s.no_duplicates(),
    ensures
        s.filter(p).no_duplicates(),
    decreases s.len(),
{
    reveal(Seq::filter);
    if s.len() > 0 {
        let d = s.drop_last();
        assert(d.no_duplicates());
        lemma_filter_no_duplicates(d, p);
        if p(s.last()) {
            if d.filter(p).contains(s.last()) {
                d.lemma_filter_contains_rev(p, s.last());
            }
        }
    }
}

proof fn lemma_distinct_multiset<A>(a: Seq<A>, b: Seq<A>)
    requires
        a.no_duplicates(),
        b.no_duplicates(),
        forall|x: A| a.contains(x) <==> b.contains(x),
    ensures
        a.to_multiset() == b.to_multiset(),
{
    broadcast use vstd::multiset::group_multiset_axioms;
    broadcast use vstd::seq_lib::to_multiset_contains;

    a.lemma_multiset_has_no_duplicates();
    b.lemma_multiset_has_no_duplicates();
    assert forall|x: A| a.to_multiset().count(x) == b.to_multiset().count(x) by {
        if a.contains(x) {
            assert(a.to_multiset().contains(x));
            assert(b.to_multiset().contains(x));
        } else {
            assert(!a.to_multiset().contains(x));
            assert(!b.to_multiset().contains(x));
        }
    }
    assert(a.to_multiset() =~= b.to_multiset());
}

/// After a reload the client keys are exactly the wanted keys, counted with
/// multiplicity, when neither the old keys nor the wanted keys repeat one.
pub proof fn lemma_reload_keys(old_keys: Seq<Seq<char>>, new_keys: Seq<Seq<char>>)
    requires
        old_keys.no_duplicates(),
        new_keys.no_duplicates(),
    ensures
        reloaded_keys(old_keys, new_keys).to_multiset() == new_keys.to_multiset(),
{
    let keep = |k: Seq<char>| new_keys.contains(k);
    let add = |k: Seq<char>| !old_keys.contains(k);
    let a = old_keys.filter(keep);
    let b = new_keys.filter(add);
    lemma_filter_no_duplicates(old_keys, keep);
    lemma_filter_no_duplicates(new_keys, add);
    assert forall|i: int, j: int| 0 <= i < a.len() && 0 <= j < b.len() implies a[i] != b[j] by {
        assert(a.contains(a[i]));
        old_keys.lemma_filter_contains_rev(keep, a[i]);
        new_keys.lemma_filter_pred(add, j);
    }
    vstd::seq_lib::lemma_no_dup_in_concat(a, b);
    let r = a + b;
    assert forall|x: Seq<char>| r.contains(x) <==> new_keys.contains(x) by {
        if r.contains(x) {
            let i = choose|i: int| 0 <= i < r.len() && r[i] == x;
            if i < a.len() {
                old_keys.lemma_filter_pred(keep, i);
            } else {
                assert(b[i - a.len()] == x);
                assert(b.contains(x));
                new_keys.lemma_filter_contains_rev(add, x);
            }
        }
        if new_keys.contains(x) {
            if old_keys.contains(x) {
                let i = choose|i: int| 0 <= i < old_keys.len() && old_keys[i] == x;
                old_keys.lemma_filter_contains(keep, i);
                let k = choose|k: int| 0 <= k < a.len() && a[k] == x;
                assert(r[k] == x);
            } else {
                let i = choose|i: int| 0 <= i < new_keys.len() && new_keys[i] == x;
                new_keys.lemma_filter_contains(add, i);
                let k = choose|k: int| 0 <= k < b.len() && b[k] == x;
                assert(r[a.len() + k] == x);
            }
        }
    }
    lemma_distinct_multiset(r, new_keys);
}

} // verus!
