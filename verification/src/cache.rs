//! The manifest of downloaded models: a map from model id to the entry that
//! records where and when the model was stored, kept in ascending id order.
use vstd::prelude::*;
use crate::paths::{model_cache_dir, model_cache_dir_spec, opt_view};
use crate::text::{decimal, push_decimal, push_zero_padded, zero_padded};
use crate::order::{
    lemma_text_lt_irreflexive, lemma_text_lt_total, lemma_text_lt_transitive, text_equal,
    text_less, text_lt,
};

verus! {

/// Which weight format a cached model holds.
#[derive(Debug, Clone, Copy, PartialEq, Eq, Structural)]
pub enum ModelVariant {
    Safetensors,
    Gguf,
}

/// One downloaded model, as the manifest records it.
pub struct ModelEntry {
    pub model_id: String,
    pub variant: ModelVariant,
    pub downloaded_at: String,
    pub path: String,
}

/// What a [`ModelEntry`] holds, as text.
pub struct ModelEntryView {
    pub model_id: Seq<char>,
    pub variant: ModelVariant,
    pub downloaded_at: Seq<char>,
    pub path: Seq<char>,
}

impl View for ModelEntry {
    type V = ModelEntryView;

    open spec fn view(&self) -> ModelEntryView {
        ModelEntryView {
            model_id: self.model_id@,
            variant: self.variant,
            downloaded_at: self.downloaded_at@,
            path: self.path@,
        }
    }
}

impl Clone for ModelEntry {
    fn clone(&self) -> (r: Self)
        ensures
            r@ == self@,
    {
        ModelEntry {
            model_id: self.model_id.clone(),
            variant: self.variant,
            downloaded_at: self.downloaded_at.clone(),
            path: self.path.clone(),
        }
    }
}

/// Keys in strictly ascending order.
pub open spec fn strictly_sorted(keys: Seq<Seq<char>>) -> bool {
    forall|i: int, j: int| 0 <= i < j < keys.len() ==> text_lt(keys[i], keys[j])
}

/// The map that pairs each key with the value at the same position.
pub open spec fn assoc<V>(keys: Seq<Seq<char>>, vals: Seq<V>) -> Map<Seq<char>, V> {
    Map::new(|k: Seq<char>| keys.contains(k), |k: Seq<char>| vals[keys.index_of(k)])
}

proof fn lemma_sorted_no_duplicates(keys: Seq<Seq<char>>)
    requires
        strictly_sorted(keys),
    ensures
        keys.no_duplicates(),
{
    assert forall|i: int, j: int|
        0 <= i < keys.len() && 0 <= j < keys.len() && i != j implies keys[i] != keys[j] by {
        if i < j {
            lemma_text_lt_irreflexive(keys[i]);
        } else {
            lemma_text_lt_irreflexive(keys[j]);
        }
    }
}

proof fn lemma_index_of_unique(keys: Seq<Seq<char>>, i: int)
    requires
        keys.no_duplicates(),
        0 <= i < keys.len(),
    ensures
        keys.contains(keys[i]),
        keys.index_of(keys[i]) == i,
{
    assert(keys[i] == keys[i]);
    assert(keys.contains(keys[i]));
    let j = keys.index_of(keys[i]);
    assert(0 <= j < keys.len() && keys[j] == keys[i]);
}

proof fn lemma_assoc_at<V>(keys: Seq<Seq<char>>, vals: Seq<V>, i: int)
    requires
        keys.no_duplicates(),
        0 <= i < keys.len(),
    ensures
        assoc(keys, vals).contains_key(keys[i]),
        assoc(keys, vals)[keys[i]] == vals[i],
{
    lemma_index_of_unique(keys, i);
}

proof fn lemma_assoc_insert<V>(keys: Seq<Seq<char>>, vals: Seq<V>, p: int, k: Seq<char>, v: V)
    requires
        keys.no_duplicates(),
        keys.len() == vals.len(),
        !keys.contains(k),
        0 <= p <= keys.len(),
    ensures
        keys.insert(p, k).no_duplicates(),
        assoc(keys.insert(p, k), vals.insert(p, v)) =~= assoc(keys, vals).insert(k, v),
{
    let ks = keys.insert(p, k);
    let vs = vals.insert(p, v);
    keys.insert_ensures(p, k);
    vals.insert_ensures(p, v);
    assert forall|i: int, j: int|
        0 <= i < ks.len() && 0 <= j < ks.len() && i != j implies ks[i] != ks[j] by {
        if i != p && j != p {
            let oi = if i < p { i } else { i - 1 };
            let oj = if j < p { j } else { j - 1 };
            assert(ks[i] == keys[oi]);
            assert(ks[j] == keys[oj]);
        } else if i == p {
            let oj = if j < p { j } else { j - 1 };
            assert(ks[j] == keys[oj]);
        } else {
            let oi = if i < p { i } else { i - 1 };
            assert(ks[i] == keys[oi]);
        }
    }
    let old_map = assoc(keys, vals);
    let new_map = assoc(ks, vs);
    assert forall|x: Seq<char>| #[trigger] new_map.contains_key(x) <==> old_map.insert(
        k,
        v,
    ).contains_key(x) by {
        if ks.contains(x) {
            let i = choose|i: int| 0 <= i < ks.len() && ks[i] == x;
            if i != p {
                let oi = if i < p { i } else { i - 1 };
                assert(keys[oi] == x);
            }
        }
        if keys.contains(x) {
            let oi = choose|i: int| 0 <= i < keys.len() && keys[i] == x;
            let ni = if oi < p { oi } else { oi + 1 };
            assert(ks[ni] == x);
        }
        if x == k {
            assert(ks[p] == k);
        }
    }
    assert forall|x: Seq<char>| #[trigger] new_map.contains_key(x) implies new_map[x] == old_map.insert(
        k,
        v,
    )[x] by {
        if x == k {
            assert(ks[p] == k);
            lemma_index_of_unique(ks, p);
        } else {
            assert(keys.contains(x));
            let oi = choose|i: int| 0 <= i < keys.len() && keys[i] == x;
            let ni = if oi < p { oi } else { oi + 1 };
            assert(ks[ni] == x);
            lemma_assoc_at(keys, vals, oi);
            lemma_assoc_at(ks, vs, ni);
        }
    }
}

proof fn lemma_assoc_update<V>(keys: Seq<Seq<char>>, vals: Seq<V>, p: int, v: V)
    requires
        keys.no_duplicates(),
        keys.len() == vals.len(),
        0 <= p < keys.len(),
    ensures
        assoc(keys, vals.update(p, v)) =~= assoc(keys, vals).insert(keys[p], v),
{
    let vs = vals.update(p, v);
    let old_map = assoc(keys, vals);
    let new_map = assoc(keys, vs);
    assert(keys.contains(keys[p])) by {
        lemma_index_of_unique(keys, p);
    }
    assert forall|x: Seq<char>| #[trigger] new_map.contains_key(x) implies new_map[x]
        == old_map.insert(keys[p], v)[x] by {
        let i = choose|i: int| 0 <= i < keys.len() && keys[i] == x;
        lemma_assoc_at(keys, vals, i);
        lemma_assoc_at(keys, vs, i);
    }
}

proof fn lemma_assoc_remove<V>(keys: Seq<Seq<char>>, vals: Seq<V>, p: int)
    requires
        keys.no_duplicates(),
        keys.len() == vals.len(),
        0 <= p < keys.len(),
    ensures
        keys.remove(p).no_duplicates(),
        assoc(keys.remove(p), vals.remove(p)) =~= assoc(keys, vals).remove(keys[p]),
{
    let ks = keys.remove(p);
    let vs = vals.remove(p);
    keys.remove_ensures(p);
    vals.remove_ensures(p);
    assert forall|i: int, j: int|
        0 <= i < ks.len() && 0 <= j < ks.len() && i != j implies ks[i] != ks[j] by {
        let oi = if i < p { i } else { i + 1 };
        let oj = if j < p { j } else { j + 1 };
        assert(ks[i] == keys[oi]);
        assert(ks[j] == keys[oj]);
    }
    let old_map = assoc(keys, vals);
    let new_map = assoc(ks, vs);
    assert forall|x: Seq<char>| #[trigger] new_map.contains_key(x) <==> old_map.remove(
        keys[p],
    ).contains_key(x) by {
        if ks.contains(x) {
            let i = choose|i: int| 0 <= i < ks.len() && ks[i] == x;
            let oi = if i < p { i } else { i + 1 };
            assert(keys[oi] == x);
        }
        if keys.contains(x) && x != keys[p] {
            let oi = choose|i: int| 0 <= i < keys.len() && keys[i] == x;
            let ni = if oi < p { oi } else { oi - 1 };
            assert(ks[ni] == x);
        }
    }
    assert forall|x: Seq<char>| #[trigger] new_map.contains_key(x) implies new_map[x]
        == old_map.remove(keys[p])[x] by {
        let i = choose|i: int| 0 <= i < ks.len() && ks[i] == x;
        let oi = if i < p { i } else { i + 1 };
        assert(keys[oi] == x);
        lemma_assoc_at(keys, vals, oi);
        lemma_assoc_at(ks, vs, i);
    }
}

/// The manifest of downloaded models, keyed by model id.
///
/// Ids are kept in ascending order, each once, as a `BTreeMap` keeps them.
pub struct Manifest {
    keys: Vec<String>,
    entries: Vec<ModelEntry>,
}

impl Manifest {
    /// The ids, in the order the manifest keeps them.
    pub closed spec fn key_order(&self) -> Seq<Seq<char>> {
        self.keys@.map_values(|k: String| k@)
    }

    /// The entries, in the order of their ids.
    pub closed spec fn listing(&self) -> Seq<ModelEntryView> {
        self.entries@.map_values(|e: ModelEntry| e@)
    }

    /// The manifest's invariant: one entry per id, ids strictly ascending.
    pub closed spec fn wf(&self) -> bool {
        &&& self.keys@.len() == self.entries@.len()
        &&& strictly_sorted(self.key_order())
    }

    pub closed spec fn as_map(&self) -> Map<Seq<char>, ModelEntryView> {
        assoc(self.key_order(), self.listing())
    }
}

impl View for Manifest {
    type V = Map<Seq<char>, ModelEntryView>;

    open spec fn view(&self) -> Map<Seq<char>, ModelEntryView> {
        self.as_map()
    }
}

impl Manifest {
    /// A manifest with no models.
    pub fn new() -> (m: Manifest)
        ensures
            m.wf(),
            m@ == Map::<Seq<char>, ModelEntryView>::empty(),
    {
        let m = Manifest { keys: Vec::new(), entries: Vec::new() };
        assert(m.key_order() =~= Seq::<Seq<char>>::empty());
        assert(m@ =~= Map::<Seq<char>, ModelEntryView>::empty());
        m
    }

    /// The number of models recorded.
    pub fn len(&self) -> (n: usize)
        requires
            self.wf(),
        ensures
            n == self.listing().len(),
    {
        self.entries.len()
    }

    /// The position of the first id that does not come before `key`.
    fn lower_bound(&self, key: &str) -> (p: usize)
        requires
            self.wf(),
        ensures
            p <= self.key_order().len(),
            forall|i: int| 0 <= i < p ==> text_lt(#[trigger] self.key_order()[i], key@),
            p < self.key_order().len() ==> !text_lt(self.key_order()[p as int], key@),
    {
        let n = self.keys.len();
        let mut p: usize = 0;
        while p < n && text_less(self.keys[p].as_str(), key)
            invariant
                self.wf(),
                n == self.keys@.len(),
                p <= n,
                forall|i: int| 0 <= i < p ==> text_lt(#[trigger] self.key_order()[i], key@),
            decreases n - p,
        {
            p = p + 1;
        }
        p
    }

    /// The position of `key`, if the manifest holds it.
    fn position(&self, key: &str) -> (r: Option<usize>)
        requires
            self.wf(),
        ensures
            match r {
                Some(p) => p < self.key_order().len() && self.key_order()[p as int] == key@,
                None => !self.key_order().contains(key@),
            },
    {
        let p = self.lower_bound(key);
        if p < self.keys.len() && text_equal(self.keys[p].as_str(), key) {
            Some(p)
        } else {
            proof {
                self.lemma_absent_beyond(key@, p as int);
            }
            None
        }
    }

    /// No id equals `key` when the ids before `p` come before it and the
    /// one at `p` (if any) neither comes before it nor equals it.
    proof fn lemma_absent_beyond(&self, key: Seq<char>, p: int)
        requires
            self.wf(),
            0 <= p <= self.key_order().len(),
            forall|i: int| 0 <= i < p ==> text_lt(#[trigger] self.key_order()[i], key),
            p < self.key_order().len() ==> !text_lt(self.key_order()[p], key),
            p < self.key_order().len() ==> self.key_order()[p] != key,
        ensures
            !self.key_order().contains(key),
            forall|i: int| p <= i < self.key_order().len() ==> text_lt(key, #[trigger] self.key_order()[i]),
    {
        let ks = self.key_order();
        if p < ks.len() {
            lemma_text_lt_total(ks[p], key);
        }
        assert forall|i: int| p <= i < ks.len() implies text_lt(key, #[trigger] ks[i]) by {
            if i > p {
                lemma_text_lt_transitive(key, ks[p], ks[i]);
            }
        }
        assert forall|i: int| 0 <= i < ks.len() implies ks[i] != key by {
            if i < p {
                lemma_text_lt_irreflexive(key);
            } else {
                lemma_text_lt_irreflexive(key);
            }
        }
    }

    /// Records `entry` under `key`, replacing what was recorded there.
    pub fn insert(&mut self, key: String, entry: ModelEntry)
        requires
            old(self).wf(),
        ensures
            final(self).wf(),
            final(self)@ == old(self)@.insert(key@, entry@),
    {
        let ghost ks0 = self.key_order();
        let ghost vs0 = self.listing();
        proof {
            lemma_sorted_no_duplicates(ks0);
        }
        let p = self.lower_bound(key.as_str());
        if p < self.keys.len() && text_equal(self.keys[p].as_str(), key.as_str()) {
            self.entries.set(p, entry);
            proof {
                assert(self.listing() =~= vs0.update(p as int, entry@));
                assert(self.key_order() =~= ks0);
                lemma_assoc_update(ks0, vs0, p as int, entry@);
            }
        } else {
            proof {
                self.lemma_absent_beyond(key@, p as int);
            }
            self.keys.insert(p, key);
            self.entries.insert(p, entry);
            proof {
                let k = key@;
                assert(self.key_order() =~= ks0.insert(p as int, k));
                assert(self.listing() =~= vs0.insert(p as int, entry@));
                lemma_assoc_insert(ks0, vs0, p as int, k, entry@);
                ks0.insert_ensures(p as int, k);
                let ks = self.key_order();
                assert forall|i: int, j: int| 0 <= i < j < ks.len() implies text_lt(
                    ks[i],
                    ks[j],
                ) by {
                    let oi = if i < p { i } else { i - 1 };
                    let oj = if j < p { j } else { j - 1 };
                    if i != p && j != p {
                        assert(ks[i] == ks0[oi]);
                        assert(ks[j] == ks0[oj]);
                    } else if i == p {
                        assert(ks[j] == ks0[oj]);
                    } else {
                        assert(ks[i] == ks0[oi]);
                    }
                }
            }
        }
    }

    /// The entry recorded under `key`, if any.
    pub fn get(&self, key: &str) -> (r: Option<ModelEntry>)
        requires
            self.wf(),
        ensures
            match r {
                Some(e) => self@.contains_key(key@) && e@ == self@[key@],
                None => !self@.contains_key(key@),
            },
    {
        proof {
            lemma_sorted_no_duplicates(self.key_order());
        }
        match self.position(key) {
            Some(p) => {
                proof {
                    lemma_assoc_at(self.key_order(), self.listing(), p as int);
                }
                Some(self.entries[p].clone())
            },
            None => None,
        }
    }

    /// Removes the entry recorded under `key` and returns it.
    pub fn remove(&mut self, key: &str) -> (r: Option<ModelEntry>)
        requires
            old(self).wf(),
        ensures
            final(self).wf(),
            final(self)@ == old(self)@.remove(key@),
            match r {
                Some(e) => old(self)@.contains_key(key@) && e@ == old(self)@[key@],
                None => !old(self)@.contains_key(key@),
            },
    {
        let ghost ks0 = self.key_order();
        let ghost vs0 = self.listing();
        proof {
            lemma_sorted_no_duplicates(ks0);
        }
        match self.position(key) {
            Some(p) => {
                proof {
                    lemma_assoc_at(ks0, vs0, p as int);
                }
                self.keys.remove(p);
                let e = self.entries.remove(p);
                proof {
                    assert(self.key_order() =~= ks0.remove(p as int));
                    assert(self.listing() =~= vs0.remove(p as int));
                    lemma_assoc_remove(ks0, vs0, p as int);
                    ks0.remove_ensures(p as int);
                    let ks = self.key_order();
                    assert forall|i: int, j: int| 0 <= i < j < ks.len() implies text_lt(
                        ks[i],
                        ks[j],
                    ) by {
                        let oi = if i < p { i } else { i + 1 };
                        let oj = if j < p { j } else { j + 1 };
                        assert(ks[i] == ks0[oi]);
                        assert(ks[j] == ks0[oj]);
                    }
                }
                Some(e)
            },
            None => {
                assert(self@ =~= self@.remove(key@));
                None
            },
        }
    }

    /// All entries, in ascending order of their ids.
    pub fn values(&self) -> (r: Vec<ModelEntry>)
        requires
            self.wf(),
        ensures
            r@.len() == self.listing().len(),
            forall|i: int| 0 <= i < r@.len() ==> #[trigger] r@[i]@ == self.listing()[i],
    {
        let mut r: Vec<ModelEntry> = Vec::new();
        let n = self.entries.len();
        let mut i: usize = 0;
        while i < n
            invariant
                i <= n,
                n == self.entries@.len(),
                r@.len() == i,
                forall|j: int| 0 <= j < i ==> #[trigger] r@[j]@ == self.listing()[j],
            decreases n - i,
        {
            r.push(self.entries[i].clone());
            i = i + 1;
        }
        r
    }

    /// All ids with their entries, in ascending order of the ids.
    pub fn records(&self) -> (r: Vec<(String, ModelEntry)>)
        requires
            self.wf(),
        ensures
            r@.len() == self.listing().len(),
            forall|i: int|
                0 <= i < r@.len() ==> (#[trigger] r@[i]).0@ == self.key_order()[i] && r@[i].1@
                    == self.listing()[i],
    {
        let mut r: Vec<(String, ModelEntry)> = Vec::new();
        let n = self.entries.len();
        let mut i: usize = 0;
        while i < n
            invariant
                i <= n,
                n == self.entries@.len(),
                n == self.keys@.len(),
                r@.len() == i,
                forall|j: int|
                    0 <= j < i ==> (#[trigger] r@[j]).0@ == self.key_order()[j] && r@[j].1@
                        == self.listing()[j],
            decreases n - i,
        {
            r.push((self.keys[i].clone(), self.entries[i].clone()));
            i = i + 1;
        }
        r
    }

    /// The listing holds exactly the recorded entries, each once, in strictly
    /// ascending order of id: what iterating a `BTreeMap` gives.
    pub proof fn law_listing_in_id_order(&self)
        requires
            self.wf(),
        ensures
            self.key_order().len() == self.listing().len(),
            strictly_sorted(self.key_order()),
            forall|i: int|
                0 <= i < self.key_order().len() ==> self@.contains_key(
                    #[trigger] self.key_order()[i],
                ) && self@[self.key_order()[i]] == self.listing()[i],
            forall|k: Seq<char>| #[trigger] self@.contains_key(k) ==> self.key_order().contains(k),
    {
        lemma_sorted_no_duplicates(self.key_order());
        assert forall|i: int| 0 <= i < self.key_order().len() implies self@.contains_key(
            #[trigger] self.key_order()[i],
        ) && self@[self.key_order()[i]] == self.listing()[i] by {
            lemma_assoc_at(self.key_order(), self.listing(), i);
        }
    }
}

/// When a model was downloaded, as the manifest records it:
/// `"{days}d {hours:02}:{minutes:02}:{seconds:02}"` for `secs` seconds since
/// the Unix epoch.
pub open spec fn timestamp_text(secs: nat) -> Seq<char> {
    let t = secs % 86400;
    decimal(secs / 86400) + "d "@ + zero_padded(t / 3600, 2) + ":"@ + zero_padded((t % 3600) / 60, 2)
        + ":"@ + zero_padded(t % 60, 2)
}

/// The day, hour, minute and second fields of a download time: hours,
/// minutes and seconds in range, recombining to the seconds they came from.
pub open spec fn timestamp_fields(secs: nat) -> (nat, nat, nat, nat) {
    let t = secs % 86400;
    (secs / 86400, t / 3600, (t % 3600) / 60, t % 60)
}

/// A download time is its fields, days in decimal and the rest in two
/// digits each; the fields are in range and give back the seconds, so the
/// text reads back as the time it was written from.
pub proof fn law_timestamp_fields(secs: nat)
    ensures
        ({
            let (d, h, m, x) = timestamp_fields(secs);
            &&& h < 24 && m < 60 && x < 60
            &&& d * 86400 + h * 3600 + m * 60 + x == secs
            &&& zero_padded(h, 2).len() == 2 && zero_padded(m, 2).len() == 2 && zero_padded(x, 2).len()
                == 2
            &&& timestamp_text(secs) == decimal(d) + "d "@ + zero_padded(h, 2) + ":"@ + zero_padded(
                m,
                2,
            ) + ":"@ + zero_padded(x, 2)
        }),
{
    let (d, h, m, x) = timestamp_fields(secs);
    let t = secs % 86400;
    assert(secs == d * 86400 + t) by (nonlinear_arith)
        requires
            d == secs / 86400,
            t == secs % 86400,
    ;
    assert(t == h * 3600 + m * 60 + x && h < 24 && m < 60 && x < 60) by (nonlinear_arith)
        requires
            t < 86400,
            h == t / 3600,
            m == (t % 3600) / 60,
            x == t % 60,
    ;
    lemma_two_digits(h);
    lemma_two_digits(m);
    lemma_two_digits(x);
}

proof fn lemma_two_digits(n: nat)
    requires
        n < 100,
    ensures
        zero_padded(n, 2).len() == 2,
{
    if n >= 10 {
        assert(decimal(n).len() == 2) by {
            assert(decimal(n / 10).len() == 1);
        }
    }
}

/// The entry that registering `model_id` records.
pub open spec fn registered_entry(
    home: Option<Seq<char>>,
    model_id: Seq<char>,
    variant: ModelVariant,
    downloaded_at: Seq<char>,
) -> ModelEntryView {
    ModelEntryView {
        model_id,
        variant,
        downloaded_at,
        path: model_cache_dir_spec(home, model_id),
    }
}

/// Seconds since the Unix epoch by the system clock.
///
/// Calls std's `SystemTime::now`, then `duration_since(UNIX_EPOCH)` and
/// `as_secs`, with 0 for a clock set before the epoch. Nothing is stated of
/// the value: it is whatever the clock reads.
#[verifier::external_body]
fn unix_now_secs() -> u64 {
    std::time::SystemTime::now().duration_since(std::time::UNIX_EPOCH).unwrap_or_default().as_secs()
}

/// `secs` seconds since the Unix epoch as the manifest writes a download time.
pub fn format_timestamp(secs: u64) -> (r: String)
    ensures
        r@ == timestamp_text(secs as nat),
{
    let t = secs % 86400;
    let mut r = String::new();
    push_decimal(&mut r, secs / 86400);
    r.append("d ");
    push_zero_padded(&mut r, t / 3600, 2);
    r.append(":");
    push_zero_padded(&mut r, (t % 3600) / 60, 2);
    r.append(":");
    push_zero_padded(&mut r, t % 60, 2);
    assert(r@ =~= timestamp_text(secs as nat));
    r
}

/// The current time as the manifest writes a download time.
pub fn human_now() -> (r: String)
    ensures
        exists|secs: u64| r@ == timestamp_text(secs as nat),
{
    let secs = unix_now_secs();
    format_timestamp(secs)
}

/// Records `model_id` as downloaded `secs` seconds after the Unix epoch,
/// in its directory under the cache of `home`.
pub fn register_model_at(
    manifest: &mut Manifest,
    home: Option<&str>,
    model_id: &str,
    variant: ModelVariant,
    secs: u64,
)
    requires
        old(manifest).wf(),
    ensures
        final(manifest).wf(),
        final(manifest)@ == old(manifest)@.insert(
            model_id@,
            registered_entry(opt_view(home), model_id@, variant, timestamp_text(secs as nat)),
        ),
{
    let entry = ModelEntry {
        model_id: String::from_str(model_id),
        variant,
        downloaded_at: format_timestamp(secs),
        path: model_cache_dir(home, model_id),
    };
    manifest.insert(String::from_str(model_id), entry);
}

/// Records `model_id` as downloaded now, replacing any earlier record of it.
pub fn register_model(
    manifest: &mut Manifest,
    home: Option<&str>,
    model_id: &str,
    variant: ModelVariant,
)
    requires
        old(manifest).wf(),
    ensures
        final(manifest).wf(),
        exists|secs: u64|
            final(manifest)@ == old(manifest)@.insert(
                model_id@,
                registered_entry(opt_view(home), model_id@, variant, timestamp_text(secs as nat)),
            ),
{
    let secs = unix_now_secs();
    register_model_at(manifest, home, model_id, variant, secs);
}

/// Every recorded model, in ascending order of id.
pub fn list_models(manifest: &Manifest) -> (r: Vec<ModelEntry>)
    requires
        manifest.wf(),
    ensures
        r@.len() == manifest.listing().len(),
        forall|i: int| 0 <= i < r@.len() ==> #[trigger] r@[i]@ == manifest.listing()[i],
{
    manifest.values()
}

/// The record of `model_id`, if it was downloaded.
pub fn get_model(manifest: &Manifest, model_id: &str) -> (r: Option<ModelEntry>)
    requires
        manifest.wf(),
    ensures
        match r {
            Some(e) => manifest@.contains_key(model_id@) && e@ == manifest@[model_id@],
            None => !manifest@.contains_key(model_id@),
        },
{
    manifest.get(model_id)
}

/// Drops the record of `model_id` and returns it, so that the caller can
/// delete its directory; `None` when the model was not recorded.
pub fn remove_model(manifest: &mut Manifest, model_id: &str) -> (r: Option<ModelEntry>)
    requires
        old(manifest).wf(),
    ensures
        final(manifest).wf(),
        final(manifest)@ == old(manifest)@.remove(model_id@),
        match r {
            Some(e) => old(manifest)@.contains_key(model_id@) && e@ == old(manifest)@[model_id@],
            None => !old(manifest)@.contains_key(model_id@),
        },
{
    manifest.remove(model_id)
}

/// After a model is registered, looking it up gives the entry just
/// recorded, and every other model reads as before.
pub proof fn law_lookup_after_register(
    before: Map<Seq<char>, ModelEntryView>,
    model_id: Seq<char>,
    entry: ModelEntryView,
    other: Seq<char>,
)
    ensures
        before.insert(model_id, entry).contains_key(model_id),
        before.insert(model_id, entry)[model_id] == entry,
        other != model_id ==> (before.insert(model_id, entry).contains_key(other)
            == before.contains_key(other) && before.insert(model_id, entry)[other] == before[other]),
{
}

/// Registering a model twice keeps only the second record.
pub proof fn law_register_replaces(
    before: Map<Seq<char>, ModelEntryView>,
    model_id: Seq<char>,
    first: ModelEntryView,
    second: ModelEntryView,
)
    ensures
        before.insert(model_id, first).insert(model_id, second) == before.insert(model_id, second),
{
    assert(before.insert(model_id, first).insert(model_id, second) =~= before.insert(
        model_id,
        second,
    ));
}

/// Removing a model after registering it leaves no record of it, and the
/// other models as they were before the registration.
pub proof fn law_remove_after_register(
    before: Map<Seq<char>, ModelEntryView>,
    model_id: Seq<char>,
    entry: ModelEntryView,
)
    ensures
        !before.insert(model_id, entry).remove(model_id).contains_key(model_id),
        before.insert(model_id, entry).remove(model_id) == before.remove(model_id),
{
    assert(before.insert(model_id, entry).remove(model_id) =~= before.remove(model_id));
}

} // verus!
