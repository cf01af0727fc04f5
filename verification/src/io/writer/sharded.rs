//! The sharded writer: a logical sink split across shard files of bounded
//! size. It decides, record by record, which shard a record goes to and
//! whether that shard's file is yet to be opened.

use vstd::prelude::*;
use vstd::arithmetic::div_mod::lemma_fundamental_div_mod_converse;
use vstd::set_lib::{lemma_int_range, set_int_range};
use crate::io::writer::pattern::{expand_pattern, expanded, join_path, path_under};
use crate::sample::{text_at, Sample};
use crate::text::{chars_of, has_suffix, str_ends_with, str_eq, string_of};

verus! {

/// `std::hash::Hash` of a string into a `DefaultHasher`, finished: a hash
/// of the text.
#[verifier::external_body]
fn hash_text(s: &str) -> u64 {
    let mut hasher = std::collections::hash_map::DefaultHasher::new();
    std::hash::Hash::hash(s, &mut hasher);
    std::hash::Hasher::finish(&hasher)
}

/// The records of one key value: the shard its run begins at, and how many
/// records of it have been placed.
pub struct KeyRun {
    pub key: String,
    pub base: usize,
    pub count: usize,
}

/// Why the sharded writer refuses.
#[derive(Clone, Copy, PartialEq, Eq, Structural, Debug)]
pub enum ShardError {
    /// A shard key was given without a number of records per shard.
    KeyWithoutLimit,
    /// The shard numbers, or the records of a key, are used up.
    Exhausted,
}

/// Where a record goes.
pub struct Placement {
    /// The number of the shard.
    pub shard_id: usize,
    /// The path of the shard's file.
    pub path: String,
    /// Whether this is the first record of the shard, whose file is to be opened.
    pub first: bool,
}

/// Splits a sink across shard files.
pub struct ShardedWriter {
    shard_key: Option<String>,
    base_path: String,
    extension: String,
    samples_per_shard: usize,
    shard_name_pattern: String,
    current_shard_id: usize,
    current_shard_count: usize,
    key_runs: Vec<KeyRun>,
    opened: Vec<usize>,
}

/// The shard of the `k`-th record (from 0) placed in sequence, with `limit`
/// records per shard: shard `k / limit`. Without a limit every record gets
/// a shard of its own, from shard 1 on.
pub open spec fn seq_shard(k: nat, limit: nat) -> nat {
    if limit == 0 {
        k + 1
    } else {
        k / limit
    }
}

/// The shard of the `j`-th record (from 0) of a key whose run begins at `base`.
pub open spec fn key_shard(base: nat, j: nat, limit: nat) -> nat {
    if limit == 0 {
        base
    } else {
        base + j / limit
    }
}

/// The index of the run of `key`.
pub open spec fn run_index(runs: Seq<KeyRun>, key: Seq<char>) -> Option<int>
    decreases runs.len(),
{
    if runs.len() == 0 {
        None
    } else if runs.last().key@ == key {
        Some(runs.len() - 1)
    } else {
        run_index(runs.drop_last(), key)
    }
}

proof fn lemma_run_index_bounds(runs: Seq<KeyRun>, key: Seq<char>)
    ensures
        run_index(runs, key) matches Some(i) ==> 0 <= i < runs.len() && runs[i].key@ == key,
    decreases runs.len(),
{
    if runs.len() > 0 && runs.last().key@ != key {
        lemma_run_index_bounds(runs.drop_last(), key);
    }
}

/// The extension of the format that a pattern ends in, without the dot:
/// `parquet`, `jsonl` or `json`, and `jsonl` where it ends in none of them.
pub open spec fn extension_of(pattern: Option<Seq<char>>) -> Seq<char> {
    match pattern {
        Some(p) => if has_suffix(p, ".parquet"@) {
            "parquet"@
        } else if has_suffix(p, ".jsonl"@) {
            "jsonl"@
        } else if has_suffix(p, ".json"@) {
            "json"@
        } else {
            "jsonl"@
        },
        None => "jsonl"@,
    }
}

/// Whether any sub-writer reported data.
pub open spec fn any_data(reports: Seq<(usize, bool)>) -> bool {
    exists|i: int| 0 <= i < reports.len() && (#[trigger] reports[i]).1
}

/// The shards whose sub-writer reported no data, in order.
pub open spec fn empty_shards(reports: Seq<(usize, bool)>) -> Seq<usize>
    decreases reports.len(),
{
    if reports.len() == 0 {
        Seq::empty()
    } else if reports.last().1 {
        empty_shards(reports.drop_last())
    } else {
        empty_shards(reports.drop_last()).push(reports.last().0)
    }
}

impl ShardedWriter {
    /// The records per shard.
    pub closed spec fn limit(&self) -> nat {
        self.samples_per_shard as nat
    }

    /// The column that keys the shards, if any.
    pub closed spec fn key(&self) -> Option<Seq<char>> {
        match self.shard_key {
            Some(k) => Some(k@),
            None => None,
        }
    }

    /// The directory of the shard files.
    pub closed spec fn base(&self) -> Seq<char> {
        self.base_path@
    }

    /// The extension that `{ext}` stands for.
    pub closed spec fn extension(&self) -> Seq<char> {
        self.extension@
    }

    /// The pattern of the shard file names.
    pub closed spec fn pattern(&self) -> Seq<char> {
        self.shard_name_pattern@
    }

    /// The number of records placed in sequence.
    pub closed spec fn sequential_count(&self) -> nat {
        if self.samples_per_shard == 0 {
            self.current_shard_id as nat
        } else {
            (self.current_shard_id * self.samples_per_shard + self.current_shard_count) as nat
        }
    }

    /// The runs of the key values seen, in the order they were first seen.
    pub closed spec fn runs(&self) -> Seq<KeyRun> {
        self.key_runs@
    }

    /// The shards that have received a record, in the order they were opened.
    pub closed spec fn opened(&self) -> Seq<usize> {
        self.opened@
    }

    /// The first shard and the number of records of a key value.
    pub open spec fn run_of(&self, value: Seq<char>) -> Option<(usize, usize)> {
        match run_index(self.runs(), value) {
            Some(i) => Some((self.runs()[i].base, self.runs()[i].count)),
            None => None,
        }
    }

    /// The key value of a record: the text in the key column.
    pub open spec fn key_value(&self, sample: Sample) -> Option<Seq<char>> {
        match self.key() {
            Some(k) => text_at(sample@, k),
            None => None,
        }
    }

    /// The path of a shard's file.
    pub open spec fn path_of(&self, shard_id: usize) -> Seq<char> {
        path_under(self.base(), expanded(self.pattern(), self.extension(), shard_id as nat))
    }

    /// The state is consistent. A writer with a shard key has a limit.
    pub closed spec fn wf(&self) -> bool {
        &&& self.shard_key is Some ==> self.samples_per_shard > 0
        &&& self.current_shard_count == 0 ==> self.current_shard_id == 0
        &&& self.samples_per_shard > 0 ==> self.current_shard_count <= self.samples_per_shard
        &&& self.samples_per_shard == 0 ==> self.current_shard_count <= 1
        &&& forall|i: int| 0 <= i < self.key_runs@.len() ==> (#[trigger] self.key_runs@[i]).base < 1000
    }

    /// Whether no shard is left for the next record with this key value:
    /// its shard would lie beyond the shard numbers, or the records of its
    /// key cannot be counted further.
    pub open spec fn exhausted(&self, value: Option<Seq<char>>) -> bool {
        match value {
            None => seq_shard(self.sequential_count(), self.limit()) > usize::MAX,
            Some(v) => match self.run_of(v) {
                Some((base, count)) => count == usize::MAX || key_shard(base as nat, count as nat, self.limit())
                    > usize::MAX,
                None => false,
            },
        }
    }

    /// What placing a record with key value `value` in shard `id` does to
    /// the writer. A record without key value is placed in sequence. A
    /// record of a key seen before follows the records of its key. A record
    /// of a new key begins a run at some shard below 1000.
    pub open spec fn placed(&self, value: Option<Seq<char>>, id: usize, after: ShardedWriter) -> bool {
        &&& after.limit() == self.limit()
        &&& after.key() == self.key()
        &&& after.base() == self.base()
        &&& after.extension() == self.extension()
        &&& after.pattern() == self.pattern()
        &&& match value {
            None => {
                &&& id == seq_shard(self.sequential_count(), self.limit())
                &&& after.sequential_count() == self.sequential_count() + 1
                &&& after.runs() == self.runs()
            },
            Some(v) => {
                &&& after.sequential_count() == self.sequential_count()
                &&& forall|other: Seq<char>| other != v ==> after.run_of(other) == self.run_of(other)
                &&& match self.run_of(v) {
                    Some((base, count)) => {
                        &&& id == key_shard(base as nat, count as nat, self.limit())
                        &&& after.run_of(v) == Some((base, (count + 1) as usize))
                    },
                    None => id < 1000 && after.run_of(v) == Some((id, 1usize)),
                }
            },
        }
    }

    /// A writer over the directory `base_path`. The extension is that of
    /// the pattern, `jsonl` where it ends in none of `.parquet`, `.jsonl`
    /// and `.json`; the pattern is `part-{shard_id:08}.` and the extension
    /// where none is given. A shard key needs a number of records per shard.
    pub fn new(
        base_path: &str,
        shard_key: Option<String>,
        samples_per_shard: usize,
        shard_name_pattern: Option<String>,
    ) -> (r: Result<Self, ShardError>)
        ensures
            match r {
                Ok(w) => {
                    &&& !(shard_key is Some && samples_per_shard == 0)
                    &&& w.wf()
                    &&& w.limit() == samples_per_shard
                    &&& w.key() == (match shard_key {
                        Some(k) => Some(k@),
                        None => None,
                    })
                    &&& w.base() == base_path@
                    &&& w.extension() == extension_of(
                        match shard_name_pattern {
                            Some(p) => Some(p@),
                            None => None,
                        },
                    )
                    &&& w.pattern() == (match shard_name_pattern {
                        Some(p) => p@,
                        None => "part-{shard_id:08}."@ + w.extension(),
                    })
                    &&& w.sequential_count() == 0
                    &&& w.runs().len() == 0
                    &&& w.opened().len() == 0
                },
                Err(e) => e == ShardError::KeyWithoutLimit && shard_key is Some && samples_per_shard == 0,
            },
    {
        if shard_key.is_some() && samples_per_shard == 0 {
            return Err(ShardError::KeyWithoutLimit);
        }
        let extension: String = match &shard_name_pattern {
            Some(p) => if str_ends_with(p.as_str(), ".parquet") {
                "parquet".to_string()
            } else if str_ends_with(p.as_str(), ".jsonl") {
                "jsonl".to_string()
            } else if str_ends_with(p.as_str(), ".json") {
                "json".to_string()
            } else {
                "jsonl".to_string()
            },
            None => "jsonl".to_string(),
        };
        let pattern: String = match shard_name_pattern {
            Some(p) => p,
            None => {
                let mut chars = chars_of("part-{shard_id:08}.");
                let ext = chars_of(extension.as_str());
                chars.extend_from_slice(ext.as_slice());
                string_of(&chars)
            },
        };
        Ok(
            ShardedWriter {
                shard_key,
                base_path: base_path.to_string(),
                extension,
                samples_per_shard,
                shard_name_pattern: pattern,
                current_shard_id: 0,
                current_shard_count: 0,
                key_runs: Vec::new(),
                opened: Vec::new(),
            },
        )
    }

    /// The path of a shard's file: the directory and the pattern with its
    /// placeholders filled in.
    pub fn get_shard_path(&self, shard_id: usize) -> (r: String)
        ensures
            r@ == self.path_of(shard_id),
    {
        let pattern = chars_of(self.shard_name_pattern.as_str());
        let ext = chars_of(self.extension.as_str());
        let base = chars_of(self.base_path.as_str());
        let name = expand_pattern(&pattern, &ext, shard_id);
        let path = join_path(&base, &name);
        string_of(&path)
    }

    fn find_run(&self, value: &str) -> (r: Option<usize>)
        ensures
            match r {
                Some(i) => run_index(self.key_runs@, value@) == Some(i as int) && i < self.key_runs@.len(),
                None => run_index(self.key_runs@, value@) is None,
            },
    {
        let mut i: usize = self.key_runs.len();
        assert(self.key_runs@.take(i as int) =~= self.key_runs@);
        while i > 0
            invariant
                i <= self.key_runs@.len(),
                run_index(self.key_runs@, value@) == run_index(self.key_runs@.take(i as int), value@),
            decreases i,
        {
            i -= 1;
            let ghost upto = self.key_runs@.take(i + 1);
            assert(upto.last() == self.key_runs@[i as int]);
            assert(upto.drop_last() =~= self.key_runs@.take(i as int));
            if str_eq(self.key_runs[i].key.as_str(), value) {
                return Some(i);
            }
        }
        None
    }

    /// The shard of the next record placed in sequence.
    fn check_and_advance_shard(&mut self) -> (r: Result<usize, ShardError>)
        requires
            old(self).wf(),
        ensures
            final(self).wf(),
            final(self).opened() == old(self).opened(),
            match r {
                Ok(id) => !old(self).exhausted(None) && old(self).placed(None, id, *final(self)),
                Err(e) => e == ShardError::Exhausted && old(self).exhausted(None) && *final(self) == *old(
                    self,
                ),
            },
    {
        let limit = self.samples_per_shard;
        let ghost k = self.sequential_count();
        let ghost id0 = self.current_shard_id as int;
        let ghost c0 = self.current_shard_count as int;
        if self.current_shard_count >= limit {
            if self.current_shard_id == usize::MAX {
                proof {
                    if limit > 0 {
                        assert(c0 == limit);
                        assert(k == (id0 + 1) * limit + 0) by (nonlinear_arith)
                            requires
                                k == id0 * limit + c0,
                                c0 == limit,
                        ;
                        lemma_fundamental_div_mod_converse(k as int, limit as int, id0 + 1, 0);
                    }
                }
                return Err(ShardError::Exhausted);
            }
            self.current_shard_id = self.current_shard_id + 1;
            self.current_shard_count = 0;
            proof {
                if limit > 0 {
                    assert(c0 == limit);
                    assert(k == (id0 + 1) * limit + 0) by (nonlinear_arith)
                        requires
                            k == id0 * limit + c0,
                            c0 == limit,
                    ;
                    lemma_fundamental_div_mod_converse(k as int, limit as int, id0 + 1, 0);
                }
            }
        } else {
            proof {
                lemma_fundamental_div_mod_converse(k as int, limit as int, id0, c0);
            }
        }
        self.current_shard_count = self.current_shard_count + 1;
        proof {
            if limit > 0 {
                assert(self.sequential_count() == k + 1) by (nonlinear_arith)
                    requires
                        limit > 0,
                        self.sequential_count() == self.current_shard_id * limit
                            + self.current_shard_count,
                        k == id0 * limit + c0,
                        (c0 == limit && self.current_shard_id == id0 + 1 && self.current_shard_count == 1) || (
                        c0 < limit && self.current_shard_id == id0 && self.current_shard_count == c0 + 1),
                ;
            }
        }
        Ok(self.current_shard_id)
    }

    /// The shard of the next record: by its key value where the writer has a
    /// shard key and the record a text under it, else in sequence.
    pub fn determine_shard_id(&mut self, sample: &Sample) -> (r: Result<usize, ShardError>)
        requires
            old(self).wf(),
        ensures
            final(self).wf(),
            final(self).opened() == old(self).opened(),
            match r {
                Ok(id) => !old(self).exhausted(old(self).key_value(*sample)) && old(self).placed(
                    old(self).key_value(*sample),
                    id,
                    *final(self),
                ),
                Err(e) => e == ShardError::Exhausted && old(self).exhausted(old(self).key_value(*sample))
                    && *final(self) == *old(self),
            },
    {
        let value: Option<&str> = match &self.shard_key {
            Some(key) => sample.get_str(key.as_str()),
            None => None,
        };
        match value {
            None => self.check_and_advance_shard(),
            Some(v) => {
                let limit = self.samples_per_shard;
                match self.find_run(v) {
                    Some(i) => {
                        let base = self.key_runs[i].base;
                        let count = self.key_runs[i].count;
                        if count == usize::MAX {
                            return Err(ShardError::Exhausted);
                        }
                        let id = match base.checked_add(count / limit) {
                            Some(id) => id,
                            None => {
                                return Err(ShardError::Exhausted);
                            },
                        };
                        let run = KeyRun { key: self.key_runs[i].key.clone(), base, count: count + 1 };
                        self.key_runs.set(i, run);
                        proof {
                            lemma_run_index_updated(old(self).key_runs@, self.key_runs@, i as int);
                            lemma_run_index_bounds(old(self).key_runs@, v@);
                            assert forall|other: Seq<char>| other != v@ implies self.run_of(other) == old(
                                self,
                            ).run_of(other) by {
                                lemma_run_index_bounds(old(self).key_runs@, other);
                            }
                        }
                        Ok(id)
                    },
                    None => {
                        let base: usize = (hash_text(v) % 1000) as usize;
                        self.key_runs.push(KeyRun { key: v.to_string(), base, count: 1 });
                        proof {
                            assert(self.key_runs@.drop_last() =~= old(self).key_runs@);
                            assert forall|other: Seq<char>| other != v@ implies self.run_of(other) == old(
                                self,
                            ).run_of(other) by {
                                lemma_run_index_bounds(old(self).key_runs@, other);
                            }
                        }
                        Ok(base)
                    },
                }
            },
        }
    }

    /// Places a record: its shard, the path of the shard's file, and
    /// whether the shard is new, so that its file is opened only now.
    pub fn write_sample(&mut self, sample: &Sample) -> (r: Result<Placement, ShardError>)
        requires
            old(self).wf(),
        ensures
            final(self).wf(),
            match r {
                Ok(p) => {
                    &&& !old(self).exhausted(old(self).key_value(*sample))
                    &&& old(self).placed(old(self).key_value(*sample), p.shard_id, *final(self))
                    &&& p.path@ == old(self).path_of(p.shard_id)
                    &&& p.first == !old(self).opened().contains(p.shard_id)
                    &&& final(self).opened() == (if p.first {
                        old(self).opened().push(p.shard_id)
                    } else {
                        old(self).opened()
                    })
                },
                Err(e) => e == ShardError::Exhausted && old(self).exhausted(old(self).key_value(*sample))
                    && *final(self) == *old(self),
            },
    {
        let shard_id = match self.determine_shard_id(sample) {
            Ok(id) => id,
            Err(e) => {
                return Err(e);
            },
        };
        let path = self.get_shard_path(shard_id);
        let mut seen = false;
        let mut i: usize = 0;
        while i < self.opened.len()
            invariant
                i <= self.opened@.len(),
                seen == exists|k: int| 0 <= k < i && self.opened@[k] == shard_id,
            decreases self.opened@.len() - i,
        {
            if self.opened[i] == shard_id {
                seen = true;
            }
            i += 1;
        }
        if !seen {
            self.opened.push(shard_id);
        }
        Ok(Placement { shard_id, path, first: !seen })
    }

    /// The shards that have received a record, in the order they were opened.
    pub fn opened_shards(&self) -> (r: Vec<usize>)
        ensures
            r@ == self.opened(),
    {
        self.opened.clone()
    }

    /// Closes the writer on what its sub-writers reported at their close:
    /// whether any of them wrote data, and the paths of the shard files
    /// that hold none and are to be removed.
    pub fn close(&self, reports: &Vec<(usize, bool)>) -> (r: (bool, Vec<String>))
        ensures
            r.0 == any_data(reports@),
            r.1@.len() == empty_shards(reports@).len(),
            forall|i: int|
                0 <= i < r.1@.len() ==> (#[trigger] r.1@[i])@ == self.path_of(empty_shards(reports@)[i]),
    {
        let mut has_any_data = false;
        let mut remove: Vec<String> = Vec::new();
        let mut i: usize = 0;
        assert(reports@.take(0) =~= Seq::empty());
        while i < reports.len()
            invariant
                i <= reports@.len(),
                has_any_data == any_data(reports@.take(i as int)),
                remove@.len() == empty_shards(reports@.take(i as int)).len(),
                forall|k: int|
                    0 <= k < remove@.len() ==> (#[trigger] remove@[k])@ == self.path_of(
                        empty_shards(reports@.take(i as int))[k],
                    ),
            decreases reports@.len() - i,
        {
            let ghost before = reports@.take(i as int);
            let ghost upto = reports@.take(i + 1);
            proof {
                assert(upto.drop_last() =~= before);
                assert(upto.last() == reports@[i as int]);
                if any_data(before) {
                    let w = choose|w: int| 0 <= w < before.len() && (#[trigger] before[w]).1;
                    assert(upto[w].1);
                }
                if any_data(upto) && !reports@[i as int].1 {
                    let w = choose|w: int| 0 <= w < upto.len() && (#[trigger] upto[w]).1;
                    assert(before[w].1);
                }
                if reports@[i as int].1 {
                    assert(upto[i as int].1);
                }
            }
            if reports[i].1 {
                has_any_data = true;
            } else {
                remove.push(self.get_shard_path(reports[i].0));
            }
            i += 1;
        }
        assert(reports@.take(reports@.len() as int) =~= reports@);
        (has_any_data, remove)
    }
}

/// Replacing the run at the index of its key leaves every key at its index.
proof fn lemma_run_index_updated(before: Seq<KeyRun>, after: Seq<KeyRun>, i: int)
    requires
        0 <= i < before.len(),
        after.len() == before.len(),
        after[i].key@ == before[i].key@,
        forall|k: int| 0 <= k < before.len() && k != i ==> after[k] == before[k],
    ensures
        forall|key: Seq<char>| run_index(after, key) == run_index(before, key),
    decreases before.len(),
{
    assert forall|key: Seq<char>| run_index(after, key) == run_index(before, key) by {
        lemma_run_index_same_keys(before, after, key);
    }
}

proof fn lemma_run_index_same_keys(before: Seq<KeyRun>, after: Seq<KeyRun>, key: Seq<char>)
    requires
        after.len() == before.len(),
        forall|k: int| 0 <= k < before.len() ==> (#[trigger] after[k]).key@ == before[k].key@,
    ensures
        run_index(after, key) == run_index(before, key),
    decreases before.len(),
{
    if before.len() > 0 {
        assert(after.last().key@ == before.last().key@);
        if before.last().key@ != key {
            lemma_run_index_same_keys(before.drop_last(), after.drop_last(), key);
        }
    }
}

/// Records placed in sequence fill the shards in order: with `limit`
/// records per shard, shard `shard` holds the records from `shard * limit`
/// up to `(shard + 1) * limit`, as far as there are records. So every
/// shard before the last holds exactly `limit` records, and the last holds
/// at least one and at most `limit`.
pub proof fn lemma_sequential_shards_fill(limit: nat, total: nat, shard: nat)
    requires
        limit >= 1,
        total >= 1,
        shard <= seq_shard((total - 1) as nat, limit),
    ensures
        ({
            let held = Set::new(|k: int| 0 <= k < total && seq_shard(k as nat, limit) == shard);
            let last = seq_shard((total - 1) as nat, limit);
            &&& forall|k: int| 0 <= k < total ==> #[trigger] seq_shard(k as nat, limit) <= last
            &&& held.finite()
            &&& shard < last ==> held == set_int_range((shard * limit) as int, ((shard + 1) * limit) as int) && held.len()
                == limit
            &&& shard == last ==> held == set_int_range((shard * limit) as int, total as int) && 1 <= held.len()
                <= limit
        }),
{
    let held = Set::new(|k: int| 0 <= k < total && seq_shard(k as nat, limit) == shard);
    let last = seq_shard((total - 1) as nat, limit);
    let lo = shard * limit;
    let hi = (shard + 1) * limit;
    assert forall|k: int| 0 <= k < total implies #[trigger] seq_shard(k as nat, limit) <= last by {
        lemma_div_monotone(k, total - 1, limit as int);
    }
    assert forall|k: int| 0 <= k implies ((#[trigger] seq_shard(k as nat, limit) == shard) <==> (lo <= k
        < hi)) by {
        lemma_div_interval(k, limit as int, shard as int);
    }
    lemma_div_interval(total - 1, limit as int, last as int);
    if shard < last {
        assert(hi <= last * limit) by (nonlinear_arith)
            requires
                shard + 1 <= last,
                hi == (shard + 1) * limit,
        ;
        assert(held =~= set_int_range(lo as int, hi as int));
        assert(hi - lo == limit) by (nonlinear_arith)
            requires
                lo == shard * limit,
                hi == (shard + 1) * limit,
        ;
        lemma_int_range(lo as int, hi as int);
    } else {
        assert(held =~= set_int_range(lo as int, total as int));
        lemma_int_range(lo as int, total as int);
        assert(hi - lo == limit) by (nonlinear_arith)
            requires
                lo == shard * limit,
                hi == (shard + 1) * limit,
        ;
    }
}

/// Whether shard `s` holds one of the first `count` records of a key whose
/// run begins at `base`.
pub open spec fn holds_record_of(base: nat, count: nat, limit: nat, s: int) -> bool {
    exists|j: int| 0 <= j < count && #[trigger] key_shard(base, j as nat, limit) == s
}

/// The records of one key value occupy a contiguous run of shards: with
/// `count` records placed, every shard from `base` to the shard of the last
/// record holds one of them, and none lies outside.
pub proof fn lemma_key_run_is_contiguous(base: nat, count: nat, limit: nat)
    requires
        limit >= 1,
        count >= 1,
    ensures
        ({
            let last = key_shard(base, (count - 1) as nat, limit);
            &&& forall|j: int|
                0 <= j < count ==> base <= #[trigger] key_shard(base, j as nat, limit) && key_shard(
                    base,
                    j as nat,
                    limit,
                ) <= last
            &&& forall|s: int| base <= s <= last ==> #[trigger] holds_record_of(base, count, limit, s)
        }),
{
    let last = key_shard(base, (count - 1) as nat, limit);
    assert forall|j: int| 0 <= j < count implies base <= #[trigger] key_shard(base, j as nat, limit)
        && key_shard(base, j as nat, limit) <= last by {
        lemma_div_monotone(j, count - 1, limit as int);
        lemma_div_monotone(0, j, limit as int);
    }
    assert forall|s: int| base <= s <= last implies #[trigger] holds_record_of(base, count, limit, s) by {
        let j = (s - base) * limit;
        lemma_fundamental_div_mod_converse(j, limit as int, s - base, 0);
        lemma_div_interval(count - 1, limit as int, last - base);
        assert(0 <= j <= count - 1) by (nonlinear_arith)
            requires
                j == (s - base) * limit,
                0 <= s - base <= last - base,
                (last - base) * limit <= count - 1,
                limit >= 1,
        ;
        assert(key_shard(base, j as nat, limit) == s);
    }
}

/// Division is monotone.
proof fn lemma_div_monotone(a: int, b: int, d: int)
    requires
        0 <= a <= b,
        d > 0,
    ensures
        0 <= a / d <= b / d,
{
    vstd::arithmetic::div_mod::lemma_div_is_ordered(a, b, d);
    vstd::arithmetic::div_mod::lemma_div_pos_is_pos(a, d);
}

/// The numbers whose quotient by `d` is `q` are those from `q * d` up to `(q + 1) * d`.
proof fn lemma_div_interval(k: int, d: int, q: int)
    requires
        0 <= k,
        d > 0,
    ensures
        (k / d == q) <==> (q * d <= k < (q + 1) * d),
{
    vstd::arithmetic::div_mod::lemma_fundamental_div_mod(k, d);
    vstd::arithmetic::div_mod::lemma_mod_bound(k, d);
    if q * d <= k < (q + 1) * d {
        let r = k - q * d;
        assert(0 <= r < d) by (nonlinear_arith)
            requires
                r == k - q * d,
                q * d <= k < (q + 1) * d,
        ;
        lemma_fundamental_div_mod_converse(k, d, q, r);
    }
    if k / d == q {
        assert(q * d <= k < (q + 1) * d) by (nonlinear_arith)
            requires
                k == d * (k / d) + k % d,
                0 <= k % d < d,
                k / d == q,
        ;
    }
}

} // verus!
