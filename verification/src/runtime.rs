//! The staged runtime: which source a stage reads, how the rows of its
//! batches are gathered into partition files, and what its manifest says.

use vstd::prelude::*;
use crate::config::DataSourceConfig;
use crate::manifest::OperatorManifest;

verus! {

/// What to do with rows of a batch.
#[derive(Clone, Copy, PartialEq, Eq, Structural, Debug)]
pub enum PartitionAction {
    /// Write the rows from `offset`, `len` of them, as partition file `index`.
    WriteSlice { offset: usize, len: usize, index: usize },
    /// Write the rows gathered so far, `rows` of them, as partition file `index`.
    WriteGathered { index: usize, rows: usize },
    /// Gather the rows from `offset`, `len` of them, for the next partition file.
    Gather { offset: usize, len: usize },
}

/// Why rows cannot be placed.
#[derive(Clone, Copy, PartialEq, Eq, Structural, Debug)]
pub enum PartitionError {
    /// The counter of files is used up.
    Overflow,
}

/// Gathers the rows of batches, in their order, into partition files of at
/// most `partition_size` rows.
pub struct Partitioner {
    partition_size: usize,
    current_rows: usize,
    partition_idx: usize,
    gathered: bool,
}

/// The number of full slices cut from a batch of more rows than a
/// partition holds: as many as leave at least one row over.
pub open spec fn full_slices(rows: int, size: int) -> int {
    if rows > size {
        (rows - 1) / size
    } else {
        0
    }
}

impl Partitioner {
    /// The rows per partition file.
    pub closed spec fn size(&self) -> int {
        self.partition_size as int
    }

    /// The rows gathered for the next partition file.
    pub closed spec fn waiting(&self) -> int {
        self.current_rows as int
    }

    /// The index of the next partition file.
    pub closed spec fn next_index(&self) -> int {
        self.partition_idx as int
    }

    /// Whether any batch has been gathered for the next partition file.
    pub closed spec fn has_gathered(&self) -> bool {
        self.gathered
    }

    /// The rows waiting fit one partition file, and there are none where
    /// no batch has been gathered.
    pub closed spec fn wf(&self) -> bool {
        &&& self.partition_size > 0
        &&& self.current_rows <= self.partition_size
        &&& !self.gathered ==> self.current_rows == 0
    }

    /// Whether the rows gathered so far are written before a batch of
    /// `rows` rows is placed: there are some, and the batch does not fit
    /// with them.
    pub open spec fn flushes(&self, rows: usize) -> bool {
        self.has_gathered() && self.waiting() + rows > self.size()
    }

    /// What placing a batch of `rows` rows asks for, and leaves behind.
    /// The rows gathered so far are written first where the batch does not
    /// fit with them. A batch of more rows than a partition holds is then
    /// cut into full partition files, and what is left over is gathered;
    /// any other batch is gathered whole.
    pub open spec fn places(&self, rows: usize, actions: Seq<PartitionAction>, after: Partitioner) -> bool {
        let full = full_slices(rows as int, self.size());
        let first = if self.flushes(rows) {
            1int
        } else {
            0int
        };
        &&& after.size() == self.size()
        &&& after.has_gathered()
        &&& actions.len() == first + full + 1
        &&& self.flushes(rows) ==> actions[0] == (PartitionAction::WriteGathered {
            index: self.next_index() as usize,
            rows: self.waiting() as usize,
        })
        &&& forall|i: int|
            first <= i < first + full ==> #[trigger] actions[i] == (PartitionAction::WriteSlice {
                offset: ((i - first) * self.size()) as usize,
                len: self.size() as usize,
                index: (self.next_index() + i) as usize,
            })
        &&& actions[first + full] == (PartitionAction::Gather {
            offset: (full * self.size()) as usize,
            len: (rows - full * self.size()) as usize,
        })
        &&& after.next_index() == self.next_index() + first + full
        &&& after.waiting() == (if self.flushes(rows) {
            0int
        } else {
            self.waiting()
        }) + rows - full * self.size()
    }

    /// Whether the counter of files does not hold what placing a batch of
    /// `rows` rows adds.
    pub open spec fn overflows(&self, rows: usize) -> bool {
        self.next_index() + (if self.flushes(rows) {
            1int
        } else {
            0int
        }) + full_slices(rows as int, self.size()) > usize::MAX
    }

    /// A partitioner that has gathered nothing. A size of 0 counts as 1.
    pub fn new(partition_size: usize) -> (r: Self)
        ensures
            r.wf(),
            r.size() == (if partition_size == 0 {
                1int
            } else {
                partition_size as int
            }),
            r.waiting() == 0,
            r.next_index() == 0,
            !r.has_gathered(),
    {
        Partitioner {
            partition_size: if partition_size == 0 {
                1
            } else {
                partition_size
            },
            current_rows: 0,
            partition_idx: 0,
            gathered: false,
        }
    }

    /// Places the rows of a batch.
    pub fn place(&mut self, rows: usize) -> (r: Result<Vec<PartitionAction>, PartitionError>)
        requires
            old(self).wf(),
        ensures
            final(self).wf(),
            final(self).waiting() <= final(self).size(),
            match r {
                Ok(actions) => !old(self).overflows(rows) && old(self).places(rows, actions@, *final(self)),
                Err(_) => old(self).overflows(rows) && *final(self) == *old(self),
            },
    {
        let size = self.partition_size;
        let flush = self.gathered && rows > size - self.current_rows;
        let full: usize = if rows > size {
            (rows - 1) / size
        } else {
            0
        };
        proof {
            if rows > size {
                vstd::arithmetic::div_mod::lemma_fundamental_div_mod((rows - 1) as int, size as int);
                vstd::arithmetic::div_mod::lemma_mod_bound((rows - 1) as int, size as int);
                assert(full * size <= rows - 1 && rows - full * size <= size) by (nonlinear_arith)
                    requires
                        rows - 1 == size * full + (rows - 1) % (size as int),
                        0 <= (rows - 1) % (size as int) < size,
                ;
            } else {
                assert(full * size == 0) by (nonlinear_arith)
                    requires
                        full == 0,
                ;
            }
        }
        let first: usize = if flush {
            1
        } else {
            0
        };
        let start = match self.partition_idx.checked_add(first) {
            Some(n) => n,
            None => {
                return Err(PartitionError::Overflow);
            },
        };
        let next_idx = match start.checked_add(full) {
            Some(n) => n,
            None => {
                return Err(PartitionError::Overflow);
            },
        };
        let taken: usize = full * size;
        let left: usize = rows - taken;
        let mut actions: Vec<PartitionAction> = Vec::new();
        if flush {
            actions.push(PartitionAction::WriteGathered { index: self.partition_idx, rows: self.current_rows });
        }
        let mut k: usize = 0;
        while k < full
            invariant
                k <= full,
                size == self.partition_size,
                size > 0,
                full * size <= rows,
                start + full <= usize::MAX,
                start == self.partition_idx + first,
                first == (if flush {
                    1int
                } else {
                    0int
                }),
                *self == *old(self),
                actions@.len() == first + k,
                flush ==> actions@[0] == (PartitionAction::WriteGathered {
                    index: self.partition_idx,
                    rows: self.current_rows,
                }),
                forall|i: int|
                    first <= i < first + k ==> #[trigger] actions@[i] == (PartitionAction::WriteSlice {
                        offset: ((i - first) * size) as usize,
                        len: size,
                        index: (self.partition_idx + i) as usize,
                    }),
            decreases full - k,
        {
            proof {
                assert(k * size <= full * size) by (nonlinear_arith)
                    requires
                        k <= full,
                        size > 0,
                ;
            }
            let offset: usize = k * size;
            actions.push(PartitionAction::WriteSlice { offset, len: size, index: start + k });
            k += 1;
        }
        actions.push(PartitionAction::Gather { offset: taken, len: left });
        let waiting: usize = if flush {
            left
        } else {
            proof {
                if rows > size {
                    assert(self.current_rows == 0);
                }
            }
            self.current_rows + left
        };
        self.partition_idx = next_idx;
        self.current_rows = waiting;
        self.gathered = true;
        Ok(actions)
    }

    /// The index of the last partition file, which takes the rows still
    /// waiting; `None` where no batch was gathered.
    pub fn finish(&self) -> (r: Option<usize>)
        ensures
            r == (if self.has_gathered() {
                Some(self.next_index() as usize)
            } else {
                None
            }),
    {
        if self.gathered {
            Some(self.partition_idx)
        } else {
            None
        }
    }
}

/// Written partition files hold at most a partition's rows, and the rows
/// of a batch are taken in their order without a gap: the full slices
/// from the first row on, then the rest, after the rows that waited.
pub proof fn lemma_partitions_in_order(
    before: Partitioner,
    rows: usize,
    actions: Seq<PartitionAction>,
    after: Partitioner,
)
    requires
        before.wf(),
        before.places(rows, actions, after),
    ensures
        forall|i: int|
            0 <= i < actions.len() ==> match #[trigger] actions[i] {
                PartitionAction::WriteGathered { rows: held, .. } => i == 0 && held <= before.size(),
                PartitionAction::WriteSlice { offset, len, .. } => len == before.size() && offset + len
                    < rows,
                PartitionAction::Gather { offset, len } => i == actions.len() - 1 && offset + len == rows
                    && 1 <= len + (if rows == 0 {
                    1int
                } else {
                    0int
                }) <= before.size(),
            },
        forall|i: int, j: int|
            0 <= i < j < actions.len() ==> match (#[trigger] actions[i], #[trigger] actions[j]) {
                (
                    PartitionAction::WriteSlice { offset: a, len, .. },
                    PartitionAction::WriteSlice { offset: b, .. },
                ) => a + (j - i) * len == b,
                (
                    PartitionAction::WriteSlice { offset: a, len, .. },
                    PartitionAction::Gather { offset: b, .. },
                ) => a + (j - i) * len == b,
                _ => true,
            },
        after.waiting() <= after.size(),
{
    let size = before.size();
    let full = full_slices(rows as int, size);
    let first = if before.flushes(rows) {
        1int
    } else {
        0int
    };
    if rows > size {
        vstd::arithmetic::div_mod::lemma_fundamental_div_mod((rows - 1) as int, size);
        vstd::arithmetic::div_mod::lemma_mod_bound((rows - 1) as int, size);
        assert(full * size <= rows - 1 && rows - full * size <= size && full >= 1) by (nonlinear_arith)
            requires
                rows - 1 == size * full + (rows - 1) % size,
                0 <= (rows - 1) % size < size,
                rows > size,
                size > 0,
        ;
    } else {
        assert(full * size == 0) by (nonlinear_arith)
            requires
                full == 0,
        ;
    }
    assert forall|i: int| 0 <= i < actions.len() implies match #[trigger] actions[i] {
        PartitionAction::WriteGathered { rows: held, .. } => i == 0 && held <= before.size(),
        PartitionAction::WriteSlice { offset, len, .. } => len == before.size() && offset + len < rows,
        PartitionAction::Gather { offset, len } => i == actions.len() - 1 && offset + len == rows && 1
            <= len + (if rows == 0 {
            1int
        } else {
            0int
        }) <= before.size(),
    } by {
        if first <= i < first + full {
            let k = i - first;
            assert(0 <= k * size && k * size + size <= full * size) by (nonlinear_arith)
                requires
                    0 <= k < full,
                    size > 0,
            ;
            assert(full * size <= rows - 1);
        } else if i == first + full {
        } else {
            assert(i == 0 && first == 1);
        }
    }
    assert forall|i: int, j: int| 0 <= i < j < actions.len() implies match (
        #[trigger] actions[i],
        #[trigger] actions[j],
    ) {
        (PartitionAction::WriteSlice { offset: a, len, .. }, PartitionAction::WriteSlice { offset: b, .. }) => a
            + (j - i) * len == b,
        (PartitionAction::WriteSlice { offset: a, len, .. }, PartitionAction::Gather { offset: b, .. }) => a
            + (j - i) * len == b,
        _ => true,
    } by {
        if first <= i < first + full {
            let k = i - first;
            let m = j - first;
            assert(k * size + (m - k) * size == m * size) by (nonlinear_arith);
            assert(0 <= k * size <= full * size && 0 <= m * size <= full * size) by (nonlinear_arith)
                requires
                    0 <= k < full,
                    0 <= m <= full,
                    size > 0,
            ;
        } else if i == first + full {
        } else {
            assert(i == 0 && first == 1);
        }
    }
}

/// How many rows of a batch are read under a limit on the rows of a source.
#[derive(Clone, Copy, PartialEq, Eq, Structural, Debug)]
pub enum Taken {
    /// The whole batch; more may follow.
    All,
    /// The first rows of the batch, as many as `.0`; nothing follows.
    First(usize),
}

/// Counts the rows read from a source against a limit.
pub struct RowLimit {
    limit: usize,
    count: usize,
}

impl RowLimit {
    /// The most rows to read.
    pub closed spec fn limit(&self) -> int {
        self.limit as int
    }

    /// The rows read so far.
    pub closed spec fn count(&self) -> int {
        self.count as int
    }

    pub closed spec fn wf(&self) -> bool {
        self.count <= self.limit
    }

    /// A counter at zero; without a limit, every row is read.
    pub fn new(limit: Option<usize>) -> (r: Self)
        ensures
            r.wf(),
            r.count() == 0,
            r.limit() == (match limit {
                Some(n) => n as int,
                None => usize::MAX as int,
            }),
    {
        RowLimit {
            limit: match limit {
                Some(n) => n,
                None => usize::MAX,
            },
            count: 0,
        }
    }

    /// Whether another batch is read: the limit is not reached.
    pub fn wants_more(&self) -> (r: bool)
        ensures
            r == (self.count() < self.limit()),
    {
        self.count < self.limit
    }

    /// Takes a batch of `rows` rows: the whole batch where it fits under
    /// the limit, else its first rows up to the limit.
    pub fn take(&mut self, rows: usize) -> (r: Taken)
        requires
            old(self).wf(),
        ensures
            final(self).wf(),
            final(self).limit() == old(self).limit(),
            r == (if old(self).count() + rows > old(self).limit() {
                Taken::First((old(self).limit() - old(self).count()) as usize)
            } else {
                Taken::All
            }),
            final(self).count() == (if r is All {
                old(self).count() + rows
            } else {
                old(self).limit()
            }),
    {
        let remaining = self.limit - self.count;
        if rows > remaining {
            self.count = self.limit;
            Taken::First(remaining)
        } else {
            self.count = self.count + rows;
            Taken::All
        }
    }
}

/// The source that a stage reads: its own input, or else the output of the
/// stage before it; `None` where it has neither.
pub fn stage_input<'a>(own: Option<&'a DataSourceConfig>, previous: Option<&'a DataSourceConfig>) -> (r:
    Option<&'a DataSourceConfig>)
    ensures
        r == (match own {
            Some(s) => Some(s),
            None => previous,
        }),
{
    match own {
        Some(s) => Some(s),
        None => previous,
    }
}

/// Adds the rows of a batch before its first operator and after each
/// operator to the totals, count by count. Totals that would overflow are
/// left as they are, all of them.
pub fn add_batch_counts(totals: &mut Vec<usize>, batch: &Vec<usize>) -> (r: bool)
    requires
        old(totals)@.len() == batch@.len(),
    ensures
        final(totals)@.len() == old(totals)@.len(),
        r == forall|i: int| 0 <= i < batch@.len() ==> #[trigger] old(totals)@[i] + batch@[i] <= usize::MAX,
        r ==> forall|i: int|
            0 <= i < batch@.len() ==> #[trigger] final(totals)@[i] == old(totals)@[i] + batch@[i],
        !r ==> final(totals)@ == old(totals)@,
{
    let mut i: usize = 0;
    while i < batch.len()
        invariant
            i <= batch@.len(),
            totals@ == old(totals)@,
            totals@.len() == batch@.len(),
            forall|k: int| 0 <= k < i ==> #[trigger] totals@[k] + batch@[k] <= usize::MAX,
        decreases batch@.len() - i,
    {
        if totals[i] > usize::MAX - batch[i] {
            return false;
        }
        i += 1;
    }
    let mut j: usize = 0;
    while j < batch.len()
        invariant
            j <= batch@.len(),
            totals@.len() == batch@.len(),
            old(totals)@.len() == batch@.len(),
            forall|k: int| 0 <= k < batch@.len() ==> #[trigger] old(totals)@[k] + batch@[k] <= usize::MAX,
            forall|k: int| 0 <= k < j ==> #[trigger] totals@[k] == old(totals)@[k] + batch@[k],
            forall|k: int| j <= k < batch@.len() ==> #[trigger] totals@[k] == old(totals)@[k],
        decreases batch@.len() - j,
    {
        assert(old(totals)@[j as int] + batch@[j as int] <= usize::MAX);
        let sum = totals[j] + batch[j];
        totals.set(j, sum);
        j += 1;
    }
    true
}

/// The rows that each operator took in and gave out, from the rows before
/// the first operator and after each: an operator takes in what the one
/// before it gave out.
pub fn row_pairs(counts: &Vec<usize>) -> (r: Vec<(usize, usize)>)
    ensures
        r@.len() == (if counts@.len() == 0 {
            0int
        } else {
            counts@.len() - 1
        }),
        forall|j: int| 0 <= j < r@.len() ==> #[trigger] r@[j] == (counts@[j], counts@[j + 1]),
{
    let mut out: Vec<(usize, usize)> = Vec::new();
    let mut j: usize = 1;
    while j < counts.len()
        invariant
            1 <= j,
            counts@.len() > 0 ==> j <= counts@.len(),
            counts@.len() == 0 ==> j == 1,
            out@.len() == j - 1,
            forall|k: int| 0 <= k < out@.len() ==> #[trigger] out@[k] == (counts@[k], counts@[k + 1]),
        decreases counts@.len() - j,
    {
        out.push((counts[j - 1], counts[j]));
        j += 1;
    }
    out
}

/// The manifest entries of a stage's operators, from their names and kinds
/// and the rows before the first operator and after each. The first
/// operator takes in the rows of the stage, each takes in what the one
/// before it gave out, and the last gives out the rows of the stage.
pub fn chained_manifests(names: &Vec<(String, String)>, counts: &Vec<usize>) -> (r: Vec<OperatorManifest>)
    requires
        counts@.len() == names@.len() + 1,
    ensures
        r@.len() == names@.len(),
        forall|i: int|
            0 <= i < names@.len() ==> {
                let m = #[trigger] r@[i];
                &&& m.name@ == names@[i].0@
                &&& m.kind@ == names@[i].1@
                &&& m.input_rows == counts@[i]
                &&& m.output_rows == counts@[i + 1]
                &&& m.filtered_rows == crate::manifest::filtered(names@[i].1@, counts@[i], counts@[i + 1])
            },
        forall|i: int| 0 <= i < names@.len() - 1 ==> (#[trigger] r@[i + 1]).input_rows == r@[i].output_rows,
        names@.len() > 0 ==> r@[0].input_rows == counts@[0] && r@[names@.len() - 1].output_rows
            == counts@[names@.len() as int],
{
    let pairs = row_pairs(counts);
    let r = operator_manifests(names, &pairs);
    assert forall|i: int| 0 <= i < names@.len() - 1 implies (#[trigger] r@[i + 1]).input_rows
        == r@[i].output_rows by {
        assert(pairs@[i + 1] == (counts@[i + 1], counts@[i + 2]));
        assert(pairs@[i] == (counts@[i], counts@[i + 1]));
    }
    r
}

/// The manifest entries of a stage's operators, from their names and kinds
/// and the rows each took in and gave out.
pub fn operator_manifests(names: &Vec<(String, String)>, stats: &Vec<(usize, usize)>) -> (r: Vec<
    OperatorManifest,
>)
    requires
        names@.len() == stats@.len(),
    ensures
        r@.len() == names@.len(),
        forall|i: int|
            0 <= i < names@.len() ==> {
                let m = #[trigger] r@[i];
                &&& m.name@ == names@[i].0@
                &&& m.kind@ == names@[i].1@
                &&& m.input_rows == stats@[i].0
                &&& m.output_rows == stats@[i].1
                &&& m.filtered_rows == crate::manifest::filtered(names@[i].1@, stats@[i].0, stats@[i].1)
            },
{
    let mut out: Vec<OperatorManifest> = Vec::new();
    let mut i: usize = 0;
    while i < names.len()
        invariant
            i <= names@.len(),
            names@.len() == stats@.len(),
            out@.len() == i,
            forall|k: int|
                0 <= k < i ==> {
                    let m = #[trigger] out@[k];
                    &&& m.name@ == names@[k].0@
                    &&& m.kind@ == names@[k].1@
                    &&& m.input_rows == stats@[k].0
                    &&& m.output_rows == stats@[k].1
                    &&& m.filtered_rows == crate::manifest::filtered(names@[k].1@, stats@[k].0, stats@[k].1)
                },
        decreases names@.len() - i,
    {
        out.push(
            OperatorManifest::new(names[i].0.clone(), names[i].1.clone(), stats[i].0, stats[i].1),
        );
        i += 1;
    }
    out
}

} // verus!
