//! Batch writer: splits a row batch into statement-sized chunks and inserts
//! each chunk with skip-on-conflict semantics.
//!
//! A statement may carry at most [`MAX_INSERT_FIELDS_COUNT`] bind parameters,
//! so a table with `c` columns takes at most `MAX_INSERT_FIELDS_COUNT / c`
//! rows per statement; the chunk size is that quotient rounded down to the
//! nearest multiple of ten, a pure function of the column count alone.

use vstd::prelude::*;

verus! {

/// Ceiling on bind parameters in one insert statement.
pub const MAX_INSERT_FIELDS_COUNT: usize = 65535;

/// Largest column count for which the rounded-down chunk size stays positive.
pub const MAX_CHUNKABLE_COLUMNS: usize = 6553;

/// Chunk size for a table with the given column count: the row budget per
/// statement, rounded down to a multiple of ten.
pub open spec fn spec_chunk_size(columns_count: int) -> int {
    MAX_INSERT_FIELDS_COUNT as int / columns_count / 10 * 10
}

/// How many chunks a batch of `n` rows splits into at chunk size `size`.
pub open spec fn spec_chunk_count(n: int, size: int) -> int {
    if n == 0 {
        0
    } else {
        (n - 1) / size + 1
    }
}

pub proof fn lemma_chunk_size_positive(columns_count: int)
    requires
        1 <= columns_count <= MAX_CHUNKABLE_COLUMNS as int,
    ensures
        10 <= spec_chunk_size(columns_count) <= MAX_INSERT_FIELDS_COUNT as int,
{
    assert(MAX_INSERT_FIELDS_COUNT as int / columns_count >= 10) by (nonlinear_arith)
        requires 1 <= columns_count <= 6553;
    assert(MAX_INSERT_FIELDS_COUNT as int / columns_count <= 65535) by (nonlinear_arith)
        requires 1 <= columns_count;
    let q = MAX_INSERT_FIELDS_COUNT as int / columns_count;
    assert(q / 10 * 10 >= 10) by (nonlinear_arith)
        requires 10 <= q;
    assert(q / 10 * 10 <= q) by (nonlinear_arith)
        requires 0 <= q;
}

/// Chunk size for a table with `columns_count` columns.
pub fn chunk_size(columns_count: usize) -> (size: usize)
    requires
        1 <= columns_count,
    ensures
        size == spec_chunk_size(columns_count as int),
{
    MAX_INSERT_FIELDS_COUNT / columns_count / 10 * 10
}

/// How many per-chunk insertions a batch of `n` rows takes at chunk size
/// `size`.
pub fn chunk_count(n: usize, size: usize) -> (count: usize)
    requires
        1 <= size,
    ensures
        count == spec_chunk_count(n as int, size as int),
{
    if n == 0 {
        0
    } else {
        (n - 1) / size + 1
    }
}

/// A row destined for one table, with that table's conflict key.  Keys of
/// every table fit one shape: two integers and one string, unused slots held
/// at zero or empty.
pub trait TableRow: Sized {
    /// The conflict key the table is deduplicated on.
    spec fn conflict_key(&self) -> (int, int, Seq<char>);

    /// Decides key equality, as the storage engine would on conflict.
    fn same_key(&self, other: &Self) -> (b: bool)
        ensures
            b == (self.conflict_key() == other.conflict_key());
}

/// Whether some row of `table` carries the key `key`.
pub open spec fn table_has_key<T: TableRow>(table: Seq<T>, key: (int, int, Seq<char>)) -> bool {
    exists|i: int| 0 <= i < table.len() && table[i].conflict_key() == key
}

/// Whether some row of `rows` carries the key `key`.
pub open spec fn rows_have_key<T: TableRow>(rows: Seq<T>, key: (int, int, Seq<char>)) -> bool {
    exists|i: int| 0 <= i < rows.len() && rows[i].conflict_key() == key
}

/// The table after inserting `rows` in order, skipping every row whose key
/// is already present (in the table or put there by an earlier row).
pub open spec fn insert_dedup<T: TableRow>(table: Seq<T>, rows: Seq<T>) -> Seq<T>
    decreases rows.len(),
{
    if rows.len() == 0 {
        table
    } else {
        let t = if table_has_key(table, rows[0].conflict_key()) {
            table
        } else {
            table.push(rows[0])
        };
        insert_dedup(t, rows.skip(1))
    }
}

/// The subsequence of `rows` that `insert_dedup` actually appends.
pub open spec fn inserted_rows<T: TableRow>(table: Seq<T>, rows: Seq<T>) -> Seq<T>
    decreases rows.len(),
{
    if rows.len() == 0 {
        Seq::empty()
    } else if table_has_key(table, rows[0].conflict_key()) {
        inserted_rows(table, rows.skip(1))
    } else {
        seq![rows[0]] + inserted_rows(table.push(rows[0]), rows.skip(1))
    }
}

/// Deduplicating insertion appends exactly the rows it does not skip.
pub proof fn lemma_insert_dedup_split<T: TableRow>(table: Seq<T>, rows: Seq<T>)
    ensures
        insert_dedup(table, rows) == table + inserted_rows(table, rows),
    decreases rows.len(),
{
    if rows.len() == 0 {
        assert(insert_dedup(table, rows) =~= table + inserted_rows(table, rows));
    } else if table_has_key(table, rows[0].conflict_key()) {
        lemma_insert_dedup_split(table, rows.skip(1));
    } else {
        lemma_insert_dedup_split(table.push(rows[0]), rows.skip(1));
        assert(table + (seq![rows[0]] + inserted_rows(table.push(rows[0]), rows.skip(1)))
            =~= table.push(rows[0]) + inserted_rows(table.push(rows[0]), rows.skip(1)));
    }
}

/// After a deduplicating insert the table holds a key iff the old table or
/// the batch held it.
pub proof fn lemma_insert_dedup_keys<T: TableRow>(
    table: Seq<T>,
    rows: Seq<T>,
    key: (int, int, Seq<char>),
)
    ensures
        table_has_key(insert_dedup(table, rows), key) == (table_has_key(table, key)
            || rows_have_key(rows, key)),
    decreases rows.len(),
{
    if rows.len() == 0 {
    } else {
        let k0 = rows[0].conflict_key();
        if table_has_key(table, k0) {
            lemma_insert_dedup_keys(table, rows.skip(1), key);
        } else {
            lemma_insert_dedup_keys(table.push(rows[0]), rows.skip(1), key);
            assert(table_has_key(table.push(rows[0]), key) == (table_has_key(table, key) || k0
                == key)) by {
                if table_has_key(table, key) {
                    let i = choose|i: int| 0 <= i < table.len() && table[i].conflict_key() == key;
                    assert(table.push(rows[0])[i].conflict_key() == key);
                }
                if k0 == key {
                    assert(table.push(rows[0])[table.len() as int].conflict_key() == key);
                }
                if table_has_key(table.push(rows[0]), key) {
                    let i = choose|i: int|
                        0 <= i < table.len() + 1 && table.push(rows[0])[i].conflict_key() == key;
                    if i < table.len() {
                        assert(table[i].conflict_key() == key);
                    }
                }
            }
        }
        if rows_have_key(rows, key) {
            let i = choose|i: int| 0 <= i < rows.len() && rows[i].conflict_key() == key;
            if i > 0 {
                assert(rows.skip(1)[i - 1].conflict_key() == key);
            }
        }
        if rows_have_key(rows.skip(1), key) {
            let i = choose|i: int|
                0 <= i < rows.skip(1).len() && rows.skip(1)[i].conflict_key() == key;
            assert(rows[i + 1].conflict_key() == key);
        }
    }
}

/// Inserting rows whose keys are all present changes nothing.
pub proof fn lemma_insert_dedup_noop<T: TableRow>(table: Seq<T>, rows: Seq<T>)
    requires
        forall|i: int| 0 <= i < rows.len() ==> table_has_key(table, #[trigger] rows[i].conflict_key()),
    ensures
        insert_dedup(table, rows) == table,
    decreases rows.len(),
{
    if rows.len() != 0 {
        assert(rows[0].conflict_key() == rows[0].conflict_key());
        assert(forall|i: int|
            0 <= i < rows.skip(1).len() ==> #[trigger] rows.skip(1)[i].conflict_key()
                == rows[i + 1].conflict_key());
        lemma_insert_dedup_noop(table, rows.skip(1));
    }
}

/// Replaying a batch over its own result changes nothing: the deduplicating
/// insert is idempotent.
pub proof fn lemma_insert_dedup_idempotent<T: TableRow>(table: Seq<T>, rows: Seq<T>)
    ensures
        insert_dedup(insert_dedup(table, rows), rows) == insert_dedup(table, rows),
{
    let after = insert_dedup(table, rows);
    assert forall|i: int| 0 <= i < rows.len() implies table_has_key(
        after,
        #[trigger] rows[i].conflict_key(),
    ) by {
        assert(rows_have_key(rows, rows[i].conflict_key()));
        lemma_insert_dedup_keys(table, rows, rows[i].conflict_key());
    }
    lemma_insert_dedup_noop(after, rows);
}

/// Splitting the batch anywhere does not change the result: inserting the
/// two parts in turn equals inserting the whole.
pub proof fn lemma_insert_dedup_append<T: TableRow>(table: Seq<T>, a: Seq<T>, b: Seq<T>)
    ensures
        insert_dedup(table, a + b) == insert_dedup(insert_dedup(table, a), b),
    decreases a.len(),
{
    if a.len() == 0 {
        assert(a + b =~= b);
    } else {
        let ab = a + b;
        assert(ab[0] == a[0]);
        assert(ab.skip(1) =~= a.skip(1) + b);
        let t = if table_has_key(table, a[0].conflict_key()) {
            table
        } else {
            table.push(a[0])
        };
        lemma_insert_dedup_append(t, a.skip(1), b);
    }
}

/// A one-row batch unfolds to one conditional append.
pub proof fn lemma_insert_dedup_single<T: TableRow>(table: Seq<T>, row: T)
    ensures
        insert_dedup(table, seq![row]) == if table_has_key(table, row.conflict_key()) {
            table
        } else {
            table.push(row)
        },
{
    let s = seq![row];
    let t = if table_has_key(table, row.conflict_key()) {
        table
    } else {
        table.push(row)
    };
    assert(s.skip(1) =~= Seq::<T>::empty());
    assert(insert_dedup(t, Seq::<T>::empty()) == t);
    assert(insert_dedup(table, s) == insert_dedup(t, s.skip(1)));
}

/// Scans `table` for a row sharing `row`'s conflict key.
pub(crate) fn contains_key_of<T: TableRow>(table: &Vec<T>, row: &T) -> (b: bool)
    ensures
        b == table_has_key(table@, row.conflict_key()),
{
    let ghost key = row.conflict_key();
    let mut i: usize = 0;
    let mut found = false;
    while i < table.len()
        invariant
            0 <= i <= table@.len(),
            key == row.conflict_key(),
            found == exists|k: int| 0 <= k < i && table@[k].conflict_key() == key,
        decreases table@.len() - i,
    {
        let candidate = &table[i];
        if candidate.same_key(row) {
            found = true;
            assert(table@[i as int].conflict_key() == key);
        }
        i += 1;
    }
    found
}

/// Appends `row` unless its conflict key is already present.
fn insert_one<T: TableRow>(table: &mut Vec<T>, row: T)
    ensures
        final(table)@ == insert_dedup(old(table)@, seq![row]),
{
    proof {
        lemma_insert_dedup_single(table@, row);
    }
    let found = contains_key_of(table, &row);
    if !found {
        table.push(row);
    }
}

/// Inserts `rows` into `table` chunk by chunk, skipping rows whose conflict
/// key is already present.  Returns the number of per-chunk insertions made:
/// an empty batch makes none.
pub fn chunked<T: TableRow>(table: &mut Vec<T>, rows: Vec<T>, columns_count: usize) -> (calls:
    usize)
    requires
        1 <= columns_count <= MAX_CHUNKABLE_COLUMNS,
    ensures
        final(table)@ == insert_dedup(old(table)@, rows@),
        calls == spec_chunk_count(rows@.len() as int, spec_chunk_size(columns_count as int)),
{
    proof {
        lemma_chunk_size_positive(columns_count as int);
    }
    let size = chunk_size(columns_count);
    let n = rows.len();
    let ghost orig_table = table@;
    let ghost orig_rows = rows@;
    let mut rows = rows;
    let mut calls: usize = 0;
    let mut consumed: usize = 0;
    while consumed < n
        invariant
            10 <= size <= MAX_INSERT_FIELDS_COUNT,
            size == spec_chunk_size(columns_count as int),
            n == orig_rows.len(),
            0 <= consumed <= n,
            consumed < n ==> consumed == calls * size,
            consumed == n ==> calls == spec_chunk_count(n as int, size as int),
            calls <= consumed,
            rows@ == orig_rows.skip(consumed as int),
            table@ == insert_dedup(orig_table, orig_rows.take(consumed as int)),
        decreases n - consumed,
    {
        let ghost calls0 = calls as int;
        let ghost consumed0 = consumed as int;
        let remaining = n - consumed;
        let take = if remaining < size {
            remaining
        } else {
            size
        };
        let mut j: usize = 0;
        while j < take
            invariant
                0 <= j <= take,
                consumed + take <= n,
                n == orig_rows.len(),
                rows@ == orig_rows.skip((consumed + j) as int),
                table@ == insert_dedup(orig_table, orig_rows.take((consumed + j) as int)),
            decreases take - j,
        {
            let ghost done = (consumed + j) as int;
            let r = rows.remove(0);
            assert(r == orig_rows[done]);
            assert(rows@ =~= orig_rows.skip(done + 1));
            insert_one(table, r);
            proof {
                let pre = orig_rows.take(done);
                lemma_insert_dedup_append(orig_table, pre, seq![orig_rows[done]]);
                assert(pre + seq![orig_rows[done]] =~= orig_rows.take(done + 1));
            }
            j += 1;
        }
        consumed += take;
        calls += 1;
        proof {
            assert(consumed0 == calls0 * size);
            if consumed < n {
                assert(take == size);
                assert(consumed == calls * size) by (nonlinear_arith)
                    requires
                        consumed == consumed0 + take,
                        consumed0 == calls0 * size,
                        calls == calls0 + 1,
                        take == size,
                ;
            } else {
                assert(consumed == n);
                assert(calls0 * (size as int) < n as int);
                assert(n as int <= consumed0 + size);
                assert(consumed0 + size == (calls0 + 1) * (size as int)) by (nonlinear_arith)
                    requires
                        consumed0 == calls0 * (size as int),
                ;
                assert((n as int - 1) / (size as int) + 1 == calls0 + 1) by (nonlinear_arith)
                    requires
                        size >= 1,
                        calls0 >= 0,
                        calls0 * (size as int) < n as int,
                        n as int <= (calls0 + 1) * (size as int),
                ;
            }
        }
    }
    proof {
        assert(orig_rows.take(n as int) =~= orig_rows);
    }
    calls
}

/// The appended rows of a split batch: the first part's, then the second
/// part's against the table as the first part left it.
pub proof fn lemma_inserted_rows_append<T: TableRow>(table: Seq<T>, a: Seq<T>, b: Seq<T>)
    ensures
        inserted_rows(table, a + b) == inserted_rows(table, a) + inserted_rows(
            insert_dedup(table, a),
            b,
        ),
    decreases a.len(),
{
    if a.len() == 0 {
        assert(a + b =~= b);
        assert(inserted_rows(table, a) + inserted_rows(insert_dedup(table, a), b) =~= inserted_rows(
            table,
            b,
        ));
    } else {
        let ab = a + b;
        assert(ab[0] == a[0]);
        assert(ab.skip(1) =~= a.skip(1) + b);
        if table_has_key(table, a[0].conflict_key()) {
            lemma_inserted_rows_append(table, a.skip(1), b);
        } else {
            let t2 = table.push(a[0]);
            lemma_inserted_rows_append(t2, a.skip(1), b);
            assert(seq![a[0]] + (inserted_rows(t2, a.skip(1)) + inserted_rows(
                insert_dedup(t2, a.skip(1)),
                b,
            )) =~= (seq![a[0]] + inserted_rows(t2, a.skip(1))) + inserted_rows(
                insert_dedup(t2, a.skip(1)),
                b,
            ));
        }
    }
}

/// A one-row batch appends the row iff its key is new.
pub proof fn lemma_inserted_single<T: TableRow>(table: Seq<T>, row: T)
    ensures
        inserted_rows(table, seq![row]) == if table_has_key(table, row.conflict_key()) {
            Seq::<T>::empty()
        } else {
            seq![row]
        },
{
    let s = seq![row];
    assert(s.skip(1) =~= Seq::<T>::empty());
    if table_has_key(table, row.conflict_key()) {
        assert(inserted_rows(table, Seq::<T>::empty()) == Seq::<T>::empty());
    } else {
        assert(inserted_rows(table.push(row), Seq::<T>::empty()) == Seq::<T>::empty());
        assert(seq![row] + Seq::<T>::empty() =~= seq![row]);
    }
}

/// A batch of pairwise fresh keys is appended whole: nothing is skipped.
pub proof fn lemma_insert_dedup_all_new<T: TableRow>(table: Seq<T>, rows: Seq<T>)
    requires
        forall|i: int|
            0 <= i < rows.len() ==> !table_has_key(table, (#[trigger] rows[i]).conflict_key()),
        forall|i: int, j: int|
            0 <= i < j < rows.len() ==> (#[trigger] rows[i]).conflict_key() != (
            #[trigger] rows[j]).conflict_key(),
    ensures
        insert_dedup(table, rows) == table + rows,
    decreases rows.len(),
{
    if rows.len() == 0 {
        assert(table + rows =~= table);
    } else {
        let t2 = table.push(rows[0]);
        assert(forall|i: int|
            0 <= i < rows.skip(1).len() ==> #[trigger] rows.skip(1)[i] == rows[i + 1]);
        assert forall|i: int|
            0 <= i < rows.skip(1).len() implies !table_has_key(
            t2,
            (#[trigger] rows.skip(1)[i]).conflict_key(),
        ) by {
            if table_has_key(t2, rows.skip(1)[i].conflict_key()) {
                let k = choose|k: int|
                    0 <= k < t2.len() && (#[trigger] t2[k]).conflict_key() == rows.skip(
                        1,
                    )[i].conflict_key();
                if k < table.len() {
                    assert(table[k].conflict_key() == rows[i + 1].conflict_key());
                } else {
                    assert(rows[0].conflict_key() == rows[i + 1].conflict_key());
                }
            }
        }
        lemma_insert_dedup_all_new(t2, rows.skip(1));
        assert(table.push(rows[0]) + rows.skip(1) =~= table + rows);
    }
}

} // verus!
