//! The batch loader: streams raw rows out of a csv reader, coerces each to
//! a record, groups records into fixed-size batches, and writes them into
//! a freshly recreated table inside one transaction. Any failure prevents
//! the commit, so the committed table is never half-loaded.
use crate::record::coerce_record;
use crate::record::coerce_record_spec;
use crate::record::Record;
use crate::record::RecordModel;
use crate::store::begin_txn;
use crate::store::commit_txn;
use crate::store::committed_rows;
use crate::store::insert_row;
use crate::store::recreate_table;
use crate::store::rollback_txn;
use crate::store::store_model;
use crate::store::stored_record;
use crate::store::table_rows;
use crate::store::txn_open;
use crate::store::Store;
use crate::EtlError;
use vstd::prelude::*;

verus! {

/// How many records one bulk-insert flush takes at most.
pub const BATCH_SIZE: usize = 1000;

#[verifier::external_type_specification]
#[verifier::external_body]
#[verifier::reject_recursive_types(R)]
pub struct ExCsvReader<R>(csv::Reader<R>);

/// Relies on csv::ReaderBuilder: builds a reader over the byte source in
/// flexible mode (ragged rows tolerated), trimming whitespace from every
/// field, with the first row taken as the header.
#[verifier::external_body]
pub fn make_reader<R: std::io::Read>(source: R) -> (rdr: csv::Reader<R>) {
    csv::ReaderBuilder::new().flexible(true).trim(csv::Trim::All).from_reader(source)
}

/// Relies on csv::Reader::read_record: hands back the next data record's
/// fields (the header row is skipped), None at the end of the stream, or
/// the failure when the stream's framing is malformed.
#[verifier::external_body]
fn next_record<R: std::io::Read>(rdr: &mut csv::Reader<R>) -> (res: Option<
    Result<Vec<String>, EtlError>,
>)
    ensures
        res matches Some(r) ==> (r matches Err(e) ==> e is Parse),
{
    let mut rec = csv::StringRecord::new();
    match rdr.read_record(&mut rec) {
        Ok(true) => Some(Ok(rec.iter().map(|f| f.to_string()).collect())),
        Ok(false) => None,
        Err(e) => Some(Err(EtlError::Parse(e.to_string()))),
    }
}

/// The records of a batch, as mathematical values.
pub open spec fn records_view(s: Seq<Record>) -> Seq<RecordModel> {
    s.map_values(|r: Record| r@)
}

pub open spec fn stored_records(s: Seq<RecordModel>) -> Seq<RecordModel> {
    s.map_values(|r: RecordModel| stored_record(r))
}

/// The table a dataset of raw rows is loaded as: each row coerced to a
/// record and kept by the store, in source order.
pub open spec fn loaded_rows(raw: Seq<Seq<Seq<char>>>) -> Seq<RecordModel> {
    raw.map_values(|fs: Seq<Seq<char>>| stored_record(coerce_record_spec(fs)))
}

/// Executes one prepared insert per record of the batch, in order, inside
/// the open transaction.
fn flush_batch(conn: &mut rusqlite::Connection, batch: &Vec<Record>) -> (res: Result<(), EtlError>)
    requires
        txn_open(*old(conn)),
    ensures
        res is Ok ==> txn_open(*final(conn)) && table_rows(*final(conn)) == table_rows(*old(conn))
            + stored_records(records_view(batch@)) && committed_rows(*final(conn))
            == committed_rows(*old(conn)),
        res is Err ==> committed_rows(*final(conn)) == committed_rows(*old(conn)),
{
    let ghost t0 = table_rows(*old(conn));
    let mut k: usize = 0;
    while k < batch.len()
        invariant
            0 <= k <= batch.len(),
            txn_open(*conn),
            table_rows(*conn) == t0 + stored_records(records_view(batch@.take(k as int))),
            committed_rows(*conn) == committed_rows(*old(conn)),
        decreases batch.len() - k,
    {
        match insert_row(conn, &batch[k]) {
            Err(e) => {
                return Err(e);
            },
            Ok(()) => {},
        }
        proof {
            let prev = stored_records(records_view(batch@.take(k as int)));
            let next = stored_records(records_view(batch@.take(k as int + 1)));
            assert(next =~= prev.push(stored_record(batch@[k as int]@)));
            assert(t0 + next =~= (t0 + prev).push(stored_record(batch@[k as int]@)));
        }
        k = k + 1;
    }
    proof {
        assert(batch@.take(batch@.len() as int) =~= batch@);
    }
    Ok(())
}

/// Loads a dataset already split into raw rows: recreates the table and
/// writes every row's record inside one transaction, in batches of the
/// given size. On success the table holds exactly the dataset's records,
/// whatever it held before; on failure it is left as it was.
pub fn load_records(store: &mut Store, rows: &Vec<Vec<String>>, batch_size: usize) -> (res: Result<
    usize,
    EtlError,
>)
    requires
        old(store).wf(),
        batch_size >= 1,
    ensures
        final(store).wf(),
        res matches Ok(n) ==> final(store).rows() == loaded_rows(rows.deep_view()) && n
            == rows@.len(),
        res is Err ==> final(store).rows() == old(store).rows(),
{
    proof {
        store_model(*store);
    }
    let ghost c0 = old(store).rows();
    let ghost raw = rows.deep_view();
    match begin_txn(&mut store.conn) {
        Err(e) => {
            proof {
                store_model(*store);
            }
            return Err(e);
        },
        Ok(()) => {},
    }
    match recreate_table(&mut store.conn) {
        Err(e) => {
            let _ = rollback_txn(&mut store.conn);
            proof {
                store_model(*store);
            }
            return Err(e);
        },
        Ok(()) => {},
    }
    proof {
        assert(table_rows(store.conn) =~= loaded_rows(raw.take(0)));
    }
    let mut batch: Vec<Record> = Vec::new();
    let mut i: usize = 0;
    while i < rows.len()
        invariant
            0 <= batch.len() <= i <= rows.len(),
            batch.len() < batch_size,
            batch_size >= 1,
            raw == rows.deep_view(),
            raw.len() == rows@.len(),
            txn_open(store.conn),
            c0 == old(store).rows(),
            committed_rows(store.conn) == c0,
            table_rows(store.conn) == loaded_rows(raw.take(i - batch.len())),
            forall|j: int|
                0 <= j < batch.len() ==> #[trigger] batch@[j]@ == coerce_record_spec(
                    raw[i - batch.len() + j],
                ),
        decreases rows.len() - i,
    {
        let rec = coerce_record(&rows[i]);
        proof {
            assert(rows.deep_view()[i as int] == rows@[i as int].deep_view());
        }
        batch.push(rec);
        i = i + 1;
        if batch.len() >= batch_size {
            let ghost base = i - batch.len();
            match flush_batch(&mut store.conn, &batch) {
                Err(e) => {
                    let _ = rollback_txn(&mut store.conn);
                    proof {
                        store_model(*store);
                    }
                    return Err(e);
                },
                Ok(()) => {},
            }
            proof {
                lemma_flush_extends(raw, base, i as int, batch@);
            }
            batch.clear();
        }
    }
    let ghost base = i - batch.len();
    match flush_batch(&mut store.conn, &batch) {
        Err(e) => {
            let _ = rollback_txn(&mut store.conn);
            proof {
                store_model(*store);
            }
            return Err(e);
        },
        Ok(()) => {},
    }
    proof {
        lemma_flush_extends(raw, base, i as int, batch@);
        assert(raw.take(raw.len() as int) =~= raw);
    }
    match commit_txn(&mut store.conn) {
        Err(e) => {
            let _ = rollback_txn(&mut store.conn);
            proof {
                store_model(*store);
            }
            return Err(e);
        },
        Ok(()) => {},
    }
    proof {
        store_model(*store);
    }
    Ok(i)
}

/// Appending a flushed batch of coerced records extends the loaded prefix.
proof fn lemma_flush_extends(raw: Seq<Seq<Seq<char>>>, base: int, upto: int, batch: Seq<Record>)
    requires
        0 <= base <= upto <= raw.len(),
        batch.len() == upto - base,
        forall|j: int|
            0 <= j < batch.len() ==> #[trigger] batch[j]@ == coerce_record_spec(raw[base + j]),
    ensures
        loaded_rows(raw.take(base)) + stored_records(records_view(batch)) == loaded_rows(
            raw.take(upto),
        ),
{
    assert(loaded_rows(raw.take(base)) + stored_records(records_view(batch)) =~= loaded_rows(
        raw.take(upto),
    ));
}

/// Loads a dataset from a csv reader: streams its records, coerces each,
/// and writes them in batches inside one transaction over a freshly
/// recreated table. On success the committed table holds exactly the
/// records of the stream, in source order; on any failure — a framing
/// failure in the stream or a store failure — nothing of the load commits
/// and the table is left as it was.
pub fn load<R: std::io::Read>(store: &mut Store, rdr: &mut csv::Reader<R>) -> (res: Result<
    usize,
    EtlError,
>)
    requires
        old(store).wf(),
    ensures
        final(store).wf(),
        res matches Ok(n) ==> final(store).rows().len() == n && exists|raw: Seq<Seq<Seq<char>>>|
            final(store).rows() == loaded_rows(raw) && n == raw.len(),
        res is Err ==> final(store).rows() == old(store).rows(),
{
    proof {
        store_model(*store);
    }
    let ghost c0 = old(store).rows();
    match begin_txn(&mut store.conn) {
        Err(e) => {
            proof {
                store_model(*store);
            }
            return Err(e);
        },
        Ok(()) => {},
    }
    match recreate_table(&mut store.conn) {
        Err(e) => {
            let _ = rollback_txn(&mut store.conn);
            proof {
                store_model(*store);
            }
            return Err(e);
        },
        Ok(()) => {},
    }
    let ghost mut raw: Seq<Seq<Seq<char>>> = Seq::empty();
    proof {
        assert(table_rows(store.conn) =~= loaded_rows(raw.take(0)));
    }
    let mut batch: Vec<Record> = Vec::new();
    let mut count: usize = 0;
    loop
        invariant
            batch.len() <= count,
            count == raw.len(),
            batch.len() < BATCH_SIZE,
            txn_open(store.conn),
            c0 == old(store).rows(),
            committed_rows(store.conn) == c0,
            table_rows(store.conn) == loaded_rows(raw.take(count - batch.len())),
            forall|j: int|
                0 <= j < batch.len() ==> #[trigger] batch@[j]@ == coerce_record_spec(
                    raw[count - batch.len() + j],
                ),
        decreases usize::MAX - count,
    {
        match next_record(rdr) {
            Option::None => {
                break ;
            },
            Option::Some(Result::Err(e)) => {
                let _ = rollback_txn(&mut store.conn);
                proof {
                    store_model(*store);
                }
                return Err(e);
            },
            Option::Some(Result::Ok(fields)) => {
                if count == usize::MAX {
                    let _ = rollback_txn(&mut store.conn);
                    proof {
                        store_model(*store);
                    }
                    return Err(EtlError::Parse("record count overflow".to_string()));
                }
                let rec = coerce_record(&fields);
                batch.push(rec);
                proof {
                    raw = raw.push(fields.deep_view());
                }
                count = count + 1;
                if batch.len() >= BATCH_SIZE {
                    let ghost base = count - batch.len();
                    match flush_batch(&mut store.conn, &batch) {
                        Err(e) => {
                            let _ = rollback_txn(&mut store.conn);
                            proof {
                                store_model(*store);
                            }
                            return Err(e);
                        },
                        Ok(()) => {},
                    }
                    proof {
                        lemma_flush_extends(raw, base, count as int, batch@);
                    }
                    batch.clear();
                }
            },
        }
    }
    let ghost base = count - batch.len();
    match flush_batch(&mut store.conn, &batch) {
        Err(e) => {
            let _ = rollback_txn(&mut store.conn);
            proof {
                store_model(*store);
            }
            return Err(e);
        },
        Ok(()) => {},
    }
    proof {
        lemma_flush_extends(raw, base, count as int, batch@);
        assert(raw.take(raw.len() as int) =~= raw);
    }
    match commit_txn(&mut store.conn) {
        Err(e) => {
            let _ = rollback_txn(&mut store.conn);
            proof {
                store_model(*store);
            }
            return Err(e);
        },
        Ok(()) => {},
    }
    proof {
        store_model(*store);
    }
    Ok(count)
}

} // verus!
