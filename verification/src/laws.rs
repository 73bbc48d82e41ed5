//! The laws of the pipeline that hold of all inputs: the silent-default
//! coercion, the load's row count, and what update and delete do and do
//! not touch. Each is stated over the same spec functions the operations'
//! own contracts use.
use crate::load::loaded_rows;
use crate::parse::coerce_int_spec;
use crate::parse::coerce_real_spec;
use crate::parse::coerce_text_spec;
use crate::parse::int_literal_val;
use crate::parse::is_int_literal;
use crate::parse::is_real_literal;
use crate::record::coerce_record_spec;
use crate::record::RecordModel;
use crate::store::brief_of;
use crate::store::matching;
use crate::store::remaining;
use crate::store::row_with_year;
use crate::store::stored_record;
use crate::store::update_rows;
use vstd::prelude::*;

verus! {

/// A missing integer field, one that is not an integer literal, or one
/// outside the 32-bit range is loaded as exactly 0.
pub proof fn lemma_int_field_default(f: Option<Seq<char>>)
    requires
        f matches Some(s) ==> !is_int_literal(s) || int_literal_val(s) < i32::MIN
            || int_literal_val(s) > i32::MAX,
    ensures
        coerce_int_spec(f) == 0,
{
}

/// A missing real field, or one that is not a real literal, is loaded as
/// exactly the default "0".
pub proof fn lemma_real_field_default(f: Option<Seq<char>>)
    requires
        f matches Some(s) ==> !is_real_literal(s),
    ensures
        coerce_real_spec(f) == seq!['0'],
{
}

/// A missing text field is loaded as exactly the empty string.
pub proof fn lemma_text_field_default(f: Option<Seq<char>>)
    requires
        f is None,
    ensures
        coerce_text_spec(f) == Seq::<char>::empty(),
{
}

/// An entirely empty row still yields a full record: every integer field
/// 0, every real field "0", every text field "".
pub proof fn lemma_empty_row_defaults(fs: Seq<Seq<char>>)
    requires
        fs.len() == 0,
    ensures
        coerce_record_spec(fs) == (RecordModel {
            name: Seq::empty(),
            year: 0,
            team: Seq::empty(),
            league: Seq::empty(),
            goose_eggs: 0,
            broken_eggs: 0,
            mehs: 0,
            league_average_gpct: seq!['0'],
            ppf: seq!['0'],
            replacement_gpct: seq!['0'],
            gwar: seq!['0'],
            key_retro: Seq::empty(),
        }),
{
}

/// Whatever the batch size, the loaded table holds exactly one row per
/// raw record of the dataset, the last partial batch included.
pub proof fn lemma_load_row_count(raw: Seq<Seq<Seq<char>>>)
    ensures
        loaded_rows(raw).len() == raw.len(),
{
}

/// A created record reads back as given: the store's cast touches only
/// the real-typed fields, so the brief view a read returns — name, year,
/// team, league — is exactly that of the record handed to create.
pub proof fn lemma_created_row_reads_back(r: RecordModel)
    ensures
        brief_of(stored_record(r)) == brief_of(r),
        stored_record(r).key_retro == r.key_retro,
{
}

/// Update changes only the year field of exactly the rows matching the
/// key: every other row, every other field, and the row count stay as
/// they were.
pub proof fn lemma_update_targets_only(rows: Seq<RecordModel>, key: Seq<char>, y: int)
    ensures
        update_rows(rows, key, y).len() == rows.len(),
        forall|n: int|
            0 <= n < rows.len() ==> #[trigger] update_rows(rows, key, y)[n] == (if rows[n].key_retro
                == key {
                row_with_year(rows[n], y)
            } else {
                rows[n]
            }),
{
}

/// Delete splits the table: what remains plus what matched account for
/// every row, so the count drops by exactly the number of matching rows.
pub proof fn lemma_delete_row_count(rows: Seq<RecordModel>, key: Seq<char>)
    ensures
        remaining(rows, key).len() + matching(rows, key).len() == rows.len(),
    decreases rows.len(),
{
    reveal(Seq::filter);
    if rows.len() > 0 {
        lemma_delete_row_count(rows.drop_last(), key);
        assert(remaining(rows.drop_last(), key) == rows.drop_last().filter(
            |r: RecordModel| r.key_retro != key,
        ));
    }
}

/// Delete removes only the matching rows: nothing that remains matches
/// the key, and everything that remains was a row of the table.
pub proof fn lemma_delete_targets_only(rows: Seq<RecordModel>, key: Seq<char>)
    ensures
        forall|n: int|
            0 <= n < remaining(rows, key).len() ==> #[trigger] remaining(
                rows,
                key,
            )[n].key_retro != key && rows.contains(remaining(rows, key)[n]),
    decreases rows.len(),
{
    reveal(Seq::filter);
    if rows.len() > 0 {
        lemma_delete_targets_only(rows.drop_last(), key);
        let sub = remaining(rows.drop_last(), key);
        let out = remaining(rows, key);
        assert(sub == rows.drop_last().filter(|r: RecordModel| r.key_retro != key));
        assert forall|n: int| 0 <= n < out.len() implies #[trigger] out[n].key_retro != key
            && rows.contains(out[n]) by {
            if rows.last().key_retro != key && n == out.len() - 1 {
                assert(out[n] == rows.last());
                assert(rows[rows.len() - 1] == rows.last());
            } else {
                assert(out[n] == sub[n]);
                assert(rows.drop_last().contains(sub[n]));
                let j = choose|j: int|
                    0 <= j < rows.drop_last().len() && rows.drop_last()[j] == sub[n];
                assert(rows[j] == sub[n]);
            }
        }
    }
}

} // verus!
