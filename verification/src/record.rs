//! One row of the dataset: 12 positional fields. Integer-typed fields hold
//! 0 when the source field was absent or unparsable, real-typed fields hold
//! the source text (or "0") that the store binds to a REAL column, and text
//! fields hold the source text or "".
use crate::parse::coerce_int_spec;
use crate::parse::coerce_real_spec;
use crate::parse::coerce_text_spec;
use crate::parse::coerce_real;
use crate::parse::coerce_text;
use crate::parse::parse_int;
use vstd::prelude::*;

verus! {

pub struct Record {
    pub name: String,
    pub year: i32,
    pub team: String,
    pub league: String,
    pub goose_eggs: i32,
    pub broken_eggs: i32,
    pub mehs: i32,
    pub league_average_gpct: String,
    pub ppf: String,
    pub replacement_gpct: String,
    pub gwar: String,
    pub key_retro: String,
}

/// The mathematical value of a record.
pub struct RecordModel {
    pub name: Seq<char>,
    pub year: int,
    pub team: Seq<char>,
    pub league: Seq<char>,
    pub goose_eggs: int,
    pub broken_eggs: int,
    pub mehs: int,
    pub league_average_gpct: Seq<char>,
    pub ppf: Seq<char>,
    pub replacement_gpct: Seq<char>,
    pub gwar: Seq<char>,
    pub key_retro: Seq<char>,
}

impl View for Record {
    type V = RecordModel;

    open spec fn view(&self) -> RecordModel {
        RecordModel {
            name: self.name@,
            year: self.year as int,
            team: self.team@,
            league: self.league@,
            goose_eggs: self.goose_eggs as int,
            broken_eggs: self.broken_eggs as int,
            mehs: self.mehs as int,
            league_average_gpct: self.league_average_gpct@,
            ppf: self.ppf@,
            replacement_gpct: self.replacement_gpct@,
            gwar: self.gwar@,
            key_retro: self.key_retro@,
        }
    }
}

/// The i-th field of a ragged row, absent when the row is too short.
pub open spec fn field_at(fs: Seq<Seq<char>>, i: int) -> Option<Seq<char>> {
    if 0 <= i < fs.len() {
        Option::Some(fs[i])
    } else {
        Option::None
    }
}

/// The record a raw row is loaded as: fields 1, 4, 5, 6 are integers,
/// fields 7, 8, 9, 10 are reals, the rest are text, each coerced by the
/// silent-default policy.
pub open spec fn coerce_record_spec(fs: Seq<Seq<char>>) -> RecordModel {
    RecordModel {
        name: coerce_text_spec(field_at(fs, 0)),
        year: coerce_int_spec(field_at(fs, 1)),
        team: coerce_text_spec(field_at(fs, 2)),
        league: coerce_text_spec(field_at(fs, 3)),
        goose_eggs: coerce_int_spec(field_at(fs, 4)),
        broken_eggs: coerce_int_spec(field_at(fs, 5)),
        mehs: coerce_int_spec(field_at(fs, 6)),
        league_average_gpct: coerce_real_spec(field_at(fs, 7)),
        ppf: coerce_real_spec(field_at(fs, 8)),
        replacement_gpct: coerce_real_spec(field_at(fs, 9)),
        gwar: coerce_real_spec(field_at(fs, 10)),
        key_retro: coerce_text_spec(field_at(fs, 11)),
    }
}

fn get_field<'a>(fields: &'a Vec<String>, i: usize) -> (r: Option<&'a str>)
    ensures
        crate::parse::opt_view(r) == field_at(fields.deep_view(), i as int),
{
    if i < fields.len() {
        Option::Some(fields[i].as_str())
    } else {
        Option::None
    }
}

/// Turns one raw row, as the csv reader hands it out, into a record,
/// applying the coercion policy field by field.
pub fn coerce_record(fields: &Vec<String>) -> (r: Record)
    ensures
        r@ == coerce_record_spec(fields.deep_view()),
{
    Record {
        name: coerce_text(get_field(fields, 0)),
        year: parse_int(get_field(fields, 1)),
        team: coerce_text(get_field(fields, 2)),
        league: coerce_text(get_field(fields, 3)),
        goose_eggs: parse_int(get_field(fields, 4)),
        broken_eggs: parse_int(get_field(fields, 5)),
        mehs: parse_int(get_field(fields, 6)),
        league_average_gpct: coerce_real(get_field(fields, 7)),
        ppf: coerce_real(get_field(fields, 8)),
        replacement_gpct: coerce_real(get_field(fields, 9)),
        gwar: coerce_real(get_field(fields, 10)),
        key_retro: coerce_text(get_field(fields, 11)),
    }
}

} // verus!
