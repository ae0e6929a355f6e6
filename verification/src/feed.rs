//! The feed parser: raw tabular text to a validated entry set plus counters.
//!
//! Row one of the feed holds column titles, row two the sixteen aggregate
//! counters, row three is reserved; every later row is an entry record in
//! fixed column order. Rows are addressed by position, so a record the
//! tabular reader rejects keeps its place but holds nothing: among the
//! entry rows it is skipped, as is any row that fails structural decoding,
//! while a rejected or malformed counters row aborts the whole parse.

use vstd::prelude::*;

use crate::models::{
    ApiError, Counters, Entry, RawEntry, cell_opt, contains_id, has_id, ids_unique, is_marker,
    opt_str_matches, spec_topic_of, str_is_empty, topic_from_str,
};
use crate::numbers::{parse_counter_str, parse_u32_str, spec_parse_counter, spec_parse_u32};

verus! {

/// What the tabular reader yields on the given text: one element per
/// record in order, a rejected record standing as absent so that every
/// record keeps its position. The split is a function of the text alone.
pub uninterp spec fn rows_of(text: Seq<char>) -> Seq<Option<Seq<Seq<char>>>>;

/// Relies on csv::ReaderBuilder / Reader::records (csv 1.4.0): splits
/// tabular text into rows of cells, with no title-row special casing;
/// a record the reader rejects (e.g. an uneven field count) is yielded
/// in place as absent.
#[verifier::external_body]
fn csv_rows(text: &str) -> (r: Vec<Option<Vec<String>>>)
    ensures
        r.deep_view() == rows_of(text@),
{
    let mut reader = csv::ReaderBuilder::new().has_headers(false).from_reader(text.as_bytes());
    let mut rows: Vec<Option<Vec<String>>> = Vec::new();
    for record in reader.records() {
        match record {
            Ok(rec) => rows.push(Some(rec.iter().map(|cell| cell.to_string()).collect())),
            Err(_) => rows.push(None),
        }
    }
    rows
}

/// Structural acceptance of a data row: full width, numeric id,
/// numeric-or-empty semantic id.
pub open spec fn row_ok(row: Seq<Seq<char>>) -> bool {
    &&& row.len() == 22
    &&& spec_parse_u32(row[0]) is Some
    &&& (row[1].len() == 0 || spec_parse_u32(row[1]) is Some)
}

/// The id a structurally valid row carries.
pub open spec fn row_id(row: Seq<Seq<char>>) -> u32
    recommends
        row_ok(row),
{
    spec_parse_u32(row[0]).unwrap()
}

/// The semantic id a row carries: empty means ungrouped.
pub open spec fn row_sem(row: Seq<Seq<char>>) -> Option<u32> {
    if row[1].len() == 0 {
        None
    } else {
        spec_parse_u32(row[1])
    }
}

/// How a raw record reads a structurally valid row.
pub open spec fn raw_matches_row(raw: RawEntry, row: Seq<Seq<char>>) -> bool {
    &&& raw.id == row_id(row)
    &&& raw.sem_id == row_sem(row)
    &&& opt_str_matches(raw.category, row[2])
    &&& raw.topic == spec_topic_of(row[3])
    &&& opt_str_matches(raw.sub_topic, row[4])
    &&& opt_str_matches(raw.sub_sub_topic, row[5])
    &&& opt_str_matches(raw.essential_flag, row[6])
    &&& opt_str_matches(raw.basic_flag, row[7])
    &&& opt_str_matches(raw.lat, row[8])
    &&& opt_str_matches(raw.iro, row[9])
    &&& opt_str_matches(raw.por, row[10])
    &&& opt_str_matches(raw.spa, row[11])
    &&& opt_str_matches(raw.cat, row[12])
    &&& opt_str_matches(raw.occ, row[13])
    &&& opt_str_matches(raw.fra, row[14])
    &&& opt_str_matches(raw.srd, row[15])
    &&& opt_str_matches(raw.ita, row[16])
    &&& opt_str_matches(raw.rom, row[17])
    &&& opt_str_matches(raw.eng, row[18])
    &&& opt_str_matches(raw.fol, row[19])
    &&& opt_str_matches(raw.frk, row[20])
    &&& opt_str_matches(raw.sla, row[21])
}

/// How an entry reads a structurally valid row.
pub open spec fn entry_matches_row(e: Entry, row: Seq<Seq<char>>) -> bool {
    &&& e.id == row_id(row)
    &&& e.sem_id == row_sem(row)
    &&& e.topic == spec_topic_of(row[3])
    &&& e.essential_flag == (row[6].len() > 0 && row[6] == "e"@)
    &&& e.basic_flag == (row[7].len() > 0 && row[7] == "b"@)
    &&& opt_str_matches(e.lat, row[8])
    &&& opt_str_matches(e.iro, row[9])
    &&& opt_str_matches(e.por, row[10])
    &&& opt_str_matches(e.spa, row[11])
    &&& opt_str_matches(e.cat, row[12])
    &&& opt_str_matches(e.occ, row[13])
    &&& opt_str_matches(e.fra, row[14])
    &&& opt_str_matches(e.srd, row[15])
    &&& opt_str_matches(e.ita, row[16])
    &&& opt_str_matches(e.rom, row[17])
    &&& opt_str_matches(e.eng, row[18])
    &&& opt_str_matches(e.fol, row[19])
    &&& opt_str_matches(e.frk, row[20])
    &&& opt_str_matches(e.sla, row[21])
}

/// Structurally decode one data row into a raw record, or reject it.
pub fn raw_from_row(row: &Vec<String>) -> (r: Option<RawEntry>)
    ensures
        match r {
            Some(raw) => row_ok(row.deep_view()) && raw_matches_row(raw, row.deep_view()),
            None => !row_ok(row.deep_view()),
        },
{
    if row.len() != 22 {
        return None;
    }
    let id: u32 = match parse_u32_str(row[0].as_str()) {
        Some(v) => v,
        None => {
            return None;
        },
    };
    let sem_id: Option<u32> = if str_is_empty(row[1].as_str()) {
        None
    } else {
        match parse_u32_str(row[1].as_str()) {
            Some(v) => Some(v),
            None => {
                return None;
            },
        }
    };
    Some(
        RawEntry {
            id: id,
            sem_id: sem_id,
            category: cell_opt(&row[2]),
            topic: topic_from_str(row[3].as_str()),
            sub_topic: cell_opt(&row[4]),
            sub_sub_topic: cell_opt(&row[5]),
            essential_flag: cell_opt(&row[6]),
            basic_flag: cell_opt(&row[7]),
            lat: cell_opt(&row[8]),
            iro: cell_opt(&row[9]),
            por: cell_opt(&row[10]),
            spa: cell_opt(&row[11]),
            cat: cell_opt(&row[12]),
            occ: cell_opt(&row[13]),
            fra: cell_opt(&row[14]),
            srd: cell_opt(&row[15]),
            ita: cell_opt(&row[16]),
            rom: cell_opt(&row[17]),
            eng: cell_opt(&row[18]),
            fol: cell_opt(&row[19]),
            frk: cell_opt(&row[20]),
            sla: cell_opt(&row[21]),
        },
    )
}

/// Decode one data row into an entry, or reject it; a rejected row never
/// aborts the surrounding parse.
pub fn entry_from_row(row: &Vec<String>) -> (r: Option<Entry>)
    ensures
        match r {
            Some(e) => row_ok(row.deep_view()) && entry_matches_row(e, row.deep_view()),
            None => !row_ok(row.deep_view()),
        },
{
    match raw_from_row(row) {
        Some(raw) => {
            let ghost g_raw = raw;
            let e = Entry::from_raw(raw);
            proof {
                let rdv = row.deep_view();
                assert(e.essential_flag == is_marker(g_raw.essential_flag, "e"@));
                assert(opt_str_matches(g_raw.essential_flag, rdv[6]));
                assert(e.basic_flag == is_marker(g_raw.basic_flag, "b"@));
                assert(opt_str_matches(g_raw.basic_flag, rdv[7]));
            }
            Some(e)
        },
        None => None,
    }
}

/// Read one counter cell of the counters row: the column must exist and
/// hold a numeral (thousands separators allowed).
pub open spec fn spec_cell_result(row: Seq<Seq<char>>, idx: int) -> Result<u32, ApiError> {
    if idx >= row.len() {
        Err(ApiError::MissingHeaders)
    } else {
        match spec_parse_counter(row[idx]) {
            Some(v) => Ok(v),
            None => Err(ApiError::MalformedNumber),
        }
    }
}

fn read_counter_cell(row: &Vec<String>, idx: usize) -> (r: Result<u32, ApiError>)
    ensures
        r == spec_cell_result(row.deep_view(), idx as int),
{
    if idx >= row.len() {
        Err(ApiError::MissingHeaders)
    } else {
        match parse_counter_str(row[idx].as_str()) {
            Some(v) => Ok(v),
            None => Err(ApiError::MalformedNumber),
        }
    }
}

/// What the counters row yields: sixteen fixed columns read in ascending
/// order, the first failing column deciding the error kind.
pub open spec fn row_counters(row: Seq<Seq<char>>) -> Result<Counters, ApiError> {
    match spec_cell_result(row, 0) {
        Err(e) => Err(e),
        Ok(total) => match spec_cell_result(row, 1) {
            Err(e) => Err(e),
            Ok(sem) => match spec_cell_result(row, 8) {
                Err(e) => Err(e),
                Ok(lat) => match spec_cell_result(row, 9) {
                    Err(e) => Err(e),
                    Ok(iro) => match spec_cell_result(row, 10) {
                        Err(e) => Err(e),
                        Ok(por) => match spec_cell_result(row, 11) {
                            Err(e) => Err(e),
                            Ok(spa) => match spec_cell_result(row, 12) {
                                Err(e) => Err(e),
                                Ok(cat) => match spec_cell_result(row, 13) {
                                    Err(e) => Err(e),
                                    Ok(occ) => match spec_cell_result(row, 14) {
                                        Err(e) => Err(e),
                                        Ok(fra) => match spec_cell_result(row, 15) {
                                            Err(e) => Err(e),
                                            Ok(srd) => match spec_cell_result(row, 16) {
                                                Err(e) => Err(e),
                                                Ok(ita) => match spec_cell_result(row, 17) {
                                                    Err(e) => Err(e),
                                                    Ok(rom) => match spec_cell_result(row, 18) {
                                                        Err(e) => Err(e),
                                                        Ok(eng) => match spec_cell_result(row, 19) {
                                                            Err(e) => Err(e),
                                                            Ok(fol) => match spec_cell_result(row, 20) {
                                                                Err(e) => Err(e),
                                                                Ok(frk) => match spec_cell_result(row, 21) {
                                                                    Err(e) => Err(e),
                                                                    Ok(sla) => Ok(
                                                                        Counters {
                                                                            total: total,
                                                                            sem: sem,
                                                                            lat: lat,
                                                                            iro: iro,
                                                                            por: por,
                                                                            spa: spa,
                                                                            cat: cat,
                                                                            occ: occ,
                                                                            fra: fra,
                                                                            srd: srd,
                                                                            ita: ita,
                                                                            rom: rom,
                                                                            eng: eng,
                                                                            fol: fol,
                                                                            frk: frk,
                                                                            sla: sla,
                                                                        },
                                                                    ),
                                                                },
                                                            },
                                                        },
                                                    },
                                                },
                                            },
                                        },
                                    },
                                },
                            },
                        },
                    },
                },
            },
        },
    }
}

/// Read the sixteen counters from the counters row.
pub fn read_counters(row: &Vec<String>) -> (r: Result<Counters, ApiError>)
    ensures
        r == row_counters(row.deep_view()),
{
    let total: u32 = match read_counter_cell(row, 0) {
        Ok(v) => v,
        Err(e) => {
            return Err(e);
        },
    };
    let sem: u32 = match read_counter_cell(row, 1) {
        Ok(v) => v,
        Err(e) => {
            return Err(e);
        },
    };
    let lat: u32 = match read_counter_cell(row, 8) {
        Ok(v) => v,
        Err(e) => {
            return Err(e);
        },
    };
    let iro: u32 = match read_counter_cell(row, 9) {
        Ok(v) => v,
        Err(e) => {
            return Err(e);
        },
    };
    let por: u32 = match read_counter_cell(row, 10) {
        Ok(v) => v,
        Err(e) => {
            return Err(e);
        },
    };
    let spa: u32 = match read_counter_cell(row, 11) {
        Ok(v) => v,
        Err(e) => {
            return Err(e);
        },
    };
    let cat: u32 = match read_counter_cell(row, 12) {
        Ok(v) => v,
        Err(e) => {
            return Err(e);
        },
    };
    let occ: u32 = match read_counter_cell(row, 13) {
        Ok(v) => v,
        Err(e) => {
            return Err(e);
        },
    };
    let fra: u32 = match read_counter_cell(row, 14) {
        Ok(v) => v,
        Err(e) => {
            return Err(e);
        },
    };
    let srd: u32 = match read_counter_cell(row, 15) {
        Ok(v) => v,
        Err(e) => {
            return Err(e);
        },
    };
    let ita: u32 = match read_counter_cell(row, 16) {
        Ok(v) => v,
        Err(e) => {
            return Err(e);
        },
    };
    let rom: u32 = match read_counter_cell(row, 17) {
        Ok(v) => v,
        Err(e) => {
            return Err(e);
        },
    };
    let eng: u32 = match read_counter_cell(row, 18) {
        Ok(v) => v,
        Err(e) => {
            return Err(e);
        },
    };
    let fol: u32 = match read_counter_cell(row, 19) {
        Ok(v) => v,
        Err(e) => {
            return Err(e);
        },
    };
    let frk: u32 = match read_counter_cell(row, 20) {
        Ok(v) => v,
        Err(e) => {
            return Err(e);
        },
    };
    let sla: u32 = match read_counter_cell(row, 21) {
        Ok(v) => v,
        Err(e) => {
            return Err(e);
        },
    };
    Ok(
        Counters {
            total: total,
            sem: sem,
            lat: lat,
            iro: iro,
            por: por,
            spa: spa,
            cat: cat,
            occ: occ,
            fra: fra,
            srd: srd,
            ita: ita,
            rom: rom,
            eng: eng,
            fol: fol,
            frk: frk,
            sla: sla,
        },
    )
}

/// The counters the whole feed yields: the second record read as above.
/// A feed of fewer than two records has no counters row, and a counters
/// record the reader rejected is a malformed layout; both are
/// `MissingHeaders`.
pub open spec fn counters_result(rows: Seq<Option<Seq<Seq<char>>>>) -> Result<Counters, ApiError> {
    if rows.len() < 2 {
        Err(ApiError::MissingHeaders)
    } else {
        match rows[1] {
            Some(row) => row_counters(row),
            None => Err(ApiError::MissingHeaders),
        }
    }
}

/// The id-to-row mapping the data rows from index `n` on build, reading
/// the rows back to front: an earlier row writes its id only where no
/// later accepted row already did, so the last accepted row wins.
pub open spec fn feed_map_from(rows: Seq<Option<Seq<Seq<char>>>>, n: int) -> Map<
    u32,
    Seq<Seq<char>>,
>
    decreases rows.len() - n,
{
    if n >= rows.len() {
        Map::empty()
    } else {
        let m = feed_map_from(rows, n + 1);
        match rows[n] {
            Some(row) => if row_ok(row) && !m.dom().contains(row_id(row)) {
                m.insert(row_id(row), row)
            } else {
                m
            },
            None => m,
        }
    }
}

/// The id-to-row mapping of the whole feed: data rows start at index three
/// (after titles, counters and the reserved row).
pub open spec fn feed_map(rows: Seq<Option<Seq<Seq<char>>>>) -> Map<u32, Seq<Seq<char>>> {
    feed_map_from(rows, 3)
}

/// The entry set matches the feed: ids are unique, every entry is the
/// reading of the surviving row with its id, and every surviving id is
/// present.
pub open spec fn entries_match_map(es: Seq<Entry>, m: Map<u32, Seq<Seq<char>>>) -> bool {
    &&& ids_unique(es)
    &&& forall|k: int|
        0 <= k < es.len() ==> m.dom().contains((#[trigger] es[k]).id) && entry_matches_row(
            es[k],
            m[es[k].id],
        )
    &&& forall|id: u32| #[trigger] m.dom().contains(id) ==> has_id(es, id)
}

/// The entry set matches the whole feed.
pub open spec fn entries_match_feed(es: Seq<Entry>, rows: Seq<Option<Seq<Seq<char>>>>) -> bool {
    entries_match_map(es, feed_map(rows))
}

/// The whole parse: the counters row decides success; on success the
/// entry set matches the feed.
pub open spec fn parse_post(
    rows: Seq<Option<Seq<Seq<char>>>>,
    r: Result<(Vec<Entry>, Counters), ApiError>,
) -> bool {
    match r {
        Ok(p) => counters_result(rows) == Ok::<Counters, ApiError>(p.1) && entries_match_feed(
            p.0@,
            rows,
        ),
        Err(e) => counters_result(rows) == Err::<Counters, ApiError>(e),
    }
}

/// Parse split rows: read the counters row, then every data row, skipping
/// rows that fail structural decoding.
pub fn parse_rows(rows: &Vec<Option<Vec<String>>>) -> (r: Result<(Vec<Entry>, Counters), ApiError>)
    ensures
        parse_post(rows.deep_view(), r),
{
    let ghost rdv = rows.deep_view();
    if rows.len() < 2 {
        return Err(ApiError::MissingHeaders);
    }
    proof {
        assert(rdv[1] == rows@[1].deep_view());
    }
    let counters: Counters = match &rows[1] {
        Some(counters_row) => match read_counters(counters_row) {
            Ok(c) => c,
            Err(e) => {
                return Err(e);
            },
        },
        None => {
            return Err(ApiError::MissingHeaders);
        },
    };
    let mut entries: Vec<Entry> = Vec::new();
    let mut i: usize = rows.len();
    if rows.len() > 3 {
        while i > 3
            invariant
                3 <= i <= rdv.len(),
                rdv == rows.deep_view(),
                entries_match_map(entries@, feed_map_from(rdv, i as int)),
            decreases i,
        {
            i = i - 1;
            proof {
                assert(rdv[i as int] == rows@[i as int].deep_view());
            }
            let ghost m_above = feed_map_from(rdv, i as int + 1);
            let decoded: Option<Entry> = match &rows[i] {
                Some(data_row) => entry_from_row(data_row),
                None => None,
            };
            match decoded {
                Some(e) => {
                    if !contains_id(&entries, e.id) {
                        proof {
                            assert(rdv[i as int] matches Some(row) && row_ok(row)
                                && entry_matches_row(e, row) && e.id == row_id(row));
                            assert(!m_above.dom().contains(e.id));
                        }
                        let ghost pre = entries@;
                        entries.push(e);
                        proof {
                            let m = feed_map_from(rdv, i as int);
                            let es = entries@;
                            let row = rdv[i as int].unwrap();
                            assert(es == pre.push(e));
                            assert(m == m_above.insert(e.id, row));
                            assert forall|k: int| 0 <= k < es.len() implies m.dom().contains(
                                (#[trigger] es[k]).id,
                            ) && entry_matches_row(es[k], m[es[k].id]) by {
                                if k < pre.len() {
                                    assert(es[k] == pre[k]);
                                } else {
                                    assert(es[k] == e);
                                }
                            }
                            assert forall|id: u32| #[trigger] m.dom().contains(id) implies has_id(
                                es,
                                id,
                            ) by {
                                if id == e.id {
                                    assert(es[es.len() - 1].id == id);
                                } else {
                                    assert(m_above.dom().contains(id));
                                    assert(has_id(pre, id));
                                    let k = choose|k: int|
                                        0 <= k < pre.len() && (#[trigger] pre[k]).id == id;
                                    assert(es[k].id == id);
                                }
                            }
                        }
                    } else {
                        proof {
                            assert(has_id(entries@, e.id));
                            assert(feed_map_from(rdv, i as int) == m_above);
                        }
                    }
                },
                None => {
                    proof {
                        assert(feed_map_from(rdv, i as int) == m_above);
                    }
                },
            }
        }
    }
    proof {
        if rdv.len() <= 3 {
            assert(feed_map(rdv) =~= Map::<u32, Seq<Seq<char>>>::empty());
        }
        assert(entries_match_feed(entries@, rdv));
    }
    Ok((entries, counters))
}

/// Whether the parse succeeds is decided by the first two rows alone:
/// data rows, malformed or not, never abort it.
pub proof fn lemma_data_rows_never_abort(
    rows1: Seq<Option<Seq<Seq<char>>>>,
    rows2: Seq<Option<Seq<Seq<char>>>>,
)
    requires
        rows1.len() >= 2,
        rows2.len() >= 2,
        rows1[1] == rows2[1],
    ensures
        counters_result(rows1) == counters_result(rows2),
{
}

/// Every surviving row of the feed mapping is structurally valid and
/// carries the id it is filed under: a malformed row is never in it.
pub proof fn lemma_feed_map_only_valid(rows: Seq<Option<Seq<Seq<char>>>>, n: int)
    ensures
        forall|id: u32| #[trigger]
            feed_map_from(rows, n).dom().contains(id) ==> row_ok(feed_map_from(rows, n)[id])
                && row_id(feed_map_from(rows, n)[id]) == id,
    decreases rows.len() - n,
{
    if n < rows.len() {
        lemma_feed_map_only_valid(rows, n + 1);
        let m_above = feed_map_from(rows, n + 1);
        let m = feed_map_from(rows, n);
        assert forall|id: u32| #[trigger] m.dom().contains(id) implies row_ok(m[id]) && row_id(
            m[id],
        ) == id by {
            match rows[n] {
                Some(row) => {
                    if row_ok(row) && !m_above.dom().contains(row_id(row)) && id == row_id(row) {
                        assert(m[id] == row);
                    } else {
                        assert(m[id] == m_above[id]);
                    }
                },
                None => {
                    assert(m[id] == m_above[id]);
                },
            }
        }
    }
}

/// Parse raw feed text: split it with the tabular reader, then read the
/// counters and entries.
pub fn parse_feed(text: &str) -> (r: Result<(Vec<Entry>, Counters), ApiError>)
    ensures
        parse_post(rows_of(text@), r),
{
    let rows = csv_rows(text);
    parse_rows(&rows)
}

} // verus!
