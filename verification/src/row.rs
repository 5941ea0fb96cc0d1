use vstd::prelude::*;
use crate::instant::{instant_text, instant_of_text, parse_instant, format_instant, resolve_tz};
use crate::record::{RecordView, PictureRecord, BasicPicture, Zoned};

verus! {

/// Mathematical view of one persisted row.
pub ghost struct RawRowView {
    pub path: Option<Seq<char>>,
    pub timestamp_text: Option<Seq<char>>,
    pub timezone_text: Option<Seq<char>>,
}

/// One row of the persisted table: the three text columns both backends
/// agree on.  A column that is absent or not text is `None`; such a row is
/// malformed and is skipped, not served, by an ordered scan.
pub struct RawRow {
    pub path: Option<String>,
    pub fs_create_time_timestamp: Option<String>,
    pub fs_create_time_timezone: Option<String>,
}

impl View for RawRow {
    type V = RawRowView;

    open spec fn view(&self) -> RawRowView {
        RawRowView {
            path: match self.path {
                Some(s) => Some(s@),
                None => None,
            },
            timestamp_text: match self.fs_create_time_timestamp {
                Some(s) => Some(s@),
                None => None,
            },
            timezone_text: match self.fs_create_time_timezone {
                Some(s) => Some(s@),
                None => None,
            },
        }
    }
}

impl Clone for RawRow {
    fn clone(&self) -> (r: Self)
        ensures
            r@ == self@,
    {
        RawRow {
            path: match &self.path {
                Some(s) => Some(s.clone()),
                None => None,
            },
            fs_create_time_timestamp: match &self.fs_create_time_timestamp {
                Some(s) => Some(s.clone()),
                None => None,
            },
            fs_create_time_timezone: match &self.fs_create_time_timezone {
                Some(s) => Some(s.clone()),
                None => None,
            },
        }
    }
}

/// The row a record is persisted as: every column present, the instant
/// rendered as its serialized text.
pub open spec fn encode_spec(rec: RecordView) -> RawRowView {
    RawRowView {
        path: Some(rec.path),
        timestamp_text: Some(instant_text(rec.timestamp)),
        timezone_text: Some(rec.tz),
    }
}

/// The record a row decodes to, if it decodes at all.  A row decodes when
/// every column is present, the timestamp text parses, and the zone name
/// resolves; `tz_ok` stands for the outcome of the zone lookup, which
/// depends on the installed zone database.
pub open spec fn decode_spec(row: RawRowView, tz_ok: bool) -> Option<RecordView> {
    match (row.path, row.timestamp_text, row.timezone_text) {
        (Some(p), Some(ts), Some(tz)) => match instant_of_text(ts) {
            Some(n) => if tz_ok {
                Some(RecordView { path: p, timestamp: n, tz })
            } else {
                None
            },
            None => None,
        },
        _ => None,
    }
}

/// The record views of an optional served entry, for stating what a decode
/// returned.
pub open spec fn opt_rec(r: Option<BasicPicture>) -> Option<RecordView> {
    match r {
        Some(p) => Some(p.rec()),
        None => None,
    }
}

/// Encodes a record as a persisted row.  Decoding the row returns the same
/// record whenever its zone name still resolves.
pub fn encode_row(rec: PictureRecord) -> (r: RawRow)
    requires
        rec.wf(),
    ensures
        r@ == encode_spec(rec@),
        decode_spec(r@, true) == Some(rec@),
{
    let ts_text = format_instant(rec.fs_create_time.timestamp);
    let r = RawRow {
        path: Some(rec.path),
        fs_create_time_timestamp: Some(ts_text),
        fs_create_time_timezone: Some(rec.fs_create_time.tz),
    };
    r
}

/// Decodes one persisted row, given the outcome `tz_ok` of its zone
/// lookup: exactly the entry `decode_spec` assigns it, for every value of
/// that outcome.
pub fn decode_row_with(row: &RawRow, tz_ok: bool) -> (r: Option<BasicPicture>)
    ensures
        opt_rec(r) == decode_spec(row@, tz_ok),
        r matches Some(p) ==> p.wf() && p.exif_create_time is None,
{
    let path = match &row.path {
        Some(p) => p,
        None => {
            return None;
        },
    };
    let ts_text = match &row.fs_create_time_timestamp {
        Some(t) => t,
        None => {
            return None;
        },
    };
    let tz_text = match &row.fs_create_time_timezone {
        Some(t) => t,
        None => {
            return None;
        },
    };
    let n = match parse_instant(ts_text.as_str()) {
        Some(n) => n,
        None => {
            return None;
        },
    };
    if !tz_ok {
        return None;
    }
    let p = BasicPicture {
        path: path.clone(),
        fs_create_time: Zoned { timestamp: n, tz: tz_text.clone() },
        exif_create_time: None,
    };
    assert(opt_rec(Some(p)) == decode_spec(row@, true));
    Some(p)
}

/// Decodes one persisted row, validating its shape, its timestamp text and
/// its zone name against the zone database.  A malformed row yields
/// `None`; the zone lookup's outcome is whatever the database gave.
pub fn decode_row(row: &RawRow) -> (r: Option<BasicPicture>)
    ensures
        exists|tz_ok: bool| opt_rec(r) == decode_spec(row@, tz_ok),
        r matches Some(p) ==> p.wf() && p.exif_create_time is None,
{
    let tz_ok = match &row.fs_create_time_timezone {
        Some(tz) => resolve_tz(tz.as_str()),
        None => false,
    };
    let r = decode_row_with(row, tz_ok);
    proof {
        assert(opt_rec(r) == decode_spec(row@, tz_ok));
    }
    r
}

} // verus!
