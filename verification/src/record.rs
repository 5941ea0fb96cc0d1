use vstd::prelude::*;
use crate::error::ValidationError;
use crate::instant::{valid_instant, resolve_tz, MIN_INSTANT_NANOS, MAX_INSTANT_NANOS};

verus! {

/// Mathematical view of a time-zone-aware instant.
pub ghost struct ZonedView {
    pub timestamp: int,
    pub tz: Seq<char>,
}

/// An instant paired with an IANA time zone name.  The two parts are kept
/// as independent values so the pair round-trips through either backend
/// without losing offset information.
pub struct Zoned {
    /// Nanoseconds since the Unix epoch.
    pub timestamp: i128,
    /// IANA time zone name.
    pub tz: String,
}

impl View for Zoned {
    type V = ZonedView;

    open spec fn view(&self) -> ZonedView {
        ZonedView { timestamp: self.timestamp as int, tz: self.tz@ }
    }
}

impl Zoned {
    /// The instant lies in the representable range of the serialized form.
    pub open spec fn wf(&self) -> bool {
        valid_instant(self.timestamp as int)
    }

    /// Validates and builds a timestamp-with-time-zone.  A timestamp
    /// lacking a zone name is a construction error, as is a zone name that
    /// does not resolve against the zone database, or an instant outside
    /// the representable range.
    pub fn new(timestamp: i128, tz: Option<String>) -> (r: Result<Zoned, ValidationError>)
        ensures
            r matches Ok(z) ==> ({
                &&& tz matches Some(name) && z.tz == name
                &&& z.timestamp == timestamp
                &&& z.wf()
            }),
            (tz is None) <==> r == Err::<Zoned, ValidationError>(ValidationError::MissingTimeZone),
            (tz is Some && !valid_instant(timestamp as int)) <==> r == Err::<Zoned, ValidationError>(
                ValidationError::InstantOutOfRange,
            ),
            (tz is Some && valid_instant(timestamp as int)) ==> (r is Ok || r == Err::<
                Zoned,
                ValidationError,
            >(ValidationError::UnresolvableTimeZone)),
    {
        match tz {
            None => Err(ValidationError::MissingTimeZone),
            Some(name) => {
                if timestamp < MIN_INSTANT_NANOS || timestamp > MAX_INSTANT_NANOS {
                    Err(ValidationError::InstantOutOfRange)
                } else if !resolve_tz(name.as_str()) {
                    Err(ValidationError::UnresolvableTimeZone)
                } else {
                    Ok(Zoned { timestamp, tz: name })
                }
            },
        }
    }
}

/// Mathematical view of one indexed entry.
pub ghost struct RecordView {
    pub path: Seq<char>,
    pub timestamp: int,
    pub tz: Seq<char>,
}

/// One indexed filesystem entry: a path, treated as an opaque identifier,
/// and the entry's creation time.
pub struct PictureRecord {
    pub path: String,
    pub fs_create_time: Zoned,
}

impl View for PictureRecord {
    type V = RecordView;

    open spec fn view(&self) -> RecordView {
        RecordView {
            path: self.path@,
            timestamp: self.fs_create_time.timestamp as int,
            tz: self.fs_create_time.tz@,
        }
    }
}

impl PictureRecord {
    /// The creation time lies in the representable range.
    pub open spec fn wf(&self) -> bool {
        self.fs_create_time.wf()
    }

    /// Builds a record from an entry's path, if the path was valid text,
    /// and the entry's creation time.  Entries whose paths are not valid
    /// text are rejected, never stored as invalid bytes.
    pub fn new(path: Option<String>, fs_create_time: Zoned) -> (r: Result<
        PictureRecord,
        ValidationError,
    >)
        ensures
            (path is None) <==> r == Err::<PictureRecord, ValidationError>(
                ValidationError::InvalidPath,
            ),
            r matches Ok(p) ==> ({
                &&& path matches Some(s) && p.path == s
                &&& p.fs_create_time == fs_create_time
            }),
            (path is Some) <==> r is Ok,
    {
        match path {
            None => Err(ValidationError::InvalidPath),
            Some(s) => Ok(PictureRecord { path: s, fs_create_time }),
        }
    }
}

/// A served entry: the stored fields plus a reserved slot for a camera
/// capture time, which the current pipeline never fills.
pub struct BasicPicture {
    pub path: String,
    pub fs_create_time: Zoned,
    pub exif_create_time: Option<Zoned>,
}

impl BasicPicture {
    /// The stored fields of a served entry, as a record view.
    pub open spec fn rec(&self) -> RecordView {
        RecordView {
            path: self.path@,
            timestamp: self.fs_create_time.timestamp as int,
            tz: self.fs_create_time.tz@,
        }
    }

    /// The creation time lies in the representable range.
    pub open spec fn wf(&self) -> bool {
        self.fs_create_time.wf()
    }
}

/// The record views of a sequence of served entries.
pub open spec fn recs_of(s: Seq<BasicPicture>) -> Seq<RecordView> {
    s.map_values(|p: BasicPicture| p.rec())
}

} // verus!
