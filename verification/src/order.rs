use vstd::prelude::*;
use vstd::string::StringExecFns;
use crate::error::StoreError;

verus! {

/// The key a read is ordered by.  Only `FsCreateTime` is wired to a stored
/// column; the other keys are reserved extension points and are reported as
/// `StoreError::UnsupportedOrderKey` when a scan is requested with them.
#[derive(Debug, PartialEq, Eq, Structural, Clone, Copy)]
pub enum OrderBy {
    FsCreateTime,
    FsModifyTime,
    ExifCreateTime,
}

/// What `OrderBy::from_param` returns for a given parameter text.
pub open spec fn spec_from_param(s: Seq<char>) -> Option<OrderBy> {
    if s == "FsCreateTime"@ {
        Some(OrderBy::FsCreateTime)
    } else if s == "FsModifyTime"@ {
        Some(OrderBy::FsModifyTime)
    } else if s == "ExifCreateTime"@ {
        Some(OrderBy::ExifCreateTime)
    } else {
        None
    }
}

/// Compares two string slices by their character sequences.
fn str_eq(a: &str, b: &str) -> (r: bool)
    ensures
        r == (a@ == b@),
{
    let sa: String = a.to_owned();
    let sb: String = b.to_owned();
    sa == sb
}

impl OrderBy {
    /// Parses the textual name of an ordering key, as it appears in a
    /// request path segment.
    pub fn from_param(param: &str) -> (r: Option<OrderBy>)
        ensures
            r == spec_from_param(param@),
    {
        if str_eq(param, "FsCreateTime") {
            Some(OrderBy::FsCreateTime)
        } else if str_eq(param, "FsModifyTime") {
            Some(OrderBy::FsModifyTime)
        } else if str_eq(param, "ExifCreateTime") {
            Some(OrderBy::ExifCreateTime)
        } else {
            None
        }
    }
}

/// The text of the ordered scan statement for the relational backend, with
/// a trailing parameter placeholder for the row limit when one is set.
pub open spec fn spec_select_sql(limit: int) -> Seq<char> {
    if limit == 0 {
        "SELECT path, fs_create_time_timestamp, fs_create_time_timezone FROM records ORDER BY fs_create_time_timestamp"@
    } else {
        "SELECT path, fs_create_time_timestamp, fs_create_time_timezone FROM records ORDER BY fs_create_time_timestamp"@
            + " LIMIT ?1"@
    }
}

/// Builds the ordered, optionally limited scan statement for the relational
/// backend.  A limit of zero means unbounded.  Ordering keys that are not
/// wired to a stored column are rejected rather than silently aliased.
pub fn select_sql(order_by: OrderBy, limit: usize) -> (r: Result<String, StoreError>)
    ensures
        (order_by is FsCreateTime) <==> r is Ok,
        r matches Ok(s) ==> s@ == spec_select_sql(limit as int),
        r matches Err(e) ==> e == StoreError::UnsupportedOrderKey,
{
    match order_by {
        OrderBy::FsCreateTime => {
            let base = String::from_str(
                "SELECT path, fs_create_time_timestamp, fs_create_time_timezone FROM records ORDER BY fs_create_time_timestamp",
            );
            if limit == 0 {
                Ok(base)
            } else {
                Ok(base.concat(" LIMIT ?1"))
            }
        },
        _ => Err(StoreError::UnsupportedOrderKey),
    }
}

} // verus!
