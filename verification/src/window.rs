//! The byte window that answers a range request: it starts where the request
//! starts and holds at most one chunk.

use crate::header_range::{HeaderRange, RangeSpec};
use crate::text::str_eq;
use vstd::math::min;
use vstd::prelude::*;

verus! {

/// The largest number of bytes that one ranged response carries, whatever
/// the request asks for.
pub const MAX_CHUNK_SIZE: u64 = 1_000_000;

/// The bytes `start..=end` of a resource of `total_size` bytes.
#[derive(Debug, Clone, Copy, PartialEq, Eq, Structural)]
pub struct ServeWindow {
    pub start: u64,
    pub end: u64,
    pub total_size: u64,
}

/// Why no window can be served for a range.
#[derive(Debug, Clone, Copy, PartialEq, Eq, Structural)]
pub enum WindowError {
    /// The range is given in a unit other than `bytes`.
    UnsupportedRangeUnit,
    /// The range starts at or behind the end of the resource.
    RangeNotSatisfiable,
}

impl ServeWindow {
    /// The window lies inside the resource and holds at least one byte and at
    /// most one chunk.
    pub open spec fn well_formed(self) -> bool {
        &&& self.start <= self.end < self.total_size
        &&& self.end - self.start + 1 <= MAX_CHUNK_SIZE
    }

    /// The number of bytes in the window.
    pub open spec fn len(self) -> nat {
        (self.end - self.start + 1) as nat
    }

    /// The number of bytes in the window, which is what `Content-Length`
    /// announces.
    pub fn content_length(&self) -> (length: u64)
        requires
            self.well_formed(),
        ensures
            length == self.len(),
            1 <= length <= MAX_CHUNK_SIZE,
    {
        self.end - self.start + 1
    }
}

/// The size of a file whose metadata gave `length`; a file whose metadata
/// cannot be read counts as empty.
pub fn get_file_size(length: Option<u64>) -> (size: u64)
    ensures
        size == match length {
            Some(length) => length,
            None => 0,
        },
{
    match length {
        Some(length) => length,
        None => 0,
    }
}

/// The last byte of the window that starts at `start`: one chunk further on,
/// or the last byte of the resource where that comes first.
pub open spec fn window_end(start: u64, total_size: u64) -> int {
    if start + MAX_CHUNK_SIZE - 1 <= total_size - 1 {
        start + MAX_CHUNK_SIZE - 1
    } else {
        total_size - 1
    }
}

/// The window served for `range` out of a resource of `total_size` bytes. The
/// last bound of the range plays no part: the window always runs for a whole
/// chunk, or to the end of the resource.
pub open spec fn window_for(range: RangeSpec, total_size: u64) -> Result<ServeWindow, WindowError> {
    if range.units != "bytes"@ {
        Err(WindowError::UnsupportedRangeUnit)
    } else if range.start >= total_size {
        Err(WindowError::RangeNotSatisfiable)
    } else {
        Ok(
            ServeWindow {
                start: range.start,
                end: window_end(range.start, total_size) as u64,
                total_size,
            },
        )
    }
}

/// Computes the window to serve for `range` out of a resource of
/// `total_size` bytes. A range that starts at or behind the end of the
/// resource, and so any range into an empty resource, cannot be satisfied.
pub fn serve_window(range: &HeaderRange, total_size: u64) -> (result: Result<
    ServeWindow,
    WindowError,
>)
    ensures
        result == window_for(range@, total_size),
        result matches Ok(window) ==> window.well_formed() && window.start == range.start,
        range.start >= total_size ==> result is Err,
{
    if !str_eq(range.units.as_str(), "bytes") {
        return Err(WindowError::UnsupportedRangeUnit);
    }
    let start = range.start;
    if start >= total_size {
        return Err(WindowError::RangeNotSatisfiable);
    }
    let last = total_size - 1;
    let end = if last - start < MAX_CHUNK_SIZE - 1 {
        last
    } else {
        start + (MAX_CHUNK_SIZE - 1)
    };
    Ok(ServeWindow { start, end, total_size })
}

/// A request that starts at the first byte of a resource that is not empty
/// is served the first chunk of it, or all of it where it is shorter: the
/// window `[0, min(999999, S - 1)]` of `min(1000000, S)` bytes.
pub proof fn lemma_window_from_start(range: RangeSpec, total_size: u64)
    requires
        range.units == "bytes"@,
        range.start == 0,
        total_size > 0,
    ensures
        window_for(range, total_size) == Ok::<ServeWindow, WindowError>(
            ServeWindow { start: 0, end: min(999_999, total_size - 1) as u64, total_size },
        ),
        window_for(range, total_size).unwrap().len() == min(1_000_000, total_size as int),
{
}

/// A range that starts at or behind the end of the resource is served no
/// window: it cannot be satisfied.
pub proof fn lemma_start_behind_end(range: RangeSpec, total_size: u64)
    requires
        range.units == "bytes"@,
        range.start >= total_size,
    ensures
        window_for(range, total_size) == Err::<ServeWindow, WindowError>(
            WindowError::RangeNotSatisfiable,
        ),
{
}

/// Every window that is served starts where the range starts, lies inside
/// the resource and holds at most one chunk, whatever end the range names.
pub proof fn lemma_window_well_formed(range: RangeSpec, total_size: u64)
    ensures
        window_for(range, total_size) matches Ok(window) ==> window.well_formed() && window.start
            == range.start && window.total_size == total_size,
        window_for(range, total_size) == window_for(
            RangeSpec { end: None, ..range },
            total_size,
        ),
{
}

} // verus!
