//! Keeping count of a download: how many bytes the server announced, how
//! many have come in, and whether that is all of them.

use crate::decimal::{decimal_value, parse_decimal};
use crate::headers::{all_visible_ascii, ascii_text, header_value_bytes, header_value_to_str};
use crate::text::chars_of;
use hyper::header::HeaderValue;
use vstd::prelude::*;

verus! {

/// Why a download failed.
#[derive(Debug, Clone, Copy, PartialEq, Eq, Structural)]
pub enum DownloadError {
    /// `Content-Length` is no number.
    InvalidContentLength,
    /// More bytes came in than can be counted.
    TooLong,
    /// The body ended with fewer or more bytes than were announced.
    Incomplete,
}

/// The port of a download: the one that the address names, else 80.
pub fn download_port(port: Option<u16>) -> (chosen: u16)
    ensures
        chosen == match port {
            Some(port) => port,
            None => 80,
        },
{
    match port {
        Some(port) => port,
        None => 80,
    }
}

/// What the bytes of a `Content-Length` value announce: they have to spell
/// an unsigned decimal number.
pub open spec fn announced_length(bytes: Seq<u8>) -> Option<u64> {
    if all_visible_ascii(bytes) {
        decimal_value(ascii_text(bytes))
    } else {
        None
    }
}

/// The number of bytes that a response announces by its `Content-Length`
/// header; a response without one announces none.
pub fn expected_length(content_length: Option<&HeaderValue>) -> (result: Result<
    u64,
    DownloadError,
>)
    ensures
        match content_length {
            None => result == Ok::<u64, DownloadError>(0),
            Some(value) => match announced_length(header_value_bytes(*value)) {
                Some(length) => result == Ok::<u64, DownloadError>(length),
                None => result == Err::<u64, DownloadError>(DownloadError::InvalidContentLength),
            },
        },
{
    let value = match content_length {
        Some(value) => value,
        None => {
            return Ok(0);
        },
    };
    let text = match header_value_to_str(value) {
        Ok(text) => text,
        Err(_) => {
            return Err(DownloadError::InvalidContentLength);
        },
    };
    let chars = chars_of(text);
    match parse_decimal(chars.as_slice()) {
        Some(length) => Ok(length),
        None => Err(DownloadError::InvalidContentLength),
    }
}

/// The count of one download.
#[derive(Debug, Clone, Copy, PartialEq, Eq, Structural)]
pub struct Download {
    /// The number of bytes that the server announced.
    pub expected: u64,
    /// The number of bytes that have come in.
    pub received: u64,
}

impl Download {
    /// The count of a download of which nothing has come in yet.
    pub fn begin(expected: u64) -> (download: Download)
        ensures
            download == (Download { expected, received: 0 }),
    {
        Download { expected, received: 0 }
    }

    /// Counts a chunk of `length` bytes. Where the count would overflow, it
    /// stays as it is and the download has failed.
    pub fn receive(&mut self, length: u64) -> (result: Result<(), DownloadError>)
        ensures
            final(self).expected == old(self).expected,
            old(self).received + length <= u64::MAX ==> result is Ok && final(self).received
                == old(self).received + length,
            old(self).received + length > u64::MAX ==> result == Err::<(), DownloadError>(
                DownloadError::TooLong,
            ) && final(self).received == old(self).received,
    {
        match self.received.checked_add(length) {
            Some(received) => {
                self.received = received;
                Ok(())
            },
            None => Err(DownloadError::TooLong),
        }
    }

    /// All the bytes that were announced have come in, and no more.
    pub open spec fn is_complete(self) -> bool {
        self.received == self.expected
    }

    /// Closes the count at the end of the body: the download has succeeded
    /// where exactly the announced number of bytes has come in.
    pub fn finish(&self) -> (result: Result<(), DownloadError>)
        ensures
            self.is_complete() ==> result is Ok,
            !self.is_complete() ==> result == Err::<(), DownloadError>(DownloadError::Incomplete),
    {
        if self.received == self.expected {
            Ok(())
        } else {
            Err(DownloadError::Incomplete)
        }
    }
}

} // verus!
