//! What the script host does with a download on a script's behalf.

use vstd::prelude::*;

use crate::utils::{kind_text, DownloadError, ErrorKind, Url};

verus! {

/// The message of a failed download: the error beneath a connection
/// error, else the kind of failure.
pub open spec fn download_detail(e: DownloadError) -> Seq<char> {
    match (e.kind, e.cause) {
        (ErrorKind::Connection, Some(c)) => c@,
        _ => kind_text(e.kind),
    }
}

/// The text a script receives when fetching `url` failed.
pub open spec fn download_failure(url: Seq<char>, e: DownloadError) -> Seq<char> {
    "Failed to download "@ + url + " - "@ + download_detail(e)
}

/// The script-side result of fetching `url`: the body, or a message that
/// names the address and what went wrong.
pub fn download(url: &Url, fetched: Result<String, DownloadError>) -> (r: Result<String, String>)
    ensures
        fetched matches Ok(body) ==> r matches Ok(b) && b@ == body@,
        fetched matches Err(e) ==> r matches Err(m) && m@ == download_failure(url.address(), e),
{
    match fetched {
        Ok(body) => Ok(body),
        Err(e) => {
            let mut m = String::from_str("Failed to download ");
            m.append(url.as_str());
            m.append(" - ");
            match (e.kind, &e.cause) {
                (ErrorKind::Connection, Some(c)) => m.append(c.as_str()),
                _ => m.append(e.kind.text()),
            }
            Err(m)
        },
    }
}

} // verus!
