use vstd::prelude::*;

use vstd::string::StringSliceAdditionalSpecFns;
use vstd::utf8::is_char_boundary;

verus! {

/// A failure described by a fixed text.
#[derive(Debug, Clone, Copy)]
pub struct WrapError(pub &'static str);

/// What an update server says of a firmware release.
pub struct FirmwareInfo {
    pub version: String,
    pub released: String,
    pub description: Option<String>,
    pub signature: Option<Vec<u8>>,
    pub download_id: Option<String>,
}

/// A server that offers firmware updates.
pub trait OtaServer {
    type Error;

    /// The latest release, if there is one.
    fn get_latest_release(&mut self) -> (r: Result<Option<FirmwareInfo>, Self::Error>);
}

/// Why an update could not start: nothing to download, or the server failed.
pub enum UpdateError<E> {
    Missing(WrapError),
    Server(E),
}

/// The update to download: the one `requested`, or else the latest one of `server`; fails
/// with "Missing update" when there is none.
pub fn resolve_download_id<S: OtaServer>(requested: Option<String>, server: &mut S) -> (r: Result<
    String,
    UpdateError<S::Error>,
>)
    ensures
        requested matches Some(id) ==> r matches Ok(got) && got@ == id@,
        requested is Some ==> *final(server) == *old(server),
        r matches Err(UpdateError::Missing(e)) ==> e.0@ == "Missing update"@,
{
    match requested {
        Some(id) => Ok(id),
        None => {
            let latest = match server.get_latest_release() {
                Ok(latest) => latest,
                Err(e) => {
                    return Err(UpdateError::Server(e));
                },
            };
            let found = match latest {
                Some(release) => release.download_id,
                None => None,
            };
            match found {
                Some(id) => Ok(id),
                None => {
                    proof {
                        reveal_strlit("Missing update");
                    }
                    Err(UpdateError::Missing(WrapError("Missing update")))
                },
            }
        },
    }
}

/// How many bytes of a download id are used: at most the first 64.
pub open spec fn download_id_cut(bytes: Seq<u8>) -> int {
    if bytes.len() < 64 {
        bytes.len() as int
    } else {
        64
    }
}

/// The first 64 bytes of `download_id` (all of it when shorter); the cut must fall between
/// two characters.
pub fn download_id_prefix(download_id: &str) -> (r: &str)
    requires
        is_char_boundary(download_id.spec_bytes(), download_id_cut(download_id.spec_bytes())),
    ensures
        r.spec_bytes() == download_id.spec_bytes().subrange(0, download_id_cut(download_id.spec_bytes())),
{
    let len = download_id.as_bytes().len();
    let cut: usize = if len < 64 {
        len
    } else {
        64
    };
    let (head, _) = download_id.split_at(cut);
    head
}

/// The share of an update of `size` bytes done once `copied` bytes were written, in percent.
pub fn progress_percent(copied: u64, size: usize) -> (r: usize)
    requires
        size > 0,
        copied * 100 <= usize::MAX,
    ensures
        r == copied * 100 / (size as int),
{
    let c = copied as usize;
    c * 100 / size
}

/// The progress to report once `copied` bytes were written: a percentage when the size of
/// the update is known.
pub fn update_progress(copied: u64, size: Option<usize>) -> (r: Option<usize>)
    requires
        size matches Some(s) ==> s > 0,
        copied * 100 <= usize::MAX,
    ensures
        match size {
            Some(s) => r == Some((copied * 100 / (s as int)) as usize),
            None => r is None,
        },
{
    match size {
        Some(s) => Some(progress_percent(copied, s)),
        None => None,
    }
}

} // verus!
