use vstd::prelude::*;

use vstd::string::{StrSliceExecFns, StringExecFns, StringSliceAdditionalSpecFns};

use crate::rest_ota::FirmwareInfo;
use vstd::utf8::encode_utf8;

verus! {

/// Why an update check against GitHub failed: a URL, the receive buffer, or a firmware
/// description too long for its room, or the HTTP client's failure.
pub enum Error<E> {
    UrlOverflow,
    BufferOverflow,
    FirmwareInfoOverflow,
    Http(E),
}

/// The UTF-8 bytes of the text `s`.
pub open spec fn utf8_len(s: Seq<char>) -> nat {
    encode_utf8(s).len()
}

/// Whether `s` ends with a slash.
pub open spec fn ends_with_slash(s: Seq<char>) -> bool {
    s.len() > 0 && s.last() == '/'
}

/// Whether `s` starts with a slash.
pub open spec fn starts_with_slash(s: Seq<char>) -> bool {
    s.len() > 0 && s[0] == '/'
}

/// `path` appended to `uri` with exactly one slash between them: an empty path, or a
/// lone slash after a slash, leaves `uri` as it is.
pub open spec fn join_text(uri: Seq<char>, path: Seq<char>) -> Seq<char> {
    let uri_slash = ends_with_slash(uri);
    let path_slash = starts_with_slash(path);
    if path.len() == 0 || (path.len() == 1 && uri_slash && path_slash) {
        uri
    } else if uri_slash && path_slash {
        uri + path.drop_first()
    } else if !uri_slash && !path_slash {
        uri + seq!['/'] + path
    } else {
        uri + path
    }
}

/// The UTF-8 encoding of joined texts is the joined encodings.
pub proof fn lemma_utf8_concat(a: Seq<char>, b: Seq<char>)
    ensures
        encode_utf8(a + b) == encode_utf8(a) + encode_utf8(b),
    decreases a.len(),
{
    if a.len() == 0 {
        assert(a + b =~= b);
    } else {
        assert((a + b).drop_first() =~= a.drop_first() + b);
        lemma_utf8_concat(a.drop_first(), b);
        assert(encode_utf8(a + b) == vstd::utf8::encode_scalar((a + b)[0] as u32) + encode_utf8(
            (a + b).drop_first(),
        ));
    }
}

/// A slash takes one byte.
pub proof fn lemma_utf8_slash(rest: Seq<char>)
    ensures
        utf8_len(seq!['/'] + rest) == 1 + utf8_len(rest),
        utf8_len(seq!['/']) == 1,
{
    lemma_utf8_concat(seq!['/'], rest);
    let slash = seq!['/'];
    assert(slash.drop_first() =~= Seq::<char>::empty());
    assert(('/' as u32) == 47u32);
    assert(vstd::utf8::has_width_1_encoding(47u32));
    assert(vstd::utf8::encode_scalar(47u32).len() == 1);
    assert(encode_utf8(slash.drop_first()).len() == 0);
    assert(encode_utf8(slash) == vstd::utf8::encode_scalar(slash[0] as u32) + encode_utf8(
        slash.drop_first(),
    ));
}

/// A text of one byte is one character.
pub proof fn lemma_utf8_one_byte(s: Seq<char>)
    requires
        utf8_len(s) == 1,
    ensures
        s.len() == 1,
{
    if s.len() == 0 {
    } else {
        let c = s[0] as u32;
        assert(encode_utf8(s) == vstd::utf8::encode_scalar(c) + encode_utf8(s.drop_first()));
        if s.len() > 1 {
            let d = s.drop_first()[0] as u32;
            assert(encode_utf8(s.drop_first()) == vstd::utf8::encode_scalar(d) + encode_utf8(
                s.drop_first().drop_first(),
            ));
        }
    }
}

/// `path` appended to `uri` with exactly one slash between them, when the result fits in
/// `N` bytes; fails with `UrlOverflow` when it does not.
pub fn join<E, const N: usize>(uri: &str, path: &str) -> (r: Result<String, Error<E>>)
    requires
        utf8_len(uri@) <= N,
    ensures
        r is Ok <==> utf8_len(join_text(uri@, path@)) <= N,
        r matches Ok(s) ==> s@ == join_text(uri@, path@),
        r matches Err(e) ==> e is UrlOverflow,
{
    let uri_len = uri.unicode_len();
    let path_len = path.unicode_len();
    let uri_slash = uri_len > 0 && uri.get_char(uri_len - 1) == '/';
    let path_slash = path_len > 0 && path.get_char(0) == '/';
    let uri_bytes = uri.as_bytes().len();
    let path_bytes = path.as_bytes().len();
    proof {
        if path_slash {
            assert(path@ =~= seq!['/'] + path@.drop_first());
            lemma_utf8_slash(path@.drop_first());
        }
        if path_bytes == 1 {
            lemma_utf8_one_byte(path@);
        }
    }
    if path_len == 0 || (path_bytes == 1 && uri_slash && path_slash) {
        Ok(uri.to_owned())
    } else {
        let p = if uri_slash && path_slash {
            path.substring_char(1, path_len)
        } else {
            path
        };
        let p_bytes: usize = if uri_slash && path_slash {
            path_bytes - 1
        } else {
            path_bytes
        };
        let mut result = uri.to_owned();
        let mut total: usize = uri_bytes;
        if !uri_slash && !path_slash {
            if total >= N {
                proof {
                    lemma_utf8_concat(uri@ + seq!['/'], path@);
                    lemma_utf8_concat(uri@, seq!['/']);
                    lemma_utf8_slash(Seq::empty());
                    assert(seq!['/'] + Seq::<char>::empty() =~= seq!['/']);
                }
                return Err(Error::UrlOverflow);
            }
            result.append("/");
            total = total + 1;
            proof {
                reveal_strlit("/");
                assert("/"@ =~= seq!['/']);
            }
        }
        if p_bytes > N - total {
            proof {
                if !uri_slash && !path_slash {
                    lemma_utf8_concat(uri@ + seq!['/'], path@);
                    lemma_utf8_concat(uri@, seq!['/']);
                    lemma_utf8_slash(Seq::empty());
                    assert(seq!['/'] + Seq::<char>::empty() =~= seq!['/']);
                } else {
                    lemma_utf8_concat(uri@, p@);
                }
            }
            return Err(Error::UrlOverflow);
        }
        result.append(p);
        proof {
            if !uri_slash && !path_slash {
                lemma_utf8_concat(uri@ + seq!['/'], path@);
                lemma_utf8_concat(uri@, seq!['/']);
                lemma_utf8_slash(Seq::empty());
                assert(seq!['/'] + Seq::<char>::empty() =~= seq!['/']);
            } else {
                lemma_utf8_concat(uri@, p@);
            }
        }
        Ok(result)
    }
}

/// The room, in UTF-8 bytes, for a firmware version.
pub const VERSION_CAPACITY: usize = 24;

/// The room, in UTF-8 bytes, for the date a firmware was released.
pub const RELEASED_CAPACITY: usize = 24;

/// The room, in UTF-8 bytes, for a firmware description.
pub const DESCRIPTION_CAPACITY: usize = 128;

/// The room, in UTF-8 bytes, for the id a firmware is downloaded by.
pub const DOWNLOAD_ID_CAPACITY: usize = 128;

/// A release on GitHub, as far as updates need it.
pub struct Release<'a> {
    pub tag_name: &'a str,
    pub body: Option<&'a str>,
    pub draft: bool,
    pub prerelease: bool,
    pub assets: Vec<Asset<'a>>,
}

/// A file attached to a release on GitHub, as far as updates need it.
pub struct Asset<'a> {
    pub browser_download_url: &'a str,
    pub name: &'a str,
    pub label: Option<&'a str>,
    pub updated_at: &'a str,
}

/// Whether the texts of `asset` and `release` fit the room of a firmware description.
pub open spec fn firmware_info_fits(asset: Asset, release: Release) -> bool {
    &&& utf8_len(release.tag_name@) <= VERSION_CAPACITY
    &&& utf8_len(asset.updated_at@) <= RELEASED_CAPACITY
    &&& (release.body matches Some(b) ==> utf8_len(b@) <= DESCRIPTION_CAPACITY)
    &&& utf8_len(asset.browser_download_url@) <= DOWNLOAD_ID_CAPACITY
}

/// Copies `s` when it fits in `capacity` UTF-8 bytes.
fn bounded_copy<E>(s: &str, capacity: usize) -> (r: Result<String, Error<E>>)
    ensures
        r is Ok <==> utf8_len(s@) <= capacity,
        r matches Ok(c) ==> c@ == s@,
        r matches Err(e) ==> e is FirmwareInfoOverflow,
{
    if s.as_bytes().len() <= capacity {
        Ok(s.to_owned())
    } else {
        Err(Error::FirmwareInfoOverflow)
    }
}

impl<'a> Asset<'a> {
    /// The firmware description of this asset of `release`: its version is the release's
    /// tag, its date the asset's, its description the release's body, and it is downloaded
    /// by the asset's URL; fails with `FirmwareInfoOverflow` when a text does not fit its room.
    pub fn as_firmware_info<E>(&self, release: &Release<'a>) -> (r: Result<FirmwareInfo, Error<E>>)
        ensures
            r is Ok <==> firmware_info_fits(*self, *release),
            r matches Ok(info) ==> {
                &&& info.version@ == release.tag_name@
                &&& info.released@ == self.updated_at@
                &&& match release.body {
                    Some(b) => info.description matches Some(d) && d@ == b@,
                    None => info.description is None,
                }
                &&& info.signature is None
                &&& info.download_id matches Some(u) && u@ == self.browser_download_url@
            },
            r matches Err(e) ==> e is FirmwareInfoOverflow,
    {
        let version = match bounded_copy::<E>(release.tag_name, VERSION_CAPACITY) {
            Ok(v) => v,
            Err(e) => {
                return Err(e);
            },
        };
        let released = match bounded_copy::<E>(self.updated_at, RELEASED_CAPACITY) {
            Ok(v) => v,
            Err(e) => {
                return Err(e);
            },
        };
        let description = match release.body {
            Some(body) => match bounded_copy::<E>(body, DESCRIPTION_CAPACITY) {
                Ok(v) => Some(v),
                Err(e) => {
                    return Err(e);
                },
            },
            None => None,
        };
        let download_id = match bounded_copy::<E>(self.browser_download_url, DOWNLOAD_ID_CAPACITY) {
            Ok(v) => v,
            Err(e) => {
                return Err(e);
            },
        };
        Ok(FirmwareInfo { version, released, description, signature: None, download_id: Some(download_id) })
    }
}

/// An update being downloaded: its size, when the server told it, and the response it is
/// read from.
pub struct GitHubOtaRead<R> {
    size: Option<usize>,
    response: R,
}

impl<R> GitHubOtaRead<R> {
    /// The size of the update, when known.
    pub closed spec fn spec_size(&self) -> Option<usize> {
        self.size
    }

    pub fn new(size: Option<usize>, response: R) -> (r: Self)
        ensures
            r.spec_size() == size,
    {
        GitHubOtaRead { size, response }
    }

    /// The size of the update, when known.
    pub fn size(&self) -> (r: Option<usize>)
        ensures
            r == self.spec_size(),
    {
        self.size
    }
}

} // verus!
