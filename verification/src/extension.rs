//! Extension inference: which file extension an asset gets when the
//! destination is a directory.
//!
//! The answer is read off a header-only request made with redirects switched
//! off. In order of trust: the file name in a redirect's target, the file name
//! in `Content-Disposition`, the media type in `Content-Type`. Where none of
//! them speaks, or the request failed, the extension is `.bin`.

use crate::destination::{join_path, join_paths};
use crate::downloader::AssetDownloader;
use crate::outside::text_option_view;
use crate::text::{
    before_char, chars_eq_str, find_char, find_chars, find_str, from_last_char, rfind_char,
    to_chars, trim, trim_bounds,
};
use vstd::prelude::*;
use vstd::slice::slice_subrange;
use vstd::string::StringExecFns;

verus! {

/// The answer to the header-only request, as far as the rule reads it. A
/// header that is absent, or whose value is not text, is `None`.
pub struct ProbeResponse {
    /// The status code.
    pub status: u16,
    /// The `Location` header.
    pub location: Option<String>,
    /// The `Content-Disposition` header.
    pub content_disposition: Option<String>,
    /// The `Content-Type` header.
    pub content_type: Option<String>,
}

/// `ProbeResponse` with its texts as character sequences.
pub struct ProbeResponseView {
    pub status: u16,
    pub location: Option<Seq<char>>,
    pub content_disposition: Option<Seq<char>>,
    pub content_type: Option<Seq<char>>,
}

impl View for ProbeResponse {
    type V = ProbeResponseView;

    open spec fn view(&self) -> ProbeResponseView {
        ProbeResponseView {
            status: self.status,
            location: text_option_view(self.location),
            content_disposition: text_option_view(self.content_disposition),
            content_type: text_option_view(self.content_type),
        }
    }
}

/// An optional response taken by its view.
pub open spec fn probe_view(probe: Option<&ProbeResponse>) -> Option<ProbeResponseView> {
    match probe {
        Some(response) => Some(response@),
        None => None,
    }
}

/// The extension for a media type; `.bin` for every type that is not listed.
pub open spec fn mime_extension(mime: Seq<char>) -> Seq<char> {
    if mime == "image/png"@ {
        ".png"@
    } else if mime == "image/jpeg"@ {
        ".jpg"@
    } else if mime == "image/jpg"@ {
        ".jpg"@
    } else if mime == "image/gif"@ {
        ".gif"@
    } else if mime == "image/webp"@ {
        ".webp"@
    } else if mime == "image/bmp"@ {
        ".bmp"@
    } else if mime == "image/tiff"@ {
        ".tiff"@
    } else if mime == "image/svg+xml"@ {
        ".svg"@
    } else if mime == "application/pdf"@ {
        ".pdf"@
    } else if mime == "text/plain"@ {
        ".txt"@
    } else if mime == "text/html"@ {
        ".html"@
    } else if mime == "text/css"@ {
        ".css"@
    } else if mime == "text/javascript"@ {
        ".js"@
    } else if mime == "application/javascript"@ {
        ".js"@
    } else if mime == "application/json"@ {
        ".json"@
    } else if mime == "application/xml"@ {
        ".xml"@
    } else if mime == "application/zip"@ {
        ".zip"@
    } else if mime == "application/gzip"@ {
        ".gz"@
    } else if mime == "application/x-tar"@ {
        ".tar"@
    } else if mime == "video/mp4"@ {
        ".mp4"@
    } else if mime == "video/mpeg"@ {
        ".mpg"@
    } else if mime == "video/quicktime"@ {
        ".mov"@
    } else if mime == "audio/mpeg"@ {
        ".mp3"@
    } else if mime == "audio/wav"@ {
        ".wav"@
    } else if mime == "audio/ogg"@ {
        ".ogg"@
    } else {
        ".bin"@
    }
}

/// The media types that have an extension of their own.
pub open spec fn is_listed_mime(mime: Seq<char>) -> bool {
    ||| mime == "image/png"@
    ||| mime == "image/jpeg"@
    ||| mime == "image/jpg"@
    ||| mime == "image/gif"@
    ||| mime == "image/webp"@
    ||| mime == "image/bmp"@
    ||| mime == "image/tiff"@
    ||| mime == "image/svg+xml"@
    ||| mime == "application/pdf"@
    ||| mime == "text/plain"@
    ||| mime == "text/html"@
    ||| mime == "text/css"@
    ||| mime == "text/javascript"@
    ||| mime == "application/javascript"@
    ||| mime == "application/json"@
    ||| mime == "application/xml"@
    ||| mime == "application/zip"@
    ||| mime == "application/gzip"@
    ||| mime == "application/x-tar"@
    ||| mime == "video/mp4"@
    ||| mime == "video/mpeg"@
    ||| mime == "video/quicktime"@
    ||| mime == "audio/mpeg"@
    ||| mime == "audio/wav"@
    ||| mime == "audio/ogg"@
}

/// The extension in the target of a redirect: what follows the last dot of
/// the last path segment, the dot included. The query string is not looked at.
pub open spec fn url_extension(url: Seq<char>) -> Option<Seq<char>> {
    let path = before_char(url, '?');
    match path.index_of_last('/') {
        Some(slash) => from_last_char(path.skip(slash + 1), '.'),
        None => None,
    }
}

/// The file name in a `Content-Disposition` value: what follows the first
/// `filename=`. Where that begins with a double quote, the name runs to the
/// next double quote, and there is none without a closing quote. Otherwise it
/// runs to the next semicolon or the end, is trimmed, and must not be empty.
pub open spec fn disposition_filename(disposition: Seq<char>) -> Option<Seq<char>> {
    match find_str(disposition, "filename="@) {
        Some(at) => {
            let rest = disposition.skip(at + "filename="@.len());
            if rest.len() > 0 && rest[0] == '"' {
                match rest.skip(1).index_of_first('"') {
                    Some(end) => Some(rest.subrange(1, end + 1)),
                    None => None,
                }
            } else if trim(before_char(rest, ';')).len() > 0 {
                Some(trim(before_char(rest, ';')))
            } else {
                None
            }
        },
        None => None,
    }
}

/// A status in 300..=399.
pub open spec fn is_redirection(status: u16) -> bool {
    300 <= status <= 399
}

/// A status in 200..=299.
pub open spec fn is_success(status: u16) -> bool {
    200 <= status <= 299
}

/// What a redirect's target says.
pub open spec fn redirect_extension(response: ProbeResponseView) -> Option<Seq<char>> {
    match response.location {
        Some(target) if is_redirection(response.status) => url_extension(target),
        _ => None,
    }
}

/// What the file name in `Content-Disposition` says, on a successful response.
pub open spec fn disposition_extension(response: ProbeResponseView) -> Option<Seq<char>> {
    match response.content_disposition {
        Some(value) if is_success(response.status) => match disposition_filename(value) {
            Some(name) => from_last_char(name, '.'),
            None => None,
        },
        _ => None,
    }
}

/// What `Content-Type` says, on a successful response: the extension of the
/// media type, which is the value up to its first semicolon, trimmed.
pub open spec fn content_type_extension(response: ProbeResponseView) -> Option<Seq<char>> {
    match response.content_type {
        Some(value) if is_success(response.status) => Some(
            mime_extension(trim(before_char(value, ';'))),
        ),
        _ => None,
    }
}

/// The extension that a probe gives. `None` is a probe that failed.
pub open spec fn inferred_extension(probe: Option<ProbeResponseView>) -> Seq<char> {
    match probe {
        Some(response) => {
            if redirect_extension(response) is Some {
                redirect_extension(response)->0
            } else if disposition_extension(response) is Some {
                disposition_extension(response)->0
            } else if content_type_extension(response) is Some {
                content_type_extension(response)->0
            } else {
                ".bin"@
            }
        },
        None => ".bin"@,
    }
}

/// Where the asset is written: into a directory under the asset's name and
/// the inferred extension, otherwise to the destination itself.
pub open spec fn final_path(
    destination: Seq<char>,
    is_directory: bool,
    asset_id: Seq<char>,
    probe: Option<ProbeResponseView>,
) -> Seq<char> {
    if is_directory {
        join_path(destination, asset_id + inferred_extension(probe))
    } else {
        destination
    }
}

/// A sequence that begins with a dot.
pub open spec fn is_dotted(extension: Seq<char>) -> bool {
    extension.len() > 0 && extension[0] == '.'
}

/// Enough of a media type to tell the listed ones apart: its length and
/// three of its characters.
spec fn mark(mime: Seq<char>) -> (nat, char, char, char) {
    (mime.len(), mime[0], mime[6], if mime.len() > 12 { mime[12] } else { ' ' })
}

/// Every media type has exactly the extension that the table gives it, and
/// every type outside the table has `.bin`.
pub proof fn lemma_mime_table_total(mime: Seq<char>)
    ensures
        mime == "image/png"@ ==> mime_extension(mime) == ".png"@,
        mime == "image/jpeg"@ ==> mime_extension(mime) == ".jpg"@,
        mime == "image/jpg"@ ==> mime_extension(mime) == ".jpg"@,
        mime == "image/gif"@ ==> mime_extension(mime) == ".gif"@,
        mime == "image/webp"@ ==> mime_extension(mime) == ".webp"@,
        mime == "image/bmp"@ ==> mime_extension(mime) == ".bmp"@,
        mime == "image/tiff"@ ==> mime_extension(mime) == ".tiff"@,
        mime == "image/svg+xml"@ ==> mime_extension(mime) == ".svg"@,
        mime == "application/pdf"@ ==> mime_extension(mime) == ".pdf"@,
        mime == "text/plain"@ ==> mime_extension(mime) == ".txt"@,
        mime == "text/html"@ ==> mime_extension(mime) == ".html"@,
        mime == "text/css"@ ==> mime_extension(mime) == ".css"@,
        mime == "text/javascript"@ ==> mime_extension(mime) == ".js"@,
        mime == "application/javascript"@ ==> mime_extension(mime) == ".js"@,
        mime == "application/json"@ ==> mime_extension(mime) == ".json"@,
        mime == "application/xml"@ ==> mime_extension(mime) == ".xml"@,
        mime == "application/zip"@ ==> mime_extension(mime) == ".zip"@,
        mime == "application/gzip"@ ==> mime_extension(mime) == ".gz"@,
        mime == "application/x-tar"@ ==> mime_extension(mime) == ".tar"@,
        mime == "video/mp4"@ ==> mime_extension(mime) == ".mp4"@,
        mime == "video/mpeg"@ ==> mime_extension(mime) == ".mpg"@,
        mime == "video/quicktime"@ ==> mime_extension(mime) == ".mov"@,
        mime == "audio/mpeg"@ ==> mime_extension(mime) == ".mp3"@,
        mime == "audio/wav"@ ==> mime_extension(mime) == ".wav"@,
        mime == "audio/ogg"@ ==> mime_extension(mime) == ".ogg"@,
        !is_listed_mime(mime) ==> mime_extension(mime) == ".bin"@,
{
    assert(mark("image/png"@) == (9nat, 'i', 'p', ' ')) by {
        reveal_strlit("image/png");
    }
    assert(mark("image/jpeg"@) == (10nat, 'i', 'j', ' ')) by {
        reveal_strlit("image/jpeg");
    }
    assert(mark("image/jpg"@) == (9nat, 'i', 'j', ' ')) by {
        reveal_strlit("image/jpg");
    }
    assert(mark("image/gif"@) == (9nat, 'i', 'g', ' ')) by {
        reveal_strlit("image/gif");
    }
    assert(mark("image/webp"@) == (10nat, 'i', 'w', ' ')) by {
        reveal_strlit("image/webp");
    }
    assert(mark("image/bmp"@) == (9nat, 'i', 'b', ' ')) by {
        reveal_strlit("image/bmp");
    }
    assert(mark("image/tiff"@) == (10nat, 'i', 't', ' ')) by {
        reveal_strlit("image/tiff");
    }
    assert(mark("image/svg+xml"@) == (13nat, 'i', 's', 'l')) by {
        reveal_strlit("image/svg+xml");
    }
    assert(mark("application/pdf"@) == (15nat, 'a', 'a', 'p')) by {
        reveal_strlit("application/pdf");
    }
    assert(mark("text/plain"@) == (10nat, 't', 'l', ' ')) by {
        reveal_strlit("text/plain");
    }
    assert(mark("text/html"@) == (9nat, 't', 't', ' ')) by {
        reveal_strlit("text/html");
    }
    assert(mark("text/css"@) == (8nat, 't', 's', ' ')) by {
        reveal_strlit("text/css");
    }
    assert(mark("text/javascript"@) == (15nat, 't', 'a', 'i')) by {
        reveal_strlit("text/javascript");
    }
    assert(mark("application/javascript"@) == (22nat, 'a', 'a', 'j')) by {
        reveal_strlit("application/javascript");
    }
    assert(mark("application/json"@) == (16nat, 'a', 'a', 'j')) by {
        reveal_strlit("application/json");
    }
    assert(mark("application/xml"@) == (15nat, 'a', 'a', 'x')) by {
        reveal_strlit("application/xml");
    }
    assert(mark("application/zip"@) == (15nat, 'a', 'a', 'z')) by {
        reveal_strlit("application/zip");
    }
    assert(mark("application/gzip"@) == (16nat, 'a', 'a', 'g')) by {
        reveal_strlit("application/gzip");
    }
    assert(mark("application/x-tar"@) == (17nat, 'a', 'a', 'x')) by {
        reveal_strlit("application/x-tar");
    }
    assert(mark("video/mp4"@) == (9nat, 'v', 'm', ' ')) by {
        reveal_strlit("video/mp4");
    }
    assert(mark("video/mpeg"@) == (10nat, 'v', 'm', ' ')) by {
        reveal_strlit("video/mpeg");
    }
    assert(mark("video/quicktime"@) == (15nat, 'v', 'q', 'i')) by {
        reveal_strlit("video/quicktime");
    }
    assert(mark("audio/mpeg"@) == (10nat, 'a', 'm', ' ')) by {
        reveal_strlit("audio/mpeg");
    }
    assert(mark("audio/wav"@) == (9nat, 'a', 'w', ' ')) by {
        reveal_strlit("audio/wav");
    }
    assert(mark("audio/ogg"@) == (9nat, 'a', 'o', ' ')) by {
        reveal_strlit("audio/ogg");
    }
}

/// Every extension of the table begins with a dot.
pub proof fn lemma_mime_extension_dotted(mime: Seq<char>)
    ensures
        is_dotted(mime_extension(mime)),
{
    reveal_strlit(".png");
    reveal_strlit(".jpg");
    reveal_strlit(".gif");
    reveal_strlit(".webp");
    reveal_strlit(".bmp");
    reveal_strlit(".tiff");
    reveal_strlit(".svg");
    reveal_strlit(".pdf");
    reveal_strlit(".txt");
    reveal_strlit(".html");
    reveal_strlit(".css");
    reveal_strlit(".js");
    reveal_strlit(".json");
    reveal_strlit(".xml");
    reveal_strlit(".zip");
    reveal_strlit(".gz");
    reveal_strlit(".tar");
    reveal_strlit(".mp4");
    reveal_strlit(".mpg");
    reveal_strlit(".mov");
    reveal_strlit(".mp3");
    reveal_strlit(".wav");
    reveal_strlit(".ogg");
    reveal_strlit(".bin");
}

/// What stands from the last dot on begins with a dot.
pub proof fn lemma_from_last_dot_dotted(name: Seq<char>)
    ensures
        from_last_char(name, '.') matches Some(extension) ==> is_dotted(extension),
{
    name.index_of_last_ensures('.');
}

/// An inferred extension always begins with a dot.
pub proof fn lemma_inferred_extension_dotted(probe: Option<ProbeResponseView>)
    ensures
        is_dotted(inferred_extension(probe)),
{
    reveal_strlit(".bin");
    match probe {
        Some(response) => {
            match response.location {
                Some(target) => {
                    let path = before_char(target, '?');
                    match path.index_of_last('/') {
                        Some(slash) => {
                            lemma_from_last_dot_dotted(path.skip(slash + 1));
                        },
                        None => {},
                    }
                },
                None => {},
            }
            match response.content_disposition {
                Some(value) => {
                    match disposition_filename(value) {
                        Some(name) => {
                            lemma_from_last_dot_dotted(name);
                        },
                        None => {},
                    }
                },
                None => {},
            }
            match response.content_type {
                Some(value) => {
                    lemma_mime_extension_dotted(trim(before_char(value, ';')));
                },
                None => {},
            }
        },
        None => {},
    }
}

/// The query string of a redirect's target has no part in the extension:
/// whatever follows the first `?` can be replaced or left out.
pub proof fn lemma_query_ignored(path: Seq<char>, query: Seq<char>)
    requires
        !path.contains('?'),
    ensures
        url_extension(path + seq!['?'] + query) == url_extension(path),
{
    let url = path + seq!['?'] + query;
    path.index_of_first_ensures('?');
    assert forall|j: int| 0 <= j < path.len() implies url[j] != '?' by {
        assert(url[j] == path[j]);
        assert(path.contains(path[j]));
    }
    crate::text::lemma_index_of_first_unique(url, '?', path.len() as int);
    assert(url.take(path.len() as int) =~= path);
}

/// A target whose last path segment holds no dot gives no extension.
pub proof fn lemma_no_dot_no_extension(url: Seq<char>)
    requires
        before_char(url, '?').index_of_last('/') matches Some(slash) && !before_char(
            url,
            '?',
        ).skip(slash + 1).contains('.'),
    ensures
        url_extension(url) is None,
{
    let path = before_char(url, '?');
    let slash = path.index_of_last('/')->0;
    path.skip(slash + 1).index_of_last_ensures('.');
}

impl AssetDownloader {
    /// The extension for a media type; `.bin` for every type that is not listed.
    pub fn get_extension_from_mime_type(&self, mime_type: &str) -> (extension: &'static str)
        ensures
            extension@ == mime_extension(mime_type@),
            is_dotted(extension@),
    {
        proof {
            lemma_mime_extension_dotted(mime_type@);
        }
        let owned = to_chars(mime_type);
        let mime = owned.as_slice();
        if chars_eq_str(mime, "image/png") {
            ".png"
        } else if chars_eq_str(mime, "image/jpeg") {
            ".jpg"
        } else if chars_eq_str(mime, "image/jpg") {
            ".jpg"
        } else if chars_eq_str(mime, "image/gif") {
            ".gif"
        } else if chars_eq_str(mime, "image/webp") {
            ".webp"
        } else if chars_eq_str(mime, "image/bmp") {
            ".bmp"
        } else if chars_eq_str(mime, "image/tiff") {
            ".tiff"
        } else if chars_eq_str(mime, "image/svg+xml") {
            ".svg"
        } else if chars_eq_str(mime, "application/pdf") {
            ".pdf"
        } else if chars_eq_str(mime, "text/plain") {
            ".txt"
        } else if chars_eq_str(mime, "text/html") {
            ".html"
        } else if chars_eq_str(mime, "text/css") {
            ".css"
        } else if chars_eq_str(mime, "text/javascript") {
            ".js"
        } else if chars_eq_str(mime, "application/javascript") {
            ".js"
        } else if chars_eq_str(mime, "application/json") {
            ".json"
        } else if chars_eq_str(mime, "application/xml") {
            ".xml"
        } else if chars_eq_str(mime, "application/zip") {
            ".zip"
        } else if chars_eq_str(mime, "application/gzip") {
            ".gz"
        } else if chars_eq_str(mime, "application/x-tar") {
            ".tar"
        } else if chars_eq_str(mime, "video/mp4") {
            ".mp4"
        } else if chars_eq_str(mime, "video/mpeg") {
            ".mpg"
        } else if chars_eq_str(mime, "video/quicktime") {
            ".mov"
        } else if chars_eq_str(mime, "audio/mpeg") {
            ".mp3"
        } else if chars_eq_str(mime, "audio/wav") {
            ".wav"
        } else if chars_eq_str(mime, "audio/ogg") {
            ".ogg"
        } else {
            ".bin"
        }
    }

    /// The extension in a URL: what follows the last dot of the last path
    /// segment, the dot included. The query string is not looked at.
    pub fn extract_extension_from_url(&self, url: &str) -> (extension: Option<String>)
        ensures
            text_option_view(extension) == url_extension(url@),
            extension matches Some(found) ==> is_dotted(found@),
    {
        let owned = to_chars(url);
        let all = owned.as_slice();
        let end: usize = match find_char(all, '?') {
            Some(mark) => mark,
            None => all.len(),
        };
        proof {
            all@.index_of_first_ensures('?');
        }
        let path = slice_subrange(all, 0, end);
        assert(path@ =~= before_char(url@, '?'));
        proof {
            path@.index_of_last_ensures('/');
        }
        match rfind_char(path, '/') {
            Some(slash) => {
                let name = slice_subrange(path, slash + 1, end);
                assert(name@ =~= path@.skip(slash + 1));
                proof {
                    name@.index_of_last_ensures('.');
                }
                match rfind_char(name, '.') {
                    Some(dot) => {
                        let from: usize = slash + 1 + dot;
                        assert(url@.subrange(from as int, end as int) =~= name@.skip(dot as int));
                        Some(String::from_str(url.substring_char(from, end)))
                    },
                    None => None,
                }
            },
            None => None,
        }
    }

    /// The file name in a `Content-Disposition` value, quoted or not.
    pub fn extract_filename_from_disposition(&self, disposition: &str) -> (name: Option<String>)
        ensures
            text_option_view(name) == disposition_filename(disposition@),
    {
        let owned = to_chars(disposition);
        let all = owned.as_slice();
        let key = to_chars("filename=");
        let n: usize = all.len();
        match find_chars(all, key.as_slice()) {
            Some(at) => {
                let start: usize = at + key.len();
                let rest = slice_subrange(all, start, n);
                assert(rest@ =~= disposition@.skip(at + "filename="@.len()));
                if rest.len() > 0 && rest[0] == '"' {
                    let quoted = slice_subrange(rest, 1, rest.len());
                    assert(quoted@ =~= rest@.skip(1));
                    proof {
                        quoted@.index_of_first_ensures('"');
                    }
                    match find_char(quoted, '"') {
                        Some(end) => {
                            assert(disposition@.subrange(start + 1, start + 1 + end)
                                =~= rest@.subrange(1, end + 1));
                            Some(
                                String::from_str(
                                    disposition.substring_char(start + 1, start + 1 + end),
                                ),
                            )
                        },
                        None => None,
                    }
                } else {
                    proof {
                        rest@.index_of_first_ensures(';');
                    }
                    let stop: usize = match find_char(rest, ';') {
                        Some(mark) => mark,
                        None => rest.len(),
                    };
                    let token = slice_subrange(rest, 0, stop);
                    assert(token@ =~= before_char(rest@, ';'));
                    let (lo, hi) = trim_bounds(token);
                    if lo == hi {
                        None
                    } else {
                        assert(disposition@.subrange(start + lo, start + hi) =~= token@.subrange(
                            lo as int,
                            hi as int,
                        ));
                        Some(String::from_str(disposition.substring_char(start + lo, start + hi)))
                    }
                }
            },
            None => None,
        }
    }

    /// The media type of a `Content-Type` value, and its extension.
    fn content_type_to_extension(&self, value: &str) -> (extension: &'static str)
        ensures
            extension@ == mime_extension(trim(before_char(value@, ';'))),
    {
        let owned = to_chars(value);
        let all = owned.as_slice();
        proof {
            all@.index_of_first_ensures(';');
        }
        let stop: usize = match find_char(all, ';') {
            Some(mark) => mark,
            None => all.len(),
        };
        let head = slice_subrange(all, 0, stop);
        assert(head@ =~= before_char(value@, ';'));
        let (lo, hi) = trim_bounds(head);
        assert(value@.subrange(lo as int, hi as int) =~= head@.subrange(lo as int, hi as int));
        self.get_extension_from_mime_type(value.substring_char(lo, hi))
    }

    /// The extension that a probe gives. `None` is a probe that failed, which
    /// never fails the download: the extension is then `.bin`.
    pub fn infer_extension(&self, probe: Option<&ProbeResponse>) -> (extension: String)
        ensures
            extension@ == inferred_extension(probe_view(probe)),
            is_dotted(extension@),
    {
        proof {
            lemma_inferred_extension_dotted(probe_view(probe));
        }
        let response = match probe {
            Some(response) => response,
            None => {
                return String::from_str(".bin");
            },
        };
        if 300 <= response.status && response.status <= 399 {
            match &response.location {
                Some(target) => {
                    match self.extract_extension_from_url(target.as_str()) {
                        Some(found) => {
                            return found;
                        },
                        None => {},
                    }
                },
                None => {},
            }
        }
        if 200 <= response.status && response.status <= 299 {
            match &response.content_disposition {
                Some(value) => {
                    match self.extract_filename_from_disposition(value.as_str()) {
                        Some(name) => {
                            let owned = to_chars(name.as_str());
                            proof {
                                owned@.index_of_last_ensures('.');
                            }
                            match rfind_char(owned.as_slice(), '.') {
                                Some(dot) => {
                                    assert(name@.subrange(dot as int, owned@.len() as int)
                                        =~= name@.skip(dot as int));
                                    return String::from_str(
                                        name.as_str().substring_char(dot, owned.len()),
                                    );
                                },
                                None => {},
                            }
                        },
                        None => {},
                    }
                },
                None => {},
            }
            match &response.content_type {
                Some(value) => {
                    return String::from_str(self.content_type_to_extension(value.as_str()));
                },
                None => {},
            }
        }
        String::from_str(".bin")
    }

    /// Where the asset is written: into a directory under the asset's name
    /// and the inferred extension, otherwise to the destination itself. The
    /// probe is read only for a directory.
    pub fn resolve_final_path(
        &self,
        destination: &str,
        is_directory: bool,
        asset_id: &str,
        probe: Option<&ProbeResponse>,
    ) -> (path: String)
        ensures
            path@ == final_path(destination@, is_directory, asset_id@, probe_view(probe)),
    {
        if is_directory {
            let extension = self.infer_extension(probe);
            let name = String::from_str(asset_id).concat(extension.as_str());
            join_paths(destination, name.as_str())
        } else {
            String::from_str(destination)
        }
    }
}

} // verus!
