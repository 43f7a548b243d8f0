//! Servable files: content with its content type, fingerprint and busting
//! mode, and the responses they give.

use crate::cachebust::busted_query_url;
use crate::etag::{compute_etag_nonconst, etag_spec, etag_str, unquoted};
use crate::magic::{detect_mime_type, mime_spec};
use crate::negotiate::{
    base_headers, headers_view, negotiate, respond_guard, response_headers, CacheBusting,
    HeaderName, Request, Response,
};
use crate::text::{append_bytes, opt_bytes_view};
use vstd::prelude::*;
use vstd::slice::slice_to_vec;
use vstd::string::*;
use vstd::utf8::*;

verus! {

/// The content type given to a file whose type cannot be told.
pub open spec fn default_mime() -> Seq<char> {
    "application/octet-data"@
}

/// A file that can be served: read access to its content, content type,
/// fingerprint and busting mode.
pub trait HttpFile {
    /// The bytes of the content type.
    spec fn content_type_bytes(&self) -> Seq<u8>;

    /// The bytes of the fingerprint, quotes included.
    spec fn etag_bytes(&self) -> Seq<u8>;

    /// The content.
    spec fn data_bytes(&self) -> Seq<u8>;

    /// The busting mode.
    spec fn busting(&self) -> CacheBusting;

    /// Returns the content type of the file.
    fn content_type(&self) -> (r: &str)
        ensures
            r.spec_bytes() == self.content_type_bytes(),
    ;

    /// Returns the content of the file.
    fn data(&self) -> (r: &[u8])
        ensures
            r@ == self.data_bytes(),
    ;

    /// Returns the fingerprint of the file, quotes included.
    fn etag(&self) -> (r: &str)
        ensures
            r.spec_bytes() == self.etag_bytes(),
    ;

    /// Returns the fingerprint without quotes.
    fn etag_str(&self) -> (r: &str)
        ensures
            r.spec_bytes() == unquoted(self.etag_bytes()),
    {
        etag_str(self.etag())
    }

    /// Returns the busting mode.
    fn cache_busting(&self) -> (r: &CacheBusting)
        ensures
            *r == self.busting(),
    ;

    /// Takes the content out of the file.
    fn into_data(self) -> (r: Vec<u8>) where Self: Sized
        ensures
            r@ == self.data_bytes(),
    ;

    /// Copies the content of the file.
    fn clone_data(&self) -> (r: Vec<u8>)
        ensures
            r@ == self.data_bytes(),
    ;
}

/// The body that goes with a response: the content where the response asks
/// for it, else nothing.
pub open spec fn body_bytes(body: bool, data: Seq<u8>) -> Seq<u8> {
    if body {
        data
    } else {
        Seq::empty()
    }
}

/// The responses that a servable file gives.
pub trait HttpFileResponse: HttpFile + Sized {
    /// Decides the response to `request`; the body is not attached.
    fn respond_guard(&self, request: &Request) -> (response: Response)
        ensures
            response@ == negotiate(
                request.method,
                request.path@,
                opt_bytes_view(request.query),
                opt_bytes_view(request.if_none_match),
                self.content_type_bytes(),
                self.etag_bytes(),
                self.busting(),
            ),
    {
        respond_guard(
            request,
            self.content_type().as_bytes(),
            self.etag().as_bytes(),
            self.cache_busting(),
        )
    }

    /// Responds to `request`, giving the content away as the body.
    fn respond(self, request: &Request) -> (res: (Response, Vec<u8>))
        ensures
            res.0@ == negotiate(
                request.method,
                request.path@,
                opt_bytes_view(request.query),
                opt_bytes_view(request.if_none_match),
                self.content_type_bytes(),
                self.etag_bytes(),
                self.busting(),
            ),
            res.1@ == body_bytes(res.0.body, self.data_bytes()),
    {
        let response = self.respond_guard(request);
        let body = if response.body {
            self.into_data()
        } else {
            Vec::new()
        };
        (response, body)
    }

    /// Responds to `request` with a copy of the content as the body.
    fn respond_borrowed(&self, request: &Request) -> (res: (Response, Vec<u8>))
        ensures
            res.0@ == negotiate(
                request.method,
                request.path@,
                opt_bytes_view(request.query),
                opt_bytes_view(request.if_none_match),
                self.content_type_bytes(),
                self.etag_bytes(),
                self.busting(),
            ),
            res.1@ == body_bytes(res.0.body, self.data_bytes()),
    {
        let response = self.respond_guard(request);
        let body = if response.body {
            self.clone_data()
        } else {
            Vec::new()
        };
        (response, body)
    }

    /// The headers that describe the file.
    fn response_headers(&self) -> (headers: Vec<(HeaderName, Vec<u8>)>)
        ensures
            headers_view(headers@) == base_headers(
                self.content_type_bytes(),
                self.etag_bytes(),
                self.busting(),
            ),
    {
        response_headers(
            self.content_type().as_bytes(),
            self.etag().as_bytes(),
            self.cache_busting(),
        )
    }

    /// The response that serves the file whatever was asked: 200, the headers
    /// that describe it, and the content.
    fn into_response(self) -> (res: (Response, Vec<u8>))
        ensures
            res.0.status == 200,
            res.0.body,
            headers_view(res.0.headers@) == base_headers(
                self.content_type_bytes(),
                self.etag_bytes(),
                self.busting(),
            ),
            res.1@ == self.data_bytes(),
    {
        let headers = self.response_headers();
        (Response { status: 200, headers, body: true }, self.into_data())
    }
}

/// A file whose parts live for the whole run of the program.
#[derive(Clone, Copy, Debug, PartialEq, Eq)]
pub struct ConstHttpFile {
    pub file: Option<&'static str>,
    pub data: &'static [u8],
    pub mime: &'static str,
    pub etag: &'static str,
}

impl ConstHttpFile {
    /// Creates a file with a name.
    pub fn new_named(
        data: &'static [u8],
        mime: &'static str,
        etag: &'static str,
        file: &'static str,
    ) -> (res: ConstHttpFile)
        ensures
            res == (ConstHttpFile { file: Some(file), data, mime, etag }),
    {
        ConstHttpFile { file: Some(file), data, mime, etag }
    }

    /// Creates a file without a name.
    pub fn new(data: &'static [u8], mime: &'static str, etag: &'static str) -> (res:
        ConstHttpFile)
        ensures
            res == (ConstHttpFile { file: None, data, mime, etag }),
    {
        ConstHttpFile { file: None, data, mime, etag }
    }

    /// Returns the fingerprint without quotes.
    pub fn const_etag_str(&self) -> (r: &'static str)
        ensures
            r.spec_bytes() == unquoted(self.etag.spec_bytes()),
    {
        etag_str(self.etag)
    }
}

impl Default for ConstHttpFile {
    fn default() -> (res: ConstHttpFile)
        ensures
            res.file is None,
            res.data@.len() == 0,
            res.mime@ == default_mime(),
            res.etag@ == ""@,
    {
        let data: &'static [u8] = &[];
        ConstHttpFile { file: None, data, mime: "application/octet-data", etag: "" }
    }
}

impl HttpFile for ConstHttpFile {
    open spec fn content_type_bytes(&self) -> Seq<u8> {
        self.mime.spec_bytes()
    }

    open spec fn etag_bytes(&self) -> Seq<u8> {
        self.etag.spec_bytes()
    }

    open spec fn data_bytes(&self) -> Seq<u8> {
        self.data@
    }

    open spec fn busting(&self) -> CacheBusting {
        CacheBusting::Disabled
    }

    fn content_type(&self) -> (r: &str) {
        self.mime
    }

    fn data(&self) -> (r: &[u8]) {
        self.data
    }

    fn etag(&self) -> (r: &str) {
        self.etag
    }

    fn cache_busting(&self) -> (r: &CacheBusting) {
        &CacheBusting::Disabled
    }

    fn into_data(self) -> (r: Vec<u8>) {
        slice_to_vec(self.data)
    }

    fn clone_data(&self) -> (r: Vec<u8>) {
        slice_to_vec(self.data)
    }
}

impl HttpFileResponse for ConstHttpFile {

}

/// A file that owns its parts.
#[derive(Clone, Debug, PartialEq, Eq)]
pub struct SharedHttpFile {
    pub file: Option<String>,
    pub data: Vec<u8>,
    pub mime: String,
    pub etag: String,
}

impl SharedHttpFile {
    /// Creates a file with a name.
    pub fn new_named(data: Vec<u8>, mime: String, etag: String, file: String) -> (res:
        SharedHttpFile)
        ensures
            res == (SharedHttpFile { file: Some(file), data, mime, etag }),
    {
        SharedHttpFile { file: Some(file), data, mime, etag }
    }

    /// Creates a file without a name.
    pub fn new(data: Vec<u8>, mime: String, etag: String) -> (res: SharedHttpFile)
        ensures
            res == (SharedHttpFile { file: None, data, mime, etag }),
    {
        SharedHttpFile { file: None, data, mime, etag }
    }

    /// Returns the fingerprint without quotes.
    pub fn const_etag_str(&self) -> (r: &str)
        ensures
            r.spec_bytes() == unquoted(encode_utf8(self.etag@)),
    {
        etag_str(self.etag.as_str())
    }
}

impl Default for SharedHttpFile {
    fn default() -> (res: SharedHttpFile)
        ensures
            res.file is None,
            res.data@.len() == 0,
            res.mime@ == default_mime(),
            res.etag@.len() == 0,
    {
        SharedHttpFile {
            file: None,
            data: Vec::new(),
            mime: String::from_str("application/octet-data"),
            etag: String::new(),
        }
    }
}

impl HttpFile for SharedHttpFile {
    open spec fn content_type_bytes(&self) -> Seq<u8> {
        encode_utf8(self.mime@)
    }

    open spec fn etag_bytes(&self) -> Seq<u8> {
        encode_utf8(self.etag@)
    }

    open spec fn data_bytes(&self) -> Seq<u8> {
        self.data@
    }

    open spec fn busting(&self) -> CacheBusting {
        CacheBusting::Disabled
    }

    fn content_type(&self) -> (r: &str) {
        self.mime.as_str()
    }

    fn data(&self) -> (r: &[u8]) {
        self.data.as_slice()
    }

    fn etag(&self) -> (r: &str) {
        self.etag.as_str()
    }

    fn cache_busting(&self) -> (r: &CacheBusting) {
        &CacheBusting::Disabled
    }

    fn into_data(self) -> (r: Vec<u8>) {
        self.data
    }

    fn clone_data(&self) -> (r: Vec<u8>) {
        slice_to_vec(self.data.as_slice())
    }
}

impl HttpFileResponse for SharedHttpFile {

}

/// A file loaded from storage: it has a path, and its fingerprint is that of
/// its content.
#[derive(Clone, Debug, PartialEq, Eq)]
pub struct StdHttpFile {
    pub file: String,
    pub data: Vec<u8>,
    pub mime: String,
    pub etag: String,
}

impl StdHttpFile {
    /// Creates a file from all its parts.
    pub fn new_with_mime_data_etag(file: String, mime: String, data: Vec<u8>, etag: String) -> (res:
        StdHttpFile)
        ensures
            res == (StdHttpFile { file, data, mime, etag }),
    {
        StdHttpFile { file, data, mime, etag }
    }

    /// Creates a file from its path, content type and content; the
    /// fingerprint is computed from the content.
    pub fn new_with_mime_data(file: String, mime: String, data: Vec<u8>) -> (res: StdHttpFile)
        ensures
            res.file == file,
            res.mime == mime,
            res.data == data,
            encode_utf8(res.etag@) == etag_spec(data@),
    {
        let etag = compute_etag_nonconst(data.as_slice());
        StdHttpFile { file, data, mime, etag }
    }

    /// Creates a file from its path and content. The content type is detected
    /// from both, and is `application/octet-data` where nothing tells; the
    /// fingerprint is computed from the content.
    pub fn new_with_data(file: String, data: Vec<u8>) -> (res: StdHttpFile)
        ensures
            res.file == file,
            res.data == data,
            res.mime@ == match mime_spec(encode_utf8(file@), data@) {
                Some(mime) => mime,
                None => default_mime(),
            },
            encode_utf8(res.etag@) == etag_spec(data@),
    {
        let mime = match detect_mime_type(file.as_str(), data.as_slice()) {
            Some(mime) => mime,
            None => "application/octet-data",
        };
        let etag = compute_etag_nonconst(data.as_slice());
        StdHttpFile { file, data, mime: String::from_str(mime), etag }
    }
}

impl HttpFile for StdHttpFile {
    open spec fn content_type_bytes(&self) -> Seq<u8> {
        encode_utf8(self.mime@)
    }

    open spec fn etag_bytes(&self) -> Seq<u8> {
        encode_utf8(self.etag@)
    }

    open spec fn data_bytes(&self) -> Seq<u8> {
        self.data@
    }

    open spec fn busting(&self) -> CacheBusting {
        CacheBusting::Disabled
    }

    fn content_type(&self) -> (r: &str) {
        self.mime.as_str()
    }

    fn data(&self) -> (r: &[u8]) {
        self.data.as_slice()
    }

    fn etag(&self) -> (r: &str) {
        self.etag.as_str()
    }

    fn cache_busting(&self) -> (r: &CacheBusting) {
        &CacheBusting::Disabled
    }

    fn into_data(self) -> (r: Vec<u8>) {
        self.data
    }

    fn clone_data(&self) -> (r: Vec<u8>) {
        slice_to_vec(self.data.as_slice())
    }
}

impl HttpFileResponse for StdHttpFile {

}

/// A file loaded from storage by an asynchronous runtime. It is a loaded
/// file in all but the way it was read.
#[derive(Clone, Debug, PartialEq, Eq)]
pub struct TokioHttpFile {
    inner: StdHttpFile,
}

impl StdHttpFile {
    /// Gives the file up as one loaded by an asynchronous runtime.
    pub fn into_tokio_file(self) -> (res: TokioHttpFile)
        ensures
            res.std_file() == self,
    {
        TokioHttpFile { inner: self }
    }
}

impl TokioHttpFile {
    /// The loaded file that this is.
    pub closed spec fn std_file(&self) -> StdHttpFile {
        self.inner
    }

    /// Creates a file from all its parts.
    pub fn new_with_mime_data_etag(file: String, mime: String, data: Vec<u8>, etag: String) -> (res:
        TokioHttpFile)
        ensures
            res.std_file() == (StdHttpFile { file, data, mime, etag }),
    {
        StdHttpFile::new_with_mime_data_etag(file, mime, data, etag).into_tokio_file()
    }

    /// Creates a file from its path, content type and content; the
    /// fingerprint is computed from the content.
    pub fn new_with_mime_data(file: String, mime: String, data: Vec<u8>) -> (res: TokioHttpFile)
        ensures
            res.std_file().file == file,
            res.std_file().mime == mime,
            res.std_file().data == data,
            encode_utf8(res.std_file().etag@) == etag_spec(data@),
    {
        StdHttpFile::new_with_mime_data(file, mime, data).into_tokio_file()
    }

    /// Creates a file from its path and content. The content type is detected
    /// from both, and is `application/octet-data` where nothing tells; the
    /// fingerprint is computed from the content.
    pub fn new_with_data(file: String, data: Vec<u8>) -> (res: TokioHttpFile)
        ensures
            res.std_file().file == file,
            res.std_file().data == data,
            res.std_file().mime@ == match mime_spec(encode_utf8(file@), data@) {
                Some(mime) => mime,
                None => default_mime(),
            },
            encode_utf8(res.std_file().etag@) == etag_spec(data@),
    {
        StdHttpFile::new_with_data(file, data).into_tokio_file()
    }

    /// Gives the file up as a loaded file.
    pub fn into_std_file(self) -> (res: StdHttpFile)
        ensures
            res == self.std_file(),
    {
        self.inner
    }
}

impl HttpFile for TokioHttpFile {
    open spec fn content_type_bytes(&self) -> Seq<u8> {
        self.std_file().content_type_bytes()
    }

    open spec fn etag_bytes(&self) -> Seq<u8> {
        self.std_file().etag_bytes()
    }

    open spec fn data_bytes(&self) -> Seq<u8> {
        self.std_file().data_bytes()
    }

    open spec fn busting(&self) -> CacheBusting {
        CacheBusting::Disabled
    }

    fn content_type(&self) -> (r: &str) {
        self.inner.mime.as_str()
    }

    fn data(&self) -> (r: &[u8]) {
        self.inner.data.as_slice()
    }

    fn etag(&self) -> (r: &str) {
        self.inner.etag.as_str()
    }

    fn cache_busting(&self) -> (r: &CacheBusting) {
        &CacheBusting::Disabled
    }

    fn into_data(self) -> (r: Vec<u8>) {
        self.inner.data
    }

    fn clone_data(&self) -> (r: Vec<u8>) {
        slice_to_vec(self.inner.data.as_slice())
    }
}

impl HttpFileResponse for TokioHttpFile {

}

/// A file served under query busting, with the URL that names its
/// fingerprint.
pub struct QueryCacheBustedHttpFile<T> {
    url: Vec<u8>,
    cbust: CacheBusting,
    inner: T,
}

impl<T: HttpFile> QueryCacheBustedHttpFile<T> {
    /// The URL of the file.
    pub closed spec fn url_bytes(&self) -> Seq<u8> {
        self.url@
    }

    /// The file that is served.
    pub closed spec fn inner_file(&self) -> T {
        self.inner
    }

    /// The busting mode of the file.
    pub closed spec fn mode(&self) -> CacheBusting {
        self.cbust
    }

    /// Wraps `inner` with a URL made beforehand. The URL is expected to give
    /// the query parameter `query_var` the fingerprint of `inner`, unquoted.
    pub fn new_const(url: Vec<u8>, query_var: Vec<u8>, inner: T) -> (res: Self)
        ensures
            res.url_bytes() == url@,
            res.mode() == CacheBusting::Query(query_var),
            res.inner_file() == inner,
            res.busting() == CacheBusting::Query(query_var),
            res.content_type_bytes() == inner.content_type_bytes(),
            res.etag_bytes() == inner.etag_bytes(),
            res.data_bytes() == inner.data_bytes(),
    {
        QueryCacheBustedHttpFile { url, cbust: CacheBusting::Query(query_var), inner }
    }

    /// Wraps `inner` with the URL that gives the query parameter `query_var`
    /// its fingerprint: `file_url`, `?`, the parameter's name, `=`, and the
    /// fingerprint without quotes.
    pub fn new(file_url: &[u8], query_var: Vec<u8>, inner: T) -> (res: Self)
        ensures
            res.url_bytes() == busted_query_url(
                file_url@,
                query_var@,
                unquoted(inner.etag_bytes()),
                Seq::empty(),
            ),
            res.mode() == CacheBusting::Query(query_var),
            res.inner_file() == inner,
            res.busting() == CacheBusting::Query(query_var),
            res.content_type_bytes() == inner.content_type_bytes(),
            res.etag_bytes() == inner.etag_bytes(),
            res.data_bytes() == inner.data_bytes(),
    {
        let mut url: Vec<u8> = Vec::new();
        append_bytes(&mut url, file_url);
        url.push(0x3f);
        append_bytes(&mut url, query_var.as_slice());
        url.push(0x3d);
        append_bytes(&mut url, inner.etag_str().as_bytes());
        proof {
            assert(url@ =~= busted_query_url(
                file_url@,
                query_var@,
                unquoted(inner.etag_bytes()),
                Seq::empty(),
            ));
        }
        QueryCacheBustedHttpFile { url, cbust: CacheBusting::Query(query_var), inner }
    }

    /// The URL that names the fingerprint.
    pub fn url(&self) -> (r: &Vec<u8>)
        ensures
            r@ == self.url_bytes(),
    {
        &self.url
    }
}

impl QueryCacheBustedHttpFile<ConstHttpFile> {
    /// The content type of the file.
    pub fn const_content_type(&self) -> (r: &str)
        ensures
            r == self.inner_file().mime,
    {
        self.inner.mime
    }

    /// The fingerprint of the file, quotes included.
    pub fn const_etag(&self) -> (r: &str)
        ensures
            r == self.inner_file().etag,
    {
        self.inner.etag
    }

    /// The fingerprint of the file without quotes.
    pub fn const_etag_str(&self) -> (r: &str)
        ensures
            r.spec_bytes() == unquoted(self.inner_file().etag.spec_bytes()),
    {
        self.inner.const_etag_str()
    }

    /// The busting mode of the file.
    pub fn const_cache_busting(&self) -> (r: &CacheBusting)
        ensures
            *r == self.mode(),
    {
        &self.cbust
    }

    /// The content of the file.
    pub fn const_data(&self) -> (r: &[u8])
        ensures
            r == self.inner_file().data,
    {
        self.inner.data
    }

    /// A copy of the content of the file.
    pub fn const_clone_data(&self) -> (r: Vec<u8>)
        ensures
            r@ == self.inner_file().data@,
    {
        slice_to_vec(self.inner.data)
    }
}

impl<T: HttpFile> HttpFile for QueryCacheBustedHttpFile<T> {
    open spec fn content_type_bytes(&self) -> Seq<u8> {
        self.inner_file().content_type_bytes()
    }

    open spec fn etag_bytes(&self) -> Seq<u8> {
        self.inner_file().etag_bytes()
    }

    open spec fn data_bytes(&self) -> Seq<u8> {
        self.inner_file().data_bytes()
    }

    open spec fn busting(&self) -> CacheBusting {
        self.mode()
    }

    fn content_type(&self) -> (r: &str) {
        self.inner.content_type()
    }

    fn data(&self) -> (r: &[u8]) {
        self.inner.data()
    }

    fn etag(&self) -> (r: &str) {
        self.inner.etag()
    }

    fn etag_str(&self) -> (r: &str) {
        self.inner.etag_str()
    }

    fn cache_busting(&self) -> (r: &CacheBusting) {
        &self.cbust
    }

    fn into_data(self) -> (r: Vec<u8>) {
        self.inner.into_data()
    }

    fn clone_data(&self) -> (r: Vec<u8>) {
        self.inner.clone_data()
    }
}

impl<T: HttpFile> HttpFileResponse for QueryCacheBustedHttpFile<T> {

}

} // verus!
