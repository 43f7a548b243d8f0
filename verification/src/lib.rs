//! Content-addressed HTTP caching for immutable static files: fingerprints,
//! content types, cache-busting URLs and conditional responses.

pub mod b64;
pub mod cachebust;
pub mod etag;
pub mod expose;
pub mod files;
pub mod magic;
pub mod mime;
pub mod negotiate;
pub mod query;
pub mod text;
pub mod urldecode;
pub mod urlencode;

pub use b64::b64url_const;
pub use cachebust::{cachebust_suffix, cachebust_uri};
pub use etag::{compute_etag, compute_etag_nonconst, etag_from_hash, etag_str};
pub use expose::{not_hidden, DirWarmup};
pub use files::{
    ConstHttpFile, HttpFile, HttpFileResponse, QueryCacheBustedHttpFile, SharedHttpFile,
    StdHttpFile, TokioHttpFile,
};
pub use magic::{
    detect_mime_type, detect_mime_type_magic, lookup_magic, Magic, MagicLookup, MagicOffset,
    MagicTable,
};
pub use mime::{detect_mime_type_ext, file_ext};
pub use negotiate::{
    respond_guard, response_headers, CacheBusting, HeaderName, Method, Request, Response,
};
pub use query::{parse_query_string_iter_fn, QueryStringIterator};
pub use urldecode::{
    urldecode, urldecode_into, urldecode_iter_fn, urldecode_queue, urldecode_queue_into,
};
pub use urlencode::{
    urlencode, urlencode_into, urlencode_iter_fn, urlencode_queue, urlencode_queue_into,
};
