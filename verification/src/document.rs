//! The portable form of a cache entry: what a dump writes and a restore
//! reads. Bodies are tagged text; the rest is held as in the entry.

use crate::body::decode_spec;
use crate::body::encode_spec;
use crate::body::TaggedBody;
use crate::body::TaggedBodyView;
use crate::cache::is_valid_status;
use crate::cache::valid_entry;
use crate::cache::valid_status;
use crate::cache::CacheConfig;
use crate::cache::CacheObject;
use crate::cache::CacheObjectView;
use crate::cache::CacheReqParts;
use crate::cache::CacheReqPartsView;
use crate::headers::HeaderView;
use crate::headers::Headers;
use crate::transport::headers_accepted;
use crate::transport::headers_are_accepted;
use crate::transport::is_method;
use crate::transport::is_query;
use crate::transport::method_accepted;
use crate::transport::query_accepted;
use vstd::prelude::*;

verus! {

/// The portable form of a captured request.
#[derive(Debug, PartialEq, Eq)]
pub struct RequestDocument {
    pub method: String,
    pub headers: Headers,
    pub query: Option<String>,
    pub path: String,
    pub body: TaggedBody,
}

/// Mathematical model of a [`RequestDocument`].
pub ghost struct RequestDocumentView {
    pub method: Seq<char>,
    pub headers: Seq<HeaderView>,
    pub query: Option<Seq<char>>,
    pub path: Seq<char>,
    pub body: TaggedBodyView,
}

impl View for RequestDocument {
    type V = RequestDocumentView;

    open spec fn view(&self) -> RequestDocumentView {
        RequestDocumentView {
            method: self.method@,
            headers: self.headers@,
            query: match self.query {
                Some(q) => Some(q@),
                None => None,
            },
            path: self.path@,
            body: self.body@,
        }
    }
}

/// The portable form of a cache entry.
#[derive(Debug, PartialEq, Eq)]
pub struct EntryDocument {
    pub request: RequestDocument,
    pub response_body: TaggedBody,
    pub response_headers: Headers,
    pub status_code: u16,
    pub config: CacheConfig,
}

/// Mathematical model of an [`EntryDocument`].
pub ghost struct EntryDocumentView {
    pub request: RequestDocumentView,
    pub response_body: TaggedBodyView,
    pub response_headers: Seq<HeaderView>,
    pub status_code: u16,
    pub config: Seq<Seq<char>>,
}

impl View for EntryDocument {
    type V = EntryDocumentView;

    open spec fn view(&self) -> EntryDocumentView {
        EntryDocumentView {
            request: self.request@,
            response_body: self.response_body@,
            response_headers: self.response_headers@,
            status_code: self.status_code,
            config: self.config@,
        }
    }
}

/// Why a document is refused.
#[derive(Debug, PartialEq, Eq)]
pub enum DocumentError {
    /// The status code, given here, is outside 100 to 599.
    InvalidStatusCode(u16),
    /// The transport does not take the request's method.
    InvalidMethod,
    /// The transport does not take a header's name or value.
    InvalidHeader,
    /// The transport does not take the query behind the path.
    InvalidQuery,
}

/// What is wrong with a document, if anything. The status code is looked
/// at first, then the method, then the headers, then the query.
pub open spec fn document_error(document: EntryDocumentView) -> Option<DocumentError> {
    if !valid_status(document.status_code) {
        Some(DocumentError::InvalidStatusCode(document.status_code))
    } else if !method_accepted(document.request.method) {
        Some(DocumentError::InvalidMethod)
    } else if !headers_accepted(document.request.headers) || !headers_accepted(
        document.response_headers,
    ) {
        Some(DocumentError::InvalidHeader)
    } else if !query_accepted(document.request.path, document.request.query) {
        Some(DocumentError::InvalidQuery)
    } else {
        None
    }
}

/// The document that is written for an entry: both bodies tagged.
pub open spec fn document_of(entry: CacheObjectView) -> EntryDocumentView {
    EntryDocumentView {
        request: RequestDocumentView {
            method: entry.request.method,
            headers: entry.request.headers,
            query: entry.request.query,
            path: entry.request.path,
            body: encode_spec(entry.request.body),
        },
        response_body: encode_spec(entry.response_body),
        response_headers: entry.response_headers,
        status_code: entry.status_code,
        config: entry.config,
    }
}

/// The entry that a document stands for: both bodies decoded.
pub open spec fn entry_of(document: EntryDocumentView) -> CacheObjectView {
    CacheObjectView {
        request: CacheReqPartsView {
            method: document.request.method,
            headers: document.request.headers,
            query: document.request.query,
            path: document.request.path,
            body: decode_spec(document.request.body),
        },
        response_body: decode_spec(document.response_body),
        response_headers: document.response_headers,
        status_code: document.status_code,
        config: document.config,
    }
}

impl CacheObject {
    /// The portable form of this entry. Reading it back gives the entry.
    pub fn to_document(&self) -> (document: EntryDocument)
        ensures
            document@ == document_of(self@),
            entry_of(document@) == self@,
    {
        let query = match &self.request.query {
            Some(q) => Some(q.clone()),
            None => None,
        };
        EntryDocument {
            request: RequestDocument {
                method: self.request.method.clone(),
                headers: self.request.headers.clone(),
                query,
                path: self.request.path.clone(),
                body: TaggedBody::encode(self.request.body.as_slice()),
            },
            response_body: TaggedBody::encode(self.response_body.as_slice()),
            response_headers: self.response_headers.clone(),
            status_code: self.status_code,
            config: self.config.clone(),
        }
    }
}

impl EntryDocument {
    /// The entry this document stands for. A document is refused where
    /// [`document_error`] finds it wrong, and only there; a body whose
    /// base64 text is corrupt is read as the diagnostic payload.
    pub fn to_entry(&self) -> (r: Result<CacheObject, DocumentError>)
        ensures
            match r {
                Ok(entry) => document_error(self@) is None && entry@ == entry_of(self@)
                    && valid_entry(entry@),
                Err(e) => document_error(self@) == Some(e),
            },
    {
        if !is_valid_status(self.status_code) {
            return Err(DocumentError::InvalidStatusCode(self.status_code));
        }
        if !is_method(self.request.method.as_str()) {
            return Err(DocumentError::InvalidMethod);
        }
        if !headers_are_accepted(&self.request.headers) || !headers_are_accepted(
            &self.response_headers,
        ) {
            return Err(DocumentError::InvalidHeader);
        }
        if !is_query(self.request.path.as_str(), &self.request.query) {
            return Err(DocumentError::InvalidQuery);
        }
        let query = match &self.request.query {
            Some(q) => Some(q.clone()),
            None => None,
        };
        Ok(
            CacheObject {
                request: CacheReqParts {
                    method: self.request.method.clone(),
                    headers: self.request.headers.clone(),
                    query,
                    path: self.request.path.clone(),
                    body: self.request.body.decode(),
                },
                response_body: self.response_body.decode(),
                response_headers: self.response_headers.clone(),
                status_code: self.status_code,
                config: self.config.clone(),
            },
        )
    }
}

} // verus!
