//! Response templates, and their resolution into concrete responses.
use vstd::prelude::*;
use vstd::string::StringExecFns;

use crate::json::{json_from_str, json_parsed, json_text, json_to_string};
use crate::params::StringMap;

verus! {

/// The header that names the type of a body.
pub open spec fn content_type_key() -> Seq<char> {
    "Content-Type"@
}

/// The type given to JSON bodies.
pub open spec fn json_media_type() -> Seq<char> {
    "application/json"@
}

/// The headers once a JSON body is set: a `Content-Type` that was set stays.
pub open spec fn with_json_type(h: Map<Seq<char>, Seq<char>>) -> Map<Seq<char>, Seq<char>> {
    if h.contains_key(content_type_key()) {
        h
    } else {
        h.insert(content_type_key(), json_media_type())
    }
}

/// What the engine answers for a matched expectation: its status, headers and body.
pub struct MockResponse {
    pub status_code: u16,
    pub headers: StringMap,
    /// An inline JSON body; it wins over a file.
    pub body: Option<serde_json::Value>,
    /// A file, under the resource directory, whose content is the body.
    pub body_file: Option<String>,
    /// The file's content, once read.
    pub cached_file_content: Option<String>,
    /// The file's content read as JSON, when it is JSON.
    pub cached_json_content: Option<serde_json::Value>,
    /// The generator that computes the response for each call, if any.
    pub conditional_id: Option<String>,
}

impl MockResponse {
    /// The JSON text of the body: the inline value first, then the file read as JSON.
    pub open spec fn json_string_spec(&self) -> Option<Seq<char>> {
        match self.body {
            Some(v) => json_text(v),
            None => match self.cached_json_content {
                Some(v) => json_text(v),
                None => None,
            },
        }
    }

    /// The body sent: its JSON text, else the file's text, else nothing.
    pub open spec fn body_text(&self) -> Seq<char> {
        match self.json_string_spec() {
            Some(t) => t,
            None => match self.cached_file_content {
                Some(c) => c@,
                None => Seq::empty(),
            },
        }
    }

    /// `self` with everything but the status as in a fresh response.
    pub open spec fn is_fresh(&self, status_code: u16) -> bool {
        &&& self.status_code == status_code
        &&& self.headers@ == Map::<Seq<char>, Seq<char>>::empty()
        &&& self.body is None
        &&& self.body_file is None
        &&& self.cached_file_content is None
        &&& self.cached_json_content is None
        &&& self.conditional_id is None
    }

    /// A response with this status and nothing else.
    pub fn new(status_code: u16) -> (r: MockResponse)
        ensures
            r.is_fresh(status_code),
    {
        MockResponse {
            status_code,
            headers: StringMap::new(),
            body: None,
            body_file: None,
            cached_file_content: None,
            cached_json_content: None,
            conditional_id: None,
        }
    }

    /// Adds a header, replacing a value set before under the same name.
    pub fn with_header(self, key: &str, value: &str) -> (r: MockResponse)
        ensures
            r.headers@ == self.headers@.insert(key@, value@),
            r == (MockResponse { headers: r.headers, ..self }),
    {
        let mut r = self;
        r.headers.insert(String::from_str(key), String::from_str(value));
        r
    }

    /// Adds `Content-Type: application/json` unless a `Content-Type` was set.
    pub(crate) fn ensure_content_type(&mut self)
        ensures
            final(self).headers@ == with_json_type(old(self).headers@),
            *final(self) == (MockResponse { headers: final(self).headers, ..*old(self) }),
    {
        let key = String::from_str("Content-Type");
        if !self.headers.contains_key(&key) {
            self.headers.insert(key, String::from_str("application/json"));
        }
    }

    /// Sets an inline JSON body.
    pub fn with_json_body(self, body: serde_json::Value) -> (r: MockResponse)
        ensures
            r.body == Some(body),
            r.headers@ == with_json_type(self.headers@),
            r == (MockResponse { headers: r.headers, body: Some(body), ..self }),
    {
        let mut r = self;
        r.body = Some(body);
        r.ensure_content_type();
        r
    }

    /// Sets the body to the content of a file under the resource directory.
    pub fn with_json_file(self, file_path: &str) -> (r: MockResponse)
        ensures
            r.body_file matches Some(f) && f@ == file_path@,
            r.headers@ == with_json_type(self.headers@),
            r == (MockResponse { headers: r.headers, body_file: r.body_file, ..self }),
    {
        let mut r = self;
        r.body_file = Some(String::from_str(file_path));
        r.ensure_content_type();
        r
    }

    /// Keeps the content of the body file, and its JSON value when it is JSON.
    pub fn cache_file_content(&mut self, content: String)
        ensures
            final(self).cached_file_content == Some(content),
            final(self).cached_json_content == match json_parsed(content@) {
                Some(v) => Some(v),
                None => old(self).cached_json_content,
            },
            *final(self) == (MockResponse {
                cached_file_content: final(self).cached_file_content,
                cached_json_content: final(self).cached_json_content,
                ..*old(self)
            }),
    {
        match json_from_str(content.as_str()) {
            Some(v) => {
                self.cached_json_content = Some(v);
            },
            None => {},
        }
        self.cached_file_content = Some(content);
    }

    /// The JSON text of the body, if it has one.
    pub fn get_json_string(&self) -> (r: Option<String>)
        ensures
            match r {
                Some(t) => self.json_string_spec() == Some(t@),
                None => self.json_string_spec() is None,
            },
    {
        match &self.body {
            Some(v) => json_to_string(v),
            None => match &self.cached_json_content {
                Some(v) => json_to_string(v),
                None => None,
            },
        }
    }

    /// Hands the response over to the generator with this id.
    pub fn with_conditional_id(self, id: String) -> (r: MockResponse)
        ensures
            r == (MockResponse { conditional_id: Some(id), ..self }),
    {
        let mut r = self;
        r.conditional_id = Some(id);
        r
    }
}

impl Default for MockResponse {
    fn default() -> (r: MockResponse)
        ensures
            r.is_fresh(200),
    {
        MockResponse::new(200)
    }
}

/// A response ready to send.
pub struct ConcreteResponse {
    pub status_code: u16,
    pub headers: StringMap,
    pub body: String,
}

/// A body file that could not be read.
pub struct ResourceReadError {
    pub file_name: String,
    pub cause: String,
}

/// `c` is what the template `t` sends: its status, its headers as they are, and its body.
pub open spec fn renders(c: ConcreteResponse, t: MockResponse) -> bool {
    &&& c.status_code == t.status_code
    &&& c.headers@ == t.headers@
    &&& c.body@ == t.body_text()
}

/// `t` as it is once the content `c` of its file has been kept.
pub open spec fn with_cached_file(t: MockResponse, c: String) -> MockResponse {
    MockResponse {
        cached_file_content: Some(c),
        cached_json_content: match json_parsed(c@) {
            Some(v) => Some(v),
            None => t.cached_json_content,
        },
        ..t
    }
}

/// Whether resolving `t` reads its body file.
pub open spec fn needs_file(t: MockResponse) -> bool {
    t.body_file is Some && t.cached_file_content is None
}

/// The response that a template sends, once its body file has been read.
pub fn render(response: &MockResponse) -> (r: ConcreteResponse)
    ensures
        renders(r, *response),
{
    let headers = response.headers.copy();
    let body = match response.get_json_string() {
        Some(t) => t,
        None => match &response.cached_file_content {
            Some(c) => c.clone(),
            None => String::new(),
        },
    };
    ConcreteResponse { status_code: response.status_code, headers, body }
}

/// `r` is what resolving the template `before` through `read` gives, and
/// `after` is the template afterwards. A template whose body file is not kept
/// yet has it read: the content is kept and used, and a failed read gives
/// `ResourceReadError` and leaves the template as it was. Any other template
/// is rendered as it is.
pub open spec fn resolves<R: Fn(&String) -> Result<String, String>>(
    read: R,
    before: MockResponse,
    after: MockResponse,
    r: Result<ConcreteResponse, ResourceReadError>,
) -> bool {
    if !needs_file(before) {
        after == before && (r matches Ok(c) && renders(c, before))
    } else {
        exists|out: Result<String, String>|
            #[trigger] read.ensures((&before.body_file->Some_0,), out) && match out {
                Ok(content) => after == with_cached_file(before, content) && (r matches Ok(c)
                    && renders(c, after)),
                Err(cause) => after == before && (r matches Err(e) && e.file_name
                    == before.body_file->Some_0 && e.cause == cause),
            }
    }
}

/// Resolves a template, reading its body file through `read` when its
/// content is not kept yet.
pub fn create_response_from_mock<R: Fn(&String) -> Result<String, String>>(
    response: &mut MockResponse,
    read: &R,
) -> (r: Result<ConcreteResponse, ResourceReadError>)
    requires
        forall|name: &String| read.requires((name,)),
    ensures
        resolves(*read, *old(response), *final(response), r),
{
    if response.cached_file_content.is_none() {
        match &response.body_file {
            Some(name) => {
                let out = read(name);
                match out {
                    Ok(content) => {
                        response.cache_file_content(content);
                    },
                    Err(cause) => {
                        let file_name = name.clone();
                        return Err(ResourceReadError { file_name, cause });
                    },
                }
            },
            None => {},
        }
    }
    Ok(render(response))
}

} // verus!
