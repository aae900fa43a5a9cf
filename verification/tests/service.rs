use pastebin::error::{Error, Status};
use pastebin::id::{decode_id, encode_id, IdError};
use pastebin::memory::{MemoryDb, MemoryError};
use pastebin::mime::ContentType;
use pastebin::paste::{DbInterface, PasteEntry};
use pastebin::pastebin::Pastebin;
use pastebin::read::{ByteStream, IoError, MemoryStream};
use pastebin::request::{Method, Request};
use pastebin::response::{status_of, Page, Response};
use pastebin::time::ExpiryError;
use pastebin::web::new_pastebin;
use std::time::{SystemTime, UNIX_EPOCH};

fn request(method: Method, path: &[&str], query: &[(&str, &str)]) -> Request {
    Request {
        method,
        segments: path.iter().map(|s| s.to_string()).collect(),
        query: query.iter().map(|(k, v)| (k.to_string(), v.to_string())).collect(),
        user_agent: None,
        content_length: None,
        static_asset: false,
    }
}

fn upload(query: &[(&str, &str)], body: &[u8]) -> Request {
    let mut req = request(Method::Post, &[""], query);
    req.content_length = Some(body.len() as u64);
    req
}

fn service(url_prefix: &str) -> Pastebin<MemoryDb> {
    new_pastebin(MemoryDb::new(), url_prefix, 0)
}

fn now() -> i64 {
    SystemTime::now().duration_since(UNIX_EPOCH).unwrap().as_secs() as i64
}

fn no_body() -> MemoryStream {
    MemoryStream::new(Vec::new())
}

/// A storage that fails at every call.
struct BrokenDb;

impl DbInterface for BrokenDb {
    type Error = &'static str;

    fn store_data(
        &mut self,
        _data: Vec<u8>,
        _file_name: Option<String>,
        _mime_type: String,
        _best_before: Option<i64>,
    ) -> Result<u64, Self::Error> {
        Err("store")
    }

    fn load_data(&self, _id: u64) -> Result<Option<PasteEntry>, Self::Error> {
        Err("load")
    }

    fn get_file_name(&self, _id: u64) -> Result<Option<String>, Self::Error> {
        Err("name")
    }

    fn remove_data(&mut self, _id: u64) -> Result<(), Self::Error> {
        Err("remove")
    }

    fn max_data_size(&self) -> usize {
        8
    }
}

/// A stream that counts how often it is read.
struct CountingStream {
    inner: MemoryStream,
    reads: usize,
}

impl ByteStream for CountingStream {
    fn read_chunk(&mut self, max: usize) -> Result<Vec<u8>, IoError> {
        self.reads += 1;
        self.inner.read_chunk(max)
    }
}

#[test]
fn post() {
    let reference = PasteEntry {
        data: b"lol".to_vec(),
        file_name: None,
        mime_type: "text/plain".into(),
        best_before: Some(now()),
    };
    let expires = reference.best_before.unwrap().to_string();
    let url_prefix = "prefix://example.com/";

    let mut web = service(url_prefix);
    let req = upload(&[("expires", &expires)], &reference.data);
    let mut body = MemoryStream::new(reference.data.clone());
    let response = web.handle(&req, &mut body);

    assert!(status_of(&response).is_success());
    let received_text = match response {
        Ok(Response::Created(text)) => text,
        other => panic!("{:?}", other),
    };
    assert!(received_text.starts_with(url_prefix));

    let (_, received_id) = received_text.split_at(url_prefix.len());
    let id = decode_id(received_id.trim()).unwrap();

    let db_entry = web.db.find_data(id).unwrap();
    assert_eq!(db_entry.data, reference.data);
    assert_eq!(db_entry.file_name, reference.file_name);
    assert_eq!(db_entry.mime_type, reference.mime_type);
    assert_eq!(db_entry.best_before, reference.best_before);
}

#[test]
fn get() {
    let reference_data = "Ahaha";

    let mut web = service("");
    let id = web
        .db
        .put_data(reference_data.as_bytes().to_vec(), None, "text/plain".into(), None)
        .unwrap();

    let req = request(Method::Get, &[&encode_id(id)], &[]);
    let response = web.handle(&req, &mut no_body());

    assert!(status_of(&response).is_success(), "{:?}", response);
    let data = match response {
        Ok(Response::Paste { data, .. }) => String::from_utf8(data).unwrap(),
        other => panic!("{:?}", other),
    };
    assert_eq!(reference_data, data);
}

#[test]
fn remove() {
    let reference_data = "Ahaha";

    let mut web = service("");
    let id = web
        .db
        .put_data(reference_data.as_bytes().to_vec(), None, "text/plain".into(), None)
        .unwrap();

    let req = request(Method::Delete, &[&encode_id(id)], &[]);
    let response = web.handle(&req, &mut no_body());

    assert!(status_of(&response).is_success(), "{:?}", response);
    assert!(web.db.find_data(id).is_none());
}

#[test]
fn post_never_expire() {
    let reference = PasteEntry {
        data: b"lol".to_vec(),
        file_name: None,
        mime_type: "text/plain".into(),
        best_before: None,
    };
    let url_prefix = "prefix://example.com/";

    let mut web = service(url_prefix);
    let req = upload(&[("expires", "never")], &reference.data);
    let mut body = MemoryStream::new(reference.data.clone());
    let response = web.handle(&req, &mut body);

    assert!(status_of(&response).is_success());
    let received_text = match response {
        Ok(Response::Created(text)) => text,
        other => panic!("{:?}", other),
    };
    assert!(received_text.starts_with(url_prefix));

    let (_, received_id) = received_text.split_at(url_prefix.len());
    let id = decode_id(received_id.trim()).unwrap();

    let db_entry = web.db.find_data(id).unwrap();
    assert_eq!(db_entry.data, reference.data);
    assert_eq!(db_entry.file_name, reference.file_name);
    assert_eq!(db_entry.mime_type, reference.mime_type);
    assert_eq!(db_entry.best_before, reference.best_before);
}

#[test]
fn post_then_get_gives_the_body_back() {
    let mut web = service("http://paste.example/");
    let req = upload(&[], b"lol");
    let response = web.handle(&req, &mut MemoryStream::new(b"lol".to_vec()));
    assert_eq!(status_of(&response), Status::Created);
    assert_eq!(response, Ok(Response::Created("http://paste.example/AA\n".to_string())));

    let response = web.handle(&request(Method::Get, &["AA"], &[]), &mut no_body());
    assert_eq!(status_of(&response).code(), 200);
    match response {
        Ok(Response::Paste { data, content_type }) => {
            assert_eq!(data, b"lol".to_vec());
            assert_eq!(content_type.value, "text/plain");
        }
        other => panic!("{:?}", other),
    }
}

#[test]
fn put_is_served_as_post() {
    let mut web = service("p/");
    let mut req = upload(&[], b"abc");
    req.method = Method::Put;
    let response = web.handle(&req, &mut MemoryStream::new(b"abc".to_vec()));
    assert_eq!(response, Ok(Response::Created("p/AA\n".to_string())));
    assert_eq!(web.db.find_data(0).unwrap().data, b"abc".to_vec());
}

#[test]
fn post_without_expires_keeps_for_the_default_time() {
    let mut web = new_pastebin(MemoryDb::new(), "p", 3600);
    let before = now();
    let response = web.handle(&upload(&[], b"x"), &mut MemoryStream::new(b"x".to_vec()));
    let after = now();
    assert!(response.is_ok());
    let best_before = web.db.find_data(0).unwrap().best_before.unwrap();
    assert!(before + 3600 <= best_before && best_before <= after + 3600);
}

#[test]
fn ingest_settles_the_expiry_from_the_given_time() {
    let web = new_pastebin(MemoryDb::new(), "p", 60);
    let paste = web.ingest(&upload(&[], b"x"), &mut MemoryStream::new(b"x".to_vec()), 1000);
    assert_eq!(paste.unwrap().best_before, Some(1060));
    let paste = web.ingest(
        &upload(&[("expires", "never")], b"x"),
        &mut MemoryStream::new(b"x".to_vec()),
        1000,
    );
    assert_eq!(paste.unwrap().best_before, None);
    let paste = web.ingest(
        &upload(&[("expires", "77")], b"x"),
        &mut MemoryStream::new(b"x".to_vec()),
        1000,
    );
    assert_eq!(paste.unwrap().best_before, Some(77));
    let paste = web.ingest(
        &upload(&[("expires", "soon")], b"x"),
        &mut MemoryStream::new(b"x".to_vec()),
        1000,
    );
    assert_eq!(paste, Err(Error::Expiry(ExpiryError::Malformed)));
    let late = new_pastebin(MemoryDb::new(), "p", i64::MAX);
    let paste = late.ingest(&upload(&[], b"x"), &mut MemoryStream::new(b"x".to_vec()), 1);
    assert_eq!(paste, Err(Error::Expiry(ExpiryError::OutOfRange)));
}

#[test]
fn post_takes_the_file_name_from_the_path() {
    let mut web = service("p/");
    let mut req = upload(&[], b"fn main() {}");
    req.segments = vec!["main.rs".to_string()];
    let response = web.handle(&req, &mut MemoryStream::new(b"fn main() {}".to_vec()));
    assert!(response.is_ok());
    let stored = web.db.find_data(0).unwrap();
    assert_eq!(stored.file_name, Some("main.rs".to_string()));
    assert_eq!(stored.mime_type, "text/x-rust");
}

#[test]
fn malformed_expires_is_a_bad_request_and_stores_nothing() {
    let mut web = service("p/");
    let response =
        web.handle(&upload(&[("expires", "tomorrow")], b"x"), &mut MemoryStream::new(b"x".to_vec()));
    assert_eq!(response, Err(Error::Expiry(ExpiryError::Malformed)));
    assert_eq!(status_of(&response), Status::BadRequest);
    assert!(web.db.find_data(0).is_none());
}

#[test]
fn announced_too_large_is_refused_unread_and_unstored() {
    let mut web = Pastebin::new(MemoryDb::with_max_data_size(4), "p/".to_string(), 0);
    assert_eq!(web.max_data_size, 4);
    let mut req = upload(&[], b"");
    req.content_length = Some(5);
    let mut body = CountingStream { inner: MemoryStream::new(b"12345".to_vec()), reads: 0 };
    let response = web.handle(&req, &mut body);
    assert_eq!(response, Err(Error::TooBig));
    assert_eq!(status_of(&response).code(), 413);
    assert_eq!(body.reads, 0);
    assert!(web.db.find_data(0).is_none());
}

#[test]
fn unannounced_too_large_is_refused_and_unstored() {
    let mut web = Pastebin::new(MemoryDb::with_max_data_size(4), "p/".to_string(), 0);
    let req = request(Method::Post, &[""], &[]);
    let response = web.handle(&req, &mut MemoryStream::new(b"12345".to_vec()));
    assert_eq!(response, Err(Error::TooBig));
    assert!(web.db.find_data(0).is_none());

    let response = web.handle(&req, &mut MemoryStream::new(b"1234".to_vec()));
    assert_eq!(response, Ok(Response::Created("p/AA\n".to_string())));
    assert_eq!(web.db.find_data(0).unwrap().data, b"1234".to_vec());
}

#[test]
fn short_body_is_an_io_error() {
    let mut web = service("p/");
    let mut req = upload(&[], b"");
    req.content_length = Some(10);
    let response = web.handle(&req, &mut MemoryStream::new(b"123".to_vec()));
    assert_eq!(response, Err(Error::Io(IoError::UnexpectedEof)));
    assert_eq!(status_of(&response), Status::BadRequest);
    assert!(web.db.find_data(0).is_none());
}

#[test]
fn delete_then_get_is_not_found() {
    let mut web = service("p/");
    let id = web.db.put_data(b"x".to_vec(), None, "text/plain".into(), None).unwrap();
    let text = encode_id(id);
    let response = web.handle(&request(Method::Delete, &[&text], &[]), &mut no_body());
    assert_eq!(response, Ok(Response::Removed));
    let response = web.handle(&request(Method::Get, &[&text], &[]), &mut no_body());
    assert_eq!(response, Err(Error::IdNotFound(id)));
    assert_eq!(status_of(&response).code(), 404);
}

#[test]
fn delete_twice_is_no_error() {
    let mut web = service("p/");
    let id = web.db.put_data(b"x".to_vec(), None, "text/plain".into(), None).unwrap();
    let req = request(Method::Delete, &[&encode_id(id)], &[]);
    assert_eq!(web.handle(&req, &mut no_body()), Ok(Response::Removed));
    assert_eq!(web.handle(&req, &mut no_body()), Ok(Response::Removed));
}

#[test]
fn get_of_unknown_id_is_not_found() {
    let mut web = service("p/");
    let response = web.handle(&request(Method::Get, &[&encode_id(41)], &[]), &mut no_body());
    assert_eq!(response, Err(Error::IdNotFound(41)));
    assert_eq!(status_of(&response), Status::NotFound);
}

#[test]
fn get_of_malformed_id_is_a_bad_request() {
    let mut web = service("p/");
    let response = web.handle(&request(Method::Get, &["not an id"], &[]), &mut no_body());
    assert_eq!(response, Err(Error::IdDecode(IdError::Malformed)));
    assert_eq!(status_of(&response).code(), 400);
    let response = web.handle(&request(Method::Get, &["AAAAAAAAAAAA"], &[]), &mut no_body());
    assert_eq!(response, Err(Error::IdDecode(IdError::WrongLength(9))));
}

#[test]
fn delete_without_id_is_a_bad_request() {
    let mut web = service("p/");
    let response = web.handle(&request(Method::Delete, &[""], &[]), &mut no_body());
    assert_eq!(response, Err(Error::NoIdSegment));
    assert_eq!(status_of(&response), Status::BadRequest);
    let response = web.handle(&request(Method::Delete, &["?"], &[]), &mut no_body());
    assert_eq!(response, Err(Error::IdDecode(IdError::Malformed)));
}

#[test]
fn get_without_path_is_the_upload_form() {
    let mut web = service("p/");
    let response = web.handle(&request(Method::Get, &[""], &[]), &mut no_body());
    assert_eq!(response, Ok(Response::Page(Page::Upload)));
    let response = web.handle(&request(Method::Get, &[], &[]), &mut no_body());
    assert_eq!(response, Ok(Response::Page(Page::Upload)));
    assert_eq!(Page::Upload.template_name(), "upload.html");
    assert_eq!(Page::Upload.content_type(), ContentType::html());
}

#[test]
fn get_of_script_and_readme() {
    let mut web = service("http://x//");
    let response = web.handle(&request(Method::Get, &["paste.sh"], &[]), &mut no_body());
    let page = Page::PasteScript { prefix: "http://x/".to_string() };
    assert_eq!(page.template_name(), "paste.sh");
    assert_eq!(page.content_type(), ContentType::plaintext());
    assert_eq!(response, Ok(Response::Page(page)));
    let response = web.handle(&request(Method::Get, &["readme"], &[]), &mut no_body());
    let page = Page::Readme { prefix: "http://x/".to_string() };
    assert_eq!(page.template_name(), "readme.html");
    assert_eq!(response, Ok(Response::Page(page)));
}

#[test]
fn get_of_static_asset() {
    let mut web = service("p/");
    let mut req = request(Method::Get, &["style.css"], &[]);
    req.static_asset = true;
    let response = web.handle(&req, &mut no_body());
    assert_eq!(response, Ok(Response::StaticFile("style.css".to_string())));
    assert_eq!(status_of(&response), Status::Okay);
    let mut req = request(Method::Get, &["readme"], &[]);
    req.static_asset = true;
    let response = web.handle(&req, &mut no_body());
    assert_eq!(response, Ok(Response::Page(Page::Readme { prefix: "p/".to_string() })));
}

#[test]
fn get_redirects_to_the_file_name() {
    let mut web = service("http://paste.example");
    let id = web
        .db
        .put_data(b"x".to_vec(), Some("a b.txt".to_string()), "text/plain".into(), None)
        .unwrap();
    let text = encode_id(id);
    let response = web.handle(&request(Method::Get, &[&text], &[]), &mut no_body());
    assert_eq!(
        response,
        Ok(Response::Redirect(format!("http://paste.example/{}/a%20b.txt", text)))
    );
    assert_eq!(status_of(&response).code(), 301);

    let response = web.handle(&request(Method::Get, &[&text, "a b.txt"], &[]), &mut no_body());
    match response {
        Ok(Response::Paste { data, .. }) => assert_eq!(data, b"x".to_vec()),
        other => panic!("{:?}", other),
    }
}

#[test]
fn redirect_to_what_is_no_url_is_an_error() {
    let mut web = service("prefix://example.com/");
    let id = web
        .db
        .put_data(b"x".to_vec(), Some("a.txt".to_string()), "text/plain".into(), None)
        .unwrap();
    let response = web.handle(&request(Method::Get, &[&encode_id(id)], &[]), &mut no_body());
    assert_eq!(response, Err(Error::Url));
    assert_eq!(status_of(&response), Status::BadRequest);
}

#[test]
fn browsers_get_text_as_a_page() {
    let mut web = service("p/");
    let id = web
        .db
        .put_data(b"<b>1 & 2</b>".to_vec(), None, "text/plain".into(), None)
        .unwrap();
    let mut req = request(Method::Get, &[&encode_id(id)], &[]);
    req.user_agent = Some("Mozilla/5.0 (X11; Linux x86_64) Gecko/20100101 Firefox/115.0".into());
    let response = web.handle(&req, &mut no_body());
    let page = Page::Show {
        id,
        mime: "text&#x2F;plain".to_string(),
        file_name: None,
        data: "&lt;b&gt;1 &amp; 2&lt;&#x2F;b&gt;".to_string(),
    };
    assert_eq!(page.template_name(), "show.html");
    assert_eq!(page.content_type().value, "text/html; charset=utf-8");
    assert_eq!(response, Ok(Response::Page(page)));

    req.user_agent = Some("curl/8.0".into());
    match web.handle(&req, &mut no_body()) {
        Ok(Response::Paste { data, .. }) => assert_eq!(data, b"<b>1 & 2</b>".to_vec()),
        other => panic!("{:?}", other),
    }
}

#[test]
fn browsers_get_binary_as_bytes() {
    let mut web = service("p/");
    let id = web.db.put_data(vec![0, 159, 146, 150], None, "image/png".into(), None).unwrap();
    let mut req = request(Method::Get, &[&encode_id(id)], &[]);
    req.user_agent = Some("Chrome/1".into());
    match web.handle(&req, &mut no_body()) {
        Ok(Response::Paste { data, content_type }) => {
            assert_eq!(data, vec![0, 159, 146, 150]);
            assert_eq!(content_type.value, "image/png");
        }
        other => panic!("{:?}", other),
    }
}

#[test]
fn text_that_is_no_utf8_cannot_be_rendered() {
    let mut web = service("p/");
    let id = web.db.put_data(vec![0xff, 0xfe], None, "text/plain".into(), None).unwrap();
    let mut req = request(Method::Get, &[&encode_id(id)], &[]);
    req.user_agent = Some("Opera/9".into());
    let response = web.handle(&req, &mut no_body());
    assert_eq!(response, Err(Error::TemplateRender));
    assert_eq!(status_of(&response).code(), 500);
}

#[test]
fn unknown_mime_type_is_served_as_plain_text() {
    let mut web = service("p/");
    let id = web.db.put_data(b"x".to_vec(), None, "no mime type".into(), None).unwrap();
    match web.handle(&request(Method::Get, &[&encode_id(id)], &[]), &mut no_body()) {
        Ok(Response::Paste { content_type, .. }) => {
            assert_eq!(content_type, ContentType::plaintext());
        }
        other => panic!("{:?}", other),
    }
}

#[test]
fn other_methods_are_not_allowed() {
    let mut web = service("p/");
    let response = web.handle(&request(Method::Other, &["AA"], &[]), &mut no_body());
    assert_eq!(response, Ok(Response::MethodNotAllowed));
    assert_eq!(status_of(&response).code(), 405);
    assert!(!status_of(&response).is_success());
}

#[test]
fn storage_errors_are_server_errors() {
    let mut web = Pastebin::new(BrokenDb, "p/".to_string(), 0);
    assert_eq!(web.max_data_size, 8);
    let response = web.handle(&request(Method::Get, &["AA"], &[]), &mut no_body());
    assert_eq!(response, Err(Error::Storage("name")));
    assert_eq!(status_of(&response).code(), 500);
    let response = web.handle(&request(Method::Get, &["AA", "f"], &[]), &mut no_body());
    assert_eq!(response, Err(Error::Storage("load")));
    let response = web.handle(&request(Method::Delete, &["AA"], &[]), &mut no_body());
    assert_eq!(response, Err(Error::Storage("remove")));
    let response = web.handle(&upload(&[], b"x"), &mut MemoryStream::new(b"x".to_vec()));
    assert_eq!(response, Err(Error::Storage("store")));
    assert_eq!(status_of(&response), Status::InternalServerError);
}

#[test]
fn memory_errors_are_reported() {
    let failed: Result<Response, Error<MemoryError>> = Err(Error::Storage(MemoryError::Full));
    assert_eq!(status_of(&failed), Status::InternalServerError);
}

#[test]
fn a_full_storage_is_a_server_error() {
    let mut web = Pastebin::new(MemoryDb::starting_at(u64::MAX), "p/".to_string(), 0);
    let response = web.handle(&upload(&[], b"x"), &mut MemoryStream::new(b"x".to_vec()));
    assert_eq!(response, Err(Error::Storage(MemoryError::Full)));
    assert_eq!(status_of(&response).code(), 500);
}

#[test]
fn large_identifiers_come_back_from_the_address() {
    let mut web = Pastebin::new(MemoryDb::starting_at(1 << 40), "p/".to_string(), 0);
    let response = web.handle(&upload(&[], b"x"), &mut MemoryStream::new(b"x".to_vec()));
    let address = match response {
        Ok(Response::Created(address)) => address,
        other => panic!("{:?}", other),
    };
    assert_eq!(address, "p/AQAAAAAA\n");
    assert_eq!(decode_id(address[2..].trim()), Ok(1 << 40));
    match web.handle(&request(Method::Get, &[address[2..].trim()], &[]), &mut no_body()) {
        Ok(Response::Paste { data, .. }) => assert_eq!(data, b"x".to_vec()),
        other => panic!("{:?}", other),
    }
}
